//! Procedural generation for a puzzle board: the geometry of a square tiling
//! inscribed in a rotated square field, and a radial-gradient background.
//!
//! The library counts in whole numbers. Lengths are multiples of a unit that
//! the caller chooses (a thousandth of a pixel, say), fractions are kept as
//! numerator and denominator, and each contract says how a quotient is
//! rounded.
pub mod canvas;
pub mod config;
pub mod field;
pub mod gradient;
pub mod pieces;

pub use config::{Config, GamePlugin, GradientConfig};
pub use field::{calculate_cells, CellPosition, Field};
pub use gradient::{create_radial_gradient, synthesize, ConfigError, FalloffMode, PixelBuffer, Radius};
pub use pieces::{Cell, FieldBackground, Square, SquareOrientation, Triangle, TriangleCell, TriangleColor};
