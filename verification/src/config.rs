//! The settings of a game and the ones it starts with.
use vstd::prelude::*;
use crate::gradient::Radius;

verus! {

/// The background gradient: its two colours, and its radius as a fraction of
/// the smaller side of the window.
#[derive(Debug, Clone, Copy)]
pub struct GradientConfig {
    pub color1: [u8; 4],
    pub color2: [u8; 4],
    pub radius: Radius,
}

/// What a game is set up with.
#[derive(Debug, Clone, Copy)]
pub struct Config {
    pub field_scale: u32,
    pub square_bg: [u8; 4],
    pub gradient: GradientConfig,
}

/// The game, and whether it brings its own settings.
#[derive(Debug, Clone, Copy)]
pub struct GamePlugin {
    pub default_resources: bool,
}

/// The settings of a game that is given none: eight cells per side, purple
/// squares, and a gradient from white to the same purple over a quarter of
/// the window.
pub open spec fn default_config() -> Config {
    Config {
        field_scale: 8,
        square_bg: [145u8, 28u8, 139u8, 255u8],
        gradient: GradientConfig {
            color1: [255u8, 255u8, 255u8, 255u8],
            color2: [145u8, 28u8, 139u8, 255u8],
            radius: Radius { num: 1, den: 4 },
        },
    }
}

impl Default for GamePlugin {
    fn default() -> (plugin: Self)
        ensures
            plugin.default_resources,
    {
        GamePlugin { default_resources: true }
    }
}

impl GamePlugin {
    /// The settings that the game brings: the default ones, unless the caller
    /// said that it supplies its own.
    pub fn resources(&self) -> (config: Option<Config>)
        ensures
            config == if self.default_resources {
                Some(default_config())
            } else {
                None
            },
    {
        if self.default_resources {
            Some(
                Config {
                    field_scale: 8,
                    square_bg: [145, 28, 139, 255],
                    gradient: GradientConfig {
                        color1: [255, 255, 255, 255],
                        color2: [145, 28, 139, 255],
                        radius: Radius { num: 1, den: 4 },
                    },
                },
            )
        } else {
            None
        }
    }
}

} // verus!
