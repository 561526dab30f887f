//! What stands on the board: cells, the squares in them, and the coloured
//! triangles on the squares.
use vstd::prelude::*;

verus! {

/// Marks the backdrop behind the field.
#[derive(Debug, Clone, Copy)]
pub struct FieldBackground;

/// A cell of the board, known by the row it lies in.
#[derive(Debug, Clone, Copy, PartialEq, Eq, Structural)]
pub struct Cell {
    pub id: u32,
}

/// The side of a square that a triangle rests on.
#[derive(Debug, Clone, Copy, PartialEq, Eq, Structural)]
pub enum TriangleCell {
    Left,
    Right,
    Bottom,
    Top,
}

/// Which way a square is split.
#[derive(Debug, Clone, Copy, PartialEq, Eq, Structural)]
pub enum SquareOrientation {
    Horizontal,
    Vertical,
}

/// The square that fills a cell.
#[derive(Debug, Clone, Copy, PartialEq, Eq, Structural)]
pub struct Square {
    pub orientation: SquareOrientation,
}

/// All possible colours of a triangle.
#[derive(Debug, Clone, Copy, PartialEq, Eq, Structural)]
pub enum TriangleColor {
    Red,
    Green,
    Blue,
    Orange,
    Purple,
    Teal,
    Yellow,
}

/// A triangle on a square.
#[derive(Debug, Clone, Copy, PartialEq, Eq, Structural)]
pub struct Triangle {
    pub color: TriangleColor,
}

impl TriangleColor {
    /// Name of the image file that shows a triangle of this colour.
    pub open spec fn file_name(self) -> Seq<char> {
        match self {
            TriangleColor::Red => "tRed.png"@,
            TriangleColor::Green => "tGreen.png"@,
            TriangleColor::Blue => "tBlue.png"@,
            TriangleColor::Orange => "tOrange.png"@,
            TriangleColor::Purple => "tPurple.png"@,
            TriangleColor::Teal => "tTeal.png"@,
            TriangleColor::Yellow => "tYellow.png"@,
        }
    }

    /// The colour that a roll stands for. Only four of the seven colours are
    /// dealt: 0 is red, 1 green, 2 blue, and anything else teal.
    pub open spec fn of_roll(roll: int) -> TriangleColor {
        if roll == 0 {
            TriangleColor::Red
        } else if roll == 1 {
            TriangleColor::Green
        } else if roll == 2 {
            TriangleColor::Blue
        } else {
            TriangleColor::Teal
        }
    }

    /// Name of the image file that shows a triangle of this colour.
    pub fn asset_path(&self) -> (path: &'static str)
        ensures
            path@ == self.file_name(),
    {
        match self {
            TriangleColor::Red => "tRed.png",
            TriangleColor::Green => "tGreen.png",
            TriangleColor::Blue => "tBlue.png",
            TriangleColor::Orange => "tOrange.png",
            TriangleColor::Purple => "tPurple.png",
            TriangleColor::Teal => "tTeal.png",
            TriangleColor::Yellow => "tYellow.png",
        }
    }

    /// The colour that a roll stands for.
    pub fn from_roll(roll: u32) -> (color: TriangleColor)
        ensures
            color == Self::of_roll(roll as int),
    {
        match roll {
            0 => TriangleColor::Red,
            1 => TriangleColor::Green,
            2 => TriangleColor::Blue,
            _ => TriangleColor::Teal,
        }
    }
}

/// How many colours are dealt.
pub const COLORS_IN_PLAY: u32 = 4;

/// `rand::thread_rng().gen_range(0..bound)`: a number from the generator of
/// the running thread. Which number comes is left to chance; `rand` gives it
/// in the range asked for, and panics on an empty range, which `requires`
/// leaves out.
#[verifier::external_body]
fn roll_below(bound: u32) -> (roll: u32)
    requires
        bound > 0,
    ensures
        roll < bound,
{
    rand::Rng::gen_range(&mut rand::thread_rng(), 0..bound)
}

/// Deals a triangle of one of the colours in play. Which one is left to
/// chance.
pub fn random_triangle() -> (triangle: Triangle)
    ensures
        exists|roll: int| 0 <= roll < COLORS_IN_PLAY && triangle.color == TriangleColor::of_roll(roll),
{
    let roll = roll_below(COLORS_IN_PLAY);
    Triangle { color: TriangleColor::from_roll(roll) }
}

} // verus!
