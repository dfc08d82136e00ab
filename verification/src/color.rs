//! Colors and linear gradients.

use vstd::prelude::*;

verus! {

/// The number of angle units in one degree.
pub const UNITS_PER_DEGREE: i32 = 64;

/// The stop position that stands for the whole length of the gradient axis.
pub const FRACTION_UNITS: i32 = 10_000;

/// Red, green, blue and alpha, each from 0 to 255, not premultiplied.
#[derive(Clone, Copy, Debug, PartialEq, Eq, Structural)]
pub struct Rgba(pub u8, pub u8, pub u8, pub u8);

/// Where a color stop lies on the gradient axis.
#[derive(Clone, Copy, Debug, PartialEq, Eq, Structural)]
pub enum GradientStopPosition {
    /// A share of the axis length, in parts of [`FRACTION_UNITS`].
    Percent(i32),
    /// A distance from the start of the axis, in sub-pixel units.
    Pixel(i32),
}

/// One color of a gradient and its place on the axis.
#[derive(Clone, Copy, Debug, PartialEq, Eq, Structural)]
pub struct ColorStop {
    pub position: GradientStopPosition,
    pub color: Rgba,
}

/// A gradient along a straight axis.  The angle is counted clockwise in
/// angle units, zero pointing up.
#[derive(Clone, Debug)]
pub struct LinearGradient {
    pub angle: i32,
    pub stops: Vec<ColorStop>,
}

/// What a shape is filled with.
#[derive(Clone, Debug)]
pub enum Color {
    Rgba(Rgba),
    Gradient(LinearGradient),
}

impl Default for Color {
    /// Fully transparent white.
    fn default() -> (r: Color)
        ensures
            r == Color::Rgba(Rgba(255, 255, 255, 0)),
    {
        Color::Rgba(Rgba(255, 255, 255, 0))
    }
}

} // verus!
