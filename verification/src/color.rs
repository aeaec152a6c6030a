//! Flat shading colors: three rational channels over one positive
//! denominator. Equality is exact, field for field; the library never does
//! arithmetic on colors, it only carries them from a primitive to the tracer.

use vstd::prelude::*;

verus! {

/// An RGB color; the channels are r/den, g/den, b/den.
#[derive(Clone, Copy, Debug, PartialEq, Eq, Structural)]
pub struct RGBColor {
    pub r: i128,
    pub g: i128,
    pub b: i128,
    pub den: i128,
}

/// Validity of a color: the denominator is positive.
pub open spec fn color_wf(c: RGBColor) -> bool {
    c.den >= 1
}

impl RGBColor {
    /// Builds (r/den, g/den, b/den); the denominator must be positive.
    pub fn new(r: i128, g: i128, b: i128, den: i128) -> (c: RGBColor)
        requires
            den >= 1,
        ensures
            c == (RGBColor { r, g, b, den }),
    {
        RGBColor { r, g, b, den }
    }

    /// Black, the default color of a fresh primitive.
    pub fn black() -> (c: RGBColor)
        ensures
            c == (RGBColor { r: 0, g: 0, b: 0, den: 1 }),
    {
        RGBColor { r: 0, g: 0, b: 0, den: 1 }
    }
}

} // verus!
