//! Colors for the typed portion of the text, including the cyclic rainbow
//! wheel used as a fast-typing visual reward.

use vstd::prelude::*;

verus! {

/// A display color for rendered text. `Yellow` is the fixed color used in
/// normal mode; `Rgb` carries an exact color sampled from the rainbow wheel.
#[derive(Clone, Copy, Debug, PartialEq, Eq, Structural)]
pub enum DisplayColor {
    Yellow,
    Rgb(u8, u8, u8),
}

/// The rainbow wheel as a mathematical function: the 8-bit position is
/// inverted and then split into three 85-wide bands, each a linear ramp
/// between two of the red, blue and green corners of the cycle.
pub open spec fn spec_rainbow_wheel(wheel_pos: u8) -> DisplayColor {
    let q = (255 - wheel_pos) as int;
    if q < 85 {
        DisplayColor::Rgb((255 - 3 * q) as u8, 0u8, (3 * q) as u8)
    } else if q < 170 {
        let p = q - 85;
        DisplayColor::Rgb(0u8, (3 * p) as u8, (255 - 3 * p) as u8)
    } else {
        let p = q - 170;
        DisplayColor::Rgb((3 * p) as u8, (255 - 3 * p) as u8, 0u8)
    }
}

/// Maps an 8-bit wheel position to a point on a cyclic red -> blue ->
/// green -> red gradient.
pub fn rainbow_wheel(wheel_pos: u8) -> (c: DisplayColor)
    ensures
        c == spec_rainbow_wheel(wheel_pos),
{
    let q: u8 = 255 - wheel_pos;
    if q < 85 {
        DisplayColor::Rgb(255 - 3 * q, 0, 3 * q)
    } else if q < 170 {
        let p: u8 = q - 85;
        DisplayColor::Rgb(0, 3 * p, 255 - 3 * p)
    } else {
        let p: u8 = q - 170;
        DisplayColor::Rgb(3 * p, 255 - 3 * p, 0)
    }
}

} // verus!
