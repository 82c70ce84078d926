//! RGB color values used by the diagnostic overlay.

use vstd::prelude::*;

verus! {

/// One color channel per fault plane: red marks missing, green sticking,
/// blue bouncing. A cell with several faults shows a blended color.
#[derive(Clone, Copy, Debug, PartialEq, Eq, Structural)]
pub struct Rgb {
    pub r: u8,
    pub g: u8,
    pub b: u8,
}

impl Rgb {
    pub fn new(r: u8, g: u8, b: u8) -> (c: Rgb)
        ensures
            c == (Rgb { r, g, b }),
    {
        Rgb { r, g, b }
    }
}

/// The color painted on a key that the live scan reports as pressed.
pub open spec fn active_color() -> Rgb {
    Rgb { r: 255, g: 0, b: 0 }
}

/// Exec twin of `active_color`.
pub fn make_active_color() -> (c: Rgb)
    ensures
        c == active_color(),
{
    Rgb { r: 255, g: 0, b: 0 }
}

} // verus!
