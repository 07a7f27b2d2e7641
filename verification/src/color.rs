//! Colors.

use vstd::prelude::*;

verus! {

/// A color: how much red, green and blue it holds.
#[derive(Debug, Copy, Clone, PartialEq, Eq, Structural)]
pub struct Color(pub u8, pub u8, pub u8);

/// The colors that the editor draws with: one for what stands out, and a
/// ramp from the background to the text.
#[derive(Debug, Copy, Clone, PartialEq, Eq, Structural)]
pub struct Theme {
    pub accent_color: Color,
    pub ramp_0_color: Color,
    pub ramp_1_color: Color,
    pub ramp_2_color: Color,
}

} // verus!
