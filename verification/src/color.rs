//! The colour of a sample or of a cell.

use crate::luminance::{lightness, lightness_of};
use vstd::prelude::*;

verus! {

/// A colour: a red, green and blue triple where colour is kept, a single
/// lightness where it is not.
#[derive(Debug, Clone, Copy, PartialEq, Eq, Structural)]
pub enum RasciiColor {
    RGB(u8, u8, u8),
    Grayscale(u8),
}

impl RasciiColor {
    /// The lightness of the colour: computed from the three channels of a
    /// triple, carried as it is by a lightness.
    pub open spec fn grayscale(self) -> u8 {
        match self {
            RasciiColor::RGB(r, g, b) => lightness_of(r, g, b),
            RasciiColor::Grayscale(l) => l,
        }
    }

    /// Gives the lightness of the colour.
    pub fn to_grayscale(&self) -> (l: u8)
        ensures
            l == self.grayscale(),
    {
        match self {
            RasciiColor::RGB(r, g, b) => lightness(*r, *g, *b),
            RasciiColor::Grayscale(l) => *l,
        }
    }
}

} // verus!
