//! The two character ramps, and the choice of a character for a lightness.

use vstd::prelude::*;

verus! {

/// The short ramp, from the sparsest glyph to the densest.
pub const GSCALE_10: [char; 10] = [' ', '.', ':', '-', '=', '+', '*', '#', '%', '@'];

/// The long ramp, from the sparsest glyph to the densest.
pub const GSCALE_70: [char; 67] = [
    ' ', '.', '"', '`', '^', '"', ',', ':', ';', 'I', 'l', '!', 'i', '~', '+', '_', '-', '?',
    ']', '[', '}', '{', '1', ')', '(', '|', '\\', '/', 't', 'f', 'j', 'r', 'x', 'n', 'u', 'v',
    'c', 'z', 'X', 'Y', 'U', 'J', 'C', 'L', 'Q', '0', 'O', 'Z', 'm', 'w', 'q', 'p', 'd', 'b',
    'k', 'h', 'a', 'o', '*', '#', 'M', 'W', '&', '8', '%', 'B', '@',
];

/// The largest depth that still selects the short ramp.
pub const SHORT_RAMP_DEPTH: u8 = 10;

/// Whether `depth` selects the long ramp. The depth chooses between the two
/// ramps and does nothing else.
pub open spec fn uses_long_ramp(depth: u8) -> bool {
    depth > SHORT_RAMP_DEPTH
}

/// The place in its ramp of the character for lightness `value`:
/// `value / 255` of the way along, rounded down, and never past the last
/// character.
pub open spec fn ramp_index(value: u8, depth: u8) -> int {
    if uses_long_ramp(depth) {
        if (value * 67) / 255 > 66 { 66 } else { (value * 67) / 255 }
    } else {
        if (value * 9) / 255 > 9 { 9 } else { (value * 9) / 255 }
    }
}

/// The character that stands for lightness `value` at `depth`.
pub open spec fn ramp_char(value: u8, depth: u8) -> char {
    if uses_long_ramp(depth) {
        GSCALE_70@[ramp_index(value, depth)]
    } else {
        GSCALE_10@[ramp_index(value, depth)]
    }
}

/// Picks the character for lightness `value`: from the long ramp when `depth`
/// is above 10, from the short one otherwise.
pub fn map_char(value: u8, depth: u8) -> (glyph: char)
    ensures
        glyph == ramp_char(value, depth),
{
    if depth > SHORT_RAMP_DEPTH {
        let scaled: u32 = (value as u32) * 67 / 255;
        let index: usize = if scaled > 66 { 66 } else { scaled as usize };
        GSCALE_70[index]
    } else {
        let scaled: u32 = (value as u32) * 9 / 255;
        let index: usize = if scaled > 9 { 9 } else { scaled as usize };
        GSCALE_10[index]
    }
}

/// A lighter value never maps to an earlier place in the ramp: going from
/// lightness 0 to 255 the characters only move towards the dense end.
pub proof fn lemma_ramp_index_monotone(darker: u8, lighter: u8, depth: u8)
    requires
        darker <= lighter,
    ensures
        ramp_index(darker, depth) <= ramp_index(lighter, depth),
{
}

/// Every lightness has a place inside its ramp, the first place for 0 and the
/// last for 255.
pub proof fn lemma_ramp_index_in_range(value: u8, depth: u8)
    ensures
        0 <= ramp_index(value, depth),
        uses_long_ramp(depth) ==> ramp_index(value, depth) < GSCALE_70@.len(),
        !uses_long_ramp(depth) ==> ramp_index(value, depth) < GSCALE_10@.len(),
        ramp_index(0, depth) == 0,
        uses_long_ramp(depth) ==> ramp_index(255, depth) == 66,
        !uses_long_ramp(depth) ==> ramp_index(255, depth) == 9,
{
}

} // verus!
