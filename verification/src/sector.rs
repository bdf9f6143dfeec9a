//! Circular arcs of the compass, used as direction filters.

use vstd::prelude::*;

verus! {

/// A circle sector given as two bearings in degrees, traversed clockwise from
/// the first to the second. `Sector(270, 90)` is the upper half circle and
/// `Sector(90, 270)` the lower. Both endpoints belong to the sector.
#[derive(Clone, Copy, PartialEq, Eq, Structural, Debug)]
pub struct Sector(pub u16, pub u16);

/// Whether a bearing, normalized to a full turn, falls inside the sector.
/// A simple arc (`from <= to`) is the closed interval `[from, to]`; a
/// wraparound arc (`from > to`) is the union `[from, 360) ∪ [0, to]`.
pub open spec fn sector_contains(s: Sector, angle: int) -> bool {
    let a = angle % 360;
    if s.0 <= s.1 {
        s.0 <= a && a <= s.1
    } else {
        s.0 <= a || a <= s.1
    }
}

impl Sector {
    /// Tests whether the given bearing lies in the sector. Bearings at or
    /// above 360 degrees are normalized first, so any input is valid.
    pub fn test(&self, angle: u16) -> (r: bool)
        ensures
            r == sector_contains(*self, angle as int),
    {
        let a = angle % 360;
        if self.0 <= self.1 {
            self.0 <= a && a <= self.1
        } else {
            self.0 <= a || a <= self.1
        }
    }
}

/// Law: sector membership depends only on the bearing modulo a full turn;
/// adding any whole number of turns to a bearing never changes the answer.
pub proof fn lemma_sector_normalization(s: Sector, angle: int, k: int)
    ensures
        sector_contains(s, angle + 360 * k) == sector_contains(s, angle),
{
    vstd::arithmetic::div_mod::lemma_mod_multiples_vanish(k, angle, 360);
}

} // verus!
