//! The reference frame: the calibration offset between the external azimuth
//! convention and the rotator's own, and the conversion between the two.

use vstd::prelude::*;
use crate::angle::{normalize_wide, normalized, FULL_TURN, HALF_TURN};

verus! {

/// The internal azimuth that a frame with the given offset assigns to an
/// external target azimuth: the difference `offset - target`, passed through
/// the azimuth policy.
pub open spec fn internal_azimuth(offset: int, target: int) -> int {
    normalized(offset - target)
}

/// A calibrated reference frame. It holds the offset, in microdegrees, between
/// the external reference azimuth and the rotator's azimuth at calibration
/// time. The offset never changes once the frame exists.
#[derive(Clone, Copy, Debug, PartialEq, Eq, Structural)]
pub struct Coordinates {
    azoffset: i64,
}

impl Coordinates {
    /// The frame's offset, in microdegrees.
    pub closed spec fn spec_offset(&self) -> i64 {
        self.azoffset
    }

    /// Calibrates a frame from an external reference azimuth (the sun's, say)
    /// and the rotator's own azimuth reading at the same moment.
    pub fn new(solaz: i64, intaz: i64) -> (c: Coordinates)
        requires
            i64::MIN <= solaz - intaz <= i64::MAX,
        ensures
            c.offset() == solaz - intaz,
    {
        Coordinates { azoffset: solaz - intaz }
    }

    /// Builds a frame directly from a known offset.
    pub fn offset_new(offset: i64) -> (c: Coordinates)
        ensures
            c.offset() == offset,
    {
        Coordinates { azoffset: offset }
    }

    /// The frame's offset, in microdegrees.
    #[verifier::when_used_as_spec(spec_offset)]
    pub fn offset(&self) -> (r: i64)
        ensures
            r == self.offset(),
    {
        self.azoffset
    }

    /// Converts a target azimuth of the external frame into the rotator's
    /// frame. The result depends on the offset and the target alone.
    ///
    /// The result must be representable, which it is unless `offset - target`
    /// lies more than a full turn below `i64::MIN`. Whenever `offset - target`
    /// is at least minus one turn, the result lies within `[0, 360]` degrees.
    pub fn to_internal(&self, tgt_azim: i64) -> (r: i64)
        requires
            i64::MIN <= internal_azimuth(self.offset() as int, tgt_azim as int),
        ensures
            r == internal_azimuth(self.offset() as int, tgt_azim as int),
            self.offset() - tgt_azim >= -FULL_TURN ==> 0 <= r <= FULL_TURN,
    {
        normalize_wide(self.azoffset as i128 - tgt_azim as i128) as i64
    }
}

/// At the calibration point the conversion yields the mirror image of the
/// rotator's reading, whatever the reference azimuth was: calibrating with
/// reference `s` and reading `i`, then converting `s`, gives the policy's
/// value for `-i`.
pub proof fn lemma_calibration_point(s: int, i: int)
    ensures
        internal_azimuth(s - i, s) == normalized(-i),
        0 < i <= FULL_TURN ==> internal_azimuth(s - i, s) == FULL_TURN - i,
{
}

/// Round trip at the calibration point: calibrating with reference `s` and
/// reading `i`, then converting `s`, gives back `i` exactly when `i` is zero
/// or a half turn. For every other reading the conversion mirrors it.
pub proof fn lemma_round_trip_at_calibration(s: int, i: int)
    ensures
        internal_azimuth(s - i, s) == i <==> (i == 0 || i == HALF_TURN),
{
}

/// Up to whole turns, the round trip at the calibration point gives back the
/// reading `i` exactly when `i` is a multiple of a half turn.
pub proof fn lemma_round_trip_modulo_turns(s: int, i: int)
    ensures
        (internal_azimuth(s - i, s) - i) % (FULL_TURN as int) == 0 <==> i % (HALF_TURN as int)
            == 0,
{
}

} // verus!
