//! Angle primitives: the rotator's azimuth normalisation policy and clamping.

use vstd::prelude::*;

verus! {

/// One degree, in microdegrees.
pub const DEGREE: i64 = 1_000_000;

/// A half turn (180 degrees), in microdegrees.
pub const HALF_TURN: i64 = 180_000_000;

/// A full turn (360 degrees), in microdegrees.
pub const FULL_TURN: i64 = 360_000_000;

/// The lowest elevation the rotator may be commanded to (5 degrees).
pub const MIN_ELEVATION: i64 = 5_000_000;

/// The highest elevation the rotator may be commanded to (70 degrees).
pub const MAX_ELEVATION: i64 = 70_000_000;

/// The rotator's azimuth policy, on mathematical integers.
///
/// Exactly one of three corrections applies, or none:
/// an angle above a full turn is reduced modulo a full turn; an angle strictly
/// between zero and one degree snaps to a full turn; a negative angle gains one
/// full turn. This is not a general modulo: an angle below minus one turn stays
/// negative, and an angle just above zero becomes 360 degrees.
pub open spec fn normalized(a: int) -> int {
    if a > FULL_TURN {
        a % (FULL_TURN as int)
    } else if 0 < a < DEGREE {
        FULL_TURN as int
    } else if a < 0 {
        a + FULL_TURN
    } else {
        a
    }
}

/// The policy's result lies within `[0, 360]` degrees exactly for the angles
/// that are not below minus one full turn.
pub proof fn lemma_normalized_range(a: int)
    ensures
        a >= -FULL_TURN <==> 0 <= normalized(a) <= FULL_TURN,
        a < -FULL_TURN ==> normalized(a) == a + FULL_TURN,
{
}

/// The azimuth policy on wide integers, for differences of two angles.
pub(crate) fn normalize_wide(a: i128) -> (r: i128)
    requires
        a + FULL_TURN <= i128::MAX,
    ensures
        r == normalized(a as int),
{
    let full: i128 = FULL_TURN as i128;
    if a > full {
        a % full
    } else if 0 < a && a < DEGREE as i128 {
        full
    } else if a < 0 {
        a + full
    } else {
        a
    }
}

/// Applies the azimuth policy [`normalized`] to an angle in microdegrees.
///
/// The result lies within `[0, 360]` degrees for every input that is not below
/// minus one full turn; below that it stays negative.
pub fn normalize_0_360(a: i64) -> (r: i64)
    ensures
        r == normalized(a as int),
        a >= -FULL_TURN ==> 0 <= r <= FULL_TURN,
        a < -FULL_TURN ==> r < 0,
{
    normalize_wide(a as i128) as i64
}

/// `v` limited to the interval from `lo` to `hi`.
pub open spec fn clamped(v: int, lo: int, hi: int) -> int {
    if v < lo {
        lo
    } else if v > hi {
        hi
    } else {
        v
    }
}

/// Limits `v` to the interval from `lo` to `hi`.
pub fn clamp(v: i64, lo: i64, hi: i64) -> (r: i64)
    ensures
        r == clamped(v as int, lo as int, hi as int),
        lo <= hi ==> lo <= r <= hi,
{
    if v < lo {
        lo
    } else if v > hi {
        hi
    } else {
        v
    }
}

/// The signal raised when a commanded elevation lies outside the rotator's
/// limits and was brought back to the nearest one.
#[derive(Clone, Copy, Debug, PartialEq, Eq, Structural)]
pub enum ElevationWarning {
    /// The commanded elevation was below [`MIN_ELEVATION`].
    BelowLimit,
    /// The commanded elevation was above [`MAX_ELEVATION`].
    AboveLimit,
}

/// The warning that a commanded elevation raises, if any.
pub open spec fn elevation_warning(el: int) -> Option<ElevationWarning> {
    if el < MIN_ELEVATION {
        Some(ElevationWarning::BelowLimit)
    } else if el > MAX_ELEVATION {
        Some(ElevationWarning::AboveLimit)
    } else {
        None
    }
}

/// The elevation that is sent for a commanded elevation `el`.
pub open spec fn sanitized_elevation(el: int) -> int {
    clamped(el, MIN_ELEVATION as int, MAX_ELEVATION as int)
}

/// Limits a commanded elevation to the rotator's range of 5 to 70 degrees and
/// says whether, and on which side, it had to be limited. An elevation within
/// the range comes back unchanged and without a warning.
pub fn sanitize_elevation(el: i64) -> (r: (i64, Option<ElevationWarning>))
    ensures
        r.0 == sanitized_elevation(el as int),
        r.1 == elevation_warning(el as int),
        MIN_ELEVATION <= r.0 <= MAX_ELEVATION,
        r.1 is None <==> r.0 == el,
{
    if el < MIN_ELEVATION {
        (MIN_ELEVATION, Some(ElevationWarning::BelowLimit))
    } else if el > MAX_ELEVATION {
        (MAX_ELEVATION, Some(ElevationWarning::AboveLimit))
    } else {
        (clamp(el, MIN_ELEVATION, MAX_ELEVATION), None)
    }
}

} // verus!
