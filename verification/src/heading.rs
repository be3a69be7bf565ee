//! The heading encoder: from sanitized internal angles to the rotator
//! controller's dimensionless headings, and from headings to command lines.

use vstd::prelude::*;
use crate::decimal::{digit_value, digits_value, MINUS};
use crate::text::is_digit;

verus! {

/// Heading units are held with eight decimal places: this many make one.
pub const HEADING_SCALE: i128 = 100_000_000;

/// The internal azimuth, in microdegrees, at which the azimuth formula
/// changes (210 degrees). The break itself belongs to the upper branch.
pub const AZIMUTH_BREAK: i64 = 210_000_000;

/// The azimuth heading at zero degrees on the lower branch (724.6).
pub const AZIMUTH_LOW_BASE: i128 = 72_460_000_000;

/// Heading per microdegree on the lower branch (15.6 per degree).
pub const AZIMUTH_LOW_GAIN: i128 = 1_560;

/// The azimuth heading at zero degrees on the upper branch (792.0).
pub const AZIMUTH_HIGH_BASE: i128 = 79_200_000_000;

/// Heading per microdegree on the upper branch (16.20 per degree).
pub const AZIMUTH_HIGH_GAIN: i128 = 1_620;

/// The elevation heading at zero degrees (390.1).
pub const ELEVATION_BASE: i128 = 39_010_000_000;

/// Heading per microdegree of elevation (17.44 per degree).
pub const ELEVATION_GAIN: i128 = 1_744;

/// The azimuth heading of an internal azimuth in microdegrees, scaled by
/// [`HEADING_SCALE`]: `792.0 + 16.20 a` from 210 degrees on, `724.6 + 15.6 a`
/// below.
pub open spec fn azimuth_heading_of(az: int) -> int {
    if az >= AZIMUTH_BREAK {
        AZIMUTH_HIGH_BASE + AZIMUTH_HIGH_GAIN * az
    } else {
        AZIMUTH_LOW_BASE + AZIMUTH_LOW_GAIN * az
    }
}

/// The elevation heading of an elevation in microdegrees, scaled by
/// [`HEADING_SCALE`]: `390.1 + 17.44 e`.
pub open spec fn elevation_heading_of(el: int) -> int {
    ELEVATION_BASE + ELEVATION_GAIN * el
}

/// The two headings of one position, each scaled by [`HEADING_SCALE`].
#[derive(Clone, Copy, Debug, PartialEq, Eq, Structural)]
pub struct HeadingPair {
    pub azimuth_heading: i128,
    pub elevation_heading: i128,
}

/// Converts an internal azimuth and elevation, both in microdegrees, into the
/// rotator's headings.
pub fn encode(internal_azimuth: i64, internal_elevation: i64) -> (h: HeadingPair)
    ensures
        h.azimuth_heading == azimuth_heading_of(internal_azimuth as int),
        h.elevation_heading == elevation_heading_of(internal_elevation as int),
{
    let az: i128 = internal_azimuth as i128;
    let el: i128 = internal_elevation as i128;
    let azimuth_heading: i128 = if internal_azimuth >= AZIMUTH_BREAK {
        AZIMUTH_HIGH_BASE + AZIMUTH_HIGH_GAIN * az
    } else {
        AZIMUTH_LOW_BASE + AZIMUTH_LOW_GAIN * az
    };
    HeadingPair { azimuth_heading, elevation_heading: ELEVATION_BASE + ELEVATION_GAIN * el }
}

/// The whole headings at or below `h`: `h` divided by the scale, rounded
/// towards minus infinity.
pub open spec fn floor_of(h: int) -> int {
    h / (HEADING_SCALE as int)
}

/// The nearest whole heading to `h`; a heading exactly halfway between two
/// whole ones goes to the even one.
pub open spec fn rounded(h: int) -> int {
    let q = h / (HEADING_SCALE as int);
    let r = h % (HEADING_SCALE as int);
    if 2 * r < HEADING_SCALE {
        q
    } else if 2 * r > HEADING_SCALE {
        q + 1
    } else if q % 2 == 0 {
        q
    } else {
        q + 1
    }
}

/// The least whole heading that is not below `h`.
pub open spec fn ceiling(h: int) -> int {
    if h % (HEADING_SCALE as int) == 0 {
        h / (HEADING_SCALE as int)
    } else {
        h / (HEADING_SCALE as int) + 1
    }
}

/// Rounding goes to a nearest whole heading: the rounded heading is at most
/// half a heading away.
pub proof fn lemma_rounded_is_nearest(h: int)
    ensures
        -HEADING_SCALE <= 2 * (h - rounded(h) * HEADING_SCALE) <= HEADING_SCALE,
{
}

/// The ceiling is the least whole heading that is not below: it is at or
/// above the heading, and the whole heading before it is below.
pub proof fn lemma_ceiling_is_least(h: int)
    ensures
        (ceiling(h) - 1) * HEADING_SCALE < h <= ceiling(h) * HEADING_SCALE,
{
}

/// Divides a scaled heading by the scale, rounding towards minus infinity,
/// and gives the remainder too.
fn floor_and_rest(h: i128) -> (r: (i128, i128))
    ensures
        r.0 == floor_of(h as int),
        r.1 == (h as int) % (HEADING_SCALE as int),
        0 <= r.1 < HEADING_SCALE,
        i128::MIN < r.0 < i128::MAX,
{
    if h >= 0 {
        (h / HEADING_SCALE, h % HEADING_SCALE)
    } else {
        let m: i128 = -(h + 1);
        (-(m / HEADING_SCALE) - 1, HEADING_SCALE - 1 - m % HEADING_SCALE)
    }
}

/// Rounds a scaled heading to the nearest whole heading, ties to even.
pub fn round_heading(h: i128) -> (r: i128)
    ensures
        r == rounded(h as int),
{
    let (q, rest) = floor_and_rest(h);
    if 2 * rest < HEADING_SCALE {
        q
    } else if 2 * rest > HEADING_SCALE {
        q + 1
    } else if q % 2 == 0 {
        q
    } else {
        q + 1
    }
}

/// Rounds a scaled heading up to a whole heading.
pub fn ceil_heading(h: i128) -> (r: i128)
    ensures
        r == ceiling(h as int),
{
    let (q, rest) = floor_and_rest(h);
    if rest == 0 {
        q
    } else {
        q + 1
    }
}

/// The decimal digits of `n`, most significant first, without leading zeros;
/// zero is written as one digit.
pub open spec fn digits_of(n: nat) -> Seq<u8>
    decreases n,
{
    if n < 10 {
        seq![(0x30 + n) as u8]
    } else {
        digits_of(n / 10).push((0x30 + n % 10) as u8)
    }
}

/// The decimal text of an integer: a minus sign in front of a negative one.
pub open spec fn integer_text(n: int) -> Seq<u8> {
    if n < 0 {
        seq![MINUS] + digits_of((-n) as nat)
    } else {
        digits_of(n as nat)
    }
}

/// The word that opens an azimuth command, with the space that follows it.
pub open spec fn azimuth_word() -> Seq<u8> {
    seq![0x61u8, 0x7au8, 0x61u8, 0x63u8, 0x63u8, 0x20u8]
}

/// The word that opens an elevation command, with the space that follows it.
pub open spec fn elevation_word() -> Seq<u8> {
    seq![0x65u8, 0x6cu8, 0x61u8, 0x63u8, 0x63u8, 0x20u8]
}

/// What closes every command: a space, a carriage return and a line feed.
pub open spec fn line_end() -> Seq<u8> {
    seq![0x20u8, 0x0du8, 0x0au8]
}

/// The azimuth command for a scaled heading: `azacc`, the heading rounded to
/// the nearest whole number, and the line end.
pub open spec fn azimuth_line(h: int) -> Seq<u8> {
    azimuth_word() + integer_text(rounded(h)) + line_end()
}

/// The elevation command for a scaled heading: `elacc`, the heading rounded
/// up to a whole number, and the line end.
pub open spec fn elevation_line(h: int) -> Seq<u8> {
    elevation_word() + integer_text(ceiling(h)) + line_end()
}

/// Writing a number and reading the digits back gives the number, and what
/// is written are digits only.
pub proof fn lemma_digits_round_trip(n: nat)
    ensures
        digits_value(digits_of(n)) == n,
        digits_of(n).len() >= 1,
        forall|i: int| 0 <= i < digits_of(n).len() ==> is_digit(#[trigger] digits_of(n)[i]),
    decreases n,
{
    if n < 10 {
        let s = digits_of(n);
        assert(s.drop_last() =~= Seq::<u8>::empty());
        assert(digits_value(s.drop_last()) == 0);
        assert(digit_value(s.last()) == n);
    } else {
        lemma_digits_round_trip(n / 10);
        let s = digits_of(n);
        assert(s.drop_last() =~= digits_of(n / 10));
        assert(digit_value(s.last()) == n % 10);
    }
}

/// Appends the decimal digits of `n` to `out`.
fn push_digits(n: u128, out: &mut Vec<u8>)
    ensures
        final(out)@ == old(out)@ + digits_of(n as nat),
    decreases n,
{
    if n >= 10 {
        push_digits(n / 10, out);
    }
    out.push(0x30 + (n % 10) as u8);
    assert(out@ =~= old(out)@ + digits_of(n as nat));
}

/// Appends the decimal text of `n` to `out`.
fn push_integer(n: i128, out: &mut Vec<u8>)
    ensures
        final(out)@ == old(out)@ + integer_text(n as int),
{
    if n < 0 {
        out.push(MINUS);
        let magnitude: u128 = (-(n + 1)) as u128 + 1;
        push_digits(magnitude, out);
        assert(out@ =~= old(out)@ + integer_text(n as int));
    } else {
        push_digits(n as u128, out);
    }
}

/// Appends the three bytes that close a command.
fn push_line_end(out: &mut Vec<u8>)
    ensures
        final(out)@ == old(out)@ + line_end(),
{
    out.push(0x20);
    out.push(0x0d);
    out.push(0x0a);
    assert(out@ =~= old(out)@ + line_end());
}

impl HeadingPair {
    /// The azimuth command for this pair of headings, as it goes on the wire.
    pub fn azimuth_command(&self) -> (line: Vec<u8>)
        ensures
            line@ == azimuth_line(self.azimuth_heading as int),
    {
        let mut line: Vec<u8> = Vec::new();
        line.push(0x61);
        line.push(0x7a);
        line.push(0x61);
        line.push(0x63);
        line.push(0x63);
        line.push(0x20);
        assert(line@ =~= azimuth_word());
        push_integer(round_heading(self.azimuth_heading), &mut line);
        push_line_end(&mut line);
        line
    }

    /// The elevation command for this pair of headings, as it goes on the
    /// wire.
    pub fn elevation_command(&self) -> (line: Vec<u8>)
        ensures
            line@ == elevation_line(self.elevation_heading as int),
    {
        let mut line: Vec<u8> = Vec::new();
        line.push(0x65);
        line.push(0x6c);
        line.push(0x61);
        line.push(0x63);
        line.push(0x63);
        line.push(0x20);
        assert(line@ =~= elevation_word());
        push_integer(ceil_heading(self.elevation_heading), &mut line);
        push_line_end(&mut line);
        line
    }
}

} // verus!
