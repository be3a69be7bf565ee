//! Decimal numbers in ASCII, read exactly into microdegrees.
//!
//! A number is a run of digits, optionally followed by a point and a second
//! run of digits; either run may be empty, but not both. Its value is counted
//! in millionths: fractional digits beyond the sixth are dropped.

use vstd::prelude::*;
use crate::text::{is_digit, run_end, run_length, views, ByteClass, POINT};

verus! {

/// The ASCII minus sign.
pub const MINUS: u8 = 0x2d;

/// The ASCII plus sign.
pub const PLUS: u8 = 0x2b;

/// Millionths in one unit: the scale of every number read here.
pub const SCALE: i64 = 1_000_000;

/// Why a text is not a number that this library can hold.
#[derive(Clone, Copy, Debug, PartialEq, Eq, Structural)]
pub enum NumberError {
    /// The text is not a decimal number: it holds no digit, more than one
    /// point, or a byte that is neither.
    Malformed,
    /// The text is a decimal number whose value in millionths exceeds
    /// `i64::MAX`.
    TooLarge,
}

/// A byte is numeric when it is a digit or the decimal point.
pub open spec fn is_numeric(b: u8) -> bool {
    is_digit(b) || b == POINT
}

/// What is left of `s` when every byte but digits and points is removed.
pub open spec fn numeric_part(s: Seq<u8>) -> Seq<u8> {
    s.filter(|b: u8| is_numeric(b))
}

/// The number that the digit `b` stands for.
pub open spec fn digit_value(b: u8) -> nat {
    (b - 0x30) as nat
}

/// The number written by a sequence of digits, most significant first. The
/// empty sequence writes zero.
pub open spec fn digits_value(s: Seq<u8>) -> nat
    decreases s.len(),
{
    if s.len() == 0 {
        0
    } else {
        digits_value(s.drop_last()) * 10 + digit_value(s.last())
    }
}

/// The value of fractional digits `f` when the first of them counts `unit`
/// and each following one a tenth of its predecessor, rounded down: digits
/// whose unit would be below one count nothing.
pub open spec fn fraction_scaled(f: Seq<u8>, unit: nat) -> nat
    decreases f.len(),
{
    if f.len() == 0 || unit == 0 {
        0
    } else {
        digit_value(f[0]) * unit + fraction_scaled(f.skip(1), unit / 10)
    }
}

/// Whether `t` is a decimal number: digits with at most one point among
/// them, and at least one digit.
pub open spec fn is_decimal(t: Seq<u8>) -> bool {
    &&& forall|i: int| 0 <= i < t.len() ==> is_numeric(#[trigger] t[i])
    &&& forall|i: int, j: int|
        0 <= i < j < t.len() ==> !(#[trigger] t[i] == POINT && #[trigger] t[j] == POINT)
    &&& exists|i: int| 0 <= i < t.len() && is_digit(#[trigger] t[i])
}

/// The value of the decimal number `t` in millionths, rounded down: the
/// digits before the point count whole units, the first six after it count
/// tenths down to millionths.
pub open spec fn decimal_micro(t: Seq<u8>) -> nat {
    let w = run_length(t, ByteClass::Digit);
    let fraction = if w < t.len() {
        fraction_scaled(t.skip((w + 1) as int), (SCALE / 10) as nat)
    } else {
        0
    };
    digits_value(t.take(w as int)) * (SCALE as nat) + fraction
}

/// What reading `t` as an unsigned decimal number gives: its value in
/// millionths, or the reason why there is none.
pub open spec fn decimal_value(t: Seq<u8>) -> Result<int, NumberError> {
    if !is_decimal(t) {
        Err(NumberError::Malformed)
    } else if decimal_micro(t) > i64::MAX {
        Err(NumberError::TooLarge)
    } else {
        Ok(decimal_micro(t) as int)
    }
}

/// What reading `t` as a decimal number with an optional sign gives.
pub open spec fn signed_value(t: Seq<u8>) -> Result<int, NumberError> {
    if t.len() > 0 && t[0] == MINUS {
        match decimal_value(t.skip(1)) {
            Ok(v) => Ok(-v),
            Err(e) => Err(e),
        }
    } else if t.len() > 0 && t[0] == PLUS {
        decimal_value(t.skip(1))
    } else {
        decimal_value(t)
    }
}

/// What a protocol token stands for: the decimal value of its numeric part.
/// Labels and units around the number, as in `az12.5`, do not count.
pub open spec fn token_value(token: Seq<u8>) -> Result<int, NumberError> {
    decimal_value(numeric_part(token))
}

/// The number that a protocol token stands for; zero where it stands for
/// none.
pub open spec fn number_of(token: Seq<u8>) -> int {
    match token_value(token) {
        Ok(v) => v,
        Err(_) => 0,
    }
}

/// The defect of the first of `tokens` that does not stand for a number, if
/// there is one.
pub open spec fn first_defect(tokens: Seq<Seq<u8>>) -> Option<NumberError>
    decreases tokens.len(),
{
    if tokens.len() == 0 {
        None
    } else {
        match token_value(tokens[0]) {
            Err(e) => Some(e),
            Ok(_) => first_defect(tokens.skip(1)),
        }
    }
}

/// What reading `t` as a port number gives: an optional plus sign and then
/// digits only, at least one, whose value is at most 65535.
pub open spec fn port_value(t: Seq<u8>) -> Option<u16> {
    let body = if t.len() > 0 && t[0] == PLUS {
        t.skip(1)
    } else {
        t
    };
    if body.len() > 0 && run_length(body, ByteClass::Digit) == body.len() && digits_value(body)
        <= u16::MAX {
        Some(digits_value(body) as u16)
    } else {
        None
    }
}

/// Whether an executable result agrees with a specified one.
pub open spec fn agrees(r: Result<i64, NumberError>, expected: Result<int, NumberError>) -> bool {
    match r {
        Ok(v) => expected == Ok::<int, NumberError>(v as int),
        Err(e) => expected == Err::<int, NumberError>(e),
    }
}

/// Removes from `token` every byte that is neither a digit nor a point.
pub fn strip_non_numeric(token: &[u8]) -> (out: Vec<u8>)
    ensures
        out@ == numeric_part(token@),
{
    let mut out: Vec<u8> = Vec::new();
    let mut i: usize = 0;
    proof {
        reveal(Seq::filter);
        assert(token@.take(0) =~= Seq::<u8>::empty());
    }
    while i < token.len()
        invariant
            i <= token@.len(),
            out@ == numeric_part(token@.take(i as int)),
        decreases token@.len() - i,
    {
        let b: u8 = token[i];
        proof {
            reveal(Seq::filter);
            assert(token@.take(i + 1).drop_last() =~= token@.take(i as int));
        }
        if (0x30 <= b && b <= 0x39) || b == POINT {
            out.push(b);
        }
        i = i + 1;
    }
    proof {
        assert(token@.take(i as int) =~= token@);
    }
    out
}

/// Reads the digits of `t` from index `from` up to `to` as a number, as long
/// as it does not exceed `i64::MAX`.
fn digits_to_number(t: &[u8], from: usize, to: usize) -> (r: Option<i64>)
    requires
        from <= to <= t@.len(),
        forall|i: int| from <= i < to ==> is_digit(#[trigger] t@[i]),
    ensures
        match r {
            Some(v) => v == digits_value(t@.subrange(from as int, to as int)),
            None => digits_value(t@.subrange(from as int, to as int)) > i64::MAX,
        },
{
    let mut acc: u128 = 0;
    let mut exceeded: bool = false;
    let mut i: usize = from;
    proof {
        assert(t@.subrange(from as int, from as int) =~= Seq::<u8>::empty());
    }
    while i < to
        invariant
            from <= i <= to <= t@.len(),
            forall|k: int| from <= k < to ==> is_digit(#[trigger] t@[k]),
            exceeded ==> digits_value(t@.subrange(from as int, i as int)) > i64::MAX,
            !exceeded ==> acc == digits_value(t@.subrange(from as int, i as int)),
            !exceeded ==> acc <= i64::MAX,
        decreases to - i,
    {
        proof {
            assert(t@.subrange(from as int, i + 1).drop_last() =~= t@.subrange(
                from as int,
                i as int,
            ));
        }
        if !exceeded {
            acc = acc * 10 + (t[i] - 0x30) as u128;
            if acc > i64::MAX as u128 {
                exceeded = true;
            }
        }
        i = i + 1;
    }
    if exceeded {
        None
    } else {
        Some(acc as i64)
    }
}

/// Reads the fractional digits of `t`, which start at index `from` and run
/// to its end, in millionths.
fn fraction_to_micro(t: &[u8], from: usize) -> (r: i64)
    requires
        from <= t@.len(),
        forall|i: int| from <= i < t@.len() ==> is_digit(#[trigger] t@[i]),
    ensures
        r == fraction_scaled(t@.skip(from as int), (SCALE / 10) as nat),
        0 <= r < SCALE,
{
    let mut acc: i64 = 0;
    let mut unit: i64 = SCALE / 10;
    let mut i: usize = from;
    while i < t.len() && unit > 0
        invariant
            from <= i <= t@.len(),
            forall|k: int| from <= k < t@.len() ==> is_digit(#[trigger] t@[k]),
            0 <= unit <= SCALE / 10,
            0 <= acc < SCALE,
            acc + 10 * unit <= SCALE,
            acc + fraction_scaled(t@.skip(i as int), unit as nat) == fraction_scaled(
                t@.skip(from as int),
                (SCALE / 10) as nat,
            ),
        decreases t@.len() - i,
    {
        let d: i64 = (t[i] - 0x30) as i64;
        proof {
            assert(t@.skip(i as int).skip(1) =~= t@.skip(i + 1));
            assert(t@.skip(i as int)[0] == t@[i as int]);
            assert(d * unit <= 9 * unit) by (nonlinear_arith)
                requires
                    0 <= d <= 9,
                    0 <= unit,
            ;
            assert(0 <= d * unit) by (nonlinear_arith)
                requires
                    0 <= d <= 9,
                    0 <= unit,
            ;
        }
        acc = acc + d * unit;
        unit = unit / 10;
        i = i + 1;
    }
    acc
}

/// Reads `t` as an unsigned decimal number, in millionths.
///
/// Succeeds exactly on decimal numbers whose value fits in an `i64`, and says
/// which of the two conditions failed otherwise.
pub fn parse_decimal(t: &[u8]) -> (r: Result<i64, NumberError>)
    ensures
        agrees(r, decimal_value(t@)),
        r matches Ok(v) ==> v >= 0,
{
    let n: usize = t.len();
    let w: usize = run_end(t, 0, ByteClass::Digit);
    assert(t@.skip(0) =~= t@);
    let mut fraction: i64 = 0;
    if w < n {
        if t[w] != POINT {
            assert(!is_numeric(t@[w as int]));
            return Err(NumberError::Malformed);
        }
        let f: usize = run_end(t, w + 1, ByteClass::Digit);
        if f < n {
            assert(!is_digit(t@[f as int]));
            assert(t@[w as int] == POINT);
            return Err(NumberError::Malformed);
        }
        if n == 1 {
            return Err(NumberError::Malformed);
        }
        fraction = fraction_to_micro(t, w + 1);
        proof {
            if w > 0 {
                assert(is_digit(t@[0]));
            } else {
                assert(is_digit(t@[1]));
            }
        }
    } else {
        if n == 0 {
            return Err(NumberError::Malformed);
        }
        assert(is_digit(t@[0]));
    }
    assert(is_decimal(t@));
    assert(t@.take(w as int) =~= t@.subrange(0, w as int));
    match digits_to_number(t, 0, w) {
        None => Err(NumberError::TooLarge),
        Some(whole) => {
            let total: i128 = whole as i128 * SCALE as i128 + fraction as i128;
            if total > i64::MAX as i128 {
                Err(NumberError::TooLarge)
            } else {
                Ok(total as i64)
            }
        },
    }
}

/// Reads `t` as a decimal number with an optional leading sign, in
/// millionths.
pub fn parse_signed_decimal(t: &[u8]) -> (r: Result<i64, NumberError>)
    ensures
        agrees(r, signed_value(t@)),
{
    if t.len() > 0 && (t[0] == MINUS || t[0] == PLUS) {
        let body = vstd::slice::slice_subrange(t, 1, t.len());
        assert(body@ =~= t@.skip(1));
        match parse_decimal(body) {
            Ok(v) => if t[0] == MINUS {
                Ok(-v)
            } else {
                Ok(v)
            },
            Err(e) => Err(e),
        }
    } else {
        parse_decimal(t)
    }
}

/// Reads the number in a protocol token: everything but digits and points is
/// dropped, and what is left is read as an unsigned decimal number.
pub fn parse_token(token: &[u8]) -> (r: Result<i64, NumberError>)
    ensures
        agrees(r, token_value(token@)),
        r matches Ok(v) ==> v >= 0,
{
    let numeric: Vec<u8> = strip_non_numeric(token);
    parse_decimal(numeric.as_slice())
}

/// Reads every token of `words` from index `from` on as a number.
///
/// Succeeds exactly when each of them stands for a number; the result then
/// holds their values in order. Otherwise the error is the defect of the
/// first token that does not.
pub fn parse_tokens(words: &Vec<Vec<u8>>, from: usize) -> (r: Result<Vec<i64>, NumberError>)
    requires
        from <= words@.len(),
    ensures
        match r {
            Ok(values) => {
                &&& first_defect(views(words@).skip(from as int)) is None
                &&& values@.len() == words@.len() - from
                &&& forall|k: int|
                    0 <= k < values@.len() ==> #[trigger] values@[k] == number_of(
                        words@[from + k]@,
                    ) && values@[k] >= 0
            },
            Err(e) => first_defect(views(words@).skip(from as int)) == Some(e),
        },
{
    let ghost all = views(words@).skip(from as int);
    let mut values: Vec<i64> = Vec::new();
    let mut i: usize = from;
    while i < words.len()
        invariant
            from <= i <= words@.len(),
            all == views(words@).skip(from as int),
            first_defect(all) == first_defect(views(words@).skip(i as int)),
            values@.len() == i - from,
            forall|k: int|
                0 <= k < values@.len() ==> #[trigger] values@[k] == number_of(words@[from + k]@)
                    && values@[k] >= 0,
        decreases words@.len() - i,
    {
        let parsed = parse_token(words[i].as_slice());
        proof {
            let rest = views(words@).skip(i as int);
            assert(rest[0] == words@[i as int]@);
            assert(rest.skip(1) =~= views(words@).skip(i + 1));
        }
        match parsed {
            Err(e) => {
                return Err(e);
            },
            Ok(v) => {
                values.push(v);
            },
        }
        i = i + 1;
    }
    Ok(values)
}

/// Reads `t` as a port number.
pub fn parse_u16(t: &[u8]) -> (r: Option<u16>)
    ensures
        r == port_value(t@),
{
    let start: usize = if t.len() > 0 && t[0] == PLUS {
        1
    } else {
        0
    };
    let end: usize = run_end(t, start, ByteClass::Digit);
    proof {
        if start == 0 {
            assert(t@.skip(0) =~= t@);
        }
        assert(t@.skip(start as int) =~= t@.subrange(start as int, t@.len() as int));
    }
    if end < t.len() || end == start {
        return None;
    }
    match digits_to_number(t, start, end) {
        None => None,
        Some(v) => if v <= 65535 {
            Some(v as u16)
        } else {
            None
        },
    }
}

} // verus!
