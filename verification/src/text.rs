//! Byte-level lexing: classes of bytes, runs of one class, and the two ways in
//! which the protocols cut a buffer into pieces.

use vstd::prelude::*;
use vstd::slice::{slice_subrange, slice_to_vec};

verus! {

/// The ASCII full stop, the decimal point of a number.
pub const POINT: u8 = 0x2e;

/// The ASCII line feed, which separates the parts of a device reply.
pub const NEWLINE: u8 = 0x0a;

/// A byte is a decimal digit when it is one of ASCII `0` to `9`.
pub open spec fn is_digit(b: u8) -> bool {
    0x30 <= b <= 0x39
}

/// A byte is white space when it is an ASCII space, tab, line feed, vertical
/// tab, form feed or carriage return.
pub open spec fn is_space(b: u8) -> bool {
    b == 0x20 || (0x09 <= b <= 0x0d)
}

/// The classes of bytes that the lexers form runs of.
#[derive(Clone, Copy, Debug, PartialEq, Eq, Structural)]
pub enum ByteClass {
    /// Decimal digits.
    Digit,
    /// White space.
    Space,
    /// Everything but white space: the bytes of a token.
    Word,
    /// Everything but a line feed: the bytes of a line.
    Line,
}

/// Whether byte `b` belongs to `class`.
pub open spec fn in_class(class: ByteClass, b: u8) -> bool {
    match class {
        ByteClass::Digit => is_digit(b),
        ByteClass::Space => is_space(b),
        ByteClass::Word => !is_space(b),
        ByteClass::Line => b != NEWLINE,
    }
}

/// The length of the longest prefix of `s` whose bytes all belong to `class`.
pub open spec fn run_length(s: Seq<u8>, class: ByteClass) -> nat
    decreases s.len(),
{
    if s.len() > 0 && in_class(class, s[0]) {
        1 + run_length(s.skip(1), class)
    } else {
        0
    }
}

/// A run is a prefix: it is no longer than the sequence, all its bytes belong
/// to the class, and the byte that follows it, if any, does not.
pub proof fn lemma_run_length_is_maximal_prefix(s: Seq<u8>, class: ByteClass)
    ensures
        run_length(s, class) <= s.len(),
        forall|i: int| 0 <= i < run_length(s, class) ==> in_class(class, #[trigger] s[i]),
        run_length(s, class) < s.len() ==> !in_class(class, s[run_length(s, class) as int]),
    decreases s.len(),
{
    if s.len() > 0 && in_class(class, s[0]) {
        let t = s.skip(1);
        lemma_run_length_is_maximal_prefix(t, class);
        assert forall|i: int| 0 <= i < run_length(s, class) implies in_class(
            class,
            #[trigger] s[i],
        ) by {
            if i > 0 {
                assert(s[i] == t[i - 1]);
            }
        }
        if run_length(s, class) < s.len() {
            assert(s[run_length(s, class) as int] == t[run_length(t, class) as int]);
        }
    }
}

/// The run is the only prefix that is maximal: a prefix of `n` bytes of the
/// class that ends the sequence or is followed by a byte outside the class is
/// the run.
pub proof fn lemma_maximal_prefix_is_run(s: Seq<u8>, class: ByteClass, n: nat)
    requires
        n <= s.len(),
        forall|i: int| 0 <= i < n ==> in_class(class, #[trigger] s[i]),
        n < s.len() ==> !in_class(class, s[n as int]),
    ensures
        run_length(s, class) == n,
    decreases n,
{
    if n > 0 {
        let t = s.skip(1);
        assert(in_class(class, s[0]));
        assert forall|i: int| 0 <= i < n - 1 implies in_class(class, #[trigger] t[i]) by {
            assert(t[i] == s[i + 1]);
        }
        if n < s.len() {
            assert(t[n - 1] == s[n as int]);
        }
        lemma_maximal_prefix_is_run(t, class, (n - 1) as nat);
    }
}

/// Tells whether byte `b` belongs to `class`.
pub fn byte_in_class(class: ByteClass, b: u8) -> (r: bool)
    ensures
        r == in_class(class, b),
{
    match class {
        ByteClass::Digit => 0x30 <= b && b <= 0x39,
        ByteClass::Space => b == 0x20 || (0x09 <= b && b <= 0x0d),
        ByteClass::Word => !(b == 0x20 || (0x09 <= b && b <= 0x0d)),
        ByteClass::Line => b != NEWLINE,
    }
}

/// Finds where the run of `class` that starts at index `from` ends.
pub fn run_end(s: &[u8], from: usize, class: ByteClass) -> (end: usize)
    requires
        from <= s@.len(),
    ensures
        from <= end <= s@.len(),
        end - from == run_length(s@.skip(from as int), class),
        forall|i: int| from <= i < end ==> in_class(class, #[trigger] s@[i]),
        end < s@.len() ==> !in_class(class, s@[end as int]),
{
    let mut end: usize = from;
    while end < s.len() && byte_in_class(class, s[end])
        invariant
            from <= end <= s@.len(),
            forall|i: int| from <= i < end ==> in_class(class, #[trigger] s@[i]),
        decreases s@.len() - end,
    {
        end = end + 1;
    }
    proof {
        let tail = s@.skip(from as int);
        assert forall|i: int| 0 <= i < end - from implies in_class(class, #[trigger] tail[i]) by {
            assert(tail[i] == s@[from + i]);
        }
        if end < s@.len() {
            assert(tail[end - from] == s@[end as int]);
        }
        lemma_maximal_prefix_is_run(tail, class, (end - from) as nat);
    }
    end
}

/// The views of a vector of byte strings, in order.
pub open spec fn views(v: Seq<Vec<u8>>) -> Seq<Seq<u8>> {
    Seq::new(v.len(), |i: int| v[i]@)
}

/// The white-space separated tokens of `s`, in order. Runs of white space
/// separate tokens and never produce an empty one; white space at either end
/// is dropped.
pub open spec fn tokens(s: Seq<u8>) -> Seq<Seq<u8>>
    decreases s.len(),
    via tokens_decreases
{
    let start = run_length(s, ByteClass::Space);
    let n = run_length(s.skip(start as int), ByteClass::Word);
    if n == 0 {
        Seq::empty()
    } else {
        seq![s.subrange(start as int, (start + n) as int)] + tokens(s.skip((start + n) as int))
    }
}

#[via_fn]
proof fn tokens_decreases(s: Seq<u8>) {
    let start = run_length(s, ByteClass::Space);
    lemma_run_length_is_maximal_prefix(s, ByteClass::Space);
    lemma_run_length_is_maximal_prefix(s.skip(start as int), ByteClass::Word);
}

/// Every token is a word: it is not empty and holds no white space.
pub proof fn lemma_tokens_are_words(s: Seq<u8>)
    ensures
        forall|i: int|
            0 <= i < tokens(s).len() ==> (#[trigger] tokens(s)[i]).len() > 0 && forall|j: int|
                0 <= j < tokens(s)[i].len() ==> !is_space(#[trigger] tokens(s)[i][j]),
    decreases s.len(),
{
    let start = run_length(s, ByteClass::Space);
    let tail = s.skip(start as int);
    let n = run_length(tail, ByteClass::Word);
    lemma_run_length_is_maximal_prefix(s, ByteClass::Space);
    lemma_run_length_is_maximal_prefix(tail, ByteClass::Word);
    if n > 0 {
        let first = s.subrange(start as int, (start + n) as int);
        let rest = tokens(s.skip((start + n) as int));
        lemma_tokens_are_words(s.skip((start + n) as int));
        assert forall|i: int| 0 <= i < tokens(s).len() implies (#[trigger] tokens(s)[i]).len() > 0
            && forall|j: int|
            0 <= j < tokens(s)[i].len() ==> !is_space(#[trigger] tokens(s)[i][j]) by {
            if i == 0 {
                assert(tokens(s)[0] == first);
                assert forall|j: int| 0 <= j < first.len() implies !is_space(
                    #[trigger] first[j],
                ) by {
                    assert(first[j] == tail[j]);
                    assert(in_class(ByteClass::Word, tail[j]));
                }
            } else {
                assert(tokens(s)[i] == rest[i - 1]);
            }
        }
    }
}

/// Cuts `s` into its white-space separated tokens.
pub fn split_whitespace(s: &[u8]) -> (out: Vec<Vec<u8>>)
    ensures
        views(out@) == tokens(s@),
{
    let mut out: Vec<Vec<u8>> = Vec::new();
    let mut pos: usize = 0;
    proof {
        assert(s@.skip(0) =~= s@);
        assert(views(out@) + tokens(s@) =~= tokens(s@));
    }
    loop
        invariant
            pos <= s@.len(),
            tokens(s@) == views(out@) + tokens(s@.skip(pos as int)),
        ensures
            views(out@) == tokens(s@),
        decreases s@.len() - pos,
    {
        let start: usize = run_end(s, pos, ByteClass::Space);
        let end: usize = run_end(s, start, ByteClass::Word);
        proof {
            let rest = s@.skip(pos as int);
            assert(rest.skip(start - pos) =~= s@.skip(start as int));
            assert(rest.subrange(start - pos, end - pos) =~= s@.subrange(start as int, end as int));
            assert(rest.skip(end - pos) =~= s@.skip(end as int));
        }
        if end == start {
            assert(views(out@) + Seq::<Seq<u8>>::empty() =~= views(out@));
            break;
        }
        let token: Vec<u8> = slice_to_vec(slice_subrange(s, start, end));
        let ghost before = views(out@);
        out.push(token);
        proof {
            assert(views(out@) =~= before + seq![s@.subrange(start as int, end as int)]);
            assert(before + (seq![s@.subrange(start as int, end as int)] + tokens(
                s@.skip(end as int),
            )) =~= views(out@) + tokens(s@.skip(end as int)));
        }
        pos = end;
    }
    out
}

/// The parts of `s` between line feeds, in order. Every line feed ends one
/// part and starts the next, so a part may be empty and there is always at
/// least one.
pub open spec fn lines(s: Seq<u8>) -> Seq<Seq<u8>>
    decreases s.len(),
    via lines_decreases
{
    let n = run_length(s, ByteClass::Line);
    if n >= s.len() {
        seq![s]
    } else {
        seq![s.take(n as int)] + lines(s.skip((n + 1) as int))
    }
}

#[via_fn]
proof fn lines_decreases(s: Seq<u8>) {
    lemma_run_length_is_maximal_prefix(s, ByteClass::Line);
}

/// No part holds a line feed, and there is one part more than there are
/// line feeds in `s`.
pub proof fn lemma_lines_hold_no_line_feed(s: Seq<u8>)
    ensures
        lines(s).len() == s.filter(|b: u8| b == NEWLINE).len() + 1,
        forall|i: int, j: int|
            0 <= i < lines(s).len() && 0 <= j < lines(s)[i].len() ==> (#[trigger] lines(
                s,
            )[i][j]) != NEWLINE,
    decreases s.len(),
{
    let n = run_length(s, ByteClass::Line);
    let feeds = |b: u8| b == NEWLINE;
    lemma_run_length_is_maximal_prefix(s, ByteClass::Line);
    lemma_no_line_feed_in_a_line(s.take(n as int));
    if n >= s.len() {
        assert(s.take(n as int) =~= s);
    } else {
        let rest = s.skip((n + 1) as int);
        lemma_lines_hold_no_line_feed(rest);
        let head = s.take(n as int);
        let feed = seq![s[n as int]];
        assert(s =~= head + feed + rest);
        Seq::filter_distributes_over_add(head + feed, rest, feeds);
        Seq::filter_distributes_over_add(head, feed, feeds);
        assert(feed.filter(feeds) =~= feed) by {
            reveal(Seq::filter);
            assert(feed.drop_last() =~= Seq::<u8>::empty());
        }
        assert forall|i: int, j: int|
            0 <= i < lines(s).len() && 0 <= j < lines(s)[i].len() implies (#[trigger] lines(
            s,
        )[i][j]) != NEWLINE by {
            if i == 0 {
                assert(lines(s)[0] == head);
                assert(head[j] == s[j]);
            } else {
                assert(lines(s)[i] == lines(rest)[i - 1]);
            }
        }
    }
}

/// A sequence of bytes of a line holds no line feed to filter out.
proof fn lemma_no_line_feed_in_a_line(s: Seq<u8>)
    requires
        forall|i: int| 0 <= i < s.len() ==> in_class(ByteClass::Line, #[trigger] s[i]),
    ensures
        s.filter(|b: u8| b == NEWLINE).len() == 0,
    decreases s.len(),
{
    reveal(Seq::filter);
    if s.len() > 0 {
        lemma_no_line_feed_in_a_line(s.drop_last());
    }
}

/// Cuts `s` at every line feed.
pub fn split_lines(s: &[u8]) -> (out: Vec<Vec<u8>>)
    ensures
        views(out@) == lines(s@),
{
    let mut out: Vec<Vec<u8>> = Vec::new();
    let mut pos: usize = 0;
    proof {
        assert(s@.skip(0) =~= s@);
        assert(views(out@) + lines(s@) =~= lines(s@));
    }
    loop
        invariant_except_break
            pos <= s@.len(),
            lines(s@) == views(out@) + lines(s@.skip(pos as int)),
        ensures
            views(out@) == lines(s@),
        decreases s@.len() - pos,
    {
        let end: usize = run_end(s, pos, ByteClass::Line);
        let part: Vec<u8> = slice_to_vec(slice_subrange(s, pos, end));
        let ghost before = views(out@);
        let ghost rest = s@.skip(pos as int);
        out.push(part);
        proof {
            assert(rest.take(end - pos) =~= s@.subrange(pos as int, end as int));
            assert(views(out@) =~= before + seq![s@.subrange(pos as int, end as int)]);
        }
        if end == s.len() {
            assert(rest.take(end - pos) =~= rest);
            break;
        }
        proof {
            assert(rest.skip(end - pos + 1) =~= s@.skip(end + 1));
            assert(before + (seq![s@.subrange(pos as int, end as int)] + lines(s@.skip(end + 1)))
                =~= views(out@) + lines(s@.skip(end + 1)));
        }
        pos = end + 1;
    }
    out
}

} // verus!
