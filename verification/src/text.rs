//! Text of a rendered line: indentation, decimal numbers, decoded and escaped spans.

use vstd::prelude::*;
use vstd::std_specs::iter::IteratorSpec;
use vstd::string::StringSliceAdditionalSpecFns;
use vstd::utf8::*;

verus! {

/// `String::push` of the standard library appends one character to the end of the
/// string and leaves what was there before unchanged.
pub assume_specification[ String::push ](s: &mut String, ch: char)
    ensures
        final(s)@ == old(s)@.push(ch),
;

/// What each of the strings in `lines` holds, in the same order.
pub open spec fn strings(lines: Seq<String>) -> Seq<Seq<char>> {
    lines.map_values(|line: String| line@)
}

/// What a newline-free rendering writes for one character: a newline becomes a
/// backslash followed by the letter `n`, any other character stays as it is.
pub open spec fn escaped_char(c: char) -> Seq<char> {
    if c == '\n' {
        seq!['\\', 'n']
    } else {
        seq![c]
    }
}

/// `text` with every newline replaced by the two characters backslash and `n`.
pub open spec fn escape_newlines(text: Seq<char>) -> Seq<char>
    decreases text.len(),
{
    if text.len() == 0 {
        Seq::empty()
    } else {
        escape_newlines(text.drop_last()) + escaped_char(text.last())
    }
}

/// Replaces every newline in `text` by the two characters backslash and `n`.
pub fn escape_text(text: &str) -> (out: String)
    ensures
        out@ == escape_newlines(text@),
{
    let mut out = String::new();
    for c in it: text.chars()
        invariant
            it.seq() == text@,
            out@ == escape_newlines(text@.take(it.index() as int)),
    {
        proof {
            let done = text@.take(it.index() as int + 1);
            assert(done.drop_last() == text@.take(it.index() as int));
            assert(done.last() == c);
        }
        if c == '\n' {
            out.push('\\');
            out.push('n');
        } else {
            out.push(c);
        }
    }
    proof {
        assert(text@.take(text@.len() as int) == text@);
    }
    out
}

/// The three characters written in place of a span that is not valid UTF-8.
pub open spec fn placeholder() -> Seq<char> {
    seq!['<', '?', '>']
}

/// The placeholder as a string.
pub fn placeholder_text() -> (out: String)
    ensures
        out@ == placeholder(),
{
    proof {
        reveal_strlit("<?>");
    }
    let out = String::from_str("<?>");
    assert(out@ =~= placeholder());
    out
}

/// `core::str::Utf8Error` of the standard library: why a byte slice is not UTF-8.
#[verifier::external_type_specification]
#[verifier::external_body]
pub struct ExUtf8Error(core::str::Utf8Error);

/// `core::str::from_utf8` of the standard library succeeds exactly on byte slices
/// that are valid UTF-8, and the string slice it returns is then made of the same
/// bytes.
pub assume_specification[ core::str::from_utf8 ](v: &[u8]) -> (res: Result<
    &str,
    core::str::Utf8Error,
>)
    ensures
        res is Ok <==> valid_utf8(v@),
        res is Ok ==> res->Ok_0.spec_bytes() == v@,
;

/// A span of the source buffer that does not hold valid UTF-8.
#[derive(Clone, Copy, Debug, PartialEq, Eq)]
pub struct TextDecodeError {
    /// Byte offset at which the span starts.
    pub start_byte: usize,
    /// Byte offset just past the span.
    pub end_byte: usize,
}

/// The bytes of `source` from offset `start` up to, not including, offset `end`.
pub open spec fn span_bytes(source: Seq<u8>, start: nat, end: nat) -> Seq<u8>
    recommends
        start <= end <= source.len(),
{
    source.subrange(start as int, end as int)
}

/// Decodes the bytes of `source` between `start` and `end` as UTF-8.
pub fn decode_span(source: &[u8], start: usize, end: usize) -> (res: Result<
    &str,
    TextDecodeError,
>)
    requires
        start <= end <= source@.len(),
    ensures
        res is Ok <==> valid_utf8(span_bytes(source@, start as nat, end as nat)),
        res is Ok ==> res->Ok_0@ == decode_utf8(span_bytes(source@, start as nat, end as nat)),
        res is Err ==> res->Err_0 == (TextDecodeError { start_byte: start, end_byte: end }),
{
    let bytes = vstd::slice::slice_subrange(source, start, end);
    match core::str::from_utf8(bytes) {
        Ok(text) => {
            proof {
                encode_utf8_decode_utf8(text@);
            }
            Ok(text)
        },
        Err(_) => Err(TextDecodeError { start_byte: start, end_byte: end }),
    }
}

/// The text reported for the span from `start` to `end` of `source`: its characters
/// with newlines escaped where the bytes are valid UTF-8, the placeholder where
/// they are not.
pub open spec fn span_text(source: Seq<u8>, start: nat, end: nat) -> Seq<char>
    recommends
        start <= end <= source.len(),
{
    let bytes = span_bytes(source, start, end);
    if valid_utf8(bytes) {
        escape_newlines(decode_utf8(bytes))
    } else {
        placeholder()
    }
}

/// Text reported for a node that spans the bytes from `start` to `end` of `source`.
pub fn node_text(source: &[u8], start: usize, end: usize) -> (out: String)
    requires
        start <= end <= source@.len(),
    ensures
        out@ == span_text(source@, start as nat, end as nat),
{
    match decode_span(source, start, end) {
        Ok(text) => escape_text(text),
        Err(_) => placeholder_text(),
    }
}

/// The character that stands for the decimal digit `d`.
pub open spec fn digit_char(d: nat) -> char
    recommends
        d < 10,
{
    seq!['0', '1', '2', '3', '4', '5', '6', '7', '8', '9'][d as int]
}

/// `n` written in base ten, without sign and without leading zeros.
pub open spec fn decimal(n: nat) -> Seq<char>
    decreases n,
{
    if n < 10 {
        seq![digit_char(n)]
    } else {
        decimal(n / 10).push(digit_char(n % 10))
    }
}

fn digit(d: usize) -> (c: char)
    requires
        d < 10,
    ensures
        c == digit_char(d as nat),
{
    if d == 0 {
        '0'
    } else if d == 1 {
        '1'
    } else if d == 2 {
        '2'
    } else if d == 3 {
        '3'
    } else if d == 4 {
        '4'
    } else if d == 5 {
        '5'
    } else if d == 6 {
        '6'
    } else if d == 7 {
        '7'
    } else if d == 8 {
        '8'
    } else {
        '9'
    }
}

/// Appends `n`, written in base ten, to `out`.
pub fn push_decimal(out: &mut String, n: usize)
    ensures
        final(out)@ == old(out)@ + decimal(n as nat),
    decreases n,
{
    if n >= 10 {
        push_decimal(out, n / 10);
    }
    out.push(digit(n % 10));
    assert(final(out)@ =~= old(out)@ + decimal(n as nat));
}

/// The blanks written in front of a line at nesting depth `depth`: two for each level.
pub open spec fn indentation(depth: nat) -> Seq<char> {
    Seq::new(2 * depth, |i: int| ' ')
}

/// Appends the indentation of nesting depth `depth` to `out`.
pub fn push_indentation(out: &mut String, depth: usize)
    ensures
        final(out)@ == old(out)@ + indentation(depth as nat),
{
    let mut level: usize = 0;
    while level < depth
        invariant
            level <= depth,
            out@ == old(out)@ + indentation(level as nat),
        decreases depth - level,
    {
        out.push(' ');
        out.push(' ');
        level += 1;
        assert(out@ =~= old(out)@ + indentation(level as nat));
    }
}

} // verus!
