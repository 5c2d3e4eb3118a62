//! How a reported line is decorated: the colour markers round the matched
//! span and the path in front of the line.

use vstd::prelude::*;
use vstd::string::*;
use vstd::utf8::*;
use crate::encoding::{lemma_boundary_of_tail, lemma_str_bytes, lemma_three_parts};

verus! {

/// The marker that opens the highlighted span.
pub open spec fn match_open() -> Seq<char> {
    "\x1b[31;1m"@
}

/// The marker that opens the path in front of a line.
pub open spec fn path_open() -> Seq<char> {
    "\x1b[35m"@
}

/// The marker that ends a coloured stretch.
pub open spec fn colour_reset() -> Seq<char> {
    "\x1b[0m"@
}

/// Whether `start..end` is a span of whole characters of `line`, counted in
/// bytes of its UTF-8 form.
pub open spec fn span_fits(line: Seq<char>, start: int, end: int) -> bool {
    &&& 0 <= start <= end <= encode_utf8(line).len()
    &&& is_char_boundary(encode_utf8(line), start)
    &&& is_char_boundary(encode_utf8(line), end)
}

/// The characters of `line` in front of byte offset `at`.
pub open spec fn chars_before(line: Seq<char>, at: int) -> Seq<char> {
    decode_utf8(encode_utf8(line).subrange(0, at))
}

/// The characters of `line` between the byte offsets `start` and `end`.
pub open spec fn chars_between(line: Seq<char>, start: int, end: int) -> Seq<char> {
    decode_utf8(encode_utf8(line).subrange(start, end))
}

/// The characters of `line` from byte offset `at` on.
pub open spec fn chars_from(line: Seq<char>, at: int) -> Seq<char> {
    decode_utf8(encode_utf8(line).subrange(at, encode_utf8(line).len() as int))
}

/// `line` with the span `start..end` wrapped in the highlight markers.
pub open spec fn highlighted(line: Seq<char>, start: int, end: int) -> Seq<char> {
    chars_before(line, start) + match_open() + chars_between(line, start, end) + colour_reset()
        + chars_from(line, end)
}

/// `body` behind the coloured path and a colon.
pub open spec fn prefixed(path: Seq<char>, body: Seq<char>) -> Seq<char> {
    path_open() + path + colour_reset() + seq![':'] + body
}

/// Whether `body` is `line` with some span of whole characters highlighted.
pub open spec fn is_highlight_of(body: Seq<char>, line: Seq<char>) -> bool {
    exists|start: int, end: int|
        span_fits(line, start, end) && body == #[trigger] highlighted(line, start, end)
}

/// The two highlight markers are not empty.
pub proof fn lemma_markers_not_empty()
    ensures
        match_open().len() > 0,
        colour_reset().len() > 0,
        path_open().len() > 0,
{
    reveal_strlit("\x1b[31;1m");
    reveal_strlit("\x1b[0m");
    reveal_strlit("\x1b[35m");
}

/// The parts in front of, inside and behind a span of whole characters are
/// the line, and highlighting the span makes the line longer by the two
/// markers.
pub proof fn lemma_highlight_keeps_line(line: Seq<char>, start: int, end: int)
    requires
        span_fits(line, start, end),
    ensures
        chars_before(line, start) + chars_between(line, start, end) + chars_from(line, end)
            == line,
        highlighted(line, start, end).len() == line.len() + match_open().len()
            + colour_reset().len(),
        highlighted(line, start, end).len() > line.len(),
{
    encode_utf8_valid_utf8(line);
    encode_utf8_decode_utf8(line);
    lemma_three_parts(encode_utf8(line), start, end);
    lemma_markers_not_empty();
    assert((chars_before(line, start) + chars_between(line, start, end) + chars_from(
        line,
        end,
    )).len() == line.len());
}

/// Highlighting only adds: a highlighted line is the line cut in three with
/// the opening marker behind the first part and the closing marker behind
/// the second, so taking the two markers out gives the line back. It is
/// strictly longer than the line.
pub proof fn lemma_highlight_only_adds(body: Seq<char>, line: Seq<char>)
    requires
        is_highlight_of(body, line),
    ensures
        exists|before: Seq<char>, middle: Seq<char>, after: Seq<char>|
            #![trigger before + middle + after]
            line == before + middle + after && body == before + match_open() + middle
                + colour_reset() + after,
        body.len() > line.len(),
{
    let (start, end) = choose|start: int, end: int|
        span_fits(line, start, end) && body == #[trigger] highlighted(line, start, end);
    lemma_highlight_keeps_line(line, start, end);
    let before = chars_before(line, start);
    let middle = chars_between(line, start, end);
    let after = chars_from(line, end);
    assert(line == before + middle + after && body == before + match_open() + middle
        + colour_reset() + after);
}

/// A line behind its path is longer than the line and ends with it.
pub proof fn lemma_prefix_keeps_body(path: Seq<char>, body: Seq<char>)
    ensures
        prefixed(path, body).len() > body.len(),
        prefixed(path, body).subrange(
            prefixed(path, body).len() - body.len(),
            prefixed(path, body).len() as int,
        ) == body,
{
    lemma_markers_not_empty();
    let whole = prefixed(path, body);
    assert(whole.subrange(whole.len() - body.len(), whole.len() as int) =~= body);
}

/// Wraps the span `start..end` of `line`, given in bytes, in the highlight
/// markers.
pub fn highlight(line: &str, start: usize, end: usize) -> (out: String)
    requires
        span_fits(line@, start as int, end as int),
    ensures
        out@ == highlighted(line@, start as int, end as int),
{
    proof {
        lemma_str_bytes(line);
        lemma_three_parts(line.spec_bytes(), start as int, end as int);
        lemma_boundary_of_tail(line.spec_bytes(), start as int, end as int);
    }
    let (head, rest) = line.split_at(start);
    let (middle, tail) = rest.split_at(end - start);
    proof {
        let bytes = line.spec_bytes();
        lemma_str_bytes(head);
        lemma_str_bytes(rest);
        lemma_str_bytes(middle);
        lemma_str_bytes(tail);
        assert(rest.spec_bytes().subrange(0, end - start) =~= bytes.subrange(
            start as int,
            end as int,
        ));
        assert(rest.spec_bytes().subrange(end - start, rest.spec_bytes().len() as int)
            =~= bytes.subrange(end as int, bytes.len() as int));
    }
    let mut out = String::new();
    out.append(head);
    out.append("\x1b[31;1m");
    out.append(middle);
    out.append("\x1b[0m");
    out.append(tail);
    out
}

/// Puts the coloured path and a colon in front of `body`.
pub fn prefix_with_path(path: &str, body: &str) -> (out: String)
    ensures
        out@ == prefixed(path@, body@),
{
    let mut out = String::new();
    out.append("\x1b[35m");
    out.append(path);
    out.append("\x1b[0m");
    out.append(":");
    out.append(body);
    proof {
        reveal_strlit(":");
        assert(":"@ =~= seq![':']);
    }
    out
}

} // verus!
