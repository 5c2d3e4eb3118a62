//! Cutting a text into lines.
//!
//! A line ends at a line feed, or at the end of the text. The line feed is
//! not part of the line, and neither is a carriage return right in front of
//! it. A text that ends in a line feed has no empty last line.

use vstd::prelude::*;
use vstd::string::StringSliceAdditionalSpecFns;
use vstd::utf8::*;
use crate::encoding::{
    lemma_ascii_at,
    lemma_ascii_char_has_byte,
    lemma_ascii_last_byte,
    lemma_str_bytes,
};

verus! {

/// The index of the first line feed in `text`, or its length if it has none.
pub open spec fn first_newline(text: Seq<char>) -> int
    decreases text.len(),
{
    if text.len() == 0 || text[0] == '\n' {
        0
    } else {
        1 + first_newline(text.drop_first())
    }
}

/// `line` without a carriage return at its end.
pub open spec fn without_return(line: Seq<char>) -> Seq<char> {
    if line.len() > 0 && line.last() == '\r' {
        line.drop_last()
    } else {
        line
    }
}

/// The lines of `text`, in order.
pub open spec fn lines_of(text: Seq<char>) -> Seq<Seq<char>>
    decreases text.len(),
{
    let k = first_newline(text);
    if text.len() == 0 {
        seq![]
    } else if 0 <= k < text.len() {
        seq![without_return(text.subrange(0, k))] + lines_of(
            text.subrange(k + 1, text.len() as int),
        )
    } else {
        seq![text]
    }
}

/// The characters of each string of a list.
pub open spec fn views_of(lines: Seq<&str>) -> Seq<Seq<char>> {
    Seq::new(lines.len(), |i: int| lines[i]@)
}

/// The first line feed is where a line feed stands with none in front of it.
pub proof fn lemma_first_newline(text: Seq<char>, k: int)
    requires
        0 <= k <= text.len(),
        forall|j: int| 0 <= j < k ==> text[j] != '\n',
        k < text.len() ==> text[k] == '\n',
    ensures
        first_newline(text) == k,
    decreases k,
{
    if k > 0 {
        lemma_first_newline(text.drop_first(), k - 1);
    }
}

/// No line holds a line feed.
pub proof fn lemma_lines_hold_no_newline(text: Seq<char>, i: int, j: int)
    requires
        0 <= i < lines_of(text).len(),
        0 <= j < lines_of(text)[i].len(),
    ensures
        lines_of(text)[i][j] != '\n',
    decreases text.len(),
{
    let k = first_newline(text);
    lemma_first_newline_bounds(text);
    if 0 <= k < text.len() {
        if i > 0 {
            lemma_lines_hold_no_newline(text.subrange(k + 1, text.len() as int), i - 1, j);
        }
    }
}

/// The first line feed lies within the text, has no line feed in front of
/// it, and is a line feed unless it is the end.
pub proof fn lemma_first_newline_bounds(text: Seq<char>)
    ensures
        0 <= first_newline(text) <= text.len(),
        forall|j: int| 0 <= j < first_newline(text) ==> text[j] != '\n',
        first_newline(text) < text.len() ==> text[first_newline(text)] == '\n',
    decreases text.len(),
{
    if text.len() == 0 || text[0] == '\n' {
    } else {
        let rest = text.drop_first();
        lemma_first_newline_bounds(rest);
        assert forall|j: int| 0 <= j < first_newline(text) implies text[j] != '\n' by {
            if j > 0 {
                assert(text[j] == rest[j - 1]);
            }
        }
    }
}

/// The offset of the first line-feed byte of `bytes`, or its length.
fn find_newline(bytes: &[u8]) -> (at: usize)
    ensures
        at <= bytes@.len(),
        forall|j: int| 0 <= j < at ==> bytes@[j] != 0x0Au8,
        at < bytes@.len() ==> bytes@[at as int] == 0x0Au8,
{
    let mut at: usize = 0;
    while at < bytes.len() && bytes[at] != 0x0A
        invariant
            at <= bytes@.len(),
            forall|j: int| 0 <= j < at ==> bytes@[j] != 0x0Au8,
        decreases bytes@.len() - at,
    {
        at += 1;
    }
    at
}

/// Characters decoded from bytes without a line-feed byte hold no line feed.
proof fn lemma_no_newline(bytes: Seq<u8>)
    requires
        valid_utf8(bytes),
        forall|j: int| 0 <= j < bytes.len() ==> bytes[j] != 0x0Au8,
    ensures
        forall|k: int| 0 <= k < decode_utf8(bytes).len() ==> decode_utf8(bytes)[k] != '\n',
{
    let chars = decode_utf8(bytes);
    decode_utf8_encode_utf8(bytes);
    assert forall|k: int| 0 <= k < chars.len() implies chars[k] != '\n' by {
        if chars[k] == '\n' {
            lemma_ascii_char_has_byte(chars, k, 0x0Au8);
        }
    }
}

/// A text that starts with a line, a line feed and more text has that line,
/// without its carriage return, in front of the lines of the rest.
proof fn lemma_cut_line(text: Seq<char>, line: Seq<char>, next: Seq<char>)
    requires
        text == line + seq!['\n'] + next,
        forall|k: int| 0 <= k < line.len() ==> line[k] != '\n',
    ensures
        lines_of(text) == seq![without_return(line)] + lines_of(next),
{
    let k = line.len() as int;
    lemma_first_newline(text, k);
    assert(text.subrange(0, k) =~= line);
    assert(text.subrange(k + 1, text.len() as int) =~= next);
}

/// A text without a line feed is its own single line, unless it is empty.
proof fn lemma_last_line(text: Seq<char>)
    requires
        text.len() > 0,
        forall|k: int| 0 <= k < text.len() ==> text[k] != '\n',
    ensures
        lines_of(text) == seq![text],
{
    lemma_first_newline(text, text.len() as int);
}

/// What is left of a line once a carriage-return byte at its end is cut off.
proof fn lemma_cut_return(line: &str, shown: &str)
    requires
        line.spec_bytes().len() > 0,
        line.spec_bytes().last() == 0x0Du8,
        shown.spec_bytes() == line.spec_bytes().subrange(0, line.spec_bytes().len() - 1),
    ensures
        shown@ == without_return(line@),
{
    let bytes = line.spec_bytes();
    let n = bytes.len() as int;
    lemma_str_bytes(line);
    lemma_str_bytes(shown);
    lemma_ascii_at(bytes, n - 1);
    assert(bytes.subrange(n, n) =~= Seq::<u8>::empty());
    assert(line@ =~= shown@ + seq!['\r']);
    assert(line@.drop_last() =~= shown@);
}

/// A line whose bytes do not end in a carriage-return byte keeps all its
/// characters.
proof fn lemma_keep_line(line: &str)
    requires
        line.spec_bytes().len() == 0 || line.spec_bytes().last() != 0x0Du8,
    ensures
        line@ == without_return(line@),
{
    if line@.len() > 0 && line@.last() == '\r' {
        lemma_ascii_last_byte(line@, 0x0Du8);
    }
}

/// The characters in front of and behind a line-feed byte of a string.
proof fn lemma_cut_at_newline(rest: &str, line: &str, next: &str, at: int)
    requires
        0 <= at < rest.spec_bytes().len(),
        rest.spec_bytes()[at] == 0x0Au8,
        forall|j: int| 0 <= j < at ==> rest.spec_bytes()[j] != 0x0Au8,
        line.spec_bytes() == rest.spec_bytes().subrange(0, at),
        next.spec_bytes() == rest.spec_bytes().subrange(at + 1, rest.spec_bytes().len() as int),
    ensures
        rest@ == line@ + seq!['\n'] + next@,
        forall|k: int| 0 <= k < line@.len() ==> line@[k] != '\n',
{
    lemma_str_bytes(rest);
    lemma_str_bytes(line);
    lemma_str_bytes(next);
    lemma_ascii_at(rest.spec_bytes(), at);
    lemma_no_newline(line.spec_bytes());
}

/// Cuts `text` into its lines. The lines borrow from `text`.
pub fn split_lines<'a>(text: &'a str) -> (lines: Vec<&'a str>)
    ensures
        views_of(lines@) == lines_of(text@),
{
    let mut lines: Vec<&'a str> = Vec::new();
    let mut rest: &'a str = text;
    assert(views_of(lines@) =~= Seq::<Seq<char>>::empty());
    loop
        invariant_except_break
            views_of(lines@) + lines_of(rest@) == lines_of(text@),
        ensures
            views_of(lines@) == lines_of(text@),
        decreases rest.spec_bytes().len(),
    {
        let bytes = rest.as_bytes();
        let ghost before = lines@;
        if bytes.len() == 0 {
            proof {
                lemma_str_bytes(rest);
                assert(rest@.len() == 0);
                assert(views_of(lines@) + lines_of(rest@) =~= views_of(lines@));
            }
            break ;
        }
        let at = find_newline(bytes);
        if at == bytes.len() {
            proof {
                lemma_str_bytes(rest);
                lemma_no_newline(bytes@);
                lemma_last_line(rest@);
            }
            lines.push(rest);
            assert(views_of(lines@) =~= views_of(before) + seq![rest@]);
            break ;
        }
        proof {
            lemma_str_bytes(rest);
            lemma_ascii_at(bytes@, at as int);
        }
        let (line, after) = rest.split_at(at);
        let (_, next) = after.split_at(1);
        assert(next.spec_bytes() =~= bytes@.subrange(at + 1, bytes@.len() as int));
        let ends_in_return = at > 0 && bytes[at - 1] == 0x0D;
        let shown = if ends_in_return {
            proof {
                lemma_str_bytes(line);
                lemma_ascii_at(line.spec_bytes(), at - 1);
            }
            let (kept, _) = line.split_at(at - 1);
            proof {
                lemma_cut_return(line, kept);
            }
            kept
        } else {
            proof {
                lemma_keep_line(line);
            }
            line
        };
        proof {
            lemma_cut_at_newline(rest, line, next, at as int);
            lemma_cut_line(rest@, line@, next@);
        }
        lines.push(shown);
        rest = next;
        assert(views_of(lines@) + lines_of(rest@) =~= views_of(before) + (seq![shown@]
            + lines_of(next@)));
    }
    lines
}

} // verus!
