//! Facts about UTF-8 that tie byte offsets in a string to its characters.

use vstd::prelude::*;
use vstd::string::StringSliceAdditionalSpecFns;
use vstd::utf8::*;

verus! {

/// `core::str::from_utf8`: the bytes as a string, if they are valid UTF-8.
/// The string then has exactly these bytes; bytes that are not valid UTF-8
/// give nothing.
#[verifier::external_body]
pub(crate) fn decode_text(bytes: &[u8]) -> (text: Option<&str>)
    ensures
        text is Some <==> valid_utf8(bytes@),
        text matches Some(decoded) ==> decoded.spec_bytes() == bytes@,
{
    core::str::from_utf8(bytes).ok()
}

/// The bytes of a string are valid UTF-8 and decode to its characters.
pub proof fn lemma_str_bytes(s: &str)
    ensures
        valid_utf8(s.spec_bytes()),
        decode_utf8(s.spec_bytes()) == s@,
{
    encode_utf8_valid_utf8(s@);
    encode_utf8_decode_utf8(s@);
}

/// A character boundary other than the start lies at or behind the end of
/// the first character, and is a boundary of what follows that character.
pub proof fn lemma_boundary_step(bytes: Seq<u8>, index: int)
    requires
        valid_utf8(bytes),
        is_char_boundary(bytes, index),
        index != 0,
    ensures
        bytes.len() > 0,
        0 < length_of_first_scalar(bytes) <= index <= bytes.len(),
        is_char_boundary(pop_first_scalar(bytes), index - length_of_first_scalar(bytes)),
{
    reveal_with_fuel(is_char_boundary, 2);
}

/// A boundary of a string is also a boundary of the part that starts at an
/// earlier boundary.
pub proof fn lemma_boundary_of_tail(bytes: Seq<u8>, start: int, end: int)
    requires
        valid_utf8(bytes),
        is_char_boundary(bytes, start),
        is_char_boundary(bytes, end),
        0 <= start <= end,
    ensures
        end <= bytes.len(),
        is_char_boundary(bytes.subrange(start, bytes.len() as int), end - start),
    decreases bytes.len(),
{
    if start == 0 {
        assert(bytes.subrange(0, bytes.len() as int) =~= bytes);
        if end != 0 {
            lemma_boundary_step(bytes, end);
        }
    } else {
        lemma_boundary_step(bytes, start);
        lemma_boundary_step(bytes, end);
        let k = length_of_first_scalar(bytes);
        let rest = pop_first_scalar(bytes);
        lemma_boundary_of_tail(rest, start - k, end - k);
        assert(rest.subrange(start - k, rest.len() as int) =~= bytes.subrange(
            start,
            bytes.len() as int,
        ));
    }
}

/// The three parts into which two boundaries cut a string: their bytes are
/// valid UTF-8 and their characters, put together, are the string's.
pub proof fn lemma_three_parts(bytes: Seq<u8>, start: int, end: int)
    requires
        valid_utf8(bytes),
        is_char_boundary(bytes, start),
        is_char_boundary(bytes, end),
        0 <= start <= end,
    ensures
        end <= bytes.len(),
        valid_utf8(bytes.subrange(0, start)),
        valid_utf8(bytes.subrange(start, end)),
        valid_utf8(bytes.subrange(end, bytes.len() as int)),
        decode_utf8(bytes) == decode_utf8(bytes.subrange(0, start)) + decode_utf8(
            bytes.subrange(start, end),
        ) + decode_utf8(bytes.subrange(end, bytes.len() as int)),
{
    let n = bytes.len() as int;
    lemma_boundary_of_tail(bytes, start, end);
    let tail = bytes.subrange(start, n);
    valid_utf8_split(bytes, start);
    decode_utf8_split(bytes, start);
    valid_utf8_split(tail, end - start);
    decode_utf8_split(tail, end - start);
    assert(tail.subrange(0, end - start) =~= bytes.subrange(start, end));
    assert(tail.subrange(end - start, tail.len() as int) =~= bytes.subrange(end, n));
}

/// An ASCII byte is its own character: it encodes to itself and decodes from
/// itself.
pub proof fn lemma_ascii_scalar(byte: u8)
    requires
        byte < 0x80,
    ensures
        encode_scalar(byte as u32) == seq![byte],
        codepoint_width_1(byte) == byte as u32,
        (byte as u32) as char as u32 == byte as u32,
{
    assert((byte as u32 & 0x7F) as u8 == byte) by (bit_vector)
        requires
            byte < 0x80,
    ;
    assert((byte & 0x7F) as u32 == byte as u32) by (bit_vector)
        requires
            byte < 0x80,
    ;
}

/// Where a valid UTF-8 string holds an ASCII byte, a character starts and
/// the next one starts right behind it; the string's characters are those in
/// front of the byte, the byte's own character, and those behind it.
pub proof fn lemma_ascii_at(bytes: Seq<u8>, index: int)
    requires
        valid_utf8(bytes),
        0 <= index < bytes.len(),
        bytes[index] < 0x80,
    ensures
        is_char_boundary(bytes, index),
        is_char_boundary(bytes, index + 1),
        is_char_boundary(bytes.subrange(index, bytes.len() as int), 1),
        valid_utf8(bytes.subrange(0, index)),
        valid_utf8(bytes.subrange(index + 1, bytes.len() as int)),
        decode_utf8(bytes) == decode_utf8(bytes.subrange(0, index)) + seq![
            (bytes[index] as u32) as char,
        ] + decode_utf8(bytes.subrange(index + 1, bytes.len() as int)),
{
    let n = bytes.len() as int;
    let tail = bytes.subrange(index, n);
    is_char_boundary_iff_not_is_continuation_byte(bytes, index);
    valid_utf8_split(bytes, index);
    decode_utf8_split(bytes, index);
    lemma_ascii_scalar(bytes[index]);
    assert(tail[0] == bytes[index]);
    assert(is_leading_byte_width_1(tail[0]));
    assert(pop_first_scalar(tail) =~= bytes.subrange(index + 1, n));
    assert(is_char_boundary(tail, 1)) by {
        reveal_with_fuel(is_char_boundary, 2);
    }
    assert(is_char_boundary(bytes, index + 1)) by {
        if index + 1 < n {
            reveal_with_fuel(valid_utf8, 2);
            let after = bytes.subrange(index + 1, n);
            assert(valid_first_scalar(after));
            assert(after[0] == bytes[index + 1]);
            is_char_boundary_iff_not_is_continuation_byte(bytes, index + 1);
        } else {
            is_char_boundary_start_end_of_seq(bytes);
        }
    }
}

/// An ASCII character of a string shows as its byte in the UTF-8 form.
pub proof fn lemma_ascii_char_has_byte(chars: Seq<char>, at: int, byte: u8)
    requires
        0 <= at < chars.len(),
        byte < 0x80,
        chars[at] as u32 == byte as u32,
    ensures
        exists|j: int| 0 <= j < encode_utf8(chars).len() && encode_utf8(chars)[j] == byte,
    decreases at,
{
    let head = encode_scalar(chars[0] as u32);
    let rest = encode_utf8(chars.drop_first());
    assert(encode_utf8(chars) == head + rest);
    if at == 0 {
        lemma_ascii_scalar(byte);
        assert((head + rest)[0] == byte);
    } else {
        lemma_ascii_char_has_byte(chars.drop_first(), at - 1, byte);
        let j = choose|j: int| 0 <= j < rest.len() && rest[j] == byte;
        assert((head + rest)[head.len() + j] == byte);
    }
}

/// A string that ends in an ASCII character ends in that character's byte.
pub proof fn lemma_ascii_last_byte(chars: Seq<char>, byte: u8)
    requires
        chars.len() > 0,
        byte < 0x80,
        chars.last() as u32 == byte as u32,
    ensures
        encode_utf8(chars).len() > 0,
        encode_utf8(chars).last() == byte,
    decreases chars.len(),
{
    let head = encode_scalar(chars[0] as u32);
    let rest = encode_utf8(chars.drop_first());
    assert(encode_utf8(chars) == head + rest);
    if chars.len() == 1 {
        lemma_ascii_scalar(byte);
        assert(rest =~= Seq::<u8>::empty());
        assert(head + rest =~= head);
    } else {
        assert(chars.drop_first().last() == chars.last());
        lemma_ascii_last_byte(chars.drop_first(), byte);
        assert((head + rest).last() == rest.last());
    }
}

} // verus!
