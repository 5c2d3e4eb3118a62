//! The boundary to the `regex` crate: its types, names for what its calls
//! return, and one thin call per function used. Nothing in this file is
//! proved; every contract here is taken from the crate's documentation.

use vstd::prelude::*;
use crate::markup::span_fits;

verus! {

/// The matcher over Unicode text, `regex::Regex`, carried as an opaque value.
#[verifier::external_type_specification]
#[verifier::external_body]
pub struct ExTextRegex(regex::Regex);

/// The matcher over raw bytes, `regex::bytes::Regex`, carried as an opaque value.
#[verifier::external_type_specification]
#[verifier::external_body]
pub struct ExByteRegex(regex::bytes::Regex);

/// The error of a failed compilation, `regex::Error`, carried as an opaque value.
#[verifier::external_type_specification]
#[verifier::external_body]
pub struct ExRegexError(regex::Error);

/// What `regex::Regex::new` returns for a pattern. The crate counts the
/// size limit of a matcher in bytes of memory, so a pattern close to the
/// limit may compile under one word size and not under another: the name
/// speaks of one build of the library.
pub uninterp spec fn text_regex(pattern: Seq<char>) -> Result<regex::Regex, regex::Error>;

/// What `regex::bytes::Regex::new` returns for a pattern, in one build of
/// the library, as for the text matcher.
pub uninterp spec fn byte_regex(pattern: Seq<char>) -> Result<regex::bytes::Regex, regex::Error>;

/// What `regex::Regex::is_match` answers for a matcher and a haystack.
pub uninterp spec fn text_is_match(re: regex::Regex, haystack: Seq<char>) -> bool;

/// The byte offsets of the match that `regex::Regex::find` returns for a
/// matcher and a haystack, start first.
pub uninterp spec fn text_find(re: regex::Regex, haystack: Seq<char>) -> Option<(usize, usize)>;

/// What `regex::bytes::Regex::is_match` answers for a matcher and a haystack.
pub uninterp spec fn bytes_is_match(re: regex::bytes::Regex, haystack: Seq<u8>) -> bool;

/// `regex::Regex::new`: compiles a pattern with the crate's default
/// settings. Whether it succeeds, and the matcher it gives, depend on the
/// pattern alone.
#[verifier::external_body]
pub(crate) fn compile_text(pattern: &str) -> (compiled: Result<regex::Regex, regex::Error>)
    ensures
        compiled == text_regex(pattern@),
{
    regex::Regex::new(pattern)
}

/// `regex::bytes::Regex::new`: compiles a pattern for searching raw bytes,
/// with the crate's default settings. Whether it succeeds, and the matcher
/// it gives, depend on the pattern alone.
#[verifier::external_body]
pub(crate) fn compile_bytes(pattern: &str) -> (compiled: Result<
    regex::bytes::Regex,
    regex::Error,
>)
    ensures
        compiled == byte_regex(pattern@),
{
    regex::bytes::Regex::new(pattern)
}

/// `regex::Regex::is_match`: whether the matcher finds a match anywhere in
/// the haystack. The answer depends on the matcher and the haystack alone.
#[verifier::external_body]
pub(crate) fn is_match_text(re: &regex::Regex, haystack: &str) -> (found: bool)
    ensures
        found == text_is_match(*re, haystack@),
{
    re.is_match(haystack)
}

/// `regex::Regex::find`: the first match in the haystack, as the byte
/// offsets of its start and end. There is one exactly when `is_match` says
/// so; the start is not behind the end, and both fall between whole
/// characters of the haystack.
#[verifier::external_body]
pub(crate) fn find_text(re: &regex::Regex, haystack: &str) -> (span: Option<(usize, usize)>)
    ensures
        span == text_find(*re, haystack@),
        span is Some <==> text_is_match(*re, haystack@),
        span matches Some((start, end)) ==> span_fits(haystack@, start as int, end as int),
{
    match re.find(haystack) {
        Some(found) => Some((found.start(), found.end())),
        None => None,
    }
}

/// `regex::bytes::Regex::is_match`: whether the matcher finds a match
/// anywhere in the bytes. The answer depends on the matcher and the bytes
/// alone.
#[verifier::external_body]
pub(crate) fn is_match_bytes(re: &regex::bytes::Regex, haystack: &[u8]) -> (found: bool)
    ensures
        found == bytes_is_match(*re, haystack@),
{
    re.is_match(haystack)
}

} // verus!
