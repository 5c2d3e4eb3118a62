//! Compiling the pattern of a run into its two matchers.

use vstd::prelude::*;
use vstd::string::*;
use crate::engine::{byte_regex, compile_bytes, compile_text, text_regex};
use crate::options::Options;

verus! {

/// The two matchers of a run: one for lines of text, one for raw bytes.
/// Both come from the same pattern.
#[derive(Debug)]
pub struct Matchers {
    /// Searches decoded text.
    pub text: regex::Regex,
    /// Searches the bytes of files that are not text.
    pub bytes: regex::bytes::Regex,
}

/// Why a pattern gave no matchers.
#[derive(Debug)]
pub enum CompileError {
    /// The pattern is no valid expression over text.
    Text(regex::Error),
    /// The pattern is valid over text but not over bytes.
    Bytes(regex::Error),
}

/// The expression that is compiled for a pattern: the pattern itself, with
/// the inline flag for case-insensitive matching in front where asked for.
pub open spec fn effective_pattern(pattern: Seq<char>, case_insensitive: bool) -> Seq<char> {
    if case_insensitive {
        "(?i)"@ + pattern
    } else {
        pattern
    }
}

/// Builds the expression to compile for `pattern`.
pub fn pattern_source(pattern: &str, case_insensitive: bool) -> (source: String)
    ensures
        source@ == effective_pattern(pattern@, case_insensitive),
{
    let mut source = String::new();
    if case_insensitive {
        source.append("(?i)");
    }
    source.append(pattern);
    assert(Seq::<char>::empty() + pattern@ =~= pattern@);
    source
}

/// Whether `compiled` is what compiling `source` gives: both matchers when
/// both compile, else the error of the text matcher if it fails, else the
/// error of the byte matcher.
pub open spec fn compiled_from(source: Seq<char>, compiled: Result<Matchers, CompileError>)
    -> bool {
    match compiled {
        Ok(matchers) => text_regex(source) == Ok::<regex::Regex, regex::Error>(matchers.text)
            && byte_regex(source) == Ok::<regex::bytes::Regex, regex::Error>(matchers.bytes),
        Err(CompileError::Text(error)) => text_regex(source) == Err::<
            regex::Regex,
            regex::Error,
        >(error),
        Err(CompileError::Bytes(error)) => text_regex(source) is Ok && byte_regex(source)
            == Err::<regex::bytes::Regex, regex::Error>(error),
    }
}

/// Compiling the same expression twice gives the same matchers, or the
/// same error.
pub proof fn lemma_compile_repeats(
    source: Seq<char>,
    first: Result<Matchers, CompileError>,
    second: Result<Matchers, CompileError>,
)
    requires
        compiled_from(source, first),
        compiled_from(source, second),
    ensures
        first == second,
{
}

impl Matchers {
    /// Compiles the pattern of `options` into both matchers. Fails with the
    /// text matcher's error if the pattern is no valid expression over text,
    /// else with the byte matcher's error if it is none over bytes.
    pub fn compile(options: &Options) -> (compiled: Result<Matchers, CompileError>)
        ensures
            compiled_from(
                effective_pattern(options.pattern@, options.case_insensitive),
                compiled,
            ),
    {
        let source = pattern_source(options.pattern.as_str(), options.case_insensitive);
        let text = match compile_text(source.as_str()) {
            Ok(text) => text,
            Err(error) => {
                return Err(CompileError::Text(error));
            },
        };
        match compile_bytes(source.as_str()) {
            Ok(bytes) => Ok(Matchers { text, bytes }),
            Err(error) => Err(CompileError::Bytes(error)),
        }
    }
}

} // verus!
