//! The file scanner: what is reported for one file, given what reading it
//! brought.

use vstd::prelude::*;
use vstd::string::*;
use vstd::utf8::*;
use crate::encoding::{decode_text, lemma_str_bytes};
use crate::engine::{bytes_is_match, is_match_bytes, is_match_text, text_is_match};
use crate::lines::lines_of;
use crate::options::Options;
use crate::search::{plain_reports_of, reports_of, search_text, selected_lines, texts_of};

verus! {

/// What reading a file brought.
#[derive(Debug)]
pub enum FileRead {
    /// The file could not be opened; the system's reason.
    Unopened(String),
    /// The file was opened but its bytes could not all be read.
    Unread,
    /// All bytes of the file.
    Content(Vec<u8>),
}

/// What is reported for one file.
#[derive(Debug)]
pub enum FileReport {
    /// Lines for standard output, in order; there may be none.
    Lines(Vec<String>),
    /// One line for standard error; the file was skipped.
    Failure(String),
}

/// A file report as plain values.
pub enum FileReportView {
    /// Lines for standard output.
    Lines(Seq<Seq<char>>),
    /// One line for standard error.
    Failure(Seq<char>),
}

impl View for FileReport {
    type V = FileReportView;

    open spec fn view(&self) -> FileReportView {
        match self {
            FileReport::Lines(lines) => FileReportView::Lines(texts_of(lines@)),
            FileReport::Failure(line) => FileReportView::Failure(line@),
        }
    }
}

/// The line that reports a file that could not be opened.
pub open spec fn unopened_notice(path: Seq<char>, reason: Seq<char>) -> Seq<char> {
    path + ": "@ + reason
}

/// The line that reports a file whose bytes could not be read.
pub open spec fn unread_notice(path: Seq<char>) -> Seq<char> {
    path + ": binary file cannot read to vec"@
}

/// The line that reports a match in a binary file.
pub open spec fn binary_notice(path: Seq<char>) -> Seq<char> {
    path + ": binary file matches"@
}

/// Whether content is text: whether all of it decodes as UTF-8.
pub open spec fn is_text(bytes: Seq<u8>) -> bool {
    valid_utf8(bytes)
}

/// The lines reported for the content of a file.
///
/// Text is searched line by line, but only if the matcher finds a match
/// somewhere in the whole text; otherwise nothing is reported, in inverted
/// mode too. Content that is not text is never shown: it gives one notice
/// if the byte matcher finds a match in it, and nothing otherwise.
pub open spec fn content_lines(
    path: Seq<char>,
    bytes: Seq<u8>,
    re: regex::Regex,
    re_bytes: regex::bytes::Regex,
    invert: bool,
    num_files: int,
) -> Seq<Seq<char>> {
    if is_text(bytes) {
        let text = decode_utf8(bytes);
        if text_is_match(re, text) {
            reports_of(re, lines_of(text), invert, num_files, Some(path))
        } else {
            seq![]
        }
    } else if bytes_is_match(re_bytes, bytes) {
        seq![binary_notice(path)]
    } else {
        seq![]
    }
}

/// What is reported for a file, by what reading it brought.
pub open spec fn file_report(
    path: Seq<char>,
    read: FileRead,
    re: regex::Regex,
    re_bytes: regex::bytes::Regex,
    invert: bool,
    num_files: int,
) -> FileReportView {
    match read {
        FileRead::Unopened(reason) => FileReportView::Failure(unopened_notice(path, reason@)),
        FileRead::Unread => FileReportView::Failure(unread_notice(path)),
        FileRead::Content(bytes) => FileReportView::Lines(
            content_lines(path, bytes@, re, re_bytes, invert, num_files),
        ),
    }
}

/// Content that is not text never has its lines shown: it gives the one
/// notice of a binary match when the byte matcher finds a match in it, and
/// nothing otherwise.
pub proof fn lemma_binary_content(
    path: Seq<char>,
    bytes: Seq<u8>,
    re: regex::Regex,
    re_bytes: regex::bytes::Regex,
    invert: bool,
    num_files: int,
)
    requires
        !is_text(bytes),
    ensures
        content_lines(path, bytes, re, re_bytes, invert, num_files).len() <= 1,
        bytes_is_match(re_bytes, bytes) <==> content_lines(
            path,
            bytes,
            re,
            re_bytes,
            invert,
            num_files,
        ) == seq![binary_notice(path)],
        !bytes_is_match(re_bytes, bytes) <==> content_lines(
            path,
            bytes,
            re,
            re_bytes,
            invert,
            num_files,
        ) == Seq::<Seq<char>>::empty(),
{
    assert(seq![binary_notice(path)].len() == 1);
}

/// Text in which the matcher finds no match anywhere gives no line, in
/// either mode; other text gives what the search of its lines gives, each
/// with the file's path where more than one file is searched.
pub proof fn lemma_text_content(
    path: Seq<char>,
    bytes: Seq<u8>,
    re: regex::Regex,
    re_bytes: regex::bytes::Regex,
    invert: bool,
    num_files: int,
)
    requires
        is_text(bytes),
    ensures
        !text_is_match(re, decode_utf8(bytes)) ==> content_lines(
            path,
            bytes,
            re,
            re_bytes,
            invert,
            num_files,
        ) == Seq::<Seq<char>>::empty(),
        text_is_match(re, decode_utf8(bytes)) ==> content_lines(
            path,
            bytes,
            re,
            re_bytes,
            invert,
            num_files,
        ) == reports_of(re, lines_of(decode_utf8(bytes)), invert, num_files, Some(path)),
{
}

/// Reporting twice on the same file, read the same way, with the same
/// matchers and settings gives the same report.
pub proof fn lemma_report_repeats(
    first: FileReport,
    second: FileReport,
    path: Seq<char>,
    read: FileRead,
    re: regex::Regex,
    re_bytes: regex::bytes::Regex,
    invert: bool,
    num_files: int,
)
    requires
        first@ == file_report(path, read, re, re_bytes, invert, num_files),
        second@ == file_report(path, read, re, re_bytes, invert, num_files),
    ensures
        first@ == second@,
{
}

/// Joins a path and the rest of a notice.
fn notice(path: &str, rest: &str) -> (line: String)
    ensures
        line@ == path@ + rest@,
{
    let mut line = String::new();
    line.append(path);
    line.append(rest);
    assert(Seq::<char>::empty() + path@ + rest@ =~= path@ + rest@);
    line
}

/// Classifies the content of a file as text or binary and searches it. In
/// plain mode, for text that the matcher matches somewhere, the report at
/// each place is the selected line at the same place with nothing but the
/// two highlight markers, and possibly the path, added.
pub fn search_content(
    path: &String,
    bytes: &[u8],
    re: &regex::Regex,
    re_bytes: &regex::bytes::Regex,
    num_files: usize,
    options: &Options,
) -> (out: Vec<String>)
    ensures
        texts_of(out@) == content_lines(
            path@,
            bytes@,
            *re,
            *re_bytes,
            options.invert_match,
            num_files as int,
        ),
        is_text(bytes@) && text_is_match(*re, decode_utf8(bytes@)) && !options.invert_match
            ==> plain_reports_of(
            texts_of(out@),
            selected_lines(*re, lines_of(decode_utf8(bytes@)), false),
            num_files as int,
            Some(path@),
        ),
{
    match decode_text(bytes) {
        Some(text) => {
            proof {
                lemma_str_bytes(text);
            }
            if is_match_text(re, text) {
                search_text(text, re, options, num_files, Some(path))
            } else {
                let out: Vec<String> = Vec::new();
                assert(texts_of(out@) =~= Seq::<Seq<char>>::empty());
                out
            }
        },
        None => {
            let mut out: Vec<String> = Vec::new();
            if is_match_bytes(re_bytes, bytes) {
                out.push(notice(path.as_str(), ": binary file matches"));
                assert(texts_of(out@) =~= seq![binary_notice(path@)]);
            } else {
                assert(texts_of(out@) =~= Seq::<Seq<char>>::empty());
            }
            out
        },
    }
}

/// Reports on one file: its failure if it could not be opened or read, else
/// what the search of its content gives.
pub fn search_file(
    path: &String,
    read: &FileRead,
    re: &regex::Regex,
    re_bytes: &regex::bytes::Regex,
    num_files: usize,
    options: &Options,
) -> (report: FileReport)
    ensures
        report@ == file_report(
            path@,
            *read,
            *re,
            *re_bytes,
            options.invert_match,
            num_files as int,
        ),
{
    match read {
        FileRead::Unopened(reason) => {
            let mut line = notice(path.as_str(), ": ");
            line.append(reason.as_str());
            FileReport::Failure(line)
        },
        FileRead::Unread => FileReport::Failure(
            notice(path.as_str(), ": binary file cannot read to vec"),
        ),
        FileRead::Content(bytes) => FileReport::Lines(
            search_content(path, bytes.as_slice(), re, re_bytes, num_files, options),
        ),
    }
}

} // verus!
