//! The line matcher: which lines of a text are reported, and in what form.

use vstd::prelude::*;
use vstd::string::*;
use crate::engine::{find_text, is_match_text, text_find, text_is_match};
use crate::lines::{lines_of, split_lines, views_of};
use crate::markup::{
    highlight,
    highlighted,
    colour_reset,
    is_highlight_of,
    lemma_highlight_only_adds,
    lemma_prefix_keeps_body,
    match_open,
    path_open,
    prefix_with_path,
    prefixed,
};
use crate::options::Options;

verus! {

/// Whether a line is reported: in plain mode when the matcher finds a match
/// in it, in inverted mode when it finds none.
pub open spec fn selected(re: regex::Regex, line: Seq<char>, invert: bool) -> bool {
    text_is_match(re, line) != invert
}

/// A reported line before any path is put in front: in plain mode the line
/// with the matcher's first match highlighted, in inverted mode the line as
/// it is.
pub open spec fn body_of(re: regex::Regex, line: Seq<char>, invert: bool) -> Seq<char> {
    if invert {
        line
    } else {
        match text_find(re, line) {
            Some((start, end)) => highlighted(line, start as int, end as int),
            None => line,
        }
    }
}

/// Whether reported lines carry the path: when more than one file is
/// searched and the path is known.
pub open spec fn shows_path(num_files: int, path: Option<Seq<char>>) -> bool {
    num_files > 1 && path is Some
}

/// A line body as it is reported, with or without the path in front.
pub open spec fn framed(body: Seq<char>, num_files: int, path: Option<Seq<char>>) -> Seq<char> {
    if shows_path(num_files, path) {
        prefixed(path->0, body)
    } else {
        body
    }
}

/// What is reported for one selected line.
pub open spec fn report_of(
    re: regex::Regex,
    line: Seq<char>,
    invert: bool,
    num_files: int,
    path: Option<Seq<char>>,
) -> Seq<char> {
    framed(body_of(re, line, invert), num_files, path)
}

/// What is reported for a list of lines: the reports of the selected ones,
/// in the order of the lines.
pub open spec fn reports_of(
    re: regex::Regex,
    lines: Seq<Seq<char>>,
    invert: bool,
    num_files: int,
    path: Option<Seq<char>>,
) -> Seq<Seq<char>>
    decreases lines.len(),
{
    if lines.len() == 0 {
        seq![]
    } else {
        let front = reports_of(re, lines.drop_last(), invert, num_files, path);
        if selected(re, lines.last(), invert) {
            front.push(report_of(re, lines.last(), invert, num_files, path))
        } else {
            front
        }
    }
}

/// The characters of each string of a list.
pub open spec fn texts_of(lines: Seq<String>) -> Seq<Seq<char>> {
    Seq::new(lines.len(), |i: int| lines[i]@)
}

/// The characters of a path that may be absent.
pub open spec fn path_view(path: Option<&String>) -> Option<Seq<char>> {
    match path {
        Some(path) => Some(path@),
        None => None,
    }
}

/// Whether `report` is `line` with a span highlighted, with or without the
/// path in front.
pub open spec fn is_plain_report_of(
    report: Seq<char>,
    line: Seq<char>,
    num_files: int,
    path: Option<Seq<char>>,
) -> bool {
    exists|body: Seq<char>|
        is_highlight_of(body, line) && report == #[trigger] framed(body, num_files, path)
}

/// The lines that are reported, in the order of the text.
pub open spec fn selected_lines(re: regex::Regex, lines: Seq<Seq<char>>, invert: bool) -> Seq<
    Seq<char>,
>
    decreases lines.len(),
{
    if lines.len() == 0 {
        seq![]
    } else {
        let front = selected_lines(re, lines.drop_last(), invert);
        if selected(re, lines.last(), invert) {
            front.push(lines.last())
        } else {
            front
        }
    }
}

/// Whether `out` holds one report for each line of `lines`, in order, each
/// being its line with a span highlighted, with or without the path in
/// front.
pub open spec fn plain_reports_of(
    out: Seq<Seq<char>>,
    lines: Seq<Seq<char>>,
    num_files: int,
    path: Option<Seq<char>>,
) -> bool {
    &&& out.len() == lines.len()
    &&& forall|i: int|
        0 <= i < out.len() ==> #[trigger] is_plain_report_of(out[i], lines[i], num_files, path)
}

/// The reports follow the selection: there is one report for each selected
/// line, and the report at each place is that of the selected line at the
/// same place.
pub proof fn lemma_reports_follow_selection(
    re: regex::Regex,
    lines: Seq<Seq<char>>,
    invert: bool,
    num_files: int,
    path: Option<Seq<char>>,
)
    ensures
        reports_of(re, lines, invert, num_files, path).len() == selected_lines(
            re,
            lines,
            invert,
        ).len(),
        forall|i: int|
            0 <= i < selected_lines(re, lines, invert).len() ==> #[trigger] reports_of(
                re,
                lines,
                invert,
                num_files,
                path,
            )[i] == report_of(re, selected_lines(re, lines, invert)[i], invert, num_files, path),
        forall|i: int|
            0 <= i < selected_lines(re, lines, invert).len() ==> selected(
                re,
                #[trigger] selected_lines(re, lines, invert)[i],
                invert,
            ),
    decreases lines.len(),
{
    if lines.len() > 0 {
        lemma_reports_follow_selection(re, lines.drop_last(), invert, num_files, path);
    }
}

/// What stands in front of a reported line: the coloured path and a colon
/// where the path is shown, else nothing.
pub open spec fn lead_of(num_files: int, path: Option<Seq<char>>) -> Seq<char> {
    if shows_path(num_files, path) {
        path_open() + path->0 + colour_reset() + seq![':']
    } else {
        seq![]
    }
}

/// A line reported in plain mode holds every character of the line it
/// reports and more: it is the lead, then the line cut in three with the
/// opening marker behind the first part and the closing marker behind the
/// second. Taking out the lead and the two markers gives the line back.
pub proof fn lemma_plain_report_keeps_line(
    report: Seq<char>,
    line: Seq<char>,
    num_files: int,
    path: Option<Seq<char>>,
)
    requires
        is_plain_report_of(report, line, num_files, path),
    ensures
        exists|before: Seq<char>, middle: Seq<char>, after: Seq<char>|
            #![trigger before + middle + after]
            line == before + middle + after && report == lead_of(num_files, path) + before
                + match_open() + middle + colour_reset() + after,
        report.len() > line.len(),
{
    let body = choose|body: Seq<char>|
        is_highlight_of(body, line) && report == #[trigger] framed(body, num_files, path);
    lemma_highlight_only_adds(body, line);
    let (before, middle, after) = choose|before: Seq<char>, middle: Seq<char>, after: Seq<char>|
        #![trigger before + middle + after]
        line == before + middle + after && body == before + match_open() + middle
            + colour_reset() + after;
    assert(report =~= lead_of(num_files, path) + before + match_open() + middle + colour_reset()
        + after);
    assert(line == before + middle + after && report == lead_of(num_files, path) + before
        + match_open() + middle + colour_reset() + after);
}

/// The path is in front of a reported line exactly when more than one file
/// is searched and the path is known; a single file and a text without a
/// path never show one.
pub proof fn lemma_path_shown(body: Seq<char>, num_files: int, path: Option<Seq<char>>)
    ensures
        shows_path(num_files, path) ==> framed(body, num_files, path) == prefixed(path->0, body),
        !shows_path(num_files, path) ==> framed(body, num_files, path) == body,
        shows_path(num_files, path) <==> framed(body, num_files, path) != body,
        num_files <= 1 || path is None ==> framed(body, num_files, path) == body,
{
    if shows_path(num_files, path) {
        lemma_prefix_keeps_body(path->0, body);
    }
}

/// The two modes split the lines between them: a line is reported in plain
/// mode exactly when the matcher matches it and in inverted mode exactly
/// when it does not, so every line is reported in one mode and not in the
/// other, and the two reports together have as many lines as the text.
pub proof fn lemma_modes_partition(
    re: regex::Regex,
    lines: Seq<Seq<char>>,
    num_files: int,
    path: Option<Seq<char>>,
)
    ensures
        forall|line: Seq<char>| #[trigger]
            selected(re, line, false) == text_is_match(re, line),
        forall|line: Seq<char>| #[trigger]
            selected(re, line, true) == !text_is_match(re, line),
        forall|line: Seq<char>| #[trigger]
            selected(re, line, false) != selected(re, line, true),
        reports_of(re, lines, false, num_files, path).len() + reports_of(
            re,
            lines,
            true,
            num_files,
            path,
        ).len() == lines.len(),
    decreases lines.len(),
{
    if lines.len() > 0 {
        lemma_modes_partition(re, lines.drop_last(), num_files, path);
    }
}

/// No list of lines gives more reported lines than it has lines.
pub proof fn lemma_reports_bounded(
    re: regex::Regex,
    lines: Seq<Seq<char>>,
    invert: bool,
    num_files: int,
    path: Option<Seq<char>>,
)
    ensures
        reports_of(re, lines, invert, num_files, path).len() <= lines.len(),
    decreases lines.len(),
{
    if lines.len() > 0 {
        lemma_reports_bounded(re, lines.drop_last(), invert, num_files, path);
    }
}

/// Searching the same text with the same matcher and settings twice gives
/// the same lines.
pub proof fn lemma_search_repeats(
    first: Seq<String>,
    second: Seq<String>,
    re: regex::Regex,
    text: Seq<char>,
    invert: bool,
    num_files: int,
    path: Option<Seq<char>>,
)
    requires
        texts_of(first) == reports_of(re, lines_of(text), invert, num_files, path),
        texts_of(second) == reports_of(re, lines_of(text), invert, num_files, path),
    ensures
        first.len() == second.len(),
        forall|i: int| 0 <= i < first.len() ==> first[i]@ == second[i]@,
{
    assert(texts_of(first).len() == first.len());
    assert(texts_of(second).len() == second.len());
    assert forall|i: int| 0 <= i < first.len() implies first[i]@ == second[i]@ by {
        assert(texts_of(first)[i] == first[i]@);
        assert(texts_of(second)[i] == second[i]@);
    }
}

/// Puts the path in front of `body` where reported lines carry it.
pub fn frame(body: String, num_files: usize, path: Option<&String>) -> (out: String)
    ensures
        out@ == framed(body@, num_files as int, path_view(path)),
{
    if num_files > 1 {
        match path {
            Some(path) => prefix_with_path(path.as_str(), body.as_str()),
            None => body,
        }
    } else {
        body
    }
}

/// Decides on one line: `None` when it is not reported, else its report.
pub fn report_line(
    line: &str,
    re: &regex::Regex,
    invert: bool,
    num_files: usize,
    path: Option<&String>,
) -> (report: Option<String>)
    ensures
        report is Some <==> selected(*re, line@, invert),
        report matches Some(out) ==> out@ == report_of(
            *re,
            line@,
            invert,
            num_files as int,
            path_view(path),
        ),
        report matches Some(out) ==> !invert ==> is_plain_report_of(
            out@,
            line@,
            num_files as int,
            path_view(path),
        ),
{
    let matches = is_match_text(re, line);
    if matches && !invert {
        let body = match find_text(re, line) {
            Some((start, end)) => highlight(line, start, end),
            None => line.to_owned(),
        };
        assert(is_highlight_of(body@, line@));
        Some(frame(body, num_files, path))
    } else if !matches && invert {
        Some(frame(line.to_owned(), num_files, path))
    } else {
        None
    }
}

/// Searches `text` line by line and returns the lines to print, in order.
///
/// In plain mode a line is reported when `re` matches it, with the first
/// match highlighted; in inverted mode when `re` does not match it, as it
/// is. The path goes in front of each reported line when `num_files` is more
/// than one and a path is given. In plain mode the report at each place is
/// the selected line at the same place with nothing but the two highlight
/// markers, and possibly the path, added.
pub fn search_text(
    text: &str,
    re: &regex::Regex,
    options: &Options,
    num_files: usize,
    path: Option<&String>,
) -> (out: Vec<String>)
    ensures
        texts_of(out@) == reports_of(
            *re,
            lines_of(text@),
            options.invert_match,
            num_files as int,
            path_view(path),
        ),
        !options.invert_match ==> plain_reports_of(
            texts_of(out@),
            selected_lines(*re, lines_of(text@), false),
            num_files as int,
            path_view(path),
        ),
{
    let lines = split_lines(text);
    let mut out: Vec<String> = Vec::new();
    let mut i: usize = 0;
    assert(views_of(lines@).subrange(0, 0) =~= Seq::<Seq<char>>::empty());
    assert(texts_of(out@) =~= Seq::<Seq<char>>::empty());
    while i < lines.len()
        invariant
            i <= lines@.len(),
            views_of(lines@) == lines_of(text@),
            texts_of(out@) == reports_of(
                *re,
                views_of(lines@).subrange(0, i as int),
                options.invert_match,
                num_files as int,
                path_view(path),
            ),
            !options.invert_match ==> plain_reports_of(
                texts_of(out@),
                selected_lines(*re, views_of(lines@).subrange(0, i as int), false),
                num_files as int,
                path_view(path),
            ),
        decreases lines@.len() - i,
    {
        let ghost before = out@;
        let ghost done = views_of(lines@).subrange(0, i as int);
        let ghost next = views_of(lines@).subrange(0, i + 1);
        assert(next.drop_last() =~= done);
        assert(next.last() == lines@[i as int]@);
        match report_line(lines[i], re, options.invert_match, num_files, path) {
            Some(report) => {
                out.push(report);
                assert(texts_of(out@) =~= texts_of(before).push(report@));
                assert forall|k: int| 0 <= k < out@.len() && !options.invert_match implies
                    #[trigger] is_plain_report_of(
                    texts_of(out@)[k],
                    selected_lines(*re, next, false)[k],
                    num_files as int,
                    path_view(path),
                ) by {
                    if k < before.len() {
                        assert(texts_of(out@)[k] == texts_of(before)[k]);
                        assert(selected_lines(*re, next, false)[k] == selected_lines(
                            *re,
                            done,
                            false,
                        )[k]);
                    }
                }
            },
            None => {},
        }
        i += 1;
    }
    assert(views_of(lines@).subrange(0, i as int) =~= views_of(lines@));
    out
}

/// Searches a text that comes from no file, such as standard input: as one
/// source, so that no reported line carries a path.
pub fn search_input(text: &str, re: &regex::Regex, options: &Options) -> (out: Vec<String>)
    ensures
        texts_of(out@) == reports_of(
            *re,
            lines_of(text@),
            options.invert_match,
            1,
            None::<Seq<char>>,
        ),
        !options.invert_match ==> plain_reports_of(
            texts_of(out@),
            selected_lines(*re, lines_of(text@), false),
            1,
            None::<Seq<char>>,
        ),
{
    search_text(text, re, options, 1, None)
}

} // verus!
