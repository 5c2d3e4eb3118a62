use rgrep::{search_content, search_file, FileRead, FileReport, Matchers, Options};

fn options(pattern: &str, invert_match: bool) -> Options {
    Options {
        pattern: pattern.to_string(),
        files: None,
        text: None,
        recursive: false,
        case_insensitive: false,
        invert_match,
    }
}

fn report(pattern: &str, invert: bool, path: &str, read: FileRead, num_files: usize) -> FileReport {
    let options = options(pattern, invert);
    let matchers = Matchers::compile(&options).unwrap();
    search_file(&path.to_string(), &read, &matchers.text, &matchers.bytes, num_files, &options)
}

fn lines(report: FileReport) -> Vec<String> {
    match report {
        FileReport::Lines(lines) => lines,
        FileReport::Failure(line) => panic!("unexpected failure: {}", line),
    }
}

fn failure(report: FileReport) -> String {
    match report {
        FileReport::Lines(lines) => panic!("unexpected lines: {:?}", lines),
        FileReport::Failure(line) => line,
    }
}

fn content(bytes: &[u8]) -> FileRead {
    FileRead::Content(bytes.to_vec())
}

#[test]
fn single_file_without_flags() {
    let out = lines(report("foo", false, "a.txt", content(b"foo bar\nbaz\nfoo\n"), 1));
    assert_eq!(out, vec!["\x1b[31;1mfoo\x1b[0m bar", "\x1b[31;1mfoo\x1b[0m"]);
}

#[test]
fn single_file_inverted() {
    let out = lines(report("foo", true, "a.txt", content(b"foo bar\nbaz\nfoo\n"), 1));
    assert_eq!(out, vec!["baz"]);
}

#[test]
fn two_files_are_told_apart_by_their_paths() {
    let a = lines(report("foo", false, "a.txt", content(b"foo bar\nbaz\nfoo\n"), 2));
    let b = lines(report("foo", false, "b.txt", content(b"a foo\n"), 2));
    assert_eq!(
        a,
        vec!["\x1b[35ma.txt\x1b[0m:\x1b[31;1mfoo\x1b[0m bar", "\x1b[35ma.txt\x1b[0m:\x1b[31;1mfoo\x1b[0m"]
    );
    assert_eq!(b, vec!["\x1b[35mb.txt\x1b[0m:a \x1b[31;1mfoo\x1b[0m"]);
    for line in a {
        assert!(line.starts_with("\x1b[35ma.txt\x1b[0m:"));
    }
}

#[test]
fn text_without_any_match_gives_nothing_in_either_mode() {
    assert_eq!(lines(report("foo", false, "a.txt", content(b"bar\nbaz\n"), 1)), Vec::<String>::new());
    assert_eq!(lines(report("foo", true, "a.txt", content(b"bar\nbaz\n"), 1)), Vec::<String>::new());
}

#[test]
fn the_whole_text_decides_before_the_lines_do() {
    // Without the multi-line flag `^` stands for the start of the text only.
    assert_eq!(lines(report("^foo", false, "a.txt", content(b"bar\nfoo\n"), 1)), Vec::<String>::new());
    assert_eq!(
        lines(report("^foo", false, "a.txt", content(b"foo\nbar\nfoo\n"), 1)),
        vec!["\x1b[31;1mfoo\x1b[0m", "\x1b[31;1mfoo\x1b[0m"]
    );
}

#[test]
fn empty_file_gives_nothing() {
    assert_eq!(lines(report("foo", false, "a.txt", content(b""), 1)), Vec::<String>::new());
    assert_eq!(lines(report("", true, "a.txt", content(b""), 1)), Vec::<String>::new());
}

#[test]
fn binary_file_with_a_match_gives_one_notice() {
    let out = lines(report("foo", false, "a.bin", content(b"\xff\xfefoo\nfoo\n"), 1));
    assert_eq!(out, vec!["a.bin: binary file matches"]);
    let out = lines(report("foo", true, "a.bin", content(b"\xff\xfefoo\nfoo\n"), 4));
    assert_eq!(out, vec!["a.bin: binary file matches"]);
}

#[test]
fn binary_file_without_a_match_gives_nothing() {
    assert_eq!(lines(report("foo", false, "a.bin", content(b"\xff\xfebar\n"), 1)), Vec::<String>::new());
    assert_eq!(lines(report("foo", true, "a.bin", content(b"\xff\xfebar\n"), 1)), Vec::<String>::new());
}

#[test]
fn truncated_character_makes_the_file_binary() {
    // The first two of the three bytes of a character.
    let out = lines(report("foo", false, "cut", content(b"foo \xe6\x97"), 1));
    assert_eq!(out, vec!["cut: binary file matches"]);
}

#[test]
fn text_with_wide_characters_is_text() {
    let out = lines(report("本", false, "jp.txt", content("日本語\nにほんご\n".as_bytes()), 1));
    assert_eq!(out, vec!["日\x1b[31;1m本\x1b[0m語"]);
}

#[test]
fn file_that_cannot_be_opened() {
    let read = FileRead::Unopened("No such file or directory (os error 2)".to_string());
    assert_eq!(
        failure(report("foo", false, "gone.txt", read, 1)),
        "gone.txt: No such file or directory (os error 2)"
    );
}

#[test]
fn file_that_cannot_be_read() {
    assert_eq!(
        failure(report("foo", false, "bad.txt", FileRead::Unread, 1)),
        "bad.txt: binary file cannot read to vec"
    );
}

#[test]
fn content_is_searched_under_the_given_count() {
    let options = options("a", false);
    let matchers = Matchers::compile(&options).unwrap();
    let path = "p".to_string();
    let one = search_content(&path, b"a\n", &matchers.text, &matchers.bytes, 1, &options);
    let two = search_content(&path, b"a\n", &matchers.text, &matchers.bytes, 2, &options);
    assert_eq!(one, vec!["\x1b[31;1ma\x1b[0m"]);
    assert_eq!(two, vec!["\x1b[35mp\x1b[0m:\x1b[31;1ma\x1b[0m"]);
}

#[test]
fn reporting_twice_gives_the_same_report() {
    let first = lines(report("o", false, "a.txt", content(b"foo bar\nbaz\nfoo\n"), 2));
    let second = lines(report("o", false, "a.txt", content(b"foo bar\nbaz\nfoo\n"), 2));
    assert_eq!(first, second);
}
