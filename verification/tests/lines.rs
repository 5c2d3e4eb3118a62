use rgrep::lines::split_lines;

fn check(text: &str) {
    let expected: Vec<&str> = text.lines().collect();
    assert_eq!(split_lines(text), expected, "text {:?}", text);
}

#[test]
fn lines_of_empty_text() {
    assert_eq!(split_lines(""), Vec::<&str>::new());
}

#[test]
fn lines_without_final_newline() {
    assert_eq!(split_lines("foo bar\nbaz\nfoo"), vec!["foo bar", "baz", "foo"]);
}

#[test]
fn final_newline_adds_no_line() {
    assert_eq!(split_lines("foo bar\nbaz\nfoo\n"), vec!["foo bar", "baz", "foo"]);
}

#[test]
fn empty_lines_are_kept() {
    assert_eq!(split_lines("\n"), vec![""]);
    assert_eq!(split_lines("a\n\nb\n\n"), vec!["a", "", "b", ""]);
}

#[test]
fn carriage_return_before_newline_is_stripped() {
    assert_eq!(split_lines("a\r\nb\r\n"), vec!["a", "b"]);
    assert_eq!(split_lines("\r\n"), vec![""]);
    assert_eq!(split_lines("a\r\r\n"), vec!["a\r"]);
}

#[test]
fn lone_carriage_return_stays() {
    assert_eq!(split_lines("a\rb\nc"), vec!["a\rb", "c"]);
    assert_eq!(split_lines("a\r"), vec!["a\r"]);
    assert_eq!(split_lines("a\n\r"), vec!["a", "\r"]);
}

#[test]
fn lines_with_wide_characters() {
    assert_eq!(split_lines("α\nβγ\r\n日本語\n😀"), vec!["α", "βγ", "日本語", "😀"]);
}

#[test]
fn lines_agree_with_the_standard_library() {
    for text in [
        "",
        "\n",
        "\r",
        "\r\n",
        "\n\n",
        "a",
        "a\n",
        "a\r\n",
        "a\n\r\n",
        "a\r\nb",
        "\r\r\n\r",
        "x\ny\r",
        "é\r\nü\n",
        "tab\there\n  spaces  \n",
    ] {
        check(text);
    }
}
