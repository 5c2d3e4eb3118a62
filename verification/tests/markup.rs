use rgrep::markup::{highlight, prefix_with_path};

#[test]
fn highlight_wraps_the_span() {
    assert_eq!(highlight("foo bar", 0, 3), "\x1b[31;1mfoo\x1b[0m bar");
    assert_eq!(highlight("a foo b", 2, 5), "a \x1b[31;1mfoo\x1b[0m b");
    assert_eq!(highlight("bar foo", 4, 7), "bar \x1b[31;1mfoo\x1b[0m");
}

#[test]
fn highlight_of_an_empty_span() {
    assert_eq!(highlight("abc", 0, 0), "\x1b[31;1m\x1b[0mabc");
    assert_eq!(highlight("abc", 3, 3), "abc\x1b[31;1m\x1b[0m");
    assert_eq!(highlight("", 0, 0), "\x1b[31;1m\x1b[0m");
}

#[test]
fn highlight_counts_bytes_of_wide_characters() {
    // 'α' and 'β' take two bytes each.
    assert_eq!(highlight("αβγ", 2, 4), "α\x1b[31;1mβ\x1b[0mγ");
}

#[test]
fn highlight_only_adds_the_markers() {
    let line = "one two three";
    let out = highlight(line, 4, 7);
    assert_eq!(out.replace("\x1b[31;1m", "").replace("\x1b[0m", ""), line);
    assert_eq!(out.len(), line.len() + "\x1b[31;1m".len() + "\x1b[0m".len());
}

#[test]
fn prefix_puts_the_coloured_path_in_front() {
    assert_eq!(prefix_with_path("a.txt", "foo"), "\x1b[35ma.txt\x1b[0m:foo");
    assert_eq!(prefix_with_path("", ""), "\x1b[35m\x1b[0m:");
}
