use rgrep::Options;

#[test]
fn test_new() {
    let options = Options {
        pattern: String::new(),
        files: None,
        text: None,
        recursive: false,
        case_insensitive: false,
        invert_match: false,
    };
    assert_eq!(options.pattern, String::new());
    assert_eq!(options.files, None);
    assert_eq!(options.text, None);
    assert_eq!(options.recursive, false);
    assert_eq!(options.case_insensitive, false);
    assert_eq!(options.invert_match, false);
}

fn paths(names: &[&str]) -> Vec<String> {
    names.iter().map(|name| name.to_string()).collect()
}

#[test]
fn assemble_prefers_paths_over_text() {
    let options = Options::assemble(
        "foo".to_string(),
        paths(&["a.txt", "b.txt"]),
        "ignored".to_string(),
        true,
        false,
        true,
    );
    assert_eq!(options.pattern, "foo");
    assert_eq!(options.files, Some(paths(&["a.txt", "b.txt"])));
    assert_eq!(options.text, None);
    assert!(options.recursive);
    assert!(!options.case_insensitive);
    assert!(options.invert_match);
}

#[test]
fn assemble_takes_text_without_paths() {
    let options =
        Options::assemble("foo".to_string(), Vec::new(), "some text\n".to_string(), false, true, false);
    assert_eq!(options.files, None);
    assert_eq!(options.text, Some("some text\n".to_string()));
    assert!(options.case_insensitive);
}

#[test]
fn assemble_with_nothing_to_search() {
    let options = Options::assemble("foo".to_string(), Vec::new(), String::new(), false, false, false);
    assert_eq!(options.files, None);
    assert_eq!(options.text, Some(String::new()));
    match options.source() {
        rgrep::Source::Text(found) => assert_eq!(found, ""),
        _ => panic!("expected the empty text"),
    }
}

#[test]
fn exactly_one_source_is_present() {
    for (files, input) in [
        (Vec::new(), ""),
        (Vec::new(), "text"),
        (paths(&["a"]), ""),
        (paths(&["a", "b"]), "text"),
    ] {
        let options =
            Options::assemble("p".to_string(), files, input.to_string(), false, false, false);
        assert!(options.files.is_some() != options.text.is_some());
    }
}

#[test]
fn paths_win_over_a_text() {
    let both = Options {
        pattern: "p".to_string(),
        files: Some(paths(&["a.txt"])),
        text: Some("text".to_string()),
        recursive: false,
        case_insensitive: false,
        invert_match: false,
    };
    match both.source() {
        rgrep::Source::Paths(found) => assert_eq!(found, &paths(&["a.txt"])),
        _ => panic!("expected the paths"),
    }
}

#[test]
fn an_empty_path_list_is_no_source() {
    let mut options = Options {
        pattern: "p".to_string(),
        files: Some(Vec::new()),
        text: Some("text".to_string()),
        recursive: false,
        case_insensitive: false,
        invert_match: false,
    };
    match options.source() {
        rgrep::Source::Text(found) => assert_eq!(found, "text"),
        _ => panic!("expected the text"),
    }
    options.text = None;
    assert!(matches!(options.source(), rgrep::Source::Nothing));
    options.files = None;
    assert!(matches!(options.source(), rgrep::Source::Nothing));
}

#[test]
fn source_is_text_or_paths() {
    let text = Options::assemble("x".to_string(), Vec::new(), "abc".to_string(), false, false, false);
    match text.source() {
        rgrep::Source::Text(found) => assert_eq!(found, "abc"),
        _ => panic!("expected the text"),
    }
    let files = Options::assemble("x".to_string(), paths(&["dir"]), String::new(), false, false, false);
    match files.source() {
        rgrep::Source::Paths(found) => assert_eq!(found, &paths(&["dir"])),
        _ => panic!("expected the paths"),
    }
}

#[test]
fn standard_input_is_read_only_without_paths() {
    assert!(Options::reads_standard_input(&Vec::new()));
    assert!(!Options::reads_standard_input(&paths(&["a.txt"])));
}
