use rgrep::{Step, Walk, FOUND_FILE_COUNT};

/// A small file system: directories with their entries, everything else a file.
fn entries_of(path: &str) -> Option<Vec<String>> {
    let names: &[&str] = match path {
        "dir" => &["dir/a.txt", "dir/sub", "dir/z.txt"],
        "dir/sub" => &["dir/sub/b.txt", "dir/sub/empty"],
        "dir/sub/empty" => &[],
        "other" => &["other/c.txt"],
        "broken" => &[],
        "broken/sub" => &["broken/sub/b.txt"],
        "locked" => &[],
        _ => return None,
    };
    Some(names.iter().map(|name| name.to_string()).collect())
}

/// Runs a walk to its end and records every step handed to the caller.
fn run(arguments: &[&str], recursive: bool) -> Vec<String> {
    let files: Vec<String> = arguments.iter().map(|name| name.to_string()).collect();
    let mut walk = Walk::start(&files, recursive);
    let mut record = Vec::new();
    while let Some(next) = walk.next_path() {
        let is_dir = entries_of(&next.path).is_some();
        match walk.visit(is_dir) {
            Step::Scan { path, num_files } => record.push(format!("scan {} {}", path, num_files)),
            Step::Skip { notice } => record.push(format!("skip {}", notice)),
            Step::List { path } if path == "broken" => walk.enter_partial(
                path,
                "Input/output error (os error 5)".to_string(),
                &vec!["broken/a.txt".to_string(), "broken/sub".to_string()],
            ),
            Step::List { path } if path == "locked" => {
                walk.enter_partial(path, "Permission denied (os error 13)".to_string(), &Vec::new())
            }
            Step::List { path } => walk.enter(&entries_of(&path).unwrap()),
            Step::Fail { notice } => {
                record.push(format!("fail {}", notice));
                break;
            }
        }
    }
    record
}

#[test]
fn an_answer_of_the_file_system_stands() {
    for found in [false, true] {
        assert!(matches!(Walk::classify(found, Some(true)), Ok(true)));
        assert!(matches!(Walk::classify(found, Some(false)), Ok(false)));
    }
}

#[test]
fn an_argument_that_cannot_be_classified_ends_the_run() {
    assert!(Walk::classify(false, None).is_err());
}

#[test]
fn a_found_path_that_cannot_be_classified_counts_as_a_file() {
    assert!(matches!(Walk::classify(true, None), Ok(false)));
}

#[test]
fn found_files_are_searched_under_more_than_one_file() {
    assert_eq!(FOUND_FILE_COUNT, 2);
}

#[test]
fn no_arguments_no_steps() {
    assert_eq!(run(&[], true), Vec::<String>::new());
}

#[test]
fn files_are_searched_under_the_number_of_arguments() {
    assert_eq!(run(&["a.txt"], false), vec!["scan a.txt 1"]);
    assert_eq!(
        run(&["a.txt", "b.txt", "c.txt"], false),
        vec!["scan a.txt 3", "scan b.txt 3", "scan c.txt 3"]
    );
}

#[test]
fn directory_without_recursion_is_reported_and_skipped() {
    assert_eq!(
        run(&["a.txt", "dir", "b.txt"], false),
        vec!["scan a.txt 3", "skip dir: is a directory", "scan b.txt 3"]
    );
}

#[test]
fn directory_with_recursion_is_searched_throughout() {
    assert_eq!(
        run(&["dir"], true),
        vec!["scan dir/a.txt 2", "scan dir/sub/b.txt 2", "scan dir/z.txt 2"]
    );
}

#[test]
fn arguments_keep_their_order_around_a_directory() {
    assert_eq!(
        run(&["a.txt", "dir", "other", "b.txt"], true),
        vec![
            "scan a.txt 4",
            "scan dir/a.txt 2",
            "scan dir/sub/b.txt 2",
            "scan dir/z.txt 2",
            "scan other/c.txt 2",
            "scan b.txt 4",
        ]
    );
}

#[test]
fn a_listing_that_breaks_off_ends_the_run_after_its_entries() {
    assert_eq!(
        run(&["a.txt", "broken", "b.txt"], true),
        vec![
            "scan a.txt 3",
            "scan broken/a.txt 2",
            "scan broken/sub/b.txt 2",
            "fail broken: Input/output error (os error 5)",
        ]
    );
}

#[test]
fn a_directory_that_cannot_be_listed_ends_the_run_at_once() {
    assert_eq!(
        run(&["locked", "b.txt"], true),
        vec!["fail locked: Permission denied (os error 13)"]
    );
}

#[test]
fn a_broken_listing_is_a_found_path_with_its_reason() {
    let files = vec!["d".to_string()];
    let mut walk = Walk::start(&files, true);
    walk.visit(true);
    walk.enter_partial("d".to_string(), "reason".to_string(), &vec!["d/1".to_string()]);
    assert_eq!(walk.next_path().unwrap().path, "d/1");
    assert!(walk.next_path().unwrap().failure.is_none());
    walk.visit(false);
    let marker = walk.next_path().unwrap();
    assert_eq!(marker.path, "d");
    assert!(marker.found);
    assert_eq!(marker.failure, Some("reason".to_string()));
    match walk.visit(true) {
        Step::Fail { notice } => assert_eq!(notice, "d: reason"),
        other => panic!("expected the end of the run, got {:?}", other),
    }
    assert!(walk.next_path().is_none());
}

#[test]
fn visit_takes_the_path_off_the_list() {
    let files = vec!["x".to_string(), "y".to_string()];
    let mut walk = Walk::start(&files, false);
    let first = walk.next_path().unwrap();
    assert_eq!(first.path, "x");
    assert!(!first.found);
    walk.visit(false);
    assert_eq!(walk.next_path().unwrap().path, "y");
    walk.visit(true);
    assert!(walk.next_path().is_none());
}

#[test]
fn entered_paths_are_found_paths_in_front() {
    let files = vec!["d".to_string(), "y".to_string()];
    let mut walk = Walk::start(&files, true);
    match walk.visit(true) {
        Step::List { path } => assert_eq!(path, "d"),
        _ => panic!("expected a listing"),
    }
    walk.enter(&vec!["d/1".to_string(), "d/2".to_string()]);
    let next = walk.next_path().unwrap();
    assert_eq!(next.path, "d/1");
    assert!(next.found);
    // A directory found inside another is entered even without recursion.
    match walk.visit(true) {
        Step::List { path } => assert_eq!(path, "d/1"),
        _ => panic!("expected a listing"),
    }
    match walk.visit(false) {
        Step::Scan { path, num_files } => {
            assert_eq!(path, "d/2");
            assert_eq!(num_files, 2);
        }
        _ => panic!("expected a search"),
    }
    match walk.visit(false) {
        Step::Scan { path, num_files } => {
            assert_eq!(path, "y");
            assert_eq!(num_files, 2);
        }
        _ => panic!("expected a search"),
    }
}
