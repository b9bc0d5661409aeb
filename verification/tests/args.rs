use md_viewer::args::{parse_args, LaunchAction};

fn strings(items: &[&str]) -> Vec<Vec<u8>> {
    items.iter().map(|item| item.as_bytes().to_vec()).collect()
}

#[test]
fn no_argument_opens_empty_window() {
    assert_eq!(
        parse_args(Vec::<Vec<u8>>::new()).unwrap(),
        LaunchAction::Run { file: None }
    );
}

#[test]
fn accepts_one_path() {
    assert_eq!(
        parse_args(strings(&["notes.md"])).unwrap(),
        LaunchAction::Run {
            file: Some(b"notes.md".to_vec())
        }
    );
}

#[test]
fn double_dash_allows_dash_prefixed_filename() {
    assert_eq!(
        parse_args(strings(&["--", "-notes.md"])).unwrap(),
        LaunchAction::Run {
            file: Some(b"-notes.md".to_vec())
        }
    );
}

#[test]
fn rejects_unknown_option_and_multiple_files() {
    assert!(parse_args(strings(&["--edit"])).is_err());
    assert!(parse_args(strings(&["one.md", "two.md"])).is_err());
}

#[test]
fn help_and_version_options() {
    assert_eq!(parse_args(strings(&["--help"])).unwrap(), LaunchAction::Help);
    assert_eq!(parse_args(strings(&["-h", "--edit"])).unwrap(), LaunchAction::Help);
    assert_eq!(parse_args(strings(&["--version"])).unwrap(), LaunchAction::Version);
    assert_eq!(parse_args(strings(&["notes.md", "-V"])).unwrap(), LaunchAction::Version);
}

#[test]
fn options_after_double_dash_are_files() {
    assert_eq!(
        parse_args(strings(&["--", "--help"])).unwrap(),
        LaunchAction::Run {
            file: Some(b"--help".to_vec())
        }
    );
    assert_eq!(
        parse_args(strings(&["--"])).unwrap(),
        LaunchAction::Run { file: None }
    );
    assert_eq!(
        parse_args(strings(&["--", "a.md", "b.md"])).unwrap_err(),
        "only one Markdown file can be opened per window"
    );
}

#[test]
fn error_messages_name_the_option() {
    assert_eq!(
        parse_args(strings(&["--edit", "notes.md"])).unwrap_err(),
        "unknown option: --edit"
    );
    assert_eq!(
        parse_args(strings(&["one.md", "two.md"])).unwrap_err(),
        "only one Markdown file can be opened per window"
    );
    assert_eq!(
        parse_args(strings(&["one.md", "-x"])).unwrap_err(),
        "unknown option: -x"
    );
}

#[test]
fn file_names_keep_their_bytes() {
    let name = vec![0x6e, 0xff, 0x2e, 0x6d, 0x64];
    assert_eq!(
        parse_args(vec![name.clone()]).unwrap(),
        LaunchAction::Run { file: Some(name) }
    );
    assert_eq!(
        parse_args(vec![vec![0x2d, 0xff]]).unwrap_err(),
        "unknown option: -\u{fffd}"
    );
    assert_eq!(
        parse_args(vec![b"--".to_vec(), vec![0x2d, 0xfe]]).unwrap(),
        LaunchAction::Run { file: Some(vec![0x2d, 0xfe]) }
    );
}
