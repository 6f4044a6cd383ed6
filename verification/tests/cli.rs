use vudo::cli::{classify, Action};

fn v(xs: &[&str]) -> Vec<String> {
    xs.iter().map(|s| s.to_string()).collect()
}

#[test]
fn empty_args() {
    assert!(matches!(classify(v(&[])), Action::Empty));
}

#[test]
fn help_and_version() {
    assert!(matches!(classify(v(&["-h"])), Action::Help));
    assert!(matches!(classify(v(&["--help"])), Action::Help));
    assert!(matches!(classify(v(&["-V"])), Action::Version));
    assert!(matches!(classify(v(&["--version"])), Action::Version));
}

#[test]
fn update_flag() {
    assert!(matches!(classify(v(&["--update"])), Action::Update));
}

#[test]
fn unknown_leading_option_is_rejected() {
    // These used to be treated as a command and elevated via sudo.
    assert!(matches!(
        classify(v(&["--updaet"])),
        Action::UnknownOption(_)
    ));
    assert!(matches!(
        classify(v(&["--helpp"])),
        Action::UnknownOption(_)
    ));
    assert!(matches!(classify(v(&["-x"])), Action::UnknownOption(_)));
}

#[test]
fn a_command_runs() {
    match classify(v(&["pacman", "-Syu"])) {
        Action::Run(cmd) => assert_eq!(cmd, v(&["pacman", "-Syu"])),
        _ => panic!("expected Run"),
    }
}

#[test]
fn double_dash_ends_options() {
    match classify(v(&["--", "--weird-tool", "arg"])) {
        Action::Run(cmd) => assert_eq!(cmd, v(&["--weird-tool", "arg"])),
        _ => panic!("expected Run"),
    }
    assert!(matches!(classify(v(&["--"])), Action::Empty));
}

#[test]
fn options_only_count_in_front() {
    match classify(v(&["ls", "--help"])) {
        Action::Run(cmd) => assert_eq!(cmd, v(&["ls", "--help"])),
        _ => panic!("expected Run"),
    }
    match classify(v(&["--", "-h"])) {
        Action::Run(cmd) => assert_eq!(cmd, v(&["-h"])),
        _ => panic!("expected Run"),
    }
    match classify(v(&["-"])) {
        Action::UnknownOption(o) => assert_eq!(o, "-"),
        _ => panic!("expected UnknownOption"),
    }
    match classify(v(&[""])) {
        Action::Run(cmd) => assert_eq!(cmd, v(&[""])),
        _ => panic!("expected Run"),
    }
}
