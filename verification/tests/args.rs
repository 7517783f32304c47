use mdsight::args::{parse_args, Mode};

fn argv(items: &[&str]) -> Vec<String> {
    items.iter().map(|s| s.to_string()).collect()
}

fn check_parses_the_expected_arguments() {
    let mode = parse_args(argv(&["--nvim", "/tmp/nvim.sock", "--token", "abc"])).expect("a mode");
    match mode {
        Mode::Nvim(args) => {
            assert_eq!(args.socket, "/tmp/nvim.sock");
            assert_eq!(args.token, "abc");
        }
        _ => panic!("expected nvim mode"),
    }
}

fn check_parses_a_single_file_argument() {
    let mode = parse_args(argv(&["note.md"])).expect("a mode");
    match mode {
        Mode::File { path, foreground } => {
            assert_eq!(path, "note.md");
            assert!(!foreground, "standalone mode runs in the background by default");
        }
        _ => panic!("expected file mode"),
    }
}

fn check_parses_the_foreground_flag() {
    let mode = parse_args(argv(&["--foreground", "note.md"])).expect("a mode");
    match mode {
        Mode::File { foreground, .. } => assert!(foreground),
        _ => panic!("expected file mode"),
    }
}

fn check_parses_the_version_flag() {
    let mode = parse_args(argv(&["--version"])).expect("a mode");
    assert!(matches!(mode, Mode::Version));
}

#[test]
fn args_parses_the_expected_arguments() {
    check_parses_the_expected_arguments();
}

#[test]
fn main_parses_the_expected_arguments() {
    check_parses_the_expected_arguments();
}

#[test]
fn args_rejects_missing_arguments() {
    assert!(parse_args(argv(&["--nvim", "/tmp/nvim.sock"])).is_err());
}

#[test]
fn main_rejects_missing_arguments() {
    assert!(parse_args(argv(&["--nvim", "/tmp/nvim.sock"])).is_err());
}

#[test]
fn args_parses_a_single_file_argument() {
    check_parses_a_single_file_argument();
}

#[test]
fn main_parses_a_single_file_argument() {
    check_parses_a_single_file_argument();
}

#[test]
fn args_parses_the_foreground_flag() {
    check_parses_the_foreground_flag();
}

#[test]
fn main_parses_the_foreground_flag() {
    check_parses_the_foreground_flag();
}

#[test]
fn args_rejects_the_foreground_flag_for_neovim() {
    assert!(parse_args(argv(&["--nvim", "/tmp/nvim.sock", "--token", "abc", "--foreground"])).is_err());
}

#[test]
fn main_rejects_the_foreground_flag_for_neovim() {
    assert!(parse_args(argv(&["--nvim", "/tmp/nvim.sock", "--token", "abc", "--foreground"])).is_err());
}

#[test]
fn args_rejects_the_foreground_flag_alone() {
    assert!(parse_args(argv(&["--foreground"])).is_err());
}

#[test]
fn main_rejects_the_foreground_flag_alone() {
    assert!(parse_args(argv(&["--foreground"])).is_err());
}

#[test]
fn args_rejects_mixed_arguments() {
    assert!(parse_args(argv(&["--nvim", "/tmp/nvim.sock", "--token", "abc", "note.md"])).is_err());
}

#[test]
fn main_rejects_mixed_arguments() {
    assert!(parse_args(argv(&["--nvim", "/tmp/nvim.sock", "--token", "abc", "note.md"])).is_err());
}

#[test]
fn args_parses_the_version_flag() {
    check_parses_the_version_flag();
}

#[test]
fn main_parses_the_version_flag() {
    check_parses_the_version_flag();
}

#[test]
fn args_rejects_the_version_flag_with_other_arguments() {
    assert!(parse_args(argv(&["--version", "note.md"])).is_err());
    assert!(parse_args(argv(&["--foreground", "--version"])).is_err());
}

#[test]
fn main_rejects_the_version_flag_with_other_arguments() {
    assert!(parse_args(argv(&["--version", "note.md"])).is_err());
    assert!(parse_args(argv(&["--foreground", "--version"])).is_err());
}

#[test]
fn args_rejects_two_file_arguments() {
    assert!(parse_args(argv(&["a.md", "b.md"])).is_err());
}

#[test]
fn main_rejects_two_file_arguments() {
    assert!(parse_args(argv(&["a.md", "b.md"])).is_err());
}

#[test]
fn reports_an_unknown_option_by_name() {
    match parse_args(argv(&["--bogus", "note.md"])) {
        Err(message) => assert_eq!(message, "unknown argument: --bogus"),
        Ok(_) => panic!("expected an error"),
    }
}

#[test]
fn rejects_with_the_usage_text() {
    match parse_args(argv(&["a.md", "b.md"])) {
        Err(message) => assert_eq!(
            message,
            "usage: mdsight --nvim <socket> --token <token> | mdsight [--foreground] <file> | mdsight --version"
        ),
        Ok(_) => panic!("expected an error"),
    }
}

#[test]
fn takes_the_value_after_nvim_even_when_it_looks_like_an_option() {
    let mode = parse_args(argv(&["--nvim", "--foreground", "--token", "t"])).expect("a mode");
    match mode {
        Mode::Nvim(args) => assert_eq!(args.socket, "--foreground"),
        _ => panic!("expected nvim mode"),
    }
}

#[test]
fn repeated_version_flags_still_print_the_version() {
    assert!(matches!(parse_args(argv(&["--version", "--version"])), Ok(Mode::Version)));
}

#[test]
fn no_arguments_give_the_usage() {
    assert!(parse_args(Vec::new()).is_err());
}

#[test]
fn rejects_an_option_without_its_value() {
    let usage = "usage: mdsight --nvim <socket> --token <token> | mdsight [--foreground] <file> | mdsight --version";
    assert_eq!(parse_args(argv(&["--version", "--nvim"])).err().as_deref(), Some(usage));
    assert_eq!(parse_args(argv(&["x.md", "--token"])).err().as_deref(), Some(usage));
    assert!(parse_args(argv(&["--nvim", "/tmp/nvim.sock", "--token"])).is_err());
}

#[test]
fn the_last_nvim_and_token_values_win() {
    let mode = parse_args(argv(&["--nvim", "a.sock", "--token", "t1", "--nvim", "b.sock", "--token", "t2"]))
        .expect("a mode");
    match mode {
        Mode::Nvim(args) => {
            assert_eq!(args.socket, "b.sock");
            assert_eq!(args.token, "t2");
        }
        _ => panic!("expected nvim mode"),
    }
}

#[test]
fn a_file_may_come_with_repeated_foreground_flags() {
    match parse_args(argv(&["--foreground", "note.md", "--foreground"])).expect("a mode") {
        Mode::File { path, foreground } => {
            assert_eq!(path, "note.md");
            assert!(foreground);
        }
        _ => panic!("expected file mode"),
    }
}

#[test]
fn the_first_unknown_option_is_named() {
    assert_eq!(
        parse_args(argv(&["--nvim", "s", "--first", "--second"])).err().as_deref(),
        Some("unknown argument: --first")
    );
}
