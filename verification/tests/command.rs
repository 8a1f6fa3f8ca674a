use ami_code::app::command::{parse_args, Command, LaunchMode, SHORT_USAGE};

#[test]
fn parses_default_and_canonical_modes() {
    let cases = [
        (&[][..], LaunchMode::Workbench),
        (&["shell"][..], LaunchMode::Shell),
        (&["nvim"][..], LaunchMode::Nvim),
        (&["pi"][..], LaunchMode::Pi),
    ];

    for (args, expected_mode) in cases {
        assert_eq!(
            parse_args(args),
            Ok(Command::Run {
                mode: expected_mode,
                warning: None,
            }),
            "arguments: {args:?}"
        );
    }
}

#[test]
fn parses_every_compatibility_alias_with_a_warning() {
    let cases = [
        (
            "multi",
            LaunchMode::Workbench,
            "`multi` is deprecated; use `ami-code` (with no mode)",
        ),
        (
            "--multi",
            LaunchMode::Workbench,
            "`--multi` is deprecated; use `ami-code` (with no mode)",
        ),
        (
            "--nvim",
            LaunchMode::Nvim,
            "`--nvim` is deprecated; use `ami-code nvim`",
        ),
        (
            "--pi",
            LaunchMode::Pi,
            "`--pi` is deprecated; use `ami-code pi`",
        ),
    ];

    for (alias, expected_mode, expected_warning) in cases {
        assert_eq!(
            parse_args(&[alias]),
            Ok(Command::Run {
                mode: expected_mode,
                warning: Some(expected_warning),
            }),
            "alias: {alias}"
        );
    }
}

#[test]
fn parses_help_and_version_flags() {
    let cases = [
        ("-h", Command::Help),
        ("--help", Command::Help),
        ("-V", Command::Version),
        ("--version", Command::Version),
    ];

    for (argument, expected) in cases {
        assert_eq!(parse_args(&[argument]), Ok(expected), "flag: {argument}");
    }
}

#[test]
fn rejects_unknown_modes_and_options() {
    let cases = [
        ("wat", "unknown mode `wat`"),
        ("--wat", "unknown option `--wat`"),
        ("-x", "unknown option `-x`"),
    ];

    for (argument, expected) in cases {
        assert_eq!(
            parse_args(&[argument]).unwrap_err().message(),
            expected,
            "argument: {argument}"
        );
    }
}

#[test]
fn rejects_duplicate_modes_and_extra_arguments() {
    let cases = [
        (
            &["shell", "pi"][..],
            "mode specified more than once: `shell` and `pi`",
        ),
        (
            &["multi", "--nvim"][..],
            "mode specified more than once: `multi` and `--nvim`",
        ),
        (
            &["nvim", "file.rs"][..],
            "unexpected extra argument `file.rs`",
        ),
        (
            &["--help", "shell"][..],
            "unexpected extra argument `shell`",
        ),
        (
            &["--version", "extra"][..],
            "unexpected extra argument `extra`",
        ),
        (
            &["shell", "pi", "extra"][..],
            "mode specified more than once: `shell` and `pi`",
        ),
    ];

    for (args, expected) in cases {
        assert_eq!(
            parse_args(args).unwrap_err().message(),
            expected,
            "arguments: {args:?}"
        );
    }
}

#[test]
fn at_most_one_argument_is_accepted() {
    assert_eq!(
        parse_args(&["wat", "shell"]).unwrap_err().message(),
        "unexpected extra argument `shell`"
    );
    assert_eq!(
        parse_args(&["", "shell"]).unwrap_err().message(),
        "unexpected extra argument `shell`"
    );
    assert_eq!(parse_args(&[""]).unwrap_err().message(), "unknown mode ``");
    assert!(LaunchMode::Workbench.is_workbench());
    assert!(!LaunchMode::Shell.is_workbench());
    assert_eq!(SHORT_USAGE, "Usage: ami-code [shell|nvim|pi]");
}
