use efi_shell::command::{echo_line, error_line, is_exit, parse_command, split_words_of, Command};

#[test]
fn blank_line_is_no_command() {
    for line in ["", "   ", " \t\r\n "] {
        let cmd = parse_command(line);
        assert!(matches!(cmd, Command::NoCommand));
        assert_eq!(error_line(&cmd).unwrap(), "No command given!");
    }
}

#[test]
fn echo_writes_words_with_trailing_space() {
    let cmd = parse_command("echo hello world");
    match cmd {
        Command::Echo(args) => {
            assert_eq!(args, vec!["hello".to_string(), "world".to_string()]);
            assert_eq!(echo_line(&args), "hello world \n");
        }
        other => panic!("unexpected {:?}", other),
    }
}

#[test]
fn echo_collapses_whitespace() {
    match parse_command("  echo   a\tb  ") {
        Command::Echo(args) => assert_eq!(echo_line(&args), "a b \n"),
        other => panic!("unexpected {:?}", other),
    }
}

#[test]
fn echo_without_arguments_writes_newline() {
    match parse_command("echo") {
        Command::Echo(args) => {
            assert!(args.is_empty());
            assert_eq!(echo_line(&args), "\n");
        }
        other => panic!("unexpected {:?}", other),
    }
}

#[test]
fn unknown_command_is_named_once() {
    let cmd = parse_command("foo");
    match &cmd {
        Command::NotFound(name) => assert_eq!(name, "foo"),
        other => panic!("unexpected {:?}", other),
    }
    let msg = error_line(&cmd).unwrap();
    assert_eq!(msg, "Command \"foo\" not found!");
    assert_eq!(msg.matches("foo").count(), 1);
    assert!(!is_exit("foo"));
}

#[test]
fn unknown_command_ignores_arguments() {
    let cmd = parse_command("foo bar baz");
    assert_eq!(error_line(&cmd).unwrap(), "Command \"foo\" not found!");
}

#[test]
fn builtins_are_recognised() {
    assert!(matches!(parse_command("version"), Command::Version));
    assert!(matches!(parse_command(" memorymap "), Command::MemoryMap));
    assert!(error_line(&Command::Version).is_none());
    assert!(error_line(&Command::MemoryMap).is_none());
}

#[test]
fn command_names_are_case_sensitive() {
    match parse_command("Version") {
        Command::NotFound(name) => assert_eq!(name, "Version"),
        other => panic!("unexpected {:?}", other),
    }
}

#[test]
fn exit_is_exact() {
    assert!(is_exit("exit"));
    assert!(!is_exit(" exit"));
    assert!(!is_exit("exit1"));
    assert!(!is_exit(""));
}

#[test]
fn words_split_on_ascii_whitespace() {
    assert_eq!(split_words_of("  a  bc\tdé\r\nf "), vec!["a", "bc", "dé", "f"]);
    assert!(split_words_of("").is_empty());
    assert_eq!(split_words_of("x"), vec!["x"]);
}
