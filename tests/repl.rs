use mathproof::repl::{split_command, str_eq, Command};

#[test]
fn command_keywords() {
    assert_eq!(Command::from_str("eval"), Command::Eval);
    assert_eq!(Command::from_str("e"), Command::Eval);
    assert_eq!(Command::from_str("simplify"), Command::Simplify);
    assert_eq!(Command::from_str("s"), Command::Simplify);
    assert_eq!(Command::from_str("clear"), Command::Clear);
    assert_eq!(Command::from_str("help"), Command::Help);
    assert_eq!(Command::from_str("exit"), Command::Exit);
    assert_eq!(Command::from_str("quit"), Command::Unknown);
    assert_eq!(Command::from_str(""), Command::Unknown);
    assert_eq!(Command::from_str("Eval"), Command::Unknown);
}

#[test]
fn command_names() {
    assert_eq!(Command::Eval.display(), "eval");
    assert_eq!(Command::Simplify.display(), "simplify");
    assert_eq!(Command::Clear.display(), "clear");
    assert_eq!(Command::Help.display(), "help");
    assert_eq!(Command::Exit.display(), "exit");
    assert_eq!(Command::Unknown.display(), "unknown");
}

#[test]
fn help_lists_commands() {
    let h = Command::help();
    assert!(h.starts_with("Commands\n"));
    assert!(h.contains("- eval (e): Evaluate an expression"));
    assert!(h.ends_with("- exit: Exit the program"));
    assert_eq!(h.lines().count(), 6);
}

#[test]
fn split_command_line() {
    assert_eq!(
        split_command("  eval 2 + 3"),
        Some(("eval".to_string(), " 2 + 3".to_string()))
    );
    assert_eq!(split_command("help"), Some(("help".to_string(), String::new())));
    assert_eq!(split_command(" \t "), None);
    assert_eq!(split_command(""), None);
}

#[test]
fn string_equality() {
    assert!(str_eq("abc", "abc"));
    assert!(!str_eq("abc", "abd"));
    assert!(!str_eq("abc", "ab"));
    assert!(str_eq("", ""));
}
