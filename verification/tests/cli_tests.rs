use opencode_helix::cli::{Cli, Command};

fn args(list: &[&str]) -> Vec<String> {
    list.iter().map(|s| s.to_string()).collect()
}

#[test]
fn test_parse_ask() {
    let cli = Cli::parse_args(&args(&["opencode-helix", "ask"])).unwrap();
    assert!(matches!(cli.command, Command::Ask { initial } if initial.is_empty()));
}

#[test]
fn test_parse_ask_with_context() {
    let cli = Cli::parse_args(
        &args(&["opencode-helix", "-f", "src/main.rs", "-l", "42", "-c", "10", "ask"]),
    ).unwrap();
    assert_eq!(cli.file, Some("src/main.rs".to_string()));
    assert_eq!(cli.line, Some(42));
    assert_eq!(cli.column, Some(10));
}

#[test]
fn test_parse_select() {
    let cli = Cli::parse_args(&args(&["opencode-helix", "select"])).unwrap();
    assert!(matches!(cli.command, Command::Select));
}

#[test]
fn test_parse_prompt() {
    let cli = Cli::parse_args(&args(&["opencode-helix", "prompt", "explain"])).unwrap();
    assert!(matches!(cli.command, Command::Prompt { text, submit } if text == "explain" && submit));
}

#[test]
fn test_parse_ask_with_initial() {
    let cli = Cli::parse_args(&args(&["opencode-helix", "ask", "hello there"])).unwrap();
    assert!(matches!(cli.command, Command::Ask { initial } if initial == "hello there"));
}

#[test]
fn test_parse_rejects_bad_lines() {
    // no command word
    assert!(Cli::parse_args(&args(&["opencode-helix"])).is_none());
    // unknown flag
    assert!(Cli::parse_args(&args(&["opencode-helix", "--bogus", "ask"])).is_none());
    // flag missing its value
    assert!(Cli::parse_args(&args(&["opencode-helix", "ask", "-f"])).is_none());
    // port out of range
    assert!(Cli::parse_args(&args(&["opencode-helix", "-p", "70000", "ask"])).is_none());
    // prompt without text
    assert!(Cli::parse_args(&args(&["opencode-helix", "prompt"])).is_none());
    // a second positional
    assert!(Cli::parse_args(&args(&["opencode-helix", "ask", "a", "b"])).is_none());
    // unknown command word
    assert!(Cli::parse_args(&args(&["opencode-helix", "dance"])).is_none());
}

#[test]
fn test_parse_global_flags_after_command() {
    let cli = Cli::parse_args(
        &args(&["opencode-helix", "select", "--theme", "crt", "--debug", "--no-anim"]),
    ).unwrap();
    assert_eq!(cli.theme, "crt");
    assert!(cli.debug);
    assert!(cli.no_anim);
    assert!(matches!(cli.command, Command::Select));
}

#[test]
fn test_parse_theme_defaults_to_hacker() {
    let cli = Cli::parse_args(&args(&["opencode-helix", "status"])).unwrap();
    assert_eq!(cli.theme, "hacker");
    assert!(matches!(cli.command, Command::Status));
}

#[test]
fn test_cli_context_queries() {
    let cli = Cli::parse_args(
        &args(&["opencode-helix", "--selection-start", "3", "--selection-end", "7", "ask"]),
    ).unwrap();
    assert!(cli.has_selection());
    assert!(!cli.has_cursor());
    assert!(!cli.has_file());
    assert_eq!(cli.selection_start, Some(3));
    assert_eq!(cli.selection_end, Some(7));
}
