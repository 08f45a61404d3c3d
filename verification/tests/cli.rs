use lib::cli::{help_text, parse_arguments, Invocation};
use lib::program::Routine;

fn args(words: &[&str]) -> Vec<String> {
    words.iter().map(|w| w.to_string()).collect()
}

#[test]
fn help_is_recognised() {
    let inv = parse_arguments(&args(&["--help"]));
    assert_eq!(inv, Invocation::Help);
    assert!(inv.exit_succeeds());
    assert_eq!(inv.messages(), vec![help_text().to_string()]);
}

#[test]
fn help_with_more_words_is_an_unsupported_action() {
    let inv = parse_arguments(&args(&["--help", "x"]));
    assert_eq!(inv, Invocation::UnsupportedAction("--help".to_string()));
    assert!(!inv.exit_succeeds());
    assert_eq!(
        inv.messages(),
        vec!["unsupported action: --help".to_string(), help_text().to_string()]
    );
}

#[test]
fn install_one_tool() {
    let inv = parse_arguments(&args(&["install", "docker"]));
    assert_eq!(inv, Invocation::Install(Routine::InstallTool("docker".to_string())));
    assert!(inv.exit_succeeds());
    assert!(inv.messages().is_empty());
}

#[test]
fn install_unknown_tool_still_exits_successfully() {
    let inv = parse_arguments(&args(&["install", "python"]));
    assert_eq!(inv, Invocation::Install(Routine::InstallTool("python".to_string())));
    assert!(inv.exit_succeeds());
}

#[test]
fn install_all_tools() {
    let inv = parse_arguments(&args(&["install", "all"]));
    assert_eq!(inv, Invocation::Install(Routine::InstallAll));
    assert!(inv.exit_succeeds());
}

#[test]
fn install_needs_exactly_one_tool() {
    for words in [&["install"][..], &["install", "node", "pm2"][..]] {
        let inv = parse_arguments(&args(words));
        assert_eq!(inv, Invocation::InvalidInstall);
        assert!(!inv.exit_succeeds());
        assert_eq!(
            inv.messages(),
            vec!["invalid install command".to_string(), help_text().to_string()]
        );
    }
}

#[test]
fn unknown_action() {
    let inv = parse_arguments(&args(&["remove", "node"]));
    assert_eq!(inv, Invocation::UnsupportedAction("remove".to_string()));
    assert!(!inv.exit_succeeds());
}

#[test]
fn missing_action() {
    let inv = parse_arguments(&[]);
    assert_eq!(inv, Invocation::MissingAction);
    assert!(!inv.exit_succeeds());
    assert_eq!(
        inv.messages(),
        vec!["command is required".to_string(), help_text().to_string()]
    );
}

#[test]
fn help_text_lists_every_tool() {
    let text = help_text();
    assert!(text.starts_with("Usage:\n  autoinstall install <tool|all>\n  autoinstall --help\n"));
    for tool in lib::SUPPORTED_TOOLS {
        assert!(text.contains(&format!("\n  {tool}\n")));
    }
    assert!(text.ends_with("  autoinstall install all"));
}
