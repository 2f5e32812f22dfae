use zeroai::ui::commands::{autocomplete, command_action, commands, parse_input, resolve_command, CommandAction, ParsedInput};

#[test]
fn autocomplete_empty_lists_all_commands() {
    let all = autocomplete("");
    assert_eq!(all.len(), 12);
    assert_eq!(all, commands());
    assert_eq!(all[0], ("bye", "Quit (saves named session)"));
    assert_eq!(all[5], ("forget", "Wipe the current session's history"));
    assert_eq!(all[11], ("nonerd", "Use the plain > prompt"));
}

#[test]
fn autocomplete_filters_by_prefix_in_table_order() {
    let m: Vec<&str> = autocomplete("m").iter().map(|(c, _)| *c).collect();
    assert_eq!(m, vec!["model", "marco", "mcp"]);
    let mo: Vec<&str> = autocomplete("mo").iter().map(|(c, _)| *c).collect();
    assert_eq!(mo, vec!["model"]);
    let n: Vec<&str> = autocomplete("n").iter().map(|(c, _)| *c).collect();
    assert_eq!(n, vec!["nerd", "nonerd"]);
    assert!(autocomplete("x").is_empty());
    assert!(autocomplete("byee").is_empty());
}

#[test]
fn resolve_requires_a_unique_prefix() {
    assert_eq!(resolve_command("b"), Some("bye"));
    assert_eq!(resolve_command("q"), Some("quit"));
    assert_eq!(resolve_command("mo"), Some("model"));
    assert_eq!(resolve_command("mc"), Some("mcp"));
    assert_eq!(resolve_command("ma"), Some("marco"));
    assert_eq!(resolve_command("m"), None);
    assert_eq!(resolve_command("n"), None);
    assert_eq!(resolve_command("ne"), Some("nerd"));
    assert_eq!(resolve_command("no"), Some("nonerd"));
    assert_eq!(resolve_command("f"), Some("forget"));
    assert_eq!(resolve_command(""), None);
    assert_eq!(resolve_command("zzz"), None);
}

#[test]
fn every_full_name_resolves_to_itself() {
    for (name, _) in commands() {
        assert_eq!(resolve_command(name), Some(name));
    }
}

#[test]
fn command_actions() {
    assert_eq!(command_action("bye"), CommandAction::Bye);
    assert_eq!(command_action("qu"), CommandAction::Quit);
    assert_eq!(command_action("he"), CommandAction::Help);
    assert_eq!(command_action("s"), CommandAction::Session);
    assert_eq!(command_action("i"), CommandAction::Identity);
    assert_eq!(command_action("p"), CommandAction::Polo);
    assert_eq!(command_action("mar"), CommandAction::Marco);
    assert_eq!(command_action("mcp"), CommandAction::Mcp);
    assert_eq!(command_action("mod"), CommandAction::Model);
    assert_eq!(command_action("forget"), CommandAction::Forget);
    assert_eq!(command_action("ne"), CommandAction::Nerd);
    assert_eq!(command_action("non"), CommandAction::NoNerd);
    // ambiguous and unknown commands are both reported as unknown
    assert_eq!(command_action("m"), CommandAction::Unknown);
    assert_eq!(command_action("nope"), CommandAction::Unknown);
}

#[test]
fn parse_blank_and_bang_only_are_empty() {
    assert_eq!(parse_input(""), ParsedInput::Empty);
    assert_eq!(parse_input("   \t "), ParsedInput::Empty);
    assert_eq!(parse_input("!"), ParsedInput::Empty);
    assert_eq!(parse_input("  !   "), ParsedInput::Empty);
}

#[test]
fn parse_shell_line() {
    assert_eq!(parse_input("!ls -la"), ParsedInput::Shell("ls -la".to_string()));
    assert_eq!(parse_input("  !  echo hi  "), ParsedInput::Shell("echo hi".to_string()));
}

#[test]
fn parse_command_lowercases_name_and_trims_rest() {
    assert_eq!(parse_input("/HELP"), ParsedInput::Command("help".to_string(), String::new()));
    assert_eq!(
        parse_input("  /Nerd   f0b0  "),
        ParsedInput::Command("nerd".to_string(), "f0b0".to_string())
    );
    assert_eq!(parse_input("/"), ParsedInput::Command(String::new(), String::new()));
    assert_eq!(
        parse_input("/model\tgrok-4 now"),
        ParsedInput::Command("model".to_string(), "grok-4 now".to_string())
    );
}

#[test]
fn parse_message_is_trimmed() {
    assert_eq!(parse_input("  hello there \n"), ParsedInput::Message("hello there".to_string()));
    assert_eq!(parse_input("[yolo] do it"), ParsedInput::Message("[yolo] do it".to_string()));
}

#[test]
fn parse_ignores_unicode_whitespace() {
    assert_eq!(parse_input("\u{3000}hi\u{00A0}"), ParsedInput::Message("hi".to_string()));
}
