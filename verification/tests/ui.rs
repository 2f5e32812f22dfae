use zeroai::a2a::discovery::DiscoveredAgent;
use zeroai::db::{AgentSession, McpServer, Session, Timestamp};
use zeroai::llm::all_known_models;
use zeroai::ui::{
    chat_style, default_model_index, mcp_menu_items, model_menu_items, parse_mcp_entry, polo_choice,
    polo_menu_items, session_menu_items, status_line, ChatStyle, PoloChoice, PromptStyle, Ui,
};

const T: Timestamp = Timestamp { secs: 0, nanos: 0 };

#[test]
fn chat_lines_and_styles() {
    let mut ui = Ui::new();
    let line = ui.push_chat("user", "hi");
    assert_eq!(line.role, "user");
    assert_eq!(ui.chat_lines.len(), 1);
    assert_eq!(chat_style("user"), ChatStyle::You);
    assert_eq!(chat_style("assistant"), ChatStyle::Ai);
    assert_eq!(chat_style("system"), ChatStyle::System);
}

#[test]
fn status_lines_hide_ready_and_error() {
    assert_eq!(status_line("Thinking..."), Some(".. Thinking...".to_string()));
    assert_eq!(status_line("Ready"), None);
    assert_eq!(status_line("Error"), None);
    assert_eq!(status_line(""), None);
}

#[test]
fn exchange_ends_when_answer_done_and_no_shell_running() {
    let mut ui = Ui::new();
    assert!(!ui.exchange_finished());
    ui.response_complete = true;
    ui.shell_confirmed();
    assert!(!ui.response_complete);
    assert_eq!(ui.shells_pending, 1);
    ui.response_complete = true;
    assert!(!ui.exchange_finished());
    ui.shells_pending = 0;
    assert!(ui.exchange_finished());
    assert!(!ui.response_complete);
    ui.pending_shell_confirm = Some(("ls".into(), "look".into()));
    assert_eq!(ui.take_pending_confirm(), Some(("ls".to_string(), "look".to_string())));
    assert_eq!(ui.take_pending_confirm(), None);
}

#[test]
fn model_menu() {
    let models = all_known_models(false);
    let items = model_menu_items(&models);
    assert_eq!(items[0], "Code CLI opus [no key]");
    assert_eq!(items[6], "Ollama llama3.2 (local) [configured]");
    assert_eq!(default_model_index(&models, Some("grok-3")), 4);
    assert_eq!(default_model_index(&models, Some("unknown")), 0);
    assert_eq!(default_model_index(&models, None), 0);
}

#[test]
fn session_and_mcp_menus() {
    let s = |name: Option<&str>| Session {
        id: "id".into(),
        name: name.map(|n| n.to_string()),
        model_id: None,
        created_at: T,
        updated_at: T,
        ephemeral: false,
    };
    assert_eq!(session_menu_items(&vec![s(Some("work")), s(None)]), vec!["work", "?", "+ New session..."]);
    let server = McpServer { name: "fs".into(), command: "mcp-fs".into(), args: vec![], env: vec![] };
    assert_eq!(mcp_menu_items(&vec![server]), vec!["fs — mcp-fs", "+ Add MCP server..."]);
}

#[test]
fn polo_menu_and_choices() {
    let agent = DiscoveredAgent { name: "desk".into(), host: "desk.local.".into(), ip: "10.0.0.2".into(), port: 4000, model: None, identity: None };
    let saved = AgentSession {
        id: "a1".into(),
        remote_name: "lap".into(),
        remote_host: "lap.local.".into(),
        remote_ip: "10.0.0.3".into(),
        remote_port: 4001,
        remote_model: None,
        created_at: T,
    };
    let mut known = saved.clone();
    known.remote_model = Some("grok-4".into());
    assert_eq!(
        polo_menu_items(&vec![agent], &vec![saved, known]),
        vec![
            "[discovered] desk.local. (10.0.0.2:4000)",
            "[saved] lap: lap.local. (10.0.0.3:4001) unknown model",
            "[saved] lap: lap.local. (10.0.0.3:4001) grok-4",
            "+ Manual entry...",
        ]
    );
    assert_eq!(polo_choice(0, 1, 1), PoloChoice::Discovered(0));
    assert_eq!(polo_choice(1, 1, 1), PoloChoice::Saved(0));
    assert_eq!(polo_choice(2, 1, 1), PoloChoice::Manual);
}

#[test]
fn prompt_plain_nerd_and_custom_glyph() {
    let mut p = PromptStyle::new();
    assert_eq!(p.prompt_char(), '>');
    assert_eq!(p.glyph_code(), 0xF083F);
    assert_eq!(p.use_nerd(""), Ok(()));
    assert_eq!(p.prompt_char(), '\u{F083F}');
    assert_eq!(p.use_nerd("f0b0"), Ok(()));
    assert_eq!(p.prompt_char(), '\u{F0B0}');
    assert_eq!(p.use_nerd("F0B1"), Ok(()));
    assert_eq!(p.glyph_code(), 0xF0B1);
    p.use_plain();
    assert_eq!(p.prompt_char(), '>');
    assert_eq!(p.glyph_code(), 0xF0B1);
    assert_eq!(p.use_nerd(""), Ok(()));
    assert_eq!(p.prompt_char(), '\u{F0B1}');
}

#[test]
fn prompt_rejects_bad_glyph_codes() {
    let mut p = PromptStyle::new();
    let before = p;
    assert_eq!(p.use_nerd("xyz"), Err("Invalid Nerd Font glyph code: xyz".to_string()));
    assert_eq!(p.use_nerd("d800"), Err("Invalid Nerd Font glyph code: d800".to_string()));
    assert_eq!(p.use_nerd("1234567"), Err("Invalid Nerd Font glyph code: 1234567".to_string()));
    assert_eq!(p.use_nerd("110000"), Err("Invalid Nerd Font glyph code: 110000".to_string()));
    assert_eq!(p, before);
    assert_eq!(p.use_nerd("10FFFF"), Ok(()));
    assert_eq!(p.glyph_code(), 0x10FFFF);
}

#[test]
fn prompt_survives_restart() {
    let mut p = PromptStyle::new();
    p.use_nerd("e0a0").unwrap();
    assert_eq!(PromptStyle::restored(Some(p.nerd), Some(p.glyph_code())), p);
    assert_eq!(PromptStyle::restored(None, None), PromptStyle::new());
    assert_eq!(PromptStyle::restored(Some(true), Some(0xD800)).glyph_code(), 0xF083F);
    assert!(PromptStyle::restored(Some(true), Some(0xD800)).nerd);
}

#[test]
fn mcp_entries_parse_into_servers() {
    let s = parse_mcp_entry("fs npx -y server A=1 B=x=y A=2").unwrap();
    assert_eq!(s.name, "fs");
    assert_eq!(s.command, "npx");
    assert_eq!(s.args, vec!["-y", "server"]);
    assert_eq!(s.env, vec![("A".to_string(), "2".to_string()), ("B".to_string(), "x=y".to_string())]);
    assert_eq!(
        parse_mcp_entry("only").unwrap_err(),
        "MCP entry requires: {name} {command} [args] [KEY=VALUE]"
    );
    assert!(parse_mcp_entry("   ").is_err());
}
