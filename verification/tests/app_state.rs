use serde_json::Value;
use zeroai::app::{
    byte_prefix, completion_plan, existing_identity_text, extract_oauth_code, identity_saved_text,
    offered_tools, oauth_redirect_status, reply_steps, tool_failure_text, tool_result_text, App,
    AppEvent, Effect, MarcoStep, ReplyStep,
};
use zeroai::db::{ModelConfig, Session, StoredMessage, Timestamp};
use zeroai::llm::openai_compat::OpenAiCompatProvider;
use zeroai::llm::{LlmResponse, ProviderConfig, ToolCall};
use zeroai::mcp::McpTool;

const NOW: Timestamp = Timestamp { secs: 1_700_000_000, nanos: 5 };

fn app_in_session() -> App {
    let mut app = App::new("desk".into());
    app.switch_to_session("s1".into(), vec![]);
    app
}

fn session(id: &str, name: Option<&str>, ephemeral: bool) -> Session {
    Session { id: id.into(), name: name.map(|n| n.into()), model_id: None, created_at: NOW, updated_at: NOW, ephemeral }
}

#[test]
fn model_text_is_shown_kept_and_stored_in_order() {
    let mut app = app_in_session();
    let fx = app.handle_event(AppEvent::LlmResponse("hello".into()), NOW);
    assert_eq!(fx.len(), 2);
    match &fx[1] {
        Effect::Save(m) => {
            assert_eq!(m.session_id, "s1");
            assert_eq!(m.index, 0);
            assert_eq!(m.role, "assistant");
            assert_eq!(m.content, "hello");
        }
        other => panic!("unexpected {:?}", other),
    }
    let fx = app.handle_event(AppEvent::LlmResponse("again".into()), NOW);
    assert!(matches!(&fx[1], Effect::Save(m) if m.index == 1));
    assert_eq!(app.message_count, 2);
    assert_eq!(app.session_messages.len(), 2);
    assert_eq!(app.ui.chat_lines.len(), 2);
}

#[test]
fn without_a_session_nothing_is_stored() {
    let mut app = App::new("desk".into());
    let fx = app.handle_event(AppEvent::LlmResponse("x".into()), NOW);
    assert_eq!(fx.len(), 1);
    assert_eq!(app.message_count, 0);
}

#[test]
fn errors_and_statuses_end_the_answer() {
    let mut app = App::new("desk".into());
    let fx = app.handle_event(AppEvent::LlmError("boom".into()), NOW);
    assert!(matches!(&fx[0], Effect::Show(l) if l.content == "Error: boom" && l.role == "system"));
    assert!(app.ui.response_complete);
    let mut app = App::new("desk".into());
    let fx = app.handle_event(AppEvent::StatusUpdate("Thinking...".into()), NOW);
    assert_eq!(fx, vec![Effect::Status(".. Thinking...".into())]);
    assert!(!app.ui.response_complete);
    let fx = app.handle_event(AppEvent::StatusUpdate("Ready".into()), NOW);
    assert!(fx.is_empty());
    assert!(app.ui.response_complete);
}

#[test]
fn shell_confirm_waits_and_result_feeds_back() {
    let mut app = App::new("desk".into());
    app.handle_event(AppEvent::ShellConfirm { command: "ls".into(), reason: "look".into() }, NOW);
    assert_eq!(app.ui.pending_shell_confirm, Some(("ls".to_string(), "look".to_string())));
    app.ui.shells_pending = 1;
    let fx = app.handle_event(
        AppEvent::ShellResult { command: "ls".into(), output: "a\nb\n".into(), exit_code: 0 },
        NOW,
    );
    assert!(matches!(&fx[0], Effect::Show(l) if l.content == "$ ls\na\nb"));
    assert_eq!(app.session_messages[0].role, "user");
    assert_eq!(app.session_messages[0].content, "Command `ls` exited with code 0.\nOutput:\na\nb");
    assert_eq!(app.ui.shells_pending, 0);
    assert!(app.ui.response_complete);
    // saturating: a result with nothing pending stays at zero
    app.handle_event(AppEvent::ShellResult { command: "x".into(), output: String::new(), exit_code: -1 }, NOW);
    assert_eq!(app.ui.shells_pending, 0);
}

#[test]
fn yolo_prefix_turns_confirmation_off_for_one_exchange() {
    let mut app = app_in_session();
    let out = app.begin_message("[yolo][yolo]  run it ", NOW);
    assert!(app.yolo);
    assert_eq!(out.status.as_deref(), Some(".. ⚡ YOLO mode: commands will auto-execute this exchange"));
    assert_eq!(app.session_messages[0].content, "run it");
    assert_eq!(out.saved.unwrap().content, "run it");
    let out = app.begin_message("  plain  ", NOW);
    assert!(!app.yolo);
    assert!(out.status.is_none());
    assert_eq!(app.session_messages[1].content, "  plain  ");
    assert_eq!(out.saved.unwrap().index, 1);
}

#[test]
fn completion_plan_needs_model_and_key() {
    assert_eq!(
        completion_plan(None, None, None).unwrap_err(),
        "No model configured. Use /model to select one."
    );
    assert_eq!(
        completion_plan(Some("grok-4".into()), Some("xai".into()), None).unwrap_err(),
        "No API key for grok-4. Use /model to configure it."
    );
    let stored = ModelConfig {
        id: "grok-4".into(),
        provider: "xai".into(),
        display_name: "xAI grok-4".into(),
        api_key: Some("k".into()),
        endpoint: Some("https://proxy/v1".into()),
    };
    assert_eq!(
        completion_plan(Some("grok-4".into()), Some("xai".into()), Some(stored)).unwrap(),
        ProviderConfig::OpenAiCompat(OpenAiCompatProvider::new("k".into(), "grok-4".into(), "https://proxy/v1".into(), "xAI".into()))
    );
    assert!(completion_plan(Some("phi4".into()), Some("ollama".into()), None).is_ok());
    assert_eq!(
        completion_plan(Some("m".into()), Some("odd".into()), Some(ModelConfig {
            id: "m".into(),
            provider: "odd".into(),
            display_name: "m".into(),
            api_key: Some("k".into()),
            endpoint: None
        }))
        .unwrap_err(),
        "Unknown provider: odd"
    );
}

#[test]
fn tools_offered_end_with_the_shell_tool() {
    let t = McpTool { name: "read".into(), description: None, input_schema: Value::Bool(true) };
    let tools = offered_tools(vec![("fs".into(), t)], Value::Null);
    assert_eq!(tools.len(), 2);
    assert_eq!(tools[0].name, "read");
    assert_eq!(tools[0].description, "");
    assert_eq!(tools[1].name, "run_shell_command");
    assert!(tools[1].description.starts_with("Run a shell command on the user's local machine."));
}

#[test]
fn reply_steps_route_tool_calls() {
    let resp = LlmResponse {
        content: "done".into(),
        tool_calls: vec![
            ToolCall { id: "1".into(), name: "run_shell_command".into(), input: Value::Null },
            ToolCall { id: "2".into(), name: "read".into(), input: Value::Bool(true) },
        ],
    };
    let steps = reply_steps(resp.clone(), vec![(Some("ls".into()), None), (None, None)], false, false);
    assert!(matches!(&steps[0], ReplyStep::ConfirmShell { command, reason } if command == "ls" && reason.is_empty()));
    assert!(matches!(&steps[1], ReplyStep::CallTool { name, input } if name == "read" && *input == Value::Bool(true)));
    assert!(matches!(&steps[2], ReplyStep::Say(t) if t == "done"));
    assert!(matches!(&steps[3], ReplyStep::Status(t) if t == "Ready"));
    let steps = reply_steps(
        LlmResponse { content: String::new(), tool_calls: vec![resp.tool_calls[0].clone()] },
        vec![(None, Some("why".into()))],
        true,
        false,
    );
    assert_eq!(steps.len(), 2);
    assert!(matches!(&steps[0], ReplyStep::RunShell(c) if c.is_empty()));
    // in a session connected to another agent every tool call is relayed
    let steps = reply_steps(resp.clone(), vec![(Some("ls".into()), None), (None, None)], true, true);
    assert_eq!(steps.len(), 4);
    assert!(matches!(&steps[0], ReplyStep::Relay { name, input } if name == "run_shell_command" && *input == Value::Null));
    assert!(matches!(&steps[1], ReplyStep::Relay { name, input } if name == "read" && *input == Value::Bool(true)));
    assert!(matches!(&steps[2], ReplyStep::Say(t) if t == "done"));
    assert_eq!(tool_result_text("read", "{}"), "[Tool: read]\n{}");
    assert_eq!(tool_failure_text("read", "gone"), "Tool read failed: gone");
}

#[test]
fn sessions_named_switched_and_discarded() {
    let app = App::new("desk".into());
    let all = vec![session("a", None, true), session("b", Some("work"), false), session("c", None, true)];
    let named = App::list_named_sessions(all.clone());
    assert_eq!(named.len(), 1);
    assert_eq!(named[0].id, "b");
    assert_eq!(App::ephemeral_session_ids(&all), vec!["a".to_string(), "c".to_string()]);
    assert_eq!(app.current_session_name(None), "ephemeral");
    let s = app.create_named_session("n1".into(), "work".into(), NOW);
    assert!(!s.ephemeral);
    let mut app = app;
    let stored = vec![StoredMessage { session_id: "n1".into(), index: 0, role: "user".into(), content: "hi".into(), timestamp: NOW }];
    app.switch_to_session("n1".into(), stored);
    assert_eq!(app.message_count, 1);
    assert_eq!(app.ui.chat_lines[0].content, "hi");
    assert_eq!(app.current_session_name(Some(s.clone())), "work");
    assert_eq!(app.handle_bye(Some(s.clone())), None);
    // Ctrl+C treats even a named session as ephemeral
    assert_eq!(app.handle_ctrl_c(), Some("n1".to_string()));
    assert_eq!(app.handle_quit(), Some("n1".to_string()));
    let e = app.create_ephemeral_session("n1".into(), NOW);
    assert_eq!(app.handle_bye(Some(e.clone())), Some("n1".to_string()));
    assert_eq!(app.handle_ctrl_c(), Some("n1".to_string()));
    // /forget wipes the history but keeps the session
    assert_eq!(app.forget(), Some("n1".to_string()));
    assert_eq!(app.current_session_id, Some("n1".to_string()));
    assert!(app.session_messages.is_empty());
    assert!(app.ui.chat_lines.is_empty());
    assert_eq!(app.message_count, 0);
    let fresh = App::new("agent".into());
    assert_eq!(fresh.handle_ctrl_c(), None);
}

#[test]
fn model_list_reflects_stored_keys() {
    let cfg = App::save_api_key("grok-3", "secret");
    assert_eq!(cfg.provider, "xai");
    assert_eq!(cfg.display_name, "xAI grok-3");
    assert_eq!(cfg.api_key.as_deref(), Some("secret"));
    let unknown = App::save_api_key("custom", "k");
    assert_eq!(unknown.provider, "");
    assert_eq!(unknown.display_name, "custom");
    let list = App::get_model_list(&vec![cfg], false);
    assert!(list[4].configured);
    assert!(!list[3].configured);
    assert!(list[6].configured);
    assert!(!list[0].configured);
    let mut no_key = App::save_api_key("grok-4", "k");
    no_key.api_key = None;
    assert!(!App::get_model_list(&vec![no_key], true)[3].configured);
    let mut app = App::new("desk".into());
    assert_eq!(app.current_model_name(), "no model");
    app.set_active_model("grok-3", "xai");
    assert_eq!(app.current_model_name(), "grok-3");
}

#[test]
fn marco_toggles_advertising() {
    let mut app = App::new("desk".into());
    assert_eq!(app.handle_marco(Some(4000), false), MarcoStep::Unavailable);
    let step = app.handle_marco(Some(4000), true);
    assert_eq!(step, MarcoStep::Start { agent_name: "desk".into(), port: 4000, model: None });
    assert_eq!(
        app.marco_finished(&step, Ok(())),
        Some("Marco: advertising ON (port 4000, model: none)".to_string())
    );
    assert!(app.is_advertising);
    let stop = app.handle_marco(None, true);
    assert_eq!(stop, MarcoStep::Stop);
    assert_eq!(app.marco_finished(&stop, Err("busy".into())), Some("Marco error: busy".to_string()));
    assert!(app.is_advertising);
    assert_eq!(app.marco_finished(&stop, Ok(())), Some("Marco: advertising OFF".to_string()));
    assert!(!app.is_advertising);
    assert_eq!(app.handle_marco(None, true), MarcoStep::Start { agent_name: "desk".into(), port: 0, model: None });
}

#[test]
fn identity_texts_and_codes() {
    assert_eq!(byte_prefix("abcdef", 3), "abc");
    assert_eq!(byte_prefix("ab", 10), "ab");
    assert_eq!(existing_identity_text("ghp_0123456789abcdefghijXYZ"), "Current identity token: ghp_0123456789abcdef...");
    assert_eq!(identity_saved_text("abc"), "Identity token saved: abc...");
    assert_eq!(oauth_redirect_status(5555), "OAuth redirect: http://127.0.0.1:5555/callback");
    assert_eq!(
        extract_oauth_code(b"GET /callback?code=ab-C_9&state=x HTTP/1.1\r\n"),
        Some("ab-C_9".to_string())
    );
    assert_eq!(extract_oauth_code(b"GET /callback?code=&x HTTP/1.1"), None);
    assert_eq!(extract_oauth_code(b"GET / HTTP/1.1"), None);
}
