use serde_json::Value;
use zeroai::llm::anthropic::{collect_reply, AnthropicContent, AnthropicProvider};
use zeroai::llm::ollama::{self, OllamaProvider};
use zeroai::llm::openai_compat::{read_reply, OaiChoice, OaiToolCall, OpenAiCompatProvider};
use zeroai::llm::{all_known_models, api_error, build_provider, build_system_prompt, ProviderConfig};

#[test]
fn known_models_and_readiness() {
    let with = all_known_models(true);
    let without = all_known_models(false);
    assert_eq!(with.len(), 9);
    let ids: Vec<&str> = with.iter().map(|m| m.id.as_str()).collect();
    assert_eq!(
        ids,
        vec!["opus", "sonnet", "haiku", "grok-4", "grok-3", "grok-3-mini", "llama3.2", "mistral", "phi4"]
    );
    assert_eq!(with[3].display_name, "xAI grok-4");
    assert_eq!(with[6].display_name, "Ollama llama3.2 (local)");
    for (a, b) in with.iter().zip(without.iter()) {
        match a.provider.as_str() {
            "claude_code" => {
                assert!(a.configured);
                assert!(!b.configured);
            }
            "ollama" => assert!(a.configured && b.configured),
            _ => assert!(!a.configured && !b.configured),
        }
    }
}

#[test]
fn providers_are_chosen_by_name_with_default_endpoints() {
    assert_eq!(
        build_provider("grok-4", "xai", Some("k"), None),
        Ok(ProviderConfig::OpenAiCompat(OpenAiCompatProvider::new(
            "k".to_string(),
            "grok-4".to_string(),
            "https://api.x.ai/v1".to_string(),
            "xAI".to_string()
        )))
    );
    assert_eq!(
        build_provider("phi4", "ollama", None, Some("http://box:1")),
        Ok(ProviderConfig::Ollama(OllamaProvider::new("phi4".to_string(), "http://box:1".to_string())))
    );
    assert_eq!(
        build_provider("phi4", "ollama", None, None),
        Ok(ProviderConfig::Ollama(OllamaProvider::new("phi4".to_string(), "http://localhost:11434".to_string())))
    );
    assert_eq!(
        build_provider("c", "anthropic", None, None),
        Ok(ProviderConfig::Anthropic(AnthropicProvider::new(String::new(), "c".to_string())))
    );
    assert_eq!(
        build_provider("m", "claude_code", None, None),
        Ok(ProviderConfig::ClaudeCode { model: "m".to_string() })
    );
    assert_eq!(build_provider("m", "mystery", None, None), Err("Unknown provider: mystery".to_string()));
}

#[test]
fn provider_names_and_urls() {
    let p = OpenAiCompatProvider::new("k".into(), "m".into(), "https://api.x.ai/v1//".into(), "xAI".into());
    assert_eq!(p.chat_url(), "https://api.x.ai/v1/chat/completions");
    assert_eq!(p.name(), "xAI");
    let o = OllamaProvider::new("m".into(), "http://localhost:11434/".into());
    assert_eq!(o.chat_url(), "http://localhost:11434/api/chat");
    assert_eq!(o.name(), "Ollama");
    assert_eq!(AnthropicProvider::new("k".into(), "m".into()).name(), "Anthropic");
    assert_eq!(api_error("Ollama error", "500 Internal Server Error", "boom"), "Ollama error 500 Internal Server Error: boom");
}

fn block(t: &str, text: Option<&str>, id: Option<&str>, name: Option<&str>, input: Option<Value>) -> AnthropicContent {
    AnthropicContent {
        content_type: t.to_string(),
        text: text.map(|s| s.to_string()),
        id: id.map(|s| s.to_string()),
        name: name.map(|s| s.to_string()),
        input,
    }
}

#[test]
fn anthropic_reply_joins_texts_and_keeps_complete_tool_uses() {
    let input: Value = serde_json::from_str(r#"{"command":"ls"}"#).unwrap();
    let resp = collect_reply(vec![
        block("text", Some("Hello"), None, None, None),
        block("tool_use", None, Some("t1"), Some("run_shell_command"), Some(input.clone())),
        block("tool_use", None, None, Some("incomplete"), Some(Value::Null)),
        block("text", None, None, None, None),
        block("image", Some("ignored"), None, None, None),
        block("text", Some("World"), None, None, None),
    ]);
    assert_eq!(resp.content, "Hello\nWorld");
    assert_eq!(resp.tool_calls.len(), 1);
    assert_eq!(resp.tool_calls[0].id, "t1");
    assert_eq!(resp.tool_calls[0].name, "run_shell_command");
    assert_eq!(resp.tool_calls[0].input, input);
}

#[test]
fn openai_reply_reads_first_choice() {
    let resp = read_reply(vec![
        OaiChoice {
            content: None,
            tool_calls: Some(vec![
                OaiToolCall { id: "1".into(), name: "f".into(), arguments: r#"{"a":1}"#.into() },
                OaiToolCall { id: "2".into(), name: "g".into(), arguments: "not json".into() },
            ]),
        },
        OaiChoice { content: Some("second".into()), tool_calls: None },
    ])
    .unwrap();
    assert_eq!(resp.content, "");
    assert_eq!(resp.tool_calls.len(), 2);
    assert_eq!(resp.tool_calls[0].input, serde_json::from_str::<Value>(r#"{"a":1}"#).unwrap());
    assert_eq!(resp.tool_calls[1].input, Value::Null);
    assert_eq!(read_reply(vec![]).unwrap_err(), "No choices in response");
}

#[test]
fn ollama_reply_has_no_tool_calls() {
    let r = ollama::read_reply("hi".to_string());
    assert_eq!(r.content, "hi");
    assert!(r.tool_calls.is_empty());
}

#[test]
fn system_prompt_describes_the_machine() {
    let p = build_system_prompt(
        "linux",
        "x86_64",
        Some("/bin/bash".into()),
        None,
        Some("ann".into()),
        "  box\n",
        "NAME=\"Ubuntu\"\nPRETTY_NAME=\"Ubuntu 22.04.4 LTS\"\nID=ubuntu\n",
    );
    assert_eq!(
        p,
        "You are a helpful AI assistant running on the user's local machine.\nSystem information:\n- OS: Ubuntu 22.04.4 LTS\n- Kernel/platform: linux x86_64\n- Shell: /bin/bash\n- User: ann@box\nWhen providing commands or file paths, use syntax appropriate for this system."
    );
    let q = build_system_prompt("linux", "aarch64", None, None, None, "", "");
    assert!(q.contains("- OS: linux\n"));
    assert!(q.contains("- Shell: unknown\n"));
    assert!(q.contains("- User: unknown@unknown\n"));
}
