//! Chat messages, tools and responses shared by all providers; the catalogue
//! of known models; the choice of provider for a model.
pub mod anthropic;
pub mod ollama;
pub mod openai_compat;

use vstd::prelude::*;
use vstd::string::*;
use crate::text::{
    concat2, lines, lines_seq, seq_view, starts_with, str_eq, strip_char_both, strip_prefixes, trim,
    trim_matches_char, trim_seq, trim_start_matches,
};
use self::anthropic::AnthropicProvider;
use self::ollama::OllamaProvider;
use self::openai_compat::OpenAiCompatProvider;

verus! {

/// One chat message.
#[derive(Debug, Clone, PartialEq, Eq)]
pub struct Message {
    pub role: String,
    pub content: String,
}

/// A tool offered to the model.
#[derive(Debug, Clone)]
pub struct Tool {
    pub name: String,
    pub description: String,
    pub input_schema: serde_json::Value,
}

/// A tool call asked for by the model.
#[derive(Debug, Clone)]
pub struct ToolCall {
    pub id: String,
    pub name: String,
    pub input: serde_json::Value,
}

/// What a model answered: its text and the tools it wants called.
#[derive(Debug, Clone)]
pub struct LlmResponse {
    pub content: String,
    pub tool_calls: Vec<ToolCall>,
}

/// A model the program knows of, and whether it is ready for use.
#[derive(Debug, Clone, PartialEq, Eq)]
pub struct ModelInfo {
    pub id: String,
    pub provider: String,
    pub display_name: String,
    pub configured: bool,
}

/// A known model as characters: id, provider, display name.
pub open spec fn known_model_table() -> Seq<(Seq<char>, Seq<char>, Seq<char>)> {
    seq![
        ("opus"@, "claude_code"@, "Code CLI opus"@),
        ("sonnet"@, "claude_code"@, "Code CLI sonnet"@),
        ("haiku"@, "claude_code"@, "Code CLI haiku"@),
        ("grok-4"@, "xai"@, "xAI grok-4"@),
        ("grok-3"@, "xai"@, "xAI grok-3"@),
        ("grok-3-mini"@, "xai"@, "xAI grok-3-mini"@),
        ("llama3.2"@, "ollama"@, "Ollama llama3.2 (local)"@),
        ("mistral"@, "ollama"@, "Ollama mistral (local)"@),
        ("phi4"@, "ollama"@, "Ollama phi4 (local)"@),
    ]
}

/// Whether a known model of `provider` is ready without a key of its own:
/// `claude_code` models when their code-assistant command line is available,
/// Ollama models always, others never (they need an API key).
pub open spec fn configured_by_default(provider: Seq<char>, claude_code_available: bool) -> bool {
    if provider == "claude_code"@ {
        claude_code_available
    } else {
        provider == "ollama"@
    }
}

/// A model's fields as characters.
pub open spec fn model_info_view(m: ModelInfo) -> (Seq<char>, Seq<char>, Seq<char>, bool) {
    (m.id@, m.provider@, m.display_name@, m.configured)
}

/// The known models, with their default readiness.
pub open spec fn known_models_spec(claude_code_available: bool) -> Seq<(Seq<char>, Seq<char>, Seq<char>, bool)> {
    let a = claude_code_available;
    seq![
        ("opus"@, "claude_code"@, "Code CLI opus"@, a),
        ("sonnet"@, "claude_code"@, "Code CLI sonnet"@, a),
        ("haiku"@, "claude_code"@, "Code CLI haiku"@, a),
        ("grok-4"@, "xai"@, "xAI grok-4"@, false),
        ("grok-3"@, "xai"@, "xAI grok-3"@, false),
        ("grok-3-mini"@, "xai"@, "xAI grok-3-mini"@, false),
        ("llama3.2"@, "ollama"@, "Ollama llama3.2 (local)"@, true),
        ("mistral"@, "ollama"@, "Ollama mistral (local)"@, true),
        ("phi4"@, "ollama"@, "Ollama phi4 (local)"@, true),
    ]
}

/// Every known model starts out ready exactly when its provider needs no key
/// of its own: `claude_code` models when the tool is installed, Ollama models
/// always, the others never.
pub proof fn lemma_default_readiness(claude_code_available: bool)
    ensures
        known_models_spec(claude_code_available).len() == known_model_table().len(),
        forall|i: int| 0 <= i < known_model_table().len() ==> {
            let m = #[trigger] known_models_spec(claude_code_available)[i];
            let e = known_model_table()[i];
            m.0 == e.0 && m.1 == e.1 && m.2 == e.2 && m.3 == configured_by_default(e.1, claude_code_available)
        },
{
    reveal_strlit("claude_code");
    reveal_strlit("xai");
    reveal_strlit("ollama");
}

fn model(id: &str, provider: &str, display_name: &str, configured: bool) -> (m: ModelInfo)
    ensures
        model_info_view(m) == (id@, provider@, display_name@, configured),
{
    ModelInfo {
        id: String::from_str(id),
        provider: String::from_str(provider),
        display_name: String::from_str(display_name),
        configured,
    }
}

/// The models the program knows of. `claude_code_available` tells whether the
/// code-assistant command line serving the `claude_code` models is installed
/// on this machine.
pub fn all_known_models(claude_code_available: bool) -> (r: Vec<ModelInfo>)
    ensures
        r@.map_values(|m: ModelInfo| model_info_view(m)) == known_models_spec(
            claude_code_available,
        ),
{
    let r = vec![
        model("opus", "claude_code", "Code CLI opus", claude_code_available),
        model("sonnet", "claude_code", "Code CLI sonnet", claude_code_available),
        model("haiku", "claude_code", "Code CLI haiku", claude_code_available),
        model("grok-4", "xai", "xAI grok-4", false),
        model("grok-3", "xai", "xAI grok-3", false),
        model("grok-3-mini", "xai", "xAI grok-3-mini", false),
        model("llama3.2", "ollama", "Ollama llama3.2 (local)", true),
        model("mistral", "ollama", "Ollama mistral (local)", true),
        model("phi4", "ollama", "Ollama phi4 (local)", true),
    ];
    assert(r@.map_values(|m: ModelInfo| model_info_view(m)) =~= known_models_spec(
        claude_code_available,
    ));
    r
}

/// The client configuration chosen for a model: which provider talks to it,
/// with what key, model name and endpoint.
#[derive(Debug, Clone, PartialEq, Eq)]
pub enum ProviderConfig {
    ClaudeCode { model: String },
    Anthropic(AnthropicProvider),
    OpenAiCompat(OpenAiCompatProvider),
    Ollama(OllamaProvider),
}

/// A provider configuration as characters: kind, API key, model, endpoint,
/// display name of the provider (empty where the kind has none).
pub open spec fn provider_view(p: ProviderConfig) -> (int, Seq<char>, Seq<char>, Seq<char>, Seq<char>) {
    match p {
        ProviderConfig::ClaudeCode { model } => (0, Seq::empty(), model@, Seq::empty(), Seq::empty()),
        ProviderConfig::Anthropic(a) => (1, a.api_key@, a.model@, Seq::empty(), Seq::empty()),
        ProviderConfig::OpenAiCompat(o) => (2, o.api_key@, o.model@, o.endpoint@, o.provider_name@),
        ProviderConfig::Ollama(o) => (3, Seq::empty(), o.model@, o.endpoint@, Seq::empty()),
    }
}

/// An optional text, or a default.
pub open spec fn or_default(o: Option<Seq<char>>, d: Seq<char>) -> Seq<char> {
    match o {
        Some(s) => s,
        None => d,
    }
}

/// An optional string slice, as characters.
pub open spec fn opt_str_view(o: Option<&str>) -> Option<Seq<char>> {
    match o {
        Some(s) => Some(s@),
        None => None,
    }
}

/// Which configuration a provider name selects: `claude_code`, `anthropic`
/// (missing key: empty), `xai` (OpenAI-compatible, default endpoint
/// `https://api.x.ai/v1`), `ollama` (default endpoint
/// `http://localhost:11434`); any other name is an error naming it.
pub open spec fn build_provider_spec(
    model_id: Seq<char>,
    provider: Seq<char>,
    api_key: Option<Seq<char>>,
    endpoint: Option<Seq<char>>,
) -> Result<(int, Seq<char>, Seq<char>, Seq<char>, Seq<char>), Seq<char>> {
    if provider == "claude_code"@ {
        Ok((0, Seq::empty(), model_id, Seq::empty(), Seq::empty()))
    } else if provider == "anthropic"@ {
        Ok((1, or_default(api_key, Seq::empty()), model_id, Seq::empty(), Seq::empty()))
    } else if provider == "xai"@ {
        Ok(
            (
                2,
                or_default(api_key, Seq::empty()),
                model_id,
                or_default(endpoint, "https://api.x.ai/v1"@),
                "xAI"@,
            ),
        )
    } else if provider == "ollama"@ {
        Ok((3, Seq::empty(), model_id, or_default(endpoint, "http://localhost:11434"@), Seq::empty()))
    } else {
        Err("Unknown provider: "@ + provider)
    }
}

fn opt_or(o: Option<&str>, d: &str) -> (r: String)
    ensures
        r@ == or_default(opt_str_view(o), d@),
{
    match o {
        Some(s) => String::from_str(s),
        None => String::from_str(d),
    }
}

/// Chooses the client configuration for `model_id` served by `provider`.
pub fn build_provider(
    model_id: &str,
    provider: &str,
    api_key: Option<&str>,
    endpoint: Option<&str>,
) -> (r: Result<ProviderConfig, String>)
    ensures
        match (r, build_provider_spec(model_id@, provider@, opt_str_view(api_key), opt_str_view(endpoint))) {
            (Ok(p), Ok(v)) => provider_view(p) == v,
            (Err(e), Err(m)) => e@ == m,
            _ => false,
        },
{
    proof {
        reveal_strlit("");
    }
    if str_eq(provider, "claude_code") {
        Ok(ProviderConfig::ClaudeCode { model: String::from_str(model_id) })
    } else if str_eq(provider, "anthropic") {
        Ok(ProviderConfig::Anthropic(AnthropicProvider::new(opt_or(api_key, ""), String::from_str(model_id))))
    } else if str_eq(provider, "xai") {
        Ok(
            ProviderConfig::OpenAiCompat(
                OpenAiCompatProvider::new(
                    opt_or(api_key, ""),
                    String::from_str(model_id),
                    opt_or(endpoint, "https://api.x.ai/v1"),
                    String::from_str("xAI"),
                ),
            ),
        )
    } else if str_eq(provider, "ollama") {
        Ok(
            ProviderConfig::Ollama(
                OllamaProvider::new(String::from_str(model_id), opt_or(endpoint, "http://localhost:11434")),
            ),
        )
    } else {
        Err(concat2("Unknown provider: ", provider))
    }
}

/// An error report from a provider's HTTP API: `{label} {status}: {body}`.
pub fn api_error(label: &str, status: &str, body: &str) -> (r: String)
    ensures
        r@ == label@ + " "@ + status@ + ": "@ + body@,
{
    let mut r = String::from_str(label);
    r.append(" ");
    r.append(status);
    r.append(": ");
    r.append(body);
    r
}

/// The first line that starts with `PRETTY_NAME=`, if any.
pub open spec fn pretty_name_line(ls: Seq<Seq<char>>) -> Option<Seq<char>>
    decreases ls.len(),
{
    if ls.len() == 0 {
        None
    } else if "PRETTY_NAME="@.is_prefix_of(ls[0]) {
        Some(ls[0])
    } else {
        pretty_name_line(ls.drop_first())
    }
}

/// The distribution's name from the text of `/etc/os-release`: the value of
/// its first `PRETTY_NAME=` line without the key and surrounding quotes; the
/// operating system's name when there is none.
pub open spec fn distro_spec(os: Seq<char>, os_release: Seq<char>) -> Seq<char> {
    match pretty_name_line(lines_seq(os_release)) {
        Some(l) => strip_char_both(strip_prefixes(l, "PRETTY_NAME="@), '"'),
        None => os,
    }
}

/// The host name from the text of `/etc/hostname`, trimmed; `unknown` when
/// empty.
pub open spec fn host_spec(hostname_file: Seq<char>) -> Seq<char> {
    if trim_seq(hostname_file).len() == 0 {
        "unknown"@
    } else {
        trim_seq(hostname_file)
    }
}

/// The first of two optional texts present, else `unknown`.
pub open spec fn first_known(a: Option<Seq<char>>, b: Option<Seq<char>>) -> Seq<char> {
    match a {
        Some(x) => x,
        None => match b {
            Some(y) => y,
            None => "unknown"@,
        },
    }
}

/// The system prompt describing the machine the assistant runs on.
pub open spec fn system_prompt_spec(
    os: Seq<char>,
    arch: Seq<char>,
    shell: Option<Seq<char>>,
    user: Option<Seq<char>>,
    username: Option<Seq<char>>,
    hostname_file: Seq<char>,
    os_release: Seq<char>,
) -> Seq<char> {
    "You are a helpful AI assistant running on the user's local machine.\nSystem information:\n- OS: "@
        + distro_spec(os, os_release) + "\n- Kernel/platform: "@ + os + " "@ + arch + "\n- Shell: "@
        + first_known(shell, None) + "\n- User: "@ + first_known(user, username) + "@"@ + host_spec(hostname_file)
        + "\nWhen providing commands or file paths, use syntax appropriate for this system."@
}

fn distro(os: &str, os_release: &str) -> (r: String)
    ensures
        r@ == distro_spec(os@, os_release@),
{
    let ls = lines(os_release);
    let ghost all = seq_view(ls@);
    let mut i: usize = 0;
    assert(all.skip(0) =~= all);
    while i < ls.len()
        invariant
            i <= ls@.len(),
            all == seq_view(ls@),
            all == lines_seq(os_release@),
            pretty_name_line(all) == pretty_name_line(all.skip(i as int)),
        decreases ls.len() - i,
    {
        proof {
            assert(all.skip(i as int)[0] == ls@[i as int]@);
            assert(all.skip(i as int).drop_first() =~= all.skip(i + 1));
        }
        if starts_with(ls[i].as_str(), "PRETTY_NAME=") {
            let value = trim_start_matches(ls[i].as_str(), "PRETTY_NAME=");
            return trim_matches_char(value.as_str(), '"');
        }
        i = i + 1;
    }
    String::from_str(os)
}

fn opt_or_unknown(a: Option<String>, b: Option<String>) -> (r: String)
    ensures
        r@ == first_known(crate::text::opt_view(a), crate::text::opt_view(b)),
{
    match a {
        Some(x) => x,
        None => match b {
            Some(y) => y,
            None => String::from_str("unknown"),
        },
    }
}

/// The system prompt: `os` and `arch` name the platform; `shell`, `user` and
/// `username` are the values of `$SHELL`, `$USER` and `$USERNAME` where set;
/// `hostname_file` and `os_release` the texts of `/etc/hostname` and
/// `/etc/os-release` (empty where unreadable).
pub fn build_system_prompt(
    os: &str,
    arch: &str,
    shell: Option<String>,
    user: Option<String>,
    username: Option<String>,
    hostname_file: &str,
    os_release: &str,
) -> (r: String)
    ensures
        r@ == system_prompt_spec(
            os@,
            arch@,
            crate::text::opt_view(shell),
            crate::text::opt_view(user),
            crate::text::opt_view(username),
            hostname_file@,
            os_release@,
        ),
{
    let d = distro(os, os_release);
    let h = trim(hostname_file);
    let host = if h.as_str().unicode_len() == 0 {
        String::from_str("unknown")
    } else {
        h
    };
    let sh = opt_or_unknown(shell, None);
    let who = opt_or_unknown(user, username);
    let mut r = String::from_str(
        "You are a helpful AI assistant running on the user's local machine.\nSystem information:\n- OS: ",
    );
    r.append(d.as_str());
    r.append("\n- Kernel/platform: ");
    r.append(os);
    r.append(" ");
    r.append(arch);
    r.append("\n- Shell: ");
    r.append(sh.as_str());
    r.append("\n- User: ");
    r.append(who.as_str());
    r.append("@");
    r.append(host.as_str());
    r.append("\nWhen providing commands or file paths, use syntax appropriate for this system.");
    r
}

} // verus!
