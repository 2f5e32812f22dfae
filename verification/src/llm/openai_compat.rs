//! OpenAI-compatible chat completion APIs: provider settings, the request URL
//! and the reading of a reply.
use vstd::prelude::*;
use vstd::string::*;
use crate::json::{json_or_null, parse_json_or_null};
use crate::llm::{LlmResponse, ToolCall};
use crate::text::{concat2, strip_suffixes, trim_end_matches};

verus! {

/// Settings for an OpenAI-compatible provider.
#[derive(Debug, Clone, PartialEq, Eq)]
pub struct OpenAiCompatProvider {
    pub api_key: String,
    pub model: String,
    pub endpoint: String,
    pub provider_name: String,
}

impl OpenAiCompatProvider {
    /// A provider for `model` at `endpoint`, shown as `provider_name`.
    pub fn new(api_key: String, model: String, endpoint: String, provider_name: String) -> (r: Self)
        ensures
            r.api_key == api_key,
            r.model == model,
            r.endpoint == endpoint,
            r.provider_name == provider_name,
    {
        OpenAiCompatProvider { api_key, model, endpoint, provider_name }
    }

    /// The provider's display name.
    pub fn name(&self) -> (r: &str)
        ensures
            r@ == self.provider_name@,
    {
        self.provider_name.as_str()
    }

    /// The chat completions URL: the endpoint without trailing slashes, then
    /// `/chat/completions`.
    pub fn chat_url(&self) -> (r: String)
        ensures
            r@ == strip_suffixes(self.endpoint@, "/"@) + "/chat/completions"@,
    {
        let base = trim_end_matches(self.endpoint.as_str(), "/");
        concat2(base.as_str(), "/chat/completions")
    }
}

/// A tool call in an OpenAI-style reply; `arguments` is JSON text.
#[derive(Debug, Clone, PartialEq, Eq)]
pub struct OaiToolCall {
    pub id: String,
    pub name: String,
    pub arguments: String,
}

/// The message of one choice of an OpenAI-style reply.
#[derive(Debug, Clone, PartialEq, Eq)]
pub struct OaiChoice {
    pub content: Option<String>,
    pub tool_calls: Option<Vec<OaiToolCall>>,
}

/// The tool call a reply's call stands for: its arguments parsed as JSON
/// (`null` when they do not parse).
pub open spec fn tool_call_of(c: OaiToolCall) -> ToolCall {
    ToolCall { id: c.id, name: c.name, input: json_or_null(c.arguments@) }
}

/// The text of a choice (empty if it has none).
pub open spec fn reply_text(c: OaiChoice) -> Seq<char> {
    match c.content {
        Some(t) => t@,
        None => Seq::empty(),
    }
}

/// The tool calls of a choice (none if it has none).
pub open spec fn reply_tool_calls(c: OaiChoice) -> Seq<ToolCall> {
    match c.tool_calls {
        Some(v) => v@.map_values(|t: OaiToolCall| tool_call_of(t)),
        None => Seq::empty(),
    }
}

/// Whether `calls` are the reply's calls one for one, in order: same number,
/// and each with its call's id and name and its arguments read as JSON (none
/// when the reply has no tool calls).
pub open spec fn calls_match(calls: Seq<ToolCall>, reply: Option<Vec<OaiToolCall>>) -> bool {
    match reply {
        Some(v) => calls.len() == v@.len() && forall|k: int|
            0 <= k < v@.len() ==> #[trigger] calls[k].id == v@[k].id && calls[k].name == v@[k].name
                && calls[k].input == json_or_null(v@[k].arguments@),
        None => calls.len() == 0,
    }
}

/// Every tool call of a choice is kept, in order, with its id, name and
/// parsed arguments.
pub proof fn lemma_every_call_kept(c: OaiChoice)
    ensures
        calls_match(reply_tool_calls(c), c.tool_calls),
{
}

/// Reads an OpenAI-style reply: the first choice's text (empty if none) and
/// tool calls; a reply without choices is an error.
pub fn read_reply(choices: Vec<OaiChoice>) -> (r: Result<LlmResponse, String>)
    ensures
        choices@.len() == 0 ==> (r matches Err(e) && e@ == "No choices in response"@),
        choices@.len() > 0 ==> (r matches Ok(resp) && resp.content@ == reply_text(choices@[0])
            && resp.tool_calls@ == reply_tool_calls(choices@[0])),
        choices@.len() > 0 ==> (r matches Ok(resp) && calls_match(resp.tool_calls@, choices@[0].tool_calls)),
{
    proof {
        if choices@.len() > 0 {
            lemma_every_call_kept(choices@[0]);
        }
    }
    if choices.len() == 0 {
        return Err(String::from_str("No choices in response"));
    }
    let mut choices = choices;
    let first = choices.swap_remove(0);
    let content = match first.content {
        Some(c) => c,
        None => String::new(),
    };
    let calls = match first.tool_calls {
        Some(v) => v,
        None => Vec::new(),
    };
    let mut tool_calls: Vec<ToolCall> = Vec::new();
    let mut i: usize = 0;
    while i < calls.len()
        invariant
            i <= calls.len(),
            tool_calls@ == calls@.take(i as int).map_values(|c: OaiToolCall| tool_call_of(c)),
        decreases calls.len() - i,
    {
        let c = &calls[i];
        let input = parse_json_or_null(c.arguments.as_str());
        tool_calls.push(ToolCall { id: c.id.clone(), name: c.name.clone(), input });
        proof {
            assert(calls@.take(i + 1) =~= calls@.take(i as int).push(calls@[i as int]));
            assert(calls@.take(i + 1).map_values(|c: OaiToolCall| tool_call_of(c)) =~= calls@.take(
                i as int,
            ).map_values(|c: OaiToolCall| tool_call_of(c)).push(tool_call_of(calls@[i as int])));
        }
        i = i + 1;
    }
    assert(calls@.take(calls@.len() as int) =~= calls@);
    Ok(LlmResponse { content, tool_calls })
}

} // verus!
