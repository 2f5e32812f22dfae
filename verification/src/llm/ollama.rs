//! The Ollama chat API: provider settings, the request URL and the reply.
use vstd::prelude::*;
use vstd::string::*;
use crate::llm::LlmResponse;
use crate::text::{concat2, strip_suffixes, trim_end_matches};

verus! {

/// Settings for a local Ollama server.
#[derive(Debug, Clone, PartialEq, Eq)]
pub struct OllamaProvider {
    pub model: String,
    pub endpoint: String,
}

impl OllamaProvider {
    /// A provider for `model` served at `endpoint`.
    pub fn new(model: String, endpoint: String) -> (r: Self)
        ensures
            r.model == model,
            r.endpoint == endpoint,
    {
        OllamaProvider { model, endpoint }
    }

    /// The provider's display name.
    pub fn name(&self) -> (r: &'static str)
        ensures
            r@ == "Ollama"@,
    {
        "Ollama"
    }

    /// The chat URL: the endpoint without trailing slashes, then `/api/chat`.
    pub fn chat_url(&self) -> (r: String)
        ensures
            r@ == strip_suffixes(self.endpoint@, "/"@) + "/api/chat"@,
    {
        let base = trim_end_matches(self.endpoint.as_str(), "/");
        concat2(base.as_str(), "/api/chat")
    }
}

/// Reads an Ollama reply: its message text, and no tool calls (tools are not
/// offered to Ollama).
pub fn read_reply(content: String) -> (r: LlmResponse)
    ensures
        r.content == content,
        r.tool_calls@.len() == 0,
{
    LlmResponse { content, tool_calls: Vec::new() }
}

} // verus!
