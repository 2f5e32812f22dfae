//! The A2A HTTP interface: the agent card, relayed tool calls and replies.
use vstd::prelude::*;
use vstd::string::*;
use crate::text::{concat2, decimal, decimal_u64};

verus! {

/// What an agent tells about itself at `/a2a/info`.
#[derive(Debug, Clone, PartialEq, Eq)]
pub struct AgentCard {
    pub name: String,
    pub model: Option<String>,
    pub identity: Option<String>,
    pub version: String,
}

impl AgentCard {
    /// The card of this agent, version `0.1.0`.
    pub fn new(agent_name: &str, model: Option<String>, identity: Option<String>) -> (r: Self)
        ensures
            r.name@ == agent_name@,
            r.model == model,
            r.identity == identity,
            r.version@ == "0.1.0"@,
    {
        AgentCard { name: String::from_str(agent_name), model, identity, version: String::from_str("0.1.0") }
    }

    /// Records the model now in use.
    pub fn update_model(&mut self, model: Option<String>)
        ensures
            final(self).model == model,
            final(self).name == old(self).name,
            final(self).identity == old(self).identity,
            final(self).version == old(self).version,
    {
        self.model = model;
    }
}

/// A message sent to another agent at `/a2a/message`.
#[derive(Debug, Clone)]
pub struct A2aMessage {
    pub session_id: String,
    pub tool_name: Option<String>,
    pub tool_input: Option<serde_json::Value>,
    pub content: Option<String>,
    /// `tool_call` or `message`.
    pub message_type: String,
}

/// An agent's answer to a message.
#[derive(Debug, Clone, PartialEq, Eq)]
pub struct A2aResponse {
    pub content: String,
    pub error: Option<String>,
}

/// `http://{ip}:{port}{path}`.
pub open spec fn agent_url(ip: Seq<char>, port: u16, path: Seq<char>) -> Seq<char> {
    "http://"@ + ip + ":"@ + decimal(port as nat) + path
}

fn url(ip: &str, port: u16, path: &str) -> (r: String)
    ensures
        r@ == agent_url(ip@, port, path@),
{
    let mut r = String::from_str("http://");
    r.append(ip);
    r.append(":");
    let p = decimal_u64(port as u64);
    r.append(p.as_str());
    r.append(path);
    r
}

/// Where messages for the agent at `ip:port` go.
pub fn message_url(ip: &str, port: u16) -> (r: String)
    ensures
        r@ == agent_url(ip@, port, "/a2a/message"@),
{
    url(ip, port, "/a2a/message")
}

/// Where the agent at `ip:port` tells about itself.
pub fn info_url(ip: &str, port: u16) -> (r: String)
    ensures
        r@ == agent_url(ip@, port, "/a2a/info"@),
{
    url(ip, port, "/a2a/info")
}

/// The message that relays a tool call to another agent.
pub fn tool_call_message(session_id: &str, tool_name: &str, tool_input: serde_json::Value) -> (r: A2aMessage)
    ensures
        r.session_id@ == session_id@,
        r.tool_name matches Some(t) && t@ == tool_name@,
        r.tool_input == Some(tool_input),
        r.content is None,
        r.message_type@ == "tool_call"@,
{
    A2aMessage {
        session_id: String::from_str(session_id),
        tool_name: Some(String::from_str(tool_name)),
        tool_input: Some(tool_input),
        content: None,
        message_type: String::from_str("tool_call"),
    }
}

/// What a relayed tool call yields from the remote answer: its content, or
/// `Remote error: {error}` when it reports an error.
pub fn relay_outcome(resp: A2aResponse) -> (r: Result<String, String>)
    ensures
        match resp.error {
            Some(e) => r matches Err(t) && t@ == "Remote error: "@ + e@,
            None => r == Ok::<String, String>(resp.content),
        },
{
    match resp.error {
        Some(e) => Err(concat2("Remote error: ", e.as_str())),
        None => Ok(resp.content),
    }
}

/// The answer to a posted message: `queued` once it is handed on, else the
/// error (`send_error`) with empty content.
pub fn post_reply(send_error: Option<String>) -> (r: A2aResponse)
    ensures
        match send_error {
            Some(e) => r.content@.len() == 0 && r.error == Some(e),
            None => r.content@ == "queued"@ && r.error is None,
        },
{
    match send_error {
        Some(e) => A2aResponse { content: String::new(), error: Some(e) },
        None => A2aResponse { content: String::from_str("queued"), error: None },
    }
}

} // verus!
