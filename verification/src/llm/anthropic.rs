//! The Anthropic messages API: provider settings and the reading of a reply.
use vstd::prelude::*;
use vstd::string::*;
use crate::llm::{LlmResponse, ToolCall};
use crate::text::{join, join_seq, seq_view, str_eq};

verus! {

/// Settings for talking to the Anthropic messages API.
#[derive(Debug, Clone, PartialEq, Eq)]
pub struct AnthropicProvider {
    pub api_key: String,
    pub model: String,
}

impl AnthropicProvider {
    /// A provider for `model`, authenticated with `api_key`.
    pub fn new(api_key: String, model: String) -> (r: Self)
        ensures
            r.api_key == api_key,
            r.model == model,
    {
        AnthropicProvider { api_key, model }
    }

    /// The provider's display name.
    pub fn name(&self) -> (r: &'static str)
        ensures
            r@ == "Anthropic"@,
    {
        "Anthropic"
    }
}

/// One content block of an Anthropic reply.
#[derive(Debug, Clone)]
pub struct AnthropicContent {
    pub content_type: String,
    pub text: Option<String>,
    pub id: Option<String>,
    pub name: Option<String>,
    pub input: Option<serde_json::Value>,
}

/// The texts of the `text` blocks that carry one, in order.
pub open spec fn reply_texts(blocks: Seq<AnthropicContent>) -> Seq<String>
    decreases blocks.len(),
{
    if blocks.len() == 0 {
        Seq::empty()
    } else {
        let prev = reply_texts(blocks.drop_last());
        let b = blocks.last();
        if b.content_type@ == "text"@ && b.text is Some {
            prev.push(b.text->0)
        } else {
            prev
        }
    }
}

/// The tool calls of the `tool_use` blocks that carry an id, a name and an
/// input, in order.
pub open spec fn reply_tool_calls(blocks: Seq<AnthropicContent>) -> Seq<ToolCall>
    decreases blocks.len(),
{
    if blocks.len() == 0 {
        Seq::empty()
    } else {
        let prev = reply_tool_calls(blocks.drop_last());
        let b = blocks.last();
        if b.content_type@ == "tool_use"@ && b.id is Some && b.name is Some && b.input is Some {
            prev.push(ToolCall { id: b.id->0, name: b.name->0, input: b.input->0 })
        } else {
            prev
        }
    }
}

/// The text a block contributes: that of a `text` block carrying one.
pub open spec fn block_text(b: AnthropicContent) -> Option<String> {
    if b.content_type@ == "text"@ && b.text is Some {
        b.text
    } else {
        None
    }
}

/// The tool call a block stands for: a `tool_use` block carrying an id, a
/// name and an input.
pub open spec fn block_call(b: AnthropicContent) -> Option<ToolCall> {
    if b.content_type@ == "tool_use"@ && b.id is Some && b.name is Some && b.input is Some {
        Some(ToolCall { id: b.id->0, name: b.name->0, input: b.input->0 })
    } else {
        None
    }
}

/// Nothing of a reply is lost or reordered: its texts are exactly the texts
/// of its `text` blocks, and its tool calls exactly the complete `tool_use`
/// blocks (id, name and input), one call per such block, in block order.
pub proof fn lemma_reply_keeps_every_block(blocks: Seq<AnthropicContent>)
    ensures
        reply_texts(blocks) == blocks.filter_map(|b: AnthropicContent| block_text(b)),
        reply_tool_calls(blocks) == blocks.filter_map(|b: AnthropicContent| block_call(b)),
    decreases blocks.len(),
{
    if blocks.len() > 0 {
        lemma_reply_keeps_every_block(blocks.drop_last());
        let rest = blocks.drop_last();
        let b = blocks.last();
        match block_text(b) {
            Some(t) => {
                assert(rest.filter_map(|b: AnthropicContent| block_text(b)) + seq![t] =~= reply_texts(rest).push(t));
            },
            None => {},
        }
        match block_call(b) {
            Some(c) => {
                assert(rest.filter_map(|b: AnthropicContent| block_call(b)) + seq![c] =~= reply_tool_calls(rest).push(c));
            },
            None => {},
        }
    }
}

/// Reads an Anthropic reply: the texts joined by newlines, and the tool calls.
pub fn collect_reply(blocks: Vec<AnthropicContent>) -> (r: LlmResponse)
    ensures
        r.content@ == join_seq(seq_view(reply_texts(blocks@)), "\n"@),
        r.tool_calls@ == reply_tool_calls(blocks@),
        reply_texts(blocks@) == blocks@.filter_map(|b: AnthropicContent| block_text(b)),
        r.tool_calls@ == blocks@.filter_map(|b: AnthropicContent| block_call(b)),
{
    proof {
        lemma_reply_keeps_every_block(blocks@);
    }
    let ghost all = blocks@;
    let mut text_parts: Vec<String> = Vec::new();
    let mut tool_calls: Vec<ToolCall> = Vec::new();
    let n = blocks.len();
    let mut rest = blocks;
    let mut i: usize = 0;
    assert(all.skip(0) =~= all);
    while rest.len() > 0
        invariant
            i + rest@.len() == all.len(),
            all.len() == n,
            rest@ == all.skip(i as int),
            text_parts@ == reply_texts(all.take(i as int)),
            tool_calls@ == reply_tool_calls(all.take(i as int)),
        decreases rest.len(),
    {
        let b = rest.remove(0);
        proof {
            reveal_strlit("text");
            reveal_strlit("tool_use");
            assert(rest@ =~= all.skip(i + 1));
            assert(b == all[i as int]);
            assert(all.take(i + 1).drop_last() =~= all.take(i as int));
            assert(all.take(i + 1).last() == all[i as int]);
        }
        let is_text = str_eq(b.content_type.as_str(), "text");
        let is_tool = str_eq(b.content_type.as_str(), "tool_use");
        let ghost bb = b;
        let AnthropicContent { content_type, text, id, name, input } = b;
        assert(id == bb.id && name == bb.name && input == bb.input && text == bb.text);
        if is_text {
            if let Some(t) = text {
                text_parts.push(t);
            }
        } else if is_tool {
            if id.is_some() && name.is_some() && input.is_some() {
                tool_calls.push(ToolCall { id: id.unwrap(), name: name.unwrap(), input: input.unwrap() });
            }
        }
        proof {
            if is_text {
                // a `text` block is no `tool_use` block
                assert("text"@.len() != "tool_use"@.len());
            }
        }
        i = i + 1;
    }
    assert(all.take(i as int) =~= all);
    let content = join(&text_parts, "\n");
    LlmResponse { content, tool_calls }
}

} // verus!
