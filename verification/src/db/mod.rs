//! The records the program keeps: sessions, model settings, MCP servers,
//! sessions with remote agents, and chat messages.
use vstd::prelude::*;
use vstd::multiset::Multiset;

verus! {

/// A UTC instant: whole seconds since the Unix epoch and the nanoseconds past
/// that second.
#[derive(Debug, Clone, Copy, PartialEq, Eq)]
pub struct Timestamp {
    pub secs: i64,
    pub nanos: u32,
}

/// A chat session. Ephemeral sessions are discarded when the program ends.
#[derive(Debug, Clone, PartialEq, Eq)]
pub struct Session {
    pub id: String,
    pub name: Option<String>,
    pub model_id: Option<String>,
    pub created_at: Timestamp,
    pub updated_at: Timestamp,
    pub ephemeral: bool,
}

/// Stored settings of a model.
#[derive(Debug, Clone, PartialEq, Eq)]
pub struct ModelConfig {
    pub id: String,
    pub provider: String,
    pub display_name: String,
    pub api_key: Option<String>,
    pub endpoint: Option<String>,
}

/// A configured MCP server: the program to start, its arguments, and the
/// environment variables to set (each name once).
#[derive(Debug, Clone, PartialEq, Eq)]
pub struct McpServer {
    pub name: String,
    pub command: String,
    pub args: Vec<String>,
    pub env: Vec<(String, String)>,
}

/// A session connected to a remote agent.
#[derive(Debug, Clone, PartialEq, Eq)]
pub struct AgentSession {
    pub id: String,
    pub remote_name: String,
    pub remote_host: String,
    pub remote_ip: String,
    pub remote_port: u16,
    pub remote_model: Option<String>,
    pub created_at: Timestamp,
}

/// A message of a session, at its position `index`.
#[derive(Debug, Clone, PartialEq, Eq)]
pub struct StoredMessage {
    pub session_id: String,
    pub index: u64,
    pub role: String,
    pub content: String,
    pub timestamp: Timestamp,
}

/// Whether the messages are in increasing order of position.
pub open spec fn sorted_by_index(ms: Seq<StoredMessage>) -> bool {
    forall|i: int, j: int| 0 <= i <= j < ms.len() ==> ms[i].index <= ms[j].index
}

/// The messages ordered by position; the same messages, none added or lost.
pub fn sort_by_index(msgs: Vec<StoredMessage>) -> (r: Vec<StoredMessage>)
    ensures
        sorted_by_index(r@),
        r@.to_multiset() == msgs@.to_multiset(),
{
    let mut r: Vec<StoredMessage> = Vec::new();
    let mut rest = msgs;
    let ghost all = rest@;
    broadcast use vstd::seq_lib::group_to_multiset_ensures;
    assert(all.skip(0) =~= all);
    while rest.len() > 0
        invariant
            sorted_by_index(r@),
            r@.to_multiset().add(rest@.to_multiset()) == all.to_multiset(),
        decreases rest.len(),
    {
        let ghost before_rest = rest@;
        let m = rest.remove(0);
        assert(before_rest =~= seq![m] + rest@);
        proof {
            vstd::seq_lib::lemma_multiset_commutative(seq![m], rest@);
        }
        // insertion point: after every message with a position not above m's
        let mut k: usize = r.len();
        while k > 0 && r[k - 1].index > m.index
            invariant
                k <= r.len(),
                sorted_by_index(r@),
                forall|j: int| k <= j < r.len() ==> r@[j].index > m.index,
            decreases k,
        {
            k = k - 1;
        }
        let ghost before = r@;
        r.insert(k, m);
        proof {
            assert(r@ =~= before.take(k as int) + seq![m] + before.skip(k as int));
            vstd::seq_lib::lemma_multiset_commutative(before.take(k as int), seq![m]);
            vstd::seq_lib::lemma_multiset_commutative(before.take(k as int) + seq![m], before.skip(k as int));
            vstd::seq_lib::lemma_multiset_commutative(before.take(k as int), before.skip(k as int));
            assert(before =~= before.take(k as int) + before.skip(k as int));
            assert forall|i: int, j: int| 0 <= i <= j < r@.len() implies r@[i].index <= r@[j].index by {
                if i < k && j > k {
                    assert(before[i].index <= before[j - 1].index);
                } else if i == k && j > k {
                    assert(before[j - 1].index > m.index);
                } else if i < k && j == k {
                    assert(before[i].index <= before[k - 1].index);
                } else if i > k {
                    assert(before[i - 1].index <= before[j - 1].index);
                }
            }
        }
    }
    proof {
        assert(rest@ =~= Seq::<StoredMessage>::empty());
    }
    r
}

} // verus!
