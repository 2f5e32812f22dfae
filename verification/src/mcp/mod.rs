//! MCP over stdio: request numbering, the reading of JSON-RPC replies, and the
//! directory of connected servers and the tools each offers.
use vstd::prelude::*;
use vstd::string::*;
use crate::text::{concat2, concat3, decimal_i64, decimal_int, str_eq};

verus! {

/// A tool offered by an MCP server.
#[derive(Debug, Clone)]
pub struct McpTool {
    pub name: String,
    pub description: Option<String>,
    pub input_schema: serde_json::Value,
}

impl McpTool {
    /// A copy of the tool.
    pub fn duplicate(&self) -> (r: McpTool)
        ensures
            r == *self,
    {
        let description = match &self.description {
            Some(d) => Some(d.clone()),
            None => None,
        };
        McpTool { name: self.name.clone(), description, input_schema: self.input_schema.clone() }
    }
}

/// The source of JSON-RPC request ids: 1, 2, 3, … (wrapping at the top of
/// `u64`).
#[derive(Debug)]
pub struct RequestIds {
    pub next: u64,
}

impl RequestIds {
    /// Ids starting at 1.
    pub fn new() -> (r: Self)
        ensures
            r.next == 1,
    {
        RequestIds { next: 1 }
    }

    /// The next request id.
    pub fn next_id(&mut self) -> (id: u64)
        ensures
            id == old(self).next,
            final(self).next == if old(self).next == u64::MAX {
                0
            } else {
                (old(self).next + 1) as u64
            },
    {
        let id = self.next;
        self.next = self.next.wrapping_add(1);
        id
    }
}

/// The error member of a JSON-RPC reply.
#[derive(Debug, Clone, PartialEq, Eq)]
pub struct RpcError {
    pub code: i64,
    pub message: String,
}

/// A JSON-RPC reply.
#[derive(Debug, Clone)]
pub struct RpcReply {
    pub result: Option<serde_json::Value>,
    pub error: Option<RpcError>,
}

/// The text of an MCP error: `MCP error {code}: {message}`.
pub open spec fn rpc_error_text(e: RpcError) -> Seq<char> {
    "MCP error "@ + decimal_int(e.code as int) + ": "@ + e.message@
}

/// What a request yields from its reply: the error's text when the reply
/// carries one, else the result (`None` standing for JSON `null`).
pub fn read_reply(reply: RpcReply) -> (r: Result<Option<serde_json::Value>, String>)
    ensures
        match reply.error {
            Some(e) => r matches Err(t) && t@ == rpc_error_text(e),
            None => r == Ok::<Option<serde_json::Value>, String>(reply.result),
        },
{
    match reply.error {
        Some(e) => {
            let code = decimal_i64(e.code);
            let mut t = concat3("MCP error ", code.as_str(), ": ");
            t.append(e.message.as_str());
            Err(t)
        },
        None => Ok(reply.result),
    }
}

/// The text when the server's output ends before a reply.
pub fn closed_connection() -> (r: String)
    ensures
        r@ == "MCP server closed connection"@,
{
    String::from_str("MCP server closed connection")
}

/// The connected servers, each with the tools it offers, in the order they
/// were connected; each name appears once.
#[derive(Debug)]
pub struct McpManager {
    pub servers: Vec<(String, Vec<McpTool>)>,
}

/// The server names of a directory's entries.
pub open spec fn server_names(servers: Seq<(String, Vec<McpTool>)>) -> Seq<Seq<char>> {
    servers.map_values(|e: (String, Vec<McpTool>)| e.0@)
}

/// No server name appears twice.
pub open spec fn names_unique(servers: Seq<(String, Vec<McpTool>)>) -> bool {
    forall|i: int, j: int| 0 <= i < j < servers.len() ==> servers[i].0@ != servers[j].0@
}

/// Whether a server's tools include one named `tool`.
pub open spec fn offers(tools: Seq<McpTool>, tool: Seq<char>) -> bool {
    exists|k: int| 0 <= k < tools.len() && tools[k].name@ == tool
}

/// The position of the server named `name`, if connected.
pub open spec fn position_of(servers: Seq<(String, Vec<McpTool>)>, name: Seq<char>) -> Option<int> {
    if exists|i: int| 0 <= i < servers.len() && servers[i].0@ == name {
        Some(choose|i: int| 0 <= i < servers.len() && servers[i].0@ == name)
    } else {
        None
    }
}

/// The directory once server `name` is connected with `tools`.
pub open spec fn connected(servers: Seq<(String, Vec<McpTool>)>, name: String, tools: Vec<McpTool>) -> Seq<(String, Vec<McpTool>)> {
    match position_of(servers, name@) {
        Some(i) => servers.update(i, (name, tools)),
        None => servers.push((name, tools)),
    }
}

/// The directory once server `name` is disconnected.
pub open spec fn disconnected(servers: Seq<(String, Vec<McpTool>)>, name: Seq<char>) -> Seq<(String, Vec<McpTool>)> {
    match position_of(servers, name) {
        Some(i) => servers.remove(i),
        None => servers,
    }
}

/// The tools recorded for server `name`, if it is connected.
pub open spec fn tools_of(servers: Seq<(String, Vec<McpTool>)>, name: Seq<char>) -> Option<Vec<McpTool>> {
    match position_of(servers, name) {
        Some(i) => Some(servers[i].1),
        None => None,
    }
}

/// Every (server, tool) pair, server by server, tools in order.
pub open spec fn all_tools_spec(servers: Seq<(String, Vec<McpTool>)>) -> Seq<(String, McpTool)>
    decreases servers.len(),
{
    if servers.len() == 0 {
        Seq::empty()
    } else {
        let last = servers.last();
        all_tools_spec(servers.drop_last()) + last.1@.map_values(|t: McpTool| (last.0, t))
    }
}

impl McpManager {
    /// The directory's invariant: each server name appears once.
    pub open spec fn wf(&self) -> bool {
        names_unique(self.servers@)
    }

    /// No servers connected.
    pub fn new() -> (r: Self)
        ensures
            r.wf(),
            r.servers@.len() == 0,
    {
        McpManager { servers: Vec::new() }
    }

    fn find(&self, name: &str) -> (r: Option<usize>)
        requires
            self.wf(),
        ensures
            r matches Some(i) ==> i < self.servers@.len() && self.servers@[i as int].0@ == name@,
            r is None ==> forall|i: int| 0 <= i < self.servers@.len() ==> self.servers@[i].0@ != name@,
    {
        let mut i: usize = 0;
        while i < self.servers.len()
            invariant
                i <= self.servers@.len(),
                forall|k: int| 0 <= k < i ==> self.servers@[k].0@ != name@,
            decreases self.servers.len() - i,
        {
            if str_eq(self.servers[i].0.as_str(), name) {
                return Some(i);
            }
            i = i + 1;
        }
        None
    }

    /// Records server `name` as connected with `tools`. A server of that name
    /// already connected has its tools replaced, keeping its place.
    pub fn connect_server(&mut self, name: String, tools: Vec<McpTool>)
        requires
            old(self).wf(),
        ensures
            final(self).wf(),
            final(self).servers@ == connected(old(self).servers@, name, tools),
    {
        match self.find(name.as_str()) {
            Some(i) => {
                let ghost before = self.servers@;
                proof {
                    assert(before[i as int].0@ == name@);
                    let p = position_of(before, name@)->0;
                    if p != i {
                        if p < i {
                            assert(before[p].0@ != before[i as int].0@);
                        } else {
                            assert(before[i as int].0@ != before[p].0@);
                        }
                    }
                }
                self.servers.set(i, (name, tools));
                assert forall|a: int, b: int| 0 <= a < b < self.servers@.len() implies self.servers@[a].0@ != self.servers@[b].0@ by {
                    if a == i {
                        assert(before[b].0@ != before[a].0@ || b == i);
                    } else if b == i {
                        assert(before[a].0@ != before[b].0@);
                    }
                }
            },
            None => {
                self.servers.push((name, tools));
            },
        }
    }

    /// Forgets server `name`; the others keep their order.
    pub fn disconnect_server(&mut self, name: &str)
        requires
            old(self).wf(),
        ensures
            final(self).wf(),
            final(self).servers@ == disconnected(old(self).servers@, name@),
    {
        match self.find(name) {
            Some(i) => {
                let ghost before = self.servers@;
                proof {
                    let p = position_of(before, name@)->0;
                    if p != i {
                        if p < i {
                            assert(before[p].0@ != before[i as int].0@);
                        } else {
                            assert(before[i as int].0@ != before[p].0@);
                        }
                    }
                }
                self.servers.remove(i);
                assert forall|a: int, b: int| 0 <= a < b < self.servers@.len() implies self.servers@[a].0@ != self.servers@[b].0@ by {
                    if a < i && b < i {
                    } else if a < i {
                        assert(before[a].0@ != before[b + 1].0@);
                    } else {
                        assert(before[a + 1].0@ != before[b + 1].0@);
                    }
                }
            },
            None => {},
        }
    }

    /// The names of the connected servers, in order.
    pub fn connected_servers(&self) -> (r: Vec<String>)
        ensures
            r@.map_values(|s: String| s@) == server_names(self.servers@),
    {
        let mut r: Vec<String> = Vec::new();
        let mut i: usize = 0;
        while i < self.servers.len()
            invariant
                i <= self.servers@.len(),
                r@.map_values(|s: String| s@) == server_names(self.servers@.take(i as int)),
            decreases self.servers.len() - i,
        {
            let ghost prev = r@;
            let name = self.servers[i].0.clone();
            r.push(name);
            proof {
                assert(r@ == prev.push(name));
                assert(self.servers@.take(i + 1) =~= self.servers@.take(i as int).push(self.servers@[i as int]));
                assert(r@.map_values(|s: String| s@) =~= prev.map_values(|s: String| s@).push(name@));
                assert(server_names(self.servers@.take(i + 1)) =~= server_names(self.servers@.take(i as int)).push(name@));
            }
            i = i + 1;
        }
        assert(self.servers@.take(i as int) =~= self.servers@);
        r
    }

    /// Every tool of every connected server, paired with its server's name.
    pub fn all_tools(&self) -> (r: Vec<(String, McpTool)>)
        ensures
            r@ == all_tools_spec(self.servers@),
    {
        let mut r: Vec<(String, McpTool)> = Vec::new();
        let mut i: usize = 0;
        while i < self.servers.len()
            invariant
                i <= self.servers@.len(),
                r@ == all_tools_spec(self.servers@.take(i as int)),
            decreases self.servers.len() - i,
        {
            let entry = &self.servers[i];
            let ghost start = r@;
            let mut k: usize = 0;
            while k < entry.1.len()
                invariant
                    k <= entry.1@.len(),
                    i < self.servers@.len(),
                    entry == &self.servers@[i as int],
                    r@ == start + entry.1@.take(k as int).map_values(|t: McpTool| (entry.0, t)),
                decreases entry.1.len() - k,
            {
                let ghost prev = r@;
                let pair = (entry.0.clone(), entry.1[k].duplicate());
                r.push(pair);
                proof {
                    assert(r@ == prev.push(pair));
                    assert(entry.1@.take(k + 1) =~= entry.1@.take(k as int).push(entry.1@[k as int]));
                    assert(r@ =~= start + entry.1@.take(k + 1).map_values(|t: McpTool| (entry.0, t)));
                }
                k = k + 1;
            }
            proof {
                assert(entry.1@.take(k as int) =~= entry.1@);
                assert(self.servers@.take(i + 1).drop_last() =~= self.servers@.take(i as int));
            }
            i = i + 1;
        }
        assert(self.servers@.take(i as int) =~= self.servers@);
        r
    }

    /// The first connected server (in order) that offers a tool named `tool`.
    pub fn server_with_tool(&self, tool: &str) -> (r: Option<usize>)
        ensures
            r matches Some(i) ==> i < self.servers@.len() && offers(self.servers@[i as int].1@, tool@)
                && forall|j: int| 0 <= j < i ==> !offers(#[trigger] self.servers@[j].1@, tool@),
            r is None ==> forall|j: int| 0 <= j < self.servers@.len() ==> !offers(#[trigger] self.servers@[j].1@, tool@),
    {
        let mut i: usize = 0;
        while i < self.servers.len()
            invariant
                i <= self.servers@.len(),
                forall|j: int| 0 <= j < i ==> !offers(#[trigger] self.servers@[j].1@, tool@),
            decreases self.servers.len() - i,
        {
            let tools = &self.servers[i].1;
            let mut k: usize = 0;
            while k < tools.len()
                invariant
                    k <= tools@.len(),
                    i < self.servers@.len(),
                    tools == &self.servers@[i as int].1,
                    forall|m: int| 0 <= m < k ==> tools@[m].name@ != tool@,
                    forall|j: int| 0 <= j < i ==> !offers(#[trigger] self.servers@[j].1@, tool@),
                decreases tools.len() - k,
            {
                if str_eq(tools[k].name.as_str(), tool) {
                    assert(self.servers@[i as int].1@[k as int].name@ == tool@);
                    return Some(i);
                }
                k = k + 1;
            }
            i = i + 1;
        }
        None
    }

    /// Where a call of `tool` on server `server_name` goes, or the error
    /// `MCP server '{name}' not connected`.
    pub fn call_tool(&self, server_name: &str, tool: &str, input: serde_json::Value) -> (r: Result<ToolInvocation, String>)
        requires
            self.wf(),
        ensures
            match position_of(self.servers@, server_name@) {
                Some(_) => r matches Ok(inv) && inv.server@ == server_name@ && inv.tool@ == tool@ && inv.input == input,
                None => r matches Err(e) && e@ == "MCP server '"@ + server_name@ + "' not connected"@,
            },
    {
        match self.find(server_name) {
            Some(_) => Ok(ToolInvocation {
                server: String::from_str(server_name),
                tool: String::from_str(tool),
                input,
            }),
            None => Err(concat3("MCP server '", server_name, "' not connected")),
        }
    }

    /// Where a call of `tool` goes when no server is named: the first
    /// connected server that offers it, or the error
    /// `No MCP server has tool: {tool}`.
    pub fn call_tool_any(&self, tool: &str, input: serde_json::Value) -> (r: Result<ToolInvocation, String>)
        requires
            self.wf(),
        ensures
            match r {
                Ok(inv) => inv.tool@ == tool@ && inv.input == input && exists|i: int| 0 <= i < self.servers@.len()
                    && self.servers@[i].0@ == inv.server@ && offers(self.servers@[i].1@, tool@)
                    && forall|j: int| 0 <= j < i ==> !offers(#[trigger] self.servers@[j].1@, tool@),
                Err(e) => e@ == "No MCP server has tool: "@ + tool@ && forall|j: int| 0 <= j < self.servers@.len()
                    ==> !offers(#[trigger] self.servers@[j].1@, tool@),
            },
    {
        match self.server_with_tool(tool) {
            Some(i) => {
                let server = self.servers[i].0.clone();
                Ok(ToolInvocation { server, tool: String::from_str(tool), input })
            },
            None => Err(concat2("No MCP server has tool: ", tool)),
        }
    }
}

/// A tool call addressed to a connected server.
#[derive(Debug, Clone)]
pub struct ToolInvocation {
    pub server: String,
    pub tool: String,
    pub input: serde_json::Value,
}

// ── Laws ─────────────────────────────────────────────────────────────────────

proof fn lemma_position_unique(servers: Seq<(String, Vec<McpTool>)>, name: Seq<char>, i: int)
    requires
        names_unique(servers),
        0 <= i < servers.len(),
        servers[i].0@ == name,
    ensures
        position_of(servers, name) == Some(i),
{
    let c = choose|k: int| 0 <= k < servers.len() && servers[k].0@ == name;
    if c < i {
        assert(servers[c].0@ != servers[i].0@);
    } else if c > i {
        assert(servers[i].0@ != servers[c].0@);
    }
}

/// After connecting server `name` with `tools`, the directory gives back
/// exactly those tools for it, and every other server's tools are as before.
pub proof fn lemma_connect_then_lookup(servers: Seq<(String, Vec<McpTool>)>, name: String, tools: Vec<McpTool>)
    requires
        names_unique(servers),
    ensures
        tools_of(connected(servers, name, tools), name@) == Some(tools),
        forall|n: Seq<char>| n != name@ ==> tools_of(connected(servers, name, tools), n) == tools_of(servers, n),
{
    let after = connected(servers, name, tools);
    match position_of(servers, name@) {
        Some(i) => {
            lemma_position_unique(servers, name@, i);
            assert(names_unique(after)) by {
                assert forall|a: int, b: int| 0 <= a < b < after.len() implies after[a].0@ != after[b].0@ by {
                    assert(servers[a].0@ != servers[b].0@);
                }
            }
            lemma_position_unique(after, name@, i);
            assert forall|n: Seq<char>| n != name@ implies tools_of(after, n) == tools_of(servers, n) by {
                if exists|k: int| 0 <= k < servers.len() && servers[k].0@ == n {
                    let k = choose|k: int| 0 <= k < servers.len() && servers[k].0@ == n;
                    lemma_position_unique(servers, n, k);
                    lemma_position_unique(after, n, k);
                } else {
                    assert(!exists|k: int| 0 <= k < after.len() && after[k].0@ == n) by {
                        if exists|k: int| 0 <= k < after.len() && after[k].0@ == n {
                            let k = choose|k: int| 0 <= k < after.len() && after[k].0@ == n;
                            assert(servers[k].0@ == n);
                        }
                    }
                }
            }
        },
        None => {
            let last = servers.len() as int;
            assert(!exists|k: int| 0 <= k < servers.len() && servers[k].0@ == name@);
            assert(names_unique(after)) by {
                assert forall|a: int, b: int| 0 <= a < b < after.len() implies after[a].0@ != after[b].0@ by {
                    if b < last {
                        assert(servers[a].0@ != servers[b].0@);
                    } else {
                        assert(after[a].0@ == servers[a].0@);
                    }
                }
            }
            lemma_position_unique(after, name@, last);
            assert forall|n: Seq<char>| n != name@ implies tools_of(after, n) == tools_of(servers, n) by {
                if exists|k: int| 0 <= k < servers.len() && servers[k].0@ == n {
                    let k = choose|k: int| 0 <= k < servers.len() && servers[k].0@ == n;
                    lemma_position_unique(servers, n, k);
                    lemma_position_unique(after, n, k);
                } else {
                    assert(!exists|k: int| 0 <= k < after.len() && after[k].0@ == n) by {
                        if exists|k: int| 0 <= k < after.len() && after[k].0@ == n {
                            let k = choose|k: int| 0 <= k < after.len() && after[k].0@ == n;
                            if k < last {
                                assert(servers[k].0@ == n);
                            }
                        }
                    }
                }
            }
        },
    }
}

/// After disconnecting server `name`, the directory has no tools for it, and
/// every other server's tools are as before.
pub proof fn lemma_disconnect_then_lookup(servers: Seq<(String, Vec<McpTool>)>, name: Seq<char>)
    requires
        names_unique(servers),
    ensures
        tools_of(disconnected(servers, name), name) is None,
        forall|n: Seq<char>| n != name ==> tools_of(disconnected(servers, name), n) == tools_of(servers, n),
{
    let after = disconnected(servers, name);
    match position_of(servers, name) {
        Some(i) => {
            lemma_position_unique(servers, name, i);
            assert(names_unique(after)) by {
                assert forall|a: int, b: int| 0 <= a < b < after.len() implies after[a].0@ != after[b].0@ by {
                    if b < i {
                        assert(servers[a].0@ != servers[b].0@);
                    } else if a < i {
                        assert(servers[a].0@ != servers[b + 1].0@);
                    } else {
                        assert(servers[a + 1].0@ != servers[b + 1].0@);
                    }
                }
            }
            assert(!exists|k: int| 0 <= k < after.len() && after[k].0@ == name) by {
                if exists|k: int| 0 <= k < after.len() && after[k].0@ == name {
                    let k = choose|k: int| 0 <= k < after.len() && after[k].0@ == name;
                    if k < i {
                        assert(servers[k].0@ != servers[i].0@);
                    } else {
                        assert(servers[i].0@ != servers[k + 1].0@);
                    }
                }
            }
            assert forall|n: Seq<char>| n != name implies tools_of(after, n) == tools_of(servers, n) by {
                if exists|k: int| 0 <= k < servers.len() && servers[k].0@ == n {
                    let k = choose|k: int| 0 <= k < servers.len() && servers[k].0@ == n;
                    lemma_position_unique(servers, n, k);
                    assert(k != i);
                    let k1 = if k < i { k } else { k - 1 };
                    assert(after[k1] == servers[k]);
                    lemma_position_unique(after, n, k1);
                } else {
                    assert(!exists|k: int| 0 <= k < after.len() && after[k].0@ == n) by {
                        if exists|k: int| 0 <= k < after.len() && after[k].0@ == n {
                            let k = choose|k: int| 0 <= k < after.len() && after[k].0@ == n;
                            if k < i {
                                assert(servers[k].0@ == n);
                            } else {
                                assert(servers[k + 1].0@ == n);
                            }
                        }
                    }
                }
            }
        },
        None => {},
    }
}

} // verus!
