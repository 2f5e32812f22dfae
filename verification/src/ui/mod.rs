//! The chat display's state and the texts of the interactive menus.
pub mod commands;

use vstd::prelude::*;
use vstd::string::*;
use crate::a2a::discovery::DiscoveredAgent;
use crate::db::{AgentSession, McpServer, Session};
use crate::llm::ModelInfo;
use crate::text::{
    chars_of, concat2, concat3, decimal, decimal_u64, find_char, first_index_of, seq_view, split_whitespace,
    str_eq, substring, words,
};

verus! {

/// A line of the chat: who said it and what.
#[derive(Debug, Clone, PartialEq, Eq)]
pub struct ChatLine {
    pub role: String,
    pub content: String,
}

impl ChatLine {
    /// A copy of the line.
    pub fn duplicate(&self) -> (r: ChatLine)
        ensures
            r == *self,
    {
        ChatLine { role: self.role.clone(), content: self.content.clone() }
    }
}

/// The chat display's state: the lines shown, a shell command waiting for the
/// user's confirmation (command, reason), whether the model's answer is
/// complete, and how many confirmed shell commands are still running.
#[derive(Debug, Clone, PartialEq, Eq)]
pub struct Ui {
    pub chat_lines: Vec<ChatLine>,
    pub pending_shell_confirm: Option<(String, String)>,
    pub response_complete: bool,
    pub shells_pending: u32,
}

impl Ui {
    /// An empty display.
    pub fn new() -> (r: Self)
        ensures
            r.chat_lines@.len() == 0,
            r.pending_shell_confirm is None,
            !r.response_complete,
            r.shells_pending == 0,
    {
        Ui { chat_lines: Vec::new(), pending_shell_confirm: None, response_complete: false, shells_pending: 0 }
    }

    /// Adds a line to the chat, and gives it back for showing.
    pub fn push_chat(&mut self, role: &str, content: &str) -> (line: ChatLine)
        ensures
            final(self).chat_lines@ == old(self).chat_lines@.push(line),
            line.role@ == role@,
            line.content@ == content@,
            final(self).pending_shell_confirm == old(self).pending_shell_confirm,
            final(self).response_complete == old(self).response_complete,
            final(self).shells_pending == old(self).shells_pending,
    {
        let line = ChatLine { role: String::from_str(role), content: String::from_str(content) };
        self.chat_lines.push(line.duplicate());
        line
    }

    /// The user confirmed a shell command: one more is running and the
    /// exchange is not complete until it reports.
    pub fn shell_confirmed(&mut self)
        requires
            old(self).shells_pending < u32::MAX,
        ensures
            final(self).shells_pending == old(self).shells_pending + 1,
            !final(self).response_complete,
            final(self).chat_lines == old(self).chat_lines,
            final(self).pending_shell_confirm == old(self).pending_shell_confirm,
    {
        self.shells_pending = self.shells_pending + 1;
        self.response_complete = false;
    }

    /// Takes the shell command waiting for confirmation, if any.
    pub fn take_pending_confirm(&mut self) -> (r: Option<(String, String)>)
        ensures
            r == old(self).pending_shell_confirm,
            final(self).pending_shell_confirm is None,
            final(self).chat_lines == old(self).chat_lines,
            final(self).response_complete == old(self).response_complete,
            final(self).shells_pending == old(self).shells_pending,
    {
        let r = self.pending_shell_confirm.take();
        r
    }

    /// Whether the current exchange is over (answer complete, no shell command
    /// running); when it is, the display is made ready for the next one.
    pub fn exchange_finished(&mut self) -> (r: bool)
        ensures
            r == (old(self).response_complete && old(self).shells_pending == 0),
            final(self).response_complete == (old(self).response_complete && !r),
            final(self).shells_pending == old(self).shells_pending,
            final(self).chat_lines == old(self).chat_lines,
            final(self).pending_shell_confirm == old(self).pending_shell_confirm,
    {
        if self.response_complete && self.shells_pending == 0 {
            self.response_complete = false;
            true
        } else {
            false
        }
    }
}

/// How a chat line is labelled.
#[derive(Debug, Clone, Copy, PartialEq, Eq)]
pub enum ChatStyle {
    /// `You:` for the user's lines.
    You,
    /// `AI:` for the assistant's lines.
    Ai,
    /// `>>` for everything else.
    System,
}

/// The label of a line said by `role`.
pub fn chat_style(role: &str) -> (r: ChatStyle)
    ensures
        r == if role@ == "user"@ {
            ChatStyle::You
        } else if role@ == "assistant"@ {
            ChatStyle::Ai
        } else {
            ChatStyle::System
        },
{
    if str_eq(role, "user") {
        ChatStyle::You
    } else if str_eq(role, "assistant") {
        ChatStyle::Ai
    } else {
        ChatStyle::System
    }
}

/// Whether a status message is shown: not when empty, `Ready` or `Error`.
pub open spec fn status_shown(msg: Seq<char>) -> bool {
    msg.len() > 0 && msg != "Ready"@ && msg != "Error"@
}

/// The line shown for a status message, if it is shown: `.. {msg}`.
pub fn status_line(msg: &str) -> (r: Option<String>)
    ensures
        status_shown(msg@) ==> (r matches Some(l) && l@ == ".. "@ + msg@),
        !status_shown(msg@) ==> r is None,
{
    if msg.unicode_len() > 0 && !str_eq(msg, "Ready") && !str_eq(msg, "Error") {
        Some(concat2(".. ", msg))
    } else {
        None
    }
}

/// The menu line of a model: its name and whether it has what it needs.
pub open spec fn model_item(m: ModelInfo) -> Seq<char> {
    m.display_name@ + if m.configured {
        " [configured]"@
    } else {
        " [no key]"@
    }
}

/// The menu lines for choosing a model.
pub fn model_menu_items(models: &Vec<ModelInfo>) -> (r: Vec<String>)
    ensures
        seq_view(r@) == models@.map_values(|m: ModelInfo| model_item(m)),
{
    let mut r: Vec<String> = Vec::new();
    let mut i: usize = 0;
    while i < models.len()
        invariant
            i <= models@.len(),
            seq_view(r@) == models@.take(i as int).map_values(|m: ModelInfo| model_item(m)),
        decreases models.len() - i,
    {
        let m = &models[i];
        let item = if m.configured {
            concat2(m.display_name.as_str(), " [configured]")
        } else {
            concat2(m.display_name.as_str(), " [no key]")
        };
        let ghost prev = r@;
        r.push(item);
        proof {
            assert(r@ == prev.push(item));
            assert(models@.take(i + 1) =~= models@.take(i as int).push(models@[i as int]));
            assert(seq_view(r@) =~= seq_view(prev).push(item@));
            assert(models@.take(i + 1).map_values(|m: ModelInfo| model_item(m)) =~= models@.take(
                i as int,
            ).map_values(|m: ModelInfo| model_item(m)).push(model_item(models@[i as int])));
        }
        i = i + 1;
    }
    assert(models@.take(i as int) =~= models@);
    r
}

/// The menu position first selected: the active model's, else the first.
pub fn default_model_index(models: &Vec<ModelInfo>, active: Option<&str>) -> (r: usize)
    ensures
        match active {
            Some(a) => if exists|i: int| 0 <= i < models@.len() && models@[i].id@ == a@ {
                r < models@.len() && models@[r as int].id@ == a@ && forall|j: int| 0 <= j < r ==> models@[j].id@ != a@
            } else {
                r == 0
            },
            None => r == 0,
        },
{
    match active {
        Some(a) => {
            let mut i: usize = 0;
            while i < models.len()
                invariant
                    i <= models@.len(),
                    active == Some(a),
                    forall|j: int| 0 <= j < i ==> models@[j].id@ != a@,
                decreases models.len() - i,
            {
                if str_eq(models[i].id.as_str(), a) {
                    assert(models@[i as int].id@ == a@);
                    return i;
                }
                i = i + 1;
            }
            0
        },
        None => 0,
    }
}

/// The menu line of a named session: its name (`?` if it has none).
pub open spec fn session_item(s: Session) -> Seq<char> {
    match s.name {
        Some(n) => n@,
        None => "?"@,
    }
}

/// The menu lines for choosing a session: the sessions, then
/// `+ New session...`.
pub fn session_menu_items(sessions: &Vec<Session>) -> (r: Vec<String>)
    ensures
        seq_view(r@) == sessions@.map_values(|s: Session| session_item(s)).push("+ New session..."@),
{
    let mut r: Vec<String> = Vec::new();
    let mut i: usize = 0;
    while i < sessions.len()
        invariant
            i <= sessions@.len(),
            seq_view(r@) == sessions@.take(i as int).map_values(|s: Session| session_item(s)),
        decreases sessions.len() - i,
    {
        let item = match &sessions[i].name {
            Some(n) => n.clone(),
            None => String::from_str("?"),
        };
        let ghost prev = r@;
        r.push(item);
        proof {
            assert(r@ == prev.push(item));
            assert(sessions@.take(i + 1) =~= sessions@.take(i as int).push(sessions@[i as int]));
            assert(seq_view(r@) =~= seq_view(prev).push(item@));
            assert(sessions@.take(i + 1).map_values(|s: Session| session_item(s)) =~= sessions@.take(
                i as int,
            ).map_values(|s: Session| session_item(s)).push(session_item(sessions@[i as int])));
        }
        i = i + 1;
    }
    assert(sessions@.take(i as int) =~= sessions@);
    let ghost prev = r@;
    let last = String::from_str("+ New session...");
    r.push(last);
    assert(r@ == prev.push(last));
    assert(seq_view(r@) =~= seq_view(prev).push(last@));
    r
}

/// The menu line of an MCP server: `{name} — {command}`.
pub open spec fn mcp_item(s: McpServer) -> Seq<char> {
    s.name@ + " — "@ + s.command@
}

/// The menu lines for managing MCP servers: the servers, then
/// `+ Add MCP server...`.
pub fn mcp_menu_items(servers: &Vec<McpServer>) -> (r: Vec<String>)
    ensures
        seq_view(r@) == servers@.map_values(|s: McpServer| mcp_item(s)).push("+ Add MCP server..."@),
{
    let mut r: Vec<String> = Vec::new();
    let mut i: usize = 0;
    while i < servers.len()
        invariant
            i <= servers@.len(),
            seq_view(r@) == servers@.take(i as int).map_values(|s: McpServer| mcp_item(s)),
        decreases servers.len() - i,
    {
        let item = concat3(servers[i].name.as_str(), " — ", servers[i].command.as_str());
        let ghost prev = r@;
        r.push(item);
        proof {
            assert(r@ == prev.push(item));
            assert(servers@.take(i + 1) =~= servers@.take(i as int).push(servers@[i as int]));
            assert(seq_view(r@) =~= seq_view(prev).push(item@));
            assert(servers@.take(i + 1).map_values(|s: McpServer| mcp_item(s)) =~= servers@.take(
                i as int,
            ).map_values(|s: McpServer| mcp_item(s)).push(mcp_item(servers@[i as int])));
        }
        i = i + 1;
    }
    assert(servers@.take(i as int) =~= servers@);
    let ghost prev = r@;
    let last = String::from_str("+ Add MCP server...");
    r.push(last);
    assert(r@ == prev.push(last));
    assert(seq_view(r@) =~= seq_view(prev).push(last@));
    r
}

/// `{host} ({ip}:{port})` with a tag in front.
pub open spec fn endpoint_item(tag: Seq<char>, host: Seq<char>, ip: Seq<char>, port: u16) -> Seq<char> {
    tag + host + " ("@ + ip + ":"@ + decimal(port as nat) + ")"@
}

fn endpoint_line(tag: &str, host: &str, ip: &str, port: u16) -> (r: String)
    ensures
        r@ == endpoint_item(tag@, host@, ip@, port),
{
    let mut r = String::from_str(tag);
    r.append(host);
    r.append(" (");
    r.append(ip);
    r.append(":");
    let p = decimal_u64(port as u64);
    r.append(p.as_str());
    r.append(")");
    r
}

/// The menu line of a discovered agent.
pub open spec fn discovered_item(a: DiscoveredAgent) -> Seq<char> {
    endpoint_item("[discovered] "@, a.host@, a.ip@, a.port)
}

/// The model a saved agent session's remote agent runs, as shown.
pub open spec fn model_label(model: Option<String>) -> Seq<char> {
    match model {
        Some(m) => m@,
        None => "unknown model"@,
    }
}

/// The menu line of a saved agent session: its name, then the remote agent's
/// host name, address and model.
pub open spec fn saved_item(s: AgentSession) -> Seq<char> {
    endpoint_item("[saved] "@ + s.remote_name@ + ": "@, s.remote_host@, s.remote_ip@, s.remote_port) + " "@
        + model_label(s.remote_model)
}

fn saved_line(s: &AgentSession) -> (r: String)
    ensures
        r@ == saved_item(*s),
{
    let tag = concat3("[saved] ", s.remote_name.as_str(), ": ");
    let mut r = endpoint_line(tag.as_str(), s.remote_host.as_str(), s.remote_ip.as_str(), s.remote_port);
    r.append(" ");
    match &s.remote_model {
        Some(m) => r.append(m.as_str()),
        None => r.append("unknown model"),
    }
    r
}

/// The menu lines for agent discovery: the agents seen, the saved agent
/// sessions, then `+ Manual entry...`.
pub fn polo_menu_items(discovered: &Vec<DiscoveredAgent>, saved: &Vec<AgentSession>) -> (r: Vec<String>)
    ensures
        seq_view(r@) == discovered@.map_values(|a: DiscoveredAgent| discovered_item(a)) + saved@.map_values(
            |s: AgentSession| saved_item(s),
        ) + seq!["+ Manual entry..."@],
{
    let mut r: Vec<String> = Vec::new();
    let mut i: usize = 0;
    while i < discovered.len()
        invariant
            i <= discovered@.len(),
            seq_view(r@) == discovered@.take(i as int).map_values(|a: DiscoveredAgent| discovered_item(a)),
        decreases discovered.len() - i,
    {
        let a = &discovered[i];
        let item = endpoint_line("[discovered] ", a.host.as_str(), a.ip.as_str(), a.port);
        let ghost prev = r@;
        r.push(item);
        proof {
            assert(r@ == prev.push(item));
            assert(discovered@.take(i + 1) =~= discovered@.take(i as int).push(discovered@[i as int]));
            assert(seq_view(r@) =~= seq_view(prev).push(item@));
            assert(discovered@.take(i + 1).map_values(|a: DiscoveredAgent| discovered_item(a)) =~= discovered@.take(
                i as int,
            ).map_values(|a: DiscoveredAgent| discovered_item(a)).push(discovered_item(discovered@[i as int])));
        }
        i = i + 1;
    }
    assert(discovered@.take(i as int) =~= discovered@);
    let ghost head = seq_view(r@);
    let mut k: usize = 0;
    while k < saved.len()
        invariant
            k <= saved@.len(),
            head == discovered@.map_values(|a: DiscoveredAgent| discovered_item(a)),
            seq_view(r@) == head + saved@.take(k as int).map_values(|s: AgentSession| saved_item(s)),
        decreases saved.len() - k,
    {
        let s = &saved[k];
        let item = saved_line(s);
        let ghost prev = r@;
        r.push(item);
        proof {
            assert(r@ == prev.push(item));
            assert(saved@.take(k + 1) =~= saved@.take(k as int).push(saved@[k as int]));
            assert(seq_view(r@) =~= seq_view(prev).push(item@));
            assert(saved@.take(k + 1).map_values(|s: AgentSession| saved_item(s)) =~= saved@.take(
                k as int,
            ).map_values(|s: AgentSession| saved_item(s)).push(saved_item(saved@[k as int])));
        }
        k = k + 1;
    }
    assert(saved@.take(k as int) =~= saved@);
    let ghost prev = r@;
    let last = String::from_str("+ Manual entry...");
    r.push(last);
    assert(r@ == prev.push(last));
    assert(seq_view(r@) =~= seq_view(prev).push(last@));
    r
}

/// What a selection in the agent discovery menu refers to.
#[derive(Debug, Clone, Copy, PartialEq, Eq)]
pub enum PoloChoice {
    /// The discovered agent at this position.
    Discovered(usize),
    /// The saved agent session at this position.
    Saved(usize),
    /// The manual entry line (nothing to do).
    Manual,
}

/// Maps a menu position to what it refers to, given how many agents were
/// discovered and how many sessions are saved.
pub fn polo_choice(selection: usize, n_discovered: usize, n_saved: usize) -> (r: PoloChoice)
    ensures
        selection < n_discovered ==> r == PoloChoice::Discovered(selection),
        n_discovered <= selection < n_discovered + n_saved ==> r == PoloChoice::Saved((selection - n_discovered) as usize),
        selection >= n_discovered + n_saved ==> r == PoloChoice::Manual,
{
    if selection < n_discovered {
        PoloChoice::Discovered(selection)
    } else if selection - n_discovered < n_saved {
        PoloChoice::Saved(selection - n_discovered)
    } else {
        PoloChoice::Manual
    }
}

/// The environment set by an MCP entry's `KEY=VALUE` words, in the order the
/// names first appear; a later setting of a name replaces its value.
pub open spec fn entry_env(tokens: Seq<Seq<char>>) -> Seq<(Seq<char>, Seq<char>)>
    decreases tokens.len(),
{
    if tokens.len() == 0 {
        Seq::empty()
    } else {
        let prev = entry_env(tokens.drop_last());
        let t = tokens.last();
        match first_index_of(t, '=') {
            Some(i) => env_set(prev, t.take(i), t.skip(i + 1)),
            None => prev,
        }
    }
}

/// The arguments of an MCP entry: its words without `=`, in order.
pub open spec fn entry_args(tokens: Seq<Seq<char>>) -> Seq<Seq<char>> {
    tokens.filter(|t: Seq<char>| !t.contains('='))
}

/// `env` with `key` set to `value`.
pub open spec fn env_set(env: Seq<(Seq<char>, Seq<char>)>, key: Seq<char>, value: Seq<char>) -> Seq<(Seq<char>, Seq<char>)> {
    if exists|i: int| 0 <= i < env.len() && env[i].0 == key {
        env.update(choose|i: int| 0 <= i < env.len() && env[i].0 == key, (key, value))
    } else {
        env.push((key, value))
    }
}

/// An MCP server as characters: name, command, arguments, environment.
pub open spec fn mcp_server_view(s: McpServer) -> (Seq<char>, Seq<char>, Seq<Seq<char>>, Seq<(Seq<char>, Seq<char>)>) {
    (s.name@, s.command@, seq_view(s.args@), s.env@.map_values(|p: (String, String)| (p.0@, p.1@)))
}

/// No name is set twice.
pub open spec fn env_names_unique(env: Seq<(Seq<char>, Seq<char>)>) -> bool {
    forall|i: int, j: int| 0 <= i < j < env.len() ==> env[i].0 != env[j].0
}

/// Reads an MCP entry `{name} {command} [args] [KEY=VALUE]`: the first two
/// words are the name and the command, later words with `=` set environment
/// variables (split at the first `=`), the others are arguments. Fewer than
/// two words is an error.
pub fn parse_mcp_entry(input: &str) -> (r: Result<McpServer, String>)
    ensures
        words(input@).len() < 2 ==> (r matches Err(e) && e@ == "MCP entry requires: {name} {command} [args] [KEY=VALUE]"@),
        words(input@).len() >= 2 ==> (r matches Ok(s) && mcp_server_view(s) == (
            words(input@)[0],
            words(input@)[1],
            entry_args(words(input@).skip(2)),
            entry_env(words(input@).skip(2)),
        )),
{
    let tokens = split_whitespace(input);
    if tokens.len() < 2 {
        return Err(String::from_str("MCP entry requires: {name} {command} [args] [KEY=VALUE]"));
    }
    let ghost ws = words(input@);
    let ghost rest = ws.skip(2);
    let name = tokens[0].clone();
    let command = tokens[1].clone();
    let mut args: Vec<String> = Vec::new();
    let mut env: Vec<(String, String)> = Vec::new();
    let mut i: usize = 2;
    while i < tokens.len()
        invariant
            2 <= i <= tokens@.len(),
            seq_view(tokens@) == ws,
            rest == ws.skip(2),
            seq_view(args@) == entry_args(rest.take(i - 2)),
            env@.map_values(|p: (String, String)| (p.0@, p.1@)) == entry_env(rest.take(i - 2)),
            env_names_unique(env@.map_values(|p: (String, String)| (p.0@, p.1@))),
        decreases tokens.len() - i,
    {
        let token = tokens[i].as_str();
        let ghost t = token@;
        proof {
            assert(t == ws[i as int]);
            assert(rest.take(i - 1).drop_last() =~= rest.take(i - 2));
            assert(rest.take(i - 1).last() == t);
            reveal_with_fuel(Seq::<_>::filter, 1);
        }
        match find_char(token, '=') {
            Some(pos) => {
                let n = token.unicode_len();
                let key = substring(token, 0, pos);
                let value = substring(token, pos + 1, n);
                assert(key@ =~= t.take(pos as int));
                assert(value@ =~= t.skip(pos + 1));
                assert(t.contains('=')) by {
                    assert(t[pos as int] == '=');
                }
                set_env(&mut env, key, value);
            },
            None => {
                let ghost prev = args@;
                let a = tokens[i].clone();
                args.push(a);
                proof {
                    assert(args@ == prev.push(a));
                    assert(seq_view(args@) =~= seq_view(prev).push(t));
                    assert(!t.contains('='));
                }
            },
        }
        i = i + 1;
    }
    assert(rest.take(i - 2) =~= rest);
    Ok(McpServer { name, command, args, env })
}

/// Sets `key` to `value` in `env`, keeping each name once.
fn set_env(env: &mut Vec<(String, String)>, key: String, value: String)
    requires
        env_names_unique(old(env)@.map_values(|p: (String, String)| (p.0@, p.1@))),
    ensures
        env_names_unique(final(env)@.map_values(|p: (String, String)| (p.0@, p.1@))),
        final(env)@.map_values(|p: (String, String)| (p.0@, p.1@)) == env_set(
            old(env)@.map_values(|p: (String, String)| (p.0@, p.1@)),
            key@,
            value@,
        ),
{
    let ghost before = env@.map_values(|p: (String, String)| (p.0@, p.1@));
    let ghost k = key@;
    let ghost v = value@;
    let mut i: usize = 0;
    while i < env.len()
        invariant
            i <= env@.len(),
            before == env@.map_values(|p: (String, String)| (p.0@, p.1@)),
            before == old(env)@.map_values(|p: (String, String)| (p.0@, p.1@)),
            k == key@,
            v == value@,
            env_names_unique(before),
            forall|j: int| 0 <= j < i ==> before[j].0 != k,
        decreases env.len() - i,
    {
        assert(before[i as int] == (env@[i as int].0@, env@[i as int].1@));
        let same = str_eq(env[i].0.as_str(), key.as_str());
        if same {
            proof {
                assert(before[i as int].0 == k);
                assert(exists|j: int| 0 <= j < before.len() && before[j].0 == k);
                let c = choose|j: int| 0 <= j < before.len() && before[j].0 == k;
                if c < i {
                    assert(before[c].0 != k);
                } else if c > i {
                    assert(before[i as int].0 != before[c].0);
                }
                assert(c == i);
                assert(env_set(before, k, v) == before.update(i as int, (k, v)));
            }
            env.set(i, (key, value));
            proof {
                let after = env@.map_values(|p: (String, String)| (p.0@, p.1@));
                assert(after =~= before.update(i as int, (k, v)));
                assert forall|a: int, b: int| 0 <= a < b < after.len() implies after[a].0 != after[b].0 by {
                    if a != i && b != i {
                        assert(before[a].0 != before[b].0);
                    } else if a == i {
                        assert(before[a].0 != before[b].0);
                    } else {
                        assert(before[a].0 != before[b].0);
                    }
                }
            }
            return;
        }
        i = i + 1;
    }
    let ghost old_env = env@;
    env.push((key, value));
    proof {
        let after = env@.map_values(|p: (String, String)| (p.0@, p.1@));
        assert(env@ == old_env.push((key, value)));
        assert(after =~= before.push((k, v)));
        assert(!exists|j: int| 0 <= j < before.len() && before[j].0 == k);
        assert forall|a: int, b: int| 0 <= a < b < after.len() implies after[a].0 != after[b].0 by {
            if b < before.len() {
                assert(before[a].0 != before[b].0);
            }
        }
    }
}

// ── The prompt ───────────────────────────────────────────────────────────────

/// The Nerd Font glyph the prompt uses until another is chosen: U+F083F.
pub open spec fn default_glyph_code() -> int {
    0xF083F
}

/// The value of a hexadecimal digit (either case).
pub open spec fn hex_digit(c: char) -> Option<int> {
    if '0' <= c && c <= '9' {
        Some(c as int - '0' as int)
    } else if 'a' <= c && c <= 'f' {
        Some(c as int - 'a' as int + 10)
    } else if 'A' <= c && c <= 'F' {
        Some(c as int - 'A' as int + 10)
    } else {
        None
    }
}

/// The number that a run of hexadecimal digits writes (the empty run is 0).
pub open spec fn hex_value(s: Seq<char>) -> Option<int>
    decreases s.len(),
{
    if s.len() == 0 {
        Some(0)
    } else {
        match (hex_value(s.drop_last()), hex_digit(s.last())) {
            (Some(a), Some(d)) => Some(a * 16 + d),
            _ => None,
        }
    }
}

/// Whether `n` is a Unicode scalar value (what a `char` can hold).
pub open spec fn is_scalar(n: int) -> bool {
    (0 <= n && n <= 0xD7FF) || (0xE000 <= n && n <= 0x10FFFF)
}

/// The code a `/nerd` argument names: one to six hexadecimal digits.
pub open spec fn glyph_code(arg: Seq<char>) -> Option<int> {
    if 1 <= arg.len() && arg.len() <= 6 {
        hex_value(arg)
    } else {
        None
    }
}

/// Calls `char::from_u32`, which gives the character with that code, or
/// nothing when the code is not a Unicode scalar value.
#[verifier::external_body]
fn char_from_u32(n: u32) -> (r: Option<char>)
    ensures
        r is Some <==> is_scalar(n as int),
        r matches Some(c) ==> c as int == n as int,
{
    char::from_u32(n)
}

/// 16 to the power `i`.
pub open spec fn pow16(i: nat) -> int
    decreases i,
{
    if i == 0 {
        1
    } else {
        16 * pow16((i - 1) as nat)
    }
}

/// Reads the code of a `/nerd` argument.
fn parse_glyph_code(arg: &str) -> (r: Option<u32>)
    ensures
        r is Some <==> glyph_code(arg@) is Some,
        r matches Some(n) ==> n as int == glyph_code(arg@)->0,
{
    let v = chars_of(arg);
    let n = v.len();
    if n == 0 || n > 6 {
        return None;
    }
    let mut acc: u32 = 0;
    let mut i: usize = 0;
    while i < n
        invariant
            v@ == arg@,
            n == v@.len(),
            1 <= n <= 6,
            i <= n,
            hex_value(arg@.take(i as int)) == Some(acc as int),
            acc < pow16(i as nat),
        decreases n - i,
    {
        let c = v[i];
        let d: u32 = if '0' <= c && c <= '9' {
            (c as u32) - ('0' as u32)
        } else if 'a' <= c && c <= 'f' {
            (c as u32) - ('a' as u32) + 10
        } else if 'A' <= c && c <= 'F' {
            (c as u32) - ('A' as u32) + 10
        } else {
            proof {
                assert(arg@.take(i + 1).drop_last() =~= arg@.take(i as int));
                lemma_hex_prefix_fails(arg@, (i + 1) as int);
            }
            return None;
        };
        proof {
            assert(arg@.take(i + 1).drop_last() =~= arg@.take(i as int));
            assert(arg@.take(i + 1).last() == c);
            assert(pow16(i as nat) <= 0x100000) by {
                reveal_with_fuel(pow16, 6);
                assert(i == 0 || i == 1 || i == 2 || i == 3 || i == 4 || i == 5);
            }
            assert(pow16((i + 1) as nat) == 16 * pow16(i as nat));
        }
        acc = acc * 16 + d;
        i = i + 1;
    }
    assert(arg@.take(n as int) =~= arg@);
    Some(acc)
}

proof fn lemma_hex_prefix_fails(s: Seq<char>, k: int)
    requires
        0 <= k <= s.len(),
        hex_value(s.take(k)) is None,
    ensures
        hex_value(s) is None,
    decreases s.len() - k,
{
    if k < s.len() {
        assert(s.take(k + 1).drop_last() =~= s.take(k));
        lemma_hex_prefix_fails(s, k + 1);
    } else {
        assert(s.take(k) =~= s);
    }
}

/// Whether a restored prompt shows the glyph: only when that was saved.
pub open spec fn restored_nerd(saved: Option<bool>) -> bool {
    saved == Some(true)
}

/// The glyph code of a restored prompt: the saved code when it names a
/// character, else the default.
pub open spec fn restored_glyph(saved: Option<u32>) -> int {
    match saved {
        Some(n) => if is_scalar(n as int) {
            n as int
        } else {
            default_glyph_code()
        },
        None => default_glyph_code(),
    }
}

/// How the input prompt looks: the plain `>` or, with `nerd` set, the chosen
/// Nerd Font glyph (kept while the plain prompt is used, so that switching
/// back finds it again).
#[derive(Debug, Clone, Copy, PartialEq, Eq)]
pub struct PromptStyle {
    pub nerd: bool,
    pub glyph: char,
}

impl PromptStyle {
    /// The plain `>` prompt, with the default glyph chosen.
    pub fn new() -> (r: Self)
        ensures
            !r.nerd,
            r.glyph as int == default_glyph_code(),
    {
        PromptStyle { nerd: false, glyph: '\u{F083F}' }
    }

    /// The prompt saved by an earlier run: whether the glyph was on (off when
    /// nothing was saved) and the glyph's code (the default when nothing, or
    /// no character, was saved).
    pub fn restored(nerd: Option<bool>, code: Option<u32>) -> (r: Self)
        ensures
            r.nerd == restored_nerd(nerd),
            r.glyph as int == restored_glyph(code),
    {
        let on = match nerd {
            Some(b) => b,
            None => false,
        };
        let default = PromptStyle::new().glyph;
        let glyph = match code {
            Some(n) => match char_from_u32(n) {
                Some(c) => c,
                None => default,
            },
            None => default,
        };
        PromptStyle { nerd: on, glyph }
    }

    /// The character the prompt shows.
    pub fn prompt_char(&self) -> (r: char)
        ensures
            r == if self.nerd {
                self.glyph
            } else {
                '>'
            },
    {
        if self.nerd {
            self.glyph
        } else {
            '>'
        }
    }

    /// The code of the chosen glyph, as saved.
    pub fn glyph_code(&self) -> (r: u32)
        ensures
            r as int == self.glyph as int,
    {
        self.glyph as u32
    }

    /// `/nerd` with its argument: no argument turns the chosen glyph on; one
    /// to six hexadecimal digits naming a character choose that glyph and turn
    /// it on; anything else is refused and changes nothing.
    pub fn use_nerd(&mut self, arg: &str) -> (r: Result<(), String>)
        ensures
            arg@.len() == 0 ==> r is Ok && final(self).nerd && final(self).glyph == old(self).glyph,
            arg@.len() > 0 ==> match glyph_code(arg@) {
                Some(n) => if is_scalar(n) {
                    r is Ok && final(self).nerd && final(self).glyph as int == n
                } else {
                    r is Err && *final(self) == *old(self)
                },
                None => r is Err && *final(self) == *old(self),
            },
            r matches Err(e) ==> e@ == "Invalid Nerd Font glyph code: "@ + arg@,
    {
        if arg.unicode_len() == 0 {
            self.nerd = true;
            return Ok(());
        }
        match parse_glyph_code(arg) {
            Some(n) => match char_from_u32(n) {
                Some(c) => {
                    self.glyph = c;
                    self.nerd = true;
                    Ok(())
                },
                None => Err(concat2("Invalid Nerd Font glyph code: ", arg)),
            },
            None => Err(concat2("Invalid Nerd Font glyph code: ", arg)),
        }
    }

    /// `/nonerd`: back to the plain `>`; the chosen glyph is kept.
    pub fn use_plain(&mut self)
        ensures
            !final(self).nerd,
            final(self).glyph == old(self).glyph,
    {
        self.nerd = false;
    }
}

/// The prompt persists across runs: saving its state and glyph code and
/// restoring them gives the same prompt back.
pub proof fn lemma_prompt_survives_restart(p: PromptStyle)
    ensures
        restored_nerd(Some(p.nerd)) == p.nerd,
        restored_glyph(Some(p.glyph as u32)) == p.glyph as int,
{
}

} // verus!
