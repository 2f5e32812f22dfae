//! Slash commands: the table, prefix completion, unique resolution, and the
//! classification of a line of input.
use vstd::prelude::*;
use vstd::string::*;
use crate::text::{
    lemma_trim_idempotent, lemma_trim_is_slice,
    chars_of, find_whitespace, first_ws, is_ws, lowercase, str_eq, substring, to_lowercase, trim,
    trim_seq, starts_with,
};

verus! {

/// The commands with their descriptions, in the order they are listed.
pub open spec fn command_table() -> Seq<(Seq<char>, Seq<char>)> {
    seq![
        ("bye"@, "Quit (saves named session)"@),
        ("quit"@, "Quit (discards named session)"@),
        ("help"@, "Show all commands"@),
        ("model"@, "Interactive model selection"@),
        ("session"@, "Interactive session management"@),
        ("forget"@, "Wipe the current session's history"@),
        ("identity"@, "Set OAuth identity"@),
        ("marco"@, "Toggle mDNS advertising"@),
        ("polo"@, "Interactive agent discovery / sessions"@),
        ("mcp"@, "Manage MCP servers"@),
        ("nerd"@, "Use a Nerd Font prompt glyph (optionally by hex code)"@),
        ("nonerd"@, "Use the plain > prompt"@),
    ]
}

/// A table entry as characters.
pub open spec fn entry_view(e: (&'static str, &'static str)) -> (Seq<char>, Seq<char>) {
    (e.0@, e.1@)
}

/// Whether `partial` begins the command of entry `e`.
pub open spec fn entry_matches(partial: Seq<char>, e: (Seq<char>, Seq<char>)) -> bool {
    partial.is_prefix_of(e.0)
}

/// The entries whose command begins with `partial`, in table order.
pub open spec fn matching_entries(partial: Seq<char>) -> Seq<(Seq<char>, Seq<char>)> {
    command_table().filter(|e: (Seq<char>, Seq<char>)| entry_matches(partial, e))
}

/// The one command that `partial` begins, if exactly one does.
pub open spec fn resolve_spec(partial: Seq<char>) -> Option<Seq<char>> {
    if matching_entries(partial).len() == 1 {
        Some(matching_entries(partial)[0].0)
    } else {
        None
    }
}

/// All commands with their descriptions.
pub fn commands() -> (r: Vec<(&'static str, &'static str)>)
    ensures
        r@.map_values(|e: (&'static str, &'static str)| entry_view(e)) == command_table(),
{
    let r = vec![
        ("bye", "Quit (saves named session)"),
        ("quit", "Quit (discards named session)"),
        ("help", "Show all commands"),
        ("model", "Interactive model selection"),
        ("session", "Interactive session management"),
        ("forget", "Wipe the current session's history"),
        ("identity", "Set OAuth identity"),
        ("marco", "Toggle mDNS advertising"),
        ("polo", "Interactive agent discovery / sessions"),
        ("mcp", "Manage MCP servers"),
        ("nerd", "Use a Nerd Font prompt glyph (optionally by hex code)"),
        ("nonerd", "Use the plain > prompt"),
    ];
    assert(r@.map_values(|e: (&'static str, &'static str)| entry_view(e)) =~= command_table());
    r
}

/// The commands (with descriptions) that begin with `partial`, in table order.
/// An empty `partial` gives every command.
pub fn autocomplete(partial: &str) -> (r: Vec<(&'static str, &'static str)>)
    ensures
        r@.map_values(|e: (&'static str, &'static str)| entry_view(e)) == matching_entries(
            partial@,
        ),
{
    let table = commands();
    let ghost tv = command_table();
    let ghost pred = |e: (Seq<char>, Seq<char>)| entry_matches(partial@, e);
    let mut r: Vec<(&'static str, &'static str)> = Vec::new();
    let mut i: usize = 0;
    assert(tv.take(0).filter(pred) =~= Seq::<(Seq<char>, Seq<char>)>::empty()) by {
        reveal_with_fuel(Seq::<_>::filter, 1);
    }
    while i < table.len()
        invariant
            i <= table.len(),
            tv == command_table(),
            table@.map_values(|e: (&'static str, &'static str)| entry_view(e)) == tv,
            r@.map_values(|e: (&'static str, &'static str)| entry_view(e)) == tv.take(
                i as int,
            ).filter(pred),
            pred == (|e: (Seq<char>, Seq<char>)| entry_matches(partial@, e)),
        decreases table.len() - i,
    {
        let e = table[i];
        let ghost before = r@;
        assert(entry_view(e) == tv[i as int]);
        assert(tv.take(i + 1).drop_last() =~= tv.take(i as int));
        assert(tv.take(i + 1).last() == tv[i as int]);
        if starts_with(e.0, partial) {
            r.push(e);
            assert(r@.map_values(|e: (&'static str, &'static str)| entry_view(e)) =~= before.map_values(
                |e: (&'static str, &'static str)| entry_view(e),
            ).push(entry_view(e)));
        }
        proof {
            reveal_with_fuel(Seq::<_>::filter, 1);
        }
        i = i + 1;
    }
    assert(tv.take(table.len() as int) =~= tv);
    r
}

/// The full name of the one command that `partial` begins, if exactly one
/// command begins with it.
pub fn resolve_command(partial: &str) -> (r: Option<&'static str>)
    ensures
        r is Some <==> resolve_spec(partial@) is Some,
        r matches Some(c) ==> resolve_spec(partial@) == Some(c@),
{
    let matches = autocomplete(partial);
    if matches.len() == 1 {
        assert(entry_view(matches@[0]) == matching_entries(partial@)[0]);
        Some(matches[0].0)
    } else {
        None
    }
}

/// A line of input, classified.
#[derive(Debug, Clone, PartialEq, Eq)]
pub enum ParsedInput {
    /// A slash command (lowercased name) with the rest of the line.
    Command(String, String),
    /// A line starting with `!`: a shell command to run directly.
    Shell(String),
    /// Anything else that is not blank: a chat message.
    Message(String),
    /// A blank line, or a bare `!`.
    Empty,
}

/// A classified line of input, as characters.
pub enum ParsedInputView {
    Command(Seq<char>, Seq<char>),
    Shell(Seq<char>),
    Message(Seq<char>),
    Empty,
}

impl View for ParsedInput {
    type V = ParsedInputView;

    open spec fn view(&self) -> ParsedInputView {
        match self {
            ParsedInput::Command(c, r) => ParsedInputView::Command(c@, r@),
            ParsedInput::Shell(c) => ParsedInputView::Shell(c@),
            ParsedInput::Message(m) => ParsedInputView::Message(m@),
            ParsedInput::Empty => ParsedInputView::Empty,
        }
    }
}

/// How a line is classified: it is trimmed first; blank is `Empty`; a leading
/// `!` makes the trimmed rest a shell command (blank rest: `Empty`); a leading
/// `/` makes the word after it a command (lowercased) and the trimmed
/// remainder its arguments; anything else is a message.
pub open spec fn parse_input_spec(input: Seq<char>) -> ParsedInputView {
    let t = trim_seq(input);
    if t.len() == 0 {
        ParsedInputView::Empty
    } else if t[0] == '!' {
        let c = trim_seq(t.drop_first());
        if c.len() == 0 {
            ParsedInputView::Empty
        } else {
            ParsedInputView::Shell(c)
        }
    } else if t[0] == '/' {
        let w = t.drop_first();
        match first_ws(w) {
            Some(pos) => ParsedInputView::Command(lowercase(w.take(pos)), trim_seq(w.skip(pos))),
            None => ParsedInputView::Command(lowercase(w), Seq::empty()),
        }
    } else {
        ParsedInputView::Message(t)
    }
}

/// A line whose trimmed form starts with `!` followed by more than blanks.
pub open spec fn is_shell_line(input: Seq<char>) -> bool {
    let t = trim_seq(input);
    t.len() > 0 && t[0] == '!' && trim_seq(t.drop_first()).len() > 0
}

/// `c` stands unchanged in `line` after a `!` and whitespace.
pub open spec fn follows_bang(line: Seq<char>, c: Seq<char>) -> bool {
    exists|j: int, i: int|
        #![trigger line[j], line.subrange(i, i + c.len())]
        0 <= j < i && i + c.len() <= line.len() && line[j] == '!' && (forall|k: int| j < k < i ==> is_ws(
            #[trigger] line[k],
        )) && line.subrange(i, i + c.len()) == c
}

/// What a line says is kept character for character. A `!` line gives as its
/// shell command what follows the `!`, trimmed and otherwise unchanged (no
/// case or other change): an unbroken run of the line's own characters. A
/// message is the whole line without surrounding whitespace, also a run of
/// its characters.
pub proof fn lemma_line_kept_verbatim(input: Seq<char>)
    ensures
        is_shell_line(input) ==> parse_input_spec(input) == ParsedInputView::Shell(
            trim_seq(trim_seq(input).drop_first()),
        ),
        parse_input_spec(input) matches ParsedInputView::Shell(c) ==> is_shell_line(input) && follows_bang(input, c),
        parse_input_spec(input) matches ParsedInputView::Message(m) ==> m == trim_seq(input) && exists|i: int|
            0 <= i && i + m.len() <= input.len() && #[trigger] input.subrange(i, i + m.len()) == m,
{
    let t = trim_seq(input);
    lemma_trim_is_slice(input);
    let a = choose|a: int|
        0 <= a && a + t.len() <= input.len() && #[trigger] input.subrange(a, a + t.len()) == t
            && (forall|k: int| 0 <= k < a ==> is_ws(#[trigger] input[k]))
            && (forall|k: int| a + t.len() <= k < input.len() ==> is_ws(#[trigger] input[k]));
    if t.len() > 0 && t[0] == '!' {
        let u = t.drop_first();
        let c = trim_seq(u);
        lemma_trim_is_slice(u);
        let b = choose|b: int|
            0 <= b && b + c.len() <= u.len() && #[trigger] u.subrange(b, b + c.len()) == c
                && (forall|k: int| 0 <= k < b ==> is_ws(#[trigger] u[k]))
                && (forall|k: int| b + c.len() <= k < u.len() ==> is_ws(#[trigger] u[k]));
        if c.len() > 0 {
            let i = a + 1 + b;
            assert(input.subrange(i, i + c.len()) =~= c) by {
                assert forall|k: int| 0 <= k < c.len() implies input.subrange(i, i + c.len())[k] == c[k] by {
                    assert(c[k] == u.subrange(b, b + c.len())[k]);
                    assert(u[b + k] == t[1 + b + k]);
                    assert(t[1 + b + k] == input.subrange(a, a + t.len())[1 + b + k]);
                }
            }
            assert(input[a] == t[0]);
            assert forall|k: int| a < k < i implies is_ws(#[trigger] input[k]) by {
                assert(u[k - a - 1] == t[k - a]);
                assert(input[k] == t[k - a]);
            }
            assert(follows_bang(input, c));
        }
    }
}

/// Classifies a line of input.
pub fn parse_input(input: &str) -> (r: ParsedInput)
    ensures
        r@ == parse_input_spec(input@),
        is_shell_line(input@) ==> r@ == ParsedInputView::Shell(trim_seq(trim_seq(input@).drop_first())),
        r@ matches ParsedInputView::Message(m) ==> m == trim_seq(input@),
{
    let trimmed = trim(input);
    let t = trimmed.as_str();
    let n = t.unicode_len();
    if n == 0 {
        return ParsedInput::Empty;
    }
    let first = t.get_char(0);
    if first == '!' {
        let tail = substring(t, 1, n);
        assert(tail@ =~= t@.drop_first());
        let cmd = trim(tail.as_str());
        if cmd.as_str().unicode_len() == 0 {
            return ParsedInput::Empty;
        }
        return ParsedInput::Shell(cmd);
    }
    if first == '/' {
        let without_slash = substring(t, 1, n);
        assert(without_slash@ =~= t@.drop_first());
        let w = without_slash.as_str();
        let wn = w.unicode_len();
        match find_whitespace(w) {
            Some(pos) => {
                let cmd_part = substring(w, 0, pos);
                let rest_raw = substring(w, pos, wn);
                assert(cmd_part@ =~= w@.take(pos as int));
                assert(rest_raw@ =~= w@.skip(pos as int));
                let rest = trim(rest_raw.as_str());
                ParsedInput::Command(to_lowercase(cmd_part.as_str()), rest)
            },
            None => ParsedInput::Command(to_lowercase(w), String::new()),
        }
    } else {
        ParsedInput::Message(trimmed)
    }
}

/// What the program does for a slash command.
#[derive(Debug, Clone, Copy, PartialEq, Eq)]
pub enum CommandAction {
    Bye,
    Quit,
    Help,
    Model,
    Session,
    Forget,
    Identity,
    Marco,
    Polo,
    Mcp,
    Nerd,
    NoNerd,
    /// No command, or more than one, begins with what was typed.
    Unknown,
}

/// The action for a full command name.
pub open spec fn action_for_name(name: Seq<char>) -> CommandAction {
    if name == "bye"@ {
        CommandAction::Bye
    } else if name == "quit"@ {
        CommandAction::Quit
    } else if name == "help"@ {
        CommandAction::Help
    } else if name == "model"@ {
        CommandAction::Model
    } else if name == "session"@ {
        CommandAction::Session
    } else if name == "forget"@ {
        CommandAction::Forget
    } else if name == "identity"@ {
        CommandAction::Identity
    } else if name == "marco"@ {
        CommandAction::Marco
    } else if name == "polo"@ {
        CommandAction::Polo
    } else if name == "mcp"@ {
        CommandAction::Mcp
    } else if name == "nerd"@ {
        CommandAction::Nerd
    } else if name == "nonerd"@ {
        CommandAction::NoNerd
    } else {
        CommandAction::Unknown
    }
}

/// The action for what was typed after `/`.
pub open spec fn command_action_spec(cmd: Seq<char>) -> CommandAction {
    match resolve_spec(cmd) {
        Some(name) => action_for_name(name),
        None => CommandAction::Unknown,
    }
}

/// Decides what a typed command does: the command it uniquely resolves to,
/// or `Unknown`.
pub fn command_action(cmd: &str) -> (r: CommandAction)
    ensures
        r == command_action_spec(cmd@),
{
    match resolve_command(cmd) {
        Some(name) => {
            if str_eq(name, "bye") {
                CommandAction::Bye
            } else if str_eq(name, "quit") {
                CommandAction::Quit
            } else if str_eq(name, "help") {
                CommandAction::Help
            } else if str_eq(name, "model") {
                CommandAction::Model
            } else if str_eq(name, "session") {
                CommandAction::Session
            } else if str_eq(name, "forget") {
                CommandAction::Forget
            } else if str_eq(name, "identity") {
                CommandAction::Identity
            } else if str_eq(name, "marco") {
                CommandAction::Marco
            } else if str_eq(name, "polo") {
                CommandAction::Polo
            } else if str_eq(name, "mcp") {
                CommandAction::Mcp
            } else if str_eq(name, "nerd") {
                CommandAction::Nerd
            } else if str_eq(name, "nonerd") {
                CommandAction::NoNerd
            } else {
                CommandAction::Unknown
            }
        },
        None => CommandAction::Unknown,
    }
}

// ── Laws ─────────────────────────────────────────────────────────────────────

/// An empty prefix completes to every command, in table order.
pub proof fn lemma_empty_prefix_lists_all()
    ensures
        matching_entries(Seq::empty()) == command_table(),
{
    let t = command_table();
    let pred = |e: (Seq<char>, Seq<char>)| entry_matches(Seq::<char>::empty(), e);
    assert forall|k: nat| k <= t.len() implies #[trigger] t.take(k as int).filter(pred) == t.take(k as int) by {
        lemma_filter_all(t, pred, k);
    }
    assert(t.take(t.len() as int) =~= t);
}

proof fn lemma_filter_all(t: Seq<(Seq<char>, Seq<char>)>, pred: spec_fn((Seq<char>, Seq<char>)) -> bool, k: nat)
    requires
        k <= t.len(),
        forall|i: int| 0 <= i < t.len() ==> pred(#[trigger] t[i]),
    ensures
        t.take(k as int).filter(pred) == t.take(k as int),
    decreases k,
{
    reveal_with_fuel(Seq::<_>::filter, 1);
    if k > 0 {
        lemma_filter_all(t, pred, (k - 1) as nat);
        assert(t.take(k as int).drop_last() =~= t.take(k - 1));
        assert(t.take(k - 1).push(t[k - 1]) =~= t.take(k as int));
    }
}

/// A command that resolves is one of the table's commands and begins with
/// what was typed: resolution only ever completes what the user typed.
pub proof fn lemma_resolved_extends_typed(partial: Seq<char>)
    ensures
        resolve_spec(partial) matches Some(c) ==> partial.is_prefix_of(c) && exists|i: int|
            0 <= i < command_table().len() && command_table()[i].0 == c,
{
    broadcast use vstd::seq_lib::group_filter_ensures;

    let m = matching_entries(partial);
    let pred = |e: (Seq<char>, Seq<char>)| entry_matches(partial, e);
    if m.len() == 1 {
        assert(pred(m[0]));
        assert(command_table().filter(pred).contains(m[0])) by {
            assert(m[0] == m[0]);
        }
        lemma_filtered_from_table(partial);
    }
}

proof fn lemma_filtered_from_table(partial: Seq<char>)
    requires
        matching_entries(partial).len() > 0,
    ensures
        exists|i: int| 0 <= i < command_table().len() && command_table()[i] == matching_entries(partial)[0],
{
    let t = command_table();
    let pred = |e: (Seq<char>, Seq<char>)| entry_matches(partial, e);
    lemma_filter_elements_from(t, pred, t.len());
    assert(t.take(t.len() as int) =~= t);
}

proof fn lemma_filter_elements_from(t: Seq<(Seq<char>, Seq<char>)>, pred: spec_fn((Seq<char>, Seq<char>)) -> bool, k: nat)
    requires
        k <= t.len(),
    ensures
        forall|j: int| 0 <= j < t.take(k as int).filter(pred).len() ==> exists|i: int| 0 <= i < t.len() && t[i] == #[trigger] t.take(k as int).filter(pred)[j],
    decreases k,
{
    reveal_with_fuel(Seq::<_>::filter, 1);
    if k > 0 {
        lemma_filter_elements_from(t, pred, (k - 1) as nat);
        assert(t.take(k as int).drop_last() =~= t.take(k - 1));
        let f = t.take(k as int).filter(pred);
        let g = t.take(k - 1).filter(pred);
        assert forall|j: int| 0 <= j < f.len() implies exists|i: int| 0 <= i < t.len() && t[i] == #[trigger] f[j] by {
            if j < g.len() {
                assert(f[j] == g[j]);
            } else {
                assert(f[j] == t[k - 1]);
            }
        }
    }
}

proof fn lemma_filter_unique(t: Seq<(Seq<char>, Seq<char>)>, pred: spec_fn((Seq<char>, Seq<char>)) -> bool, j: int, k: nat)
    requires
        0 <= j < t.len(),
        k <= t.len(),
        pred(t[j]),
        forall|m: int| 0 <= m < t.len() && m != j ==> !pred(#[trigger] t[m]),
    ensures
        t.take(k as int).filter(pred) == (if j < k { seq![t[j]] } else { Seq::empty() }),
    decreases k,
{
    reveal_with_fuel(Seq::<_>::filter, 1);
    if k > 0 {
        lemma_filter_unique(t, pred, j, (k - 1) as nat);
        assert(t.take(k as int).drop_last() =~= t.take(k - 1));
        assert(t.take(k as int).last() == t[k - 1]);
        if j == k - 1 {
            assert(Seq::<(Seq<char>, Seq<char>)>::empty().push(t[j]) =~= seq![t[j]]);
        }
    } else {
        assert(t.take(0) =~= Seq::<(Seq<char>, Seq<char>)>::empty());
    }
}

proof fn lemma_not_prefix(a: Seq<char>, b: Seq<char>)
    requires
        a.len() >= 2,
        b.len() >= 2,
        a[0] != b[0] || a[1] != b[1],
    ensures
        !a.is_prefix_of(b),
{
}

/// Only enough characters to identify a command are needed, and a command
/// typed in full is always recognised: every full name resolves to itself.
pub proof fn lemma_full_names_resolve()
    ensures
        forall|i: int| 0 <= i < command_table().len() ==> resolve_spec(#[trigger] command_table()[i].0) == Some(command_table()[i].0),
{
    reveal_strlit("bye");
    reveal_strlit("quit");
    reveal_strlit("help");
    reveal_strlit("model");
    reveal_strlit("session");
    reveal_strlit("identity");
    reveal_strlit("marco");
    reveal_strlit("polo");
    reveal_strlit("mcp");
    reveal_strlit("forget");
    reveal_strlit("nerd");
    reveal_strlit("nonerd");
    let t = command_table();
    assert forall|i: int| 0 <= i < t.len() implies resolve_spec(#[trigger] t[i].0) == Some(t[i].0) by {
        let n = t[i].0;
        let pred = |e: (Seq<char>, Seq<char>)| entry_matches(n, e);
        assert forall|m: int| 0 <= m < t.len() && m != i implies !pred(#[trigger] t[m]) by {
            lemma_not_prefix(n, t[m].0);
        }
        lemma_filter_unique(t, pred, i, t.len());
        assert(t.take(t.len() as int) =~= t);
    }
}

/// Classifying a line ignores surrounding whitespace: a line and its trimmed
/// form are classified alike, and a message is always trimmed.
pub proof fn lemma_parse_ignores_surrounding_whitespace(input: Seq<char>)
    ensures
        parse_input_spec(trim_seq(input)) == parse_input_spec(input),
        parse_input_spec(input) matches ParsedInputView::Message(m) ==> trim_seq(m) == m && m.len() > 0 && m[0] != '!' && m[0] != '/',
{
    lemma_trim_idempotent(input);
}

} // verus!
