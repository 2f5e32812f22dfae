//! The program's state between inputs, and the decisions it makes: what an
//! event from the background work does to the display and the conversation,
//! what sending a message records, which model and provider a request uses,
//! what quitting discards.
use vstd::prelude::*;
use vstd::string::*;
use crate::a2a::discovery::DiscoveredAgent;
use crate::db::{AgentSession, ModelConfig, Session, StoredMessage, Timestamp};
use crate::shell::{from_utf8_lossy, lossy_text};
use vstd::utf8::{encode_utf8, is_char_boundary};
use crate::llm::{
    build_provider, build_provider_spec, known_model_table, opt_str_view, provider_view,
    LlmResponse, Message, ModelInfo, ProviderConfig, Tool, ToolCall, all_known_models,
    configured_by_default, known_models_spec, model_info_view,
};
use crate::mcp::McpTool;
use crate::text::{
    chars_of, concat2, concat3, decimal, decimal_i32, decimal_int, decimal_u64, find,
    first_occurrence, occurs_at, opt_view, starts_with, str_eq, strip_prefixes, substring, trim,
    trim_seq, trim_start_matches,
};
use crate::ui::{status_line, status_shown, ChatLine, Ui};

verus! {

/// What the background work reports to the program.
#[derive(Debug, Clone, PartialEq, Eq)]
pub enum AppEvent {
    /// Text from the model (or a tool's result) to show and keep.
    LlmResponse(String),
    /// A failure to show.
    LlmError(String),
    /// A status message; `Ready` and `Error` end the model's answer.
    StatusUpdate(String),
    /// The model wants this shell command run; the user must confirm.
    ShellConfirm { command: String, reason: String },
    /// A shell command finished.
    ShellResult { command: String, output: String, exit_code: i32 },
}

/// Something the program must do outside its state after a decision.
#[derive(Debug, Clone, PartialEq, Eq)]
pub enum Effect {
    /// Print this chat line (it was added to the display).
    Show(ChatLine),
    /// Print this status line.
    Status(String),
    /// Store this message.
    Save(StoredMessage),
}

/// The program's state: the display, the current session and its messages,
/// the active model, whether this agent is advertised, the agents seen, the
/// agent's name, and whether shell commands run without confirmation in the
/// current exchange.
#[derive(Debug, Clone)]
pub struct App {
    pub ui: Ui,
    pub current_session_id: Option<String>,
    pub active_model_id: Option<String>,
    pub active_model_provider: Option<String>,
    pub is_advertising: bool,
    pub discovered_agents: Vec<DiscoveredAgent>,
    pub agent_name: String,
    pub session_messages: Vec<Message>,
    pub message_count: u64,
    pub yolo: bool,
}

/// A chat message as characters: role and content.
pub open spec fn message_view(m: Message) -> (Seq<char>, Seq<char>) {
    (m.role@, m.content@)
}

/// The text fed back to the model after a shell command.
pub open spec fn shell_feedback(command: Seq<char>, output: Seq<char>, exit_code: i32) -> Seq<char> {
    "Command `"@ + command + "` exited with code "@ + decimal_int(exit_code as int) + ".\nOutput:\n"@
        + trim_seq(output)
}

/// The chat line shown after a shell command: `$ {command}` then its output.
pub open spec fn shell_display(command: Seq<char>, output: Seq<char>) -> Seq<char> {
    "$ "@ + command + "\n"@ + trim_seq(output)
}

impl App {
    /// A fresh state for the agent called `agent_name`: no session, no model,
    /// not advertised, nothing said.
    pub fn new(agent_name: String) -> (r: Self)
        ensures
            r.agent_name == agent_name,
            r.current_session_id is None,
            r.active_model_id is None,
            r.active_model_provider is None,
            !r.is_advertising,
            r.discovered_agents@.len() == 0,
            r.session_messages@.len() == 0,
            r.message_count == 0,
            !r.yolo,
            r.ui.chat_lines@.len() == 0,
            r.ui.pending_shell_confirm is None,
            !r.ui.response_complete,
            r.ui.shells_pending == 0,
    {
        App {
            ui: Ui::new(),
            current_session_id: None,
            active_model_id: None,
            active_model_provider: None,
            is_advertising: false,
            discovered_agents: Vec::new(),
            agent_name,
            session_messages: Vec::new(),
            message_count: 0,
            yolo: false,
        }
    }

    /// Restores the model chosen in an earlier run; only a complete choice
    /// (model and provider) is taken.
    pub fn restore_active_model(&mut self, model_id: Option<String>, provider: Option<String>)
        ensures
            (model_id is Some && provider is Some) ==> final(self).active_model_id == model_id
                && final(self).active_model_provider == provider,
            !(model_id is Some && provider is Some) ==> final(self).active_model_id == old(self).active_model_id
                && final(self).active_model_provider == old(self).active_model_provider,
            final(self).current_session_id == old(self).current_session_id,
            final(self).message_count == old(self).message_count,
    {
        if model_id.is_some() && provider.is_some() {
            self.active_model_id = model_id;
            self.active_model_provider = provider;
        }
    }

    /// Records a message said in the current session: kept in the
    /// conversation and, when a session is open, stored at the next position.
    fn record(&mut self, role: &str, content: String, now: Timestamp) -> (saved: Option<StoredMessage>)
        requires
            old(self).message_count < u64::MAX,
        ensures
            final(self).session_messages@.map_values(|m: Message| message_view(m)) == old(self).session_messages@.map_values(
                |m: Message| message_view(m),
            ).push((role@, content@)),
            match old(self).current_session_id {
                Some(id) => saved matches Some(m) && m.session_id == id && m.index == old(self).message_count
                    && m.role@ == role@ && m.content@ == content@ && m.timestamp == now
                    && final(self).message_count == old(self).message_count + 1,
                None => saved is None && final(self).message_count == old(self).message_count,
            },
            final(self).ui == old(self).ui,
            final(self).current_session_id == old(self).current_session_id,
            final(self).active_model_id == old(self).active_model_id,
            final(self).active_model_provider == old(self).active_model_provider,
            final(self).yolo == old(self).yolo,
            final(self).agent_name == old(self).agent_name,
            final(self).is_advertising == old(self).is_advertising,
            final(self).discovered_agents == old(self).discovered_agents,
    {
        let saved = match &self.current_session_id {
            Some(id) => {
                let m = StoredMessage {
                    session_id: id.clone(),
                    index: self.message_count,
                    role: String::from_str(role),
                    content: content.clone(),
                    timestamp: now,
                };
                self.message_count = self.message_count + 1;
                Some(m)
            },
            None => None,
        };
        let ghost before = self.session_messages@;
        let msg = Message { role: String::from_str(role), content };
        self.session_messages.push(msg);
        assert(self.session_messages@.map_values(|m: Message| message_view(m)) =~= before.map_values(
            |m: Message| message_view(m),
        ).push((role@, msg.content@)));
        saved
    }

    /// What an event from the background work does. Model text is shown and
    /// kept (stored when a session is open); an error is shown and ends the
    /// answer; a status is shown unless empty, `Ready` or `Error`, and the
    /// latter two end the answer; a shell command to confirm waits for the
    /// user; a finished shell command is shown, fed back to the model as the
    /// user's message, and ends the answer when no other command runs.
    pub fn handle_event(&mut self, event: AppEvent, now: Timestamp) -> (effects: Vec<Effect>)
        requires
            old(self).message_count < u64::MAX,
        ensures
            final(self).current_session_id == old(self).current_session_id,
            final(self).active_model_id == old(self).active_model_id,
            final(self).active_model_provider == old(self).active_model_provider,
            final(self).yolo == old(self).yolo,
            final(self).agent_name == old(self).agent_name,
            final(self).is_advertising == old(self).is_advertising,
            final(self).discovered_agents == old(self).discovered_agents,
            !(event is ShellConfirm) ==> final(self).ui.pending_shell_confirm == old(self).ui.pending_shell_confirm,
            match event {
                AppEvent::LlmResponse(text) => {
                    &&& final(self).ui.chat_lines@ == old(self).ui.chat_lines@.push(effects@[0]->Show_0)
                    &&& effects@[0]->Show_0.role@ == "assistant"@
                    &&& effects@[0]->Show_0.content@ == text@
                    &&& final(self).session_messages@.map_values(|m: Message| message_view(m))
                        == old(self).session_messages@.map_values(|m: Message| message_view(m)).push(("assistant"@, text@))
                    &&& match old(self).current_session_id {
                        Some(id) => {
                            &&& effects@.len() == 2
                            &&& effects@[1] is Save
                            &&& effects@[1]->Save_0.session_id == id
                            &&& effects@[1]->Save_0.index == old(self).message_count
                            &&& effects@[1]->Save_0.role@ == "assistant"@
                            &&& effects@[1]->Save_0.content@ == text@
                            &&& effects@[1]->Save_0.timestamp == now
                            &&& final(self).message_count == old(self).message_count + 1
                        },
                        None => effects@.len() == 1 && final(self).message_count == old(self).message_count,
                    }
                    &&& final(self).ui.response_complete == old(self).ui.response_complete
                    &&& final(self).ui.shells_pending == old(self).ui.shells_pending
                },
                AppEvent::LlmError(err) => {
                    &&& effects@.len() == 1
                    &&& final(self).ui.chat_lines@ == old(self).ui.chat_lines@.push(effects@[0]->Show_0)
                    &&& effects@[0]->Show_0.role@ == "system"@
                    &&& effects@[0]->Show_0.content@ == "Error: "@ + err@
                    &&& final(self).ui.response_complete
                    &&& final(self).ui.shells_pending == old(self).ui.shells_pending
                    &&& final(self).session_messages == old(self).session_messages
                    &&& final(self).message_count == old(self).message_count
                },
                AppEvent::StatusUpdate(msg) => {
                    &&& (status_shown(msg@) ==> effects@.len() == 1 && effects@[0] is Status
                        && effects@[0]->Status_0@ == ".. "@ + msg@)
                    &&& (!status_shown(msg@) ==> effects@.len() == 0)
                    &&& final(self).ui.response_complete == (old(self).ui.response_complete || msg@ == "Ready"@
                        || msg@ == "Error"@)
                    &&& final(self).ui.chat_lines == old(self).ui.chat_lines
                    &&& final(self).ui.shells_pending == old(self).ui.shells_pending
                    &&& final(self).session_messages == old(self).session_messages
                    &&& final(self).message_count == old(self).message_count
                },
                AppEvent::ShellConfirm { command, reason } => {
                    &&& effects@.len() == 0
                    &&& final(self).ui.pending_shell_confirm == Some((command, reason))
                    &&& final(self).ui.chat_lines == old(self).ui.chat_lines
                    &&& final(self).ui.response_complete == old(self).ui.response_complete
                    &&& final(self).ui.shells_pending == old(self).ui.shells_pending
                    &&& final(self).session_messages == old(self).session_messages
                    &&& final(self).message_count == old(self).message_count
                },
                AppEvent::ShellResult { command, output, exit_code } => {
                    &&& effects@.len() == 1
                    &&& final(self).ui.chat_lines@ == old(self).ui.chat_lines@.push(effects@[0]->Show_0)
                    &&& effects@[0]->Show_0.role@ == "system"@
                    &&& effects@[0]->Show_0.content@ == shell_display(command@, output@)
                    &&& final(self).session_messages@.map_values(|m: Message| message_view(m))
                        == old(self).session_messages@.map_values(|m: Message| message_view(m)).push(
                        ("user"@, shell_feedback(command@, output@, exit_code)))
                    &&& final(self).ui.shells_pending == if old(self).ui.shells_pending == 0 {
                        0
                    } else {
                        (old(self).ui.shells_pending - 1) as u32
                    }
                    &&& final(self).ui.response_complete == (old(self).ui.response_complete
                        || final(self).ui.shells_pending == 0)
                    &&& final(self).message_count == old(self).message_count
                },
            },
    {
        let mut effects: Vec<Effect> = Vec::new();
        match event {
            AppEvent::LlmResponse(text) => {
                let line = self.ui.push_chat("assistant", text.as_str());
                effects.push(Effect::Show(line));
                let saved = self.record("assistant", text, now);
                match saved {
                    Some(m) => {
                        effects.push(Effect::Save(m));
                    },
                    None => {},
                }
            },
            AppEvent::LlmError(err) => {
                let content = concat2("Error: ", err.as_str());
                let line = self.ui.push_chat("system", content.as_str());
                effects.push(Effect::Show(line));
                self.ui.response_complete = true;
            },
            AppEvent::StatusUpdate(msg) => {
                match status_line(msg.as_str()) {
                    Some(l) => {
                        effects.push(Effect::Status(l));
                    },
                    None => {},
                }
                if str_eq(msg.as_str(), "Ready") || str_eq(msg.as_str(), "Error") {
                    self.ui.response_complete = true;
                }
            },
            AppEvent::ShellConfirm { command, reason } => {
                self.ui.pending_shell_confirm = Some((command, reason));
            },
            AppEvent::ShellResult { command, output, exit_code } => {
                let trimmed = trim(output.as_str());
                let mut display = concat3("$ ", command.as_str(), "\n");
                display.append(trimmed.as_str());
                let line = self.ui.push_chat("system", display.as_str());
                effects.push(Effect::Show(line));
                let code = decimal_i32(exit_code);
                let mut feedback = concat3("Command `", command.as_str(), "` exited with code ");
                feedback.append(code.as_str());
                feedback.append(".\nOutput:\n");
                feedback.append(trimmed.as_str());
                let ghost before = self.session_messages@;
                let msg = Message { role: String::from_str("user"), content: feedback };
                self.session_messages.push(msg);
                assert(self.session_messages@.map_values(|m: Message| message_view(m)) =~= before.map_values(
                    |m: Message| message_view(m),
                ).push(("user"@, msg.content@)));
                self.ui.shells_pending = if self.ui.shells_pending == 0 {
                    0
                } else {
                    self.ui.shells_pending - 1
                };
                if self.ui.shells_pending == 0 {
                    self.ui.response_complete = true;
                }
            },
        }
        effects
    }
}

/// The text of a message once a leading `[yolo]` is taken off: every leading
/// `[yolo]` removed, then surrounding whitespace.
pub open spec fn message_text(content: Seq<char>) -> Seq<char> {
    if "[yolo]"@.is_prefix_of(content) {
        trim_seq(strip_prefixes(content, "[yolo]"@))
    } else {
        content
    }
}

/// The status shown when a message turns shell confirmation off.
pub open spec fn yolo_status() -> Seq<char> {
    ".. ⚡ YOLO mode: commands will auto-execute this exchange"@
}

/// What sending a message produced: a status line to show, and the stored
/// form of the message when a session is open.
#[derive(Debug, Clone, PartialEq, Eq)]
pub struct Outgoing {
    pub status: Option<String>,
    pub saved: Option<StoredMessage>,
}

impl App {
    /// The user sends `content`. A leading `[yolo]` makes shell commands run
    /// without confirmation for this exchange (and is taken off the message);
    /// any other message turns that off again. The message is kept, and stored
    /// at the next position when a session is open.
    pub fn begin_message(&mut self, content: &str, now: Timestamp) -> (out: Outgoing)
        requires
            old(self).message_count < u64::MAX,
        ensures
            final(self).yolo == "[yolo]"@.is_prefix_of(content@),
            final(self).yolo ==> (out.status matches Some(l) && l@ == yolo_status()),
            !final(self).yolo ==> out.status is None,
            final(self).session_messages@.map_values(|m: Message| message_view(m)) == old(self).session_messages@.map_values(
                |m: Message| message_view(m),
            ).push(("user"@, message_text(content@))),
            match old(self).current_session_id {
                Some(id) => {
                    &&& out.saved matches Some(m)
                    &&& m.session_id == id
                    &&& m.index == old(self).message_count
                    &&& m.role@ == "user"@
                    &&& m.content@ == message_text(content@)
                    &&& m.timestamp == now
                    &&& final(self).message_count == old(self).message_count + 1
                },
                None => out.saved is None && final(self).message_count == old(self).message_count,
            },
            final(self).ui == old(self).ui,
            final(self).current_session_id == old(self).current_session_id,
            final(self).active_model_id == old(self).active_model_id,
            final(self).active_model_provider == old(self).active_model_provider,
    {
        let yolo_this = starts_with(content, "[yolo]");
        let text = if yolo_this {
            let stripped = trim_start_matches(content, "[yolo]");
            trim(stripped.as_str())
        } else {
            String::from_str(content)
        };
        let status = if yolo_this {
            self.yolo = true;
            Some(String::from_str(".. ⚡ YOLO mode: commands will auto-execute this exchange"))
        } else {
            self.yolo = false;
            None
        };
        let saved = self.record("user", text, now);
        Outgoing { status, saved }
    }

    /// The name shown for the current session: its name, or `ephemeral` when
    /// it has none or no session is open. `stored` is the stored record of the
    /// current session, if found.
    pub fn current_session_name(&self, stored: Option<Session>) -> (r: String)
        ensures
            r@ == match (self.current_session_id, stored) {
                (Some(_), Some(s)) => match s.name {
                    Some(n) => n@,
                    None => "ephemeral"@,
                },
                _ => "ephemeral"@,
            },
    {
        match (&self.current_session_id, stored) {
            (Some(_), Some(s)) => match s.name {
                Some(n) => n,
                None => String::from_str("ephemeral"),
            },
            _ => String::from_str("ephemeral"),
        }
    }

    /// The named (not ephemeral) sessions, in order.
    pub fn list_named_sessions(sessions: Vec<Session>) -> (r: Vec<Session>)
        ensures
            r@ == sessions@.filter(|s: Session| !s.ephemeral),
    {
        let ghost all = sessions@;
        let ghost pred = |s: Session| !s.ephemeral;
        let mut r: Vec<Session> = Vec::new();
        let mut rest = sessions;
        let mut i: usize = 0;
        let n = rest.len();
        assert(all.skip(0) =~= all);
        assert(all.take(0).filter(pred) =~= Seq::<Session>::empty()) by {
            reveal_with_fuel(Seq::<_>::filter, 1);
        }
        while rest.len() > 0
            invariant
                i + rest@.len() == all.len(),
                all.len() == n,
                rest@ == all.skip(i as int),
                r@ == all.take(i as int).filter(pred),
                pred == (|s: Session| !s.ephemeral),
            decreases rest.len(),
        {
            let s = rest.remove(0);
            proof {
                assert(rest@ =~= all.skip(i + 1));
                assert(s == all[i as int]);
                assert(all.take(i + 1).drop_last() =~= all.take(i as int));
                assert(all.take(i + 1).last() == all[i as int]);
                reveal_with_fuel(Seq::<_>::filter, 1);
            }
            if !s.ephemeral {
                r.push(s);
            }
            i = i + 1;
        }
        assert(all.take(i as int) =~= all);
        r
    }

    /// The ids of the ephemeral sessions, in order: those discarded at start.
    pub fn ephemeral_session_ids(sessions: &Vec<Session>) -> (r: Vec<String>)
        ensures
            r@ == sessions@.filter(|s: Session| s.ephemeral).map_values(|s: Session| s.id),
    {
        let ghost pred = |s: Session| s.ephemeral;
        let mut r: Vec<String> = Vec::new();
        let mut i: usize = 0;
        assert(sessions@.take(0).filter(pred) =~= Seq::<Session>::empty()) by {
            reveal_with_fuel(Seq::<_>::filter, 1);
        }
        while i < sessions.len()
            invariant
                i <= sessions@.len(),
                r@ == sessions@.take(i as int).filter(pred).map_values(|s: Session| s.id),
                pred == (|s: Session| s.ephemeral),
            decreases sessions.len() - i,
        {
            proof {
                assert(sessions@.take(i + 1).drop_last() =~= sessions@.take(i as int));
                assert(sessions@.take(i + 1).last() == sessions@[i as int]);
                reveal_with_fuel(Seq::<_>::filter, 1);
            }
            if sessions[i].ephemeral {
                let ghost prev = r@;
                let id = sessions[i].id.clone();
                r.push(id);
                assert(r@ =~= sessions@.take(i + 1).filter(pred).map_values(|s: Session| s.id));
            } else {
                assert(r@ =~= sessions@.take(i + 1).filter(pred).map_values(|s: Session| s.id));
            }
            i = i + 1;
        }
        assert(sessions@.take(i as int) =~= sessions@);
        r
    }

    /// A new named session `name` with id `id`, created `now`, for the active
    /// model.
    pub fn create_named_session(&self, id: String, name: String, now: Timestamp) -> (r: Session)
        ensures
            r.id == id,
            r.name == Some(name),
            r.model_id == self.active_model_id,
            r.created_at == now,
            r.updated_at == now,
            !r.ephemeral,
    {
        let model_id = match &self.active_model_id {
            Some(m) => Some(m.clone()),
            None => None,
        };
        Session { id, name: Some(name), model_id, created_at: now, updated_at: now, ephemeral: false }
    }

    /// A new ephemeral session with id `id`, created `now`, for the active
    /// model: the session the program starts in.
    pub fn create_ephemeral_session(&self, id: String, now: Timestamp) -> (r: Session)
        ensures
            r.id == id,
            r.name is None,
            r.model_id == self.active_model_id,
            r.created_at == now,
            r.updated_at == now,
            r.ephemeral,
    {
        let model_id = match &self.active_model_id {
            Some(m) => Some(m.clone()),
            None => None,
        };
        Session { id, name: None, model_id, created_at: now, updated_at: now, ephemeral: true }
    }

    /// Opens session `session_id` with its stored messages (in order): they
    /// become the conversation and the display, and new messages are stored
    /// after them.
    pub fn switch_to_session(&mut self, session_id: String, stored: Vec<StoredMessage>)
        ensures
            final(self).current_session_id == Some(session_id),
            final(self).session_messages@.map_values(|m: Message| message_view(m)) == stored@.map_values(
                |m: StoredMessage| (m.role@, m.content@),
            ),
            final(self).message_count == stored@.len(),
            final(self).ui.chat_lines@.map_values(|l: ChatLine| (l.role@, l.content@)) == stored@.map_values(
                |m: StoredMessage| (m.role@, m.content@),
            ),
            final(self).ui.pending_shell_confirm == old(self).ui.pending_shell_confirm,
            final(self).ui.response_complete == old(self).ui.response_complete,
            final(self).ui.shells_pending == old(self).ui.shells_pending,
            final(self).active_model_id == old(self).active_model_id,
            final(self).active_model_provider == old(self).active_model_provider,
    {
        self.current_session_id = Some(session_id);
        let mut messages: Vec<Message> = Vec::new();
        let mut lines: Vec<ChatLine> = Vec::new();
        let mut i: usize = 0;
        while i < stored.len()
            invariant
                i <= stored@.len(),
                messages@.map_values(|m: Message| message_view(m)) == stored@.take(i as int).map_values(
                    |m: StoredMessage| (m.role@, m.content@),
                ),
                lines@.map_values(|l: ChatLine| (l.role@, l.content@)) == stored@.take(i as int).map_values(
                    |m: StoredMessage| (m.role@, m.content@),
                ),
            decreases stored.len() - i,
        {
            let m = &stored[i];
            let ghost pm = messages@;
            let ghost pl = lines@;
            let msg = Message { role: m.role.clone(), content: m.content.clone() };
            let line = ChatLine { role: m.role.clone(), content: m.content.clone() };
            messages.push(msg);
            lines.push(line);
            proof {
                assert(stored@.take(i + 1) =~= stored@.take(i as int).push(stored@[i as int]));
                assert(messages@ == pm.push(msg));
                assert(lines@ == pl.push(line));
                assert(messages@.map_values(|m: Message| message_view(m)) =~= pm.map_values(|m: Message| message_view(m)).push(message_view(msg)));
                assert(lines@.map_values(|l: ChatLine| (l.role@, l.content@)) =~= pl.map_values(|l: ChatLine| (l.role@, l.content@)).push((line.role@, line.content@)));
                assert(stored@.take(i + 1).map_values(|m: StoredMessage| (m.role@, m.content@)) =~= stored@.take(i as int).map_values(|m: StoredMessage| (m.role@, m.content@)).push((stored@[i as int].role@, stored@[i as int].content@)));
                assert(messages@.map_values(|m: Message| message_view(m)) =~= stored@.take(i + 1).map_values(
                    |m: StoredMessage| (m.role@, m.content@),
                ));
                assert(lines@.map_values(|l: ChatLine| (l.role@, l.content@)) =~= stored@.take(i + 1).map_values(
                    |m: StoredMessage| (m.role@, m.content@),
                ));
            }
            i = i + 1;
        }
        assert(stored@.take(i as int) =~= stored@);
        self.session_messages = messages;
        self.message_count = stored.len() as u64;
        self.ui.chat_lines = lines;
    }

    /// `/forget`: the current session's history is wiped from memory (the
    /// conversation and the chat shown) and the next stored message starts
    /// again at position 0; the session itself stays current. Gives the
    /// session whose stored messages are to be deleted.
    pub fn forget(&mut self) -> (r: Option<String>)
        ensures
            r == old(self).current_session_id,
            final(self).current_session_id == old(self).current_session_id,
            final(self).session_messages@.len() == 0,
            final(self).ui.chat_lines@.len() == 0,
            final(self).message_count == 0,
            final(self).ui.pending_shell_confirm == old(self).ui.pending_shell_confirm,
            final(self).ui.response_complete == old(self).ui.response_complete,
            final(self).ui.shells_pending == old(self).ui.shells_pending,
            final(self).active_model_id == old(self).active_model_id,
            final(self).active_model_provider == old(self).active_model_provider,
            final(self).is_advertising == old(self).is_advertising,
            final(self).discovered_agents == old(self).discovered_agents,
            final(self).agent_name == old(self).agent_name,
            final(self).yolo == old(self).yolo,
    {
        self.session_messages = Vec::new();
        self.ui.chat_lines = Vec::new();
        self.message_count = 0;
        match &self.current_session_id {
            Some(id) => Some(id.clone()),
            None => None,
        }
    }

    /// The name of the active model, or `no model`.
    pub fn current_model_name(&self) -> (r: String)
        ensures
            r@ == match self.active_model_id {
                Some(m) => m@,
                None => "no model"@,
            },
    {
        match &self.active_model_id {
            Some(m) => m.clone(),
            None => String::from_str("no model"),
        }
    }

    /// Makes `model_id` of `provider` the active model.
    pub fn set_active_model(&mut self, model_id: &str, provider: &str)
        ensures
            final(self).active_model_id matches Some(m) && m@ == model_id@,
            final(self).active_model_provider matches Some(p) && p@ == provider@,
            final(self).current_session_id == old(self).current_session_id,
            final(self).message_count == old(self).message_count,
            final(self).is_advertising == old(self).is_advertising,
    {
        self.active_model_id = Some(String::from_str(model_id));
        self.active_model_provider = Some(String::from_str(provider));
    }

    /// The agents now seen on the network.
    pub fn refresh_discovered_agents(&mut self, agents: Vec<DiscoveredAgent>)
        ensures
            final(self).discovered_agents == agents,
            final(self).current_session_id == old(self).current_session_id,
            final(self).is_advertising == old(self).is_advertising,
    {
        self.discovered_agents = agents;
    }

    /// The session discarded on `/bye`: the current one, if it is ephemeral
    /// (a named session is kept). `stored` is the stored record of the current session.
    pub fn handle_bye(&self, stored: Option<Session>) -> (r: Option<String>)
        ensures
            r == match (self.current_session_id, stored) {
                (Some(id), Some(s)) => if s.ephemeral {
                    Some(id)
                } else {
                    None
                },
                _ => None,
            },
    {
        match (&self.current_session_id, stored) {
            (Some(id), Some(s)) => if s.ephemeral {
                Some(id.clone())
            } else {
                None
            },
            _ => None,
        }
    }

    /// The session discarded on Ctrl+C: the current one, which is treated as
    /// ephemeral whether it was named or not.
    pub fn handle_ctrl_c(&self) -> (r: Option<String>)
        ensures
            r == self.current_session_id,
    {
        match &self.current_session_id {
            Some(id) => Some(id.clone()),
            None => None,
        }
    }

    /// The session discarded on `/quit`: the current one, named or not.
    pub fn handle_quit(&self) -> (r: Option<String>)
        ensures
            r == self.current_session_id,
    {
        match &self.current_session_id {
            Some(id) => Some(id.clone()),
            None => None,
        }
    }
}

/// The provider a request uses: the active model and provider, with the key
/// and endpoint stored for the model. No model chosen, or no key for a
/// provider that needs one (all but `ollama` and `claude_code`), is an error.
pub open spec fn completion_plan_spec(
    model_id: Option<Seq<char>>,
    provider: Option<Seq<char>>,
    api_key: Option<Seq<char>>,
    endpoint: Option<Seq<char>>,
) -> Result<(int, Seq<char>, Seq<char>, Seq<char>, Seq<char>), Seq<char>> {
    match (model_id, provider) {
        (Some(m), Some(p)) => if p != "ollama"@ && p != "claude_code"@ && api_key is None {
            Err("No API key for "@ + m + ". Use /model to configure it."@)
        } else {
            build_provider_spec(m, p, api_key, endpoint)
        },
        _ => Err("No model configured. Use /model to select one."@),
    }
}

/// A request never asks for a key its provider does not use: with a model
/// and a provider chosen, `ollama` and `claude_code` always get a plan, with
/// or without a stored key, and it is exactly the provider built for that
/// model; so does any provider with a stored key.
pub proof fn lemma_keyless_providers_always_planned(
    m: Seq<char>,
    p: Seq<char>,
    key: Option<Seq<char>>,
    endpoint: Option<Seq<char>>,
)
    ensures
        (p == "ollama"@ || p == "claude_code"@) ==> completion_plan_spec(Some(m), Some(p), key, endpoint) is Ok,
        (p == "ollama"@ || p == "claude_code"@ || key is Some) ==> completion_plan_spec(Some(m), Some(p), key, endpoint)
            == build_provider_spec(m, p, key, endpoint),
{
}

/// The stored API key of a model, if any.
pub open spec fn stored_key(stored: Option<ModelConfig>) -> Option<Seq<char>> {
    match stored {
        Some(c) => opt_view(c.api_key),
        None => None,
    }
}

/// The stored endpoint of a model, if any.
pub open spec fn stored_endpoint(stored: Option<ModelConfig>) -> Option<Seq<char>> {
    match stored {
        Some(c) => opt_view(c.endpoint),
        None => None,
    }
}

/// Chooses the provider for a request; `stored` is the stored settings of the
/// active model, if any.
pub fn completion_plan(model_id: Option<String>, provider: Option<String>, stored: Option<ModelConfig>) -> (r: Result<ProviderConfig, String>)
    ensures
        match (r, completion_plan_spec(opt_view(model_id), opt_view(provider), stored_key(stored), stored_endpoint(stored))) {
            (Ok(p), Ok(v)) => provider_view(p) == v,
            (Err(e), Err(m)) => e@ == m,
            _ => false,
        },
        match (model_id, provider) {
            (Some(m), Some(p)) => (p@ == "ollama"@ || p@ == "claude_code"@) ==> (r matches Ok(cfg) && Ok::<
                (int, Seq<char>, Seq<char>, Seq<char>, Seq<char>),
                Seq<char>,
            >(provider_view(cfg)) == build_provider_spec(m@, p@, stored_key(stored), stored_endpoint(stored))),
            _ => r is Err,
        },
{
    proof {
        if model_id is Some && provider is Some {
            lemma_keyless_providers_always_planned(
                model_id->0@,
                provider->0@,
                stored_key(stored),
                stored_endpoint(stored),
            );
        }
    }
    let (mid, prov) = match (model_id, provider) {
        (Some(m), Some(p)) => (m, p),
        _ => {
            return Err(String::from_str("No model configured. Use /model to select one."));
        },
    };
    let (api_key, endpoint) = match stored {
        Some(c) => (c.api_key, c.endpoint),
        None => (None, None),
    };
    if !str_eq(prov.as_str(), "ollama") && !str_eq(prov.as_str(), "claude_code") && api_key.is_none() {
        return Err(concat3("No API key for ", mid.as_str(), ". Use /model to configure it."));
    }
    let key_ref: Option<&str> = match &api_key {
        Some(k) => Some(k.as_str()),
        None => None,
    };
    let endpoint_ref: Option<&str> = match &endpoint {
        Some(e) => Some(e.as_str()),
        None => None,
    };
    assert(opt_str_view(key_ref) == opt_view(api_key));
    assert(opt_str_view(endpoint_ref) == opt_view(endpoint));
    build_provider(mid.as_str(), prov.as_str(), key_ref, endpoint_ref)
}

/// The description of the built-in shell tool.
pub open spec fn shell_tool_description() -> Seq<char> {
    "Run a shell command on the user's local machine. The user will be asked to confirm unless yolo mode is active. Always provide a reason."@
}

/// The tool offered for an MCP tool: its name, description (empty if none)
/// and input schema.
pub open spec fn tool_of(t: McpTool) -> (Seq<char>, Seq<char>, serde_json::Value) {
    (t.name@, match t.description {
        Some(d) => d@,
        None => Seq::empty(),
    }, t.input_schema)
}

/// A tool as characters: name, description, schema.
pub open spec fn tool_view(t: Tool) -> (Seq<char>, Seq<char>, serde_json::Value) {
    (t.name@, t.description@, t.input_schema)
}

/// The tools offered to the model: every tool of the connected MCP servers,
/// then the built-in `run_shell_command` with input schema `shell_schema`.
pub fn offered_tools(mcp_tools: Vec<(String, McpTool)>, shell_schema: serde_json::Value) -> (r: Vec<Tool>)
    ensures
        r@.map_values(|t: Tool| tool_view(t)) == mcp_tools@.map_values(|p: (String, McpTool)| tool_of(p.1)).push(
            ("run_shell_command"@, shell_tool_description(), shell_schema),
        ),
{
    let mut r: Vec<Tool> = Vec::new();
    let mut i: usize = 0;
    while i < mcp_tools.len()
        invariant
            i <= mcp_tools@.len(),
            r@.map_values(|t: Tool| tool_view(t)) == mcp_tools@.take(i as int).map_values(|p: (String, McpTool)| tool_of(p.1)),
        decreases mcp_tools.len() - i,
    {
        let t = &mcp_tools[i].1;
        let description = match &t.description {
            Some(d) => d.clone(),
            None => String::new(),
        };
        let tool = Tool { name: t.name.clone(), description, input_schema: t.input_schema.clone() };
        let ghost prev = r@;
        r.push(tool);
        proof {
            assert(r@ == prev.push(tool));
            assert(r@.map_values(|t: Tool| tool_view(t)) =~= prev.map_values(|t: Tool| tool_view(t)).push(tool_view(tool)));
            assert(mcp_tools@.take(i + 1) =~= mcp_tools@.take(i as int).push(mcp_tools@[i as int]));
            assert(mcp_tools@.take(i + 1).map_values(|p: (String, McpTool)| tool_of(p.1)) =~= mcp_tools@.take(i as int).map_values(
                |p: (String, McpTool)| tool_of(p.1),
            ).push(tool_of(mcp_tools@[i as int].1)));
        }
        i = i + 1;
    }
    assert(mcp_tools@.take(i as int) =~= mcp_tools@);
    let ghost prev = r@;
    let shell = Tool {
        name: String::from_str("run_shell_command"),
        description: String::from_str(
            "Run a shell command on the user's local machine. The user will be asked to confirm unless yolo mode is active. Always provide a reason.",
        ),
        input_schema: shell_schema,
    };
    r.push(shell);
    assert(r@ == prev.push(shell));
    assert(r@.map_values(|t: Tool| tool_view(t)) =~= prev.map_values(|t: Tool| tool_view(t)).push(tool_view(shell)));
    r
}

/// One thing to do with the model's answer.
#[derive(Debug, Clone)]
pub enum ReplyStep {
    /// Run this shell command now (confirmation is off).
    RunShell(String),
    /// Ask the user to confirm this shell command, giving the model's reason.
    ConfirmShell { command: String, reason: String },
    /// Call this MCP tool with this input.
    CallTool { name: String, input: serde_json::Value },
    /// Send this tool call to the remote agent of the current session.
    Relay { name: String, input: serde_json::Value },
    /// Show and keep this text.
    Say(String),
    /// Report this status.
    Status(String),
}

/// A step as characters.
pub enum ReplyStepView {
    RunShell(Seq<char>),
    ConfirmShell(Seq<char>, Seq<char>),
    CallTool(Seq<char>, serde_json::Value),
    Relay(Seq<char>, serde_json::Value),
    Say(Seq<char>),
    Status(Seq<char>),
}

impl View for ReplyStep {
    type V = ReplyStepView;

    open spec fn view(&self) -> ReplyStepView {
        match self {
            ReplyStep::RunShell(c) => ReplyStepView::RunShell(c@),
            ReplyStep::ConfirmShell { command, reason } => ReplyStepView::ConfirmShell(command@, reason@),
            ReplyStep::CallTool { name, input } => ReplyStepView::CallTool(name@, *input),
            ReplyStep::Relay { name, input } => ReplyStepView::Relay(name@, *input),
            ReplyStep::Say(t) => ReplyStepView::Say(t@),
            ReplyStep::Status(t) => ReplyStepView::Status(t@),
        }
    }
}

/// An optional text, empty when absent.
pub open spec fn or_empty(o: Option<String>) -> Seq<char> {
    match o {
        Some(s) => s@,
        None => Seq::empty(),
    }
}

/// The step for one tool call. In a session connected to another agent
/// (`relay`), every tool call, the built-in one included, is sent to that
/// agent. Otherwise the built-in `run_shell_command` runs its `command` (empty
/// if missing) at once when confirmation is off, else asks the user with its
/// `reason`, and any other tool is called through MCP. `args` are the call's
/// `command` and `reason` strings where present.
pub open spec fn tool_step(call: ToolCall, args: (Option<String>, Option<String>), yolo: bool, relay: bool) -> ReplyStepView {
    if relay {
        ReplyStepView::Relay(call.name@, call.input)
    } else if call.name@ == "run_shell_command"@ {
        if yolo {
            ReplyStepView::RunShell(or_empty(args.0))
        } else {
            ReplyStepView::ConfirmShell(or_empty(args.0), or_empty(args.1))
        }
    } else {
        ReplyStepView::CallTool(call.name@, call.input)
    }
}

/// The steps for an answer: one per tool call, in order; then its text, when
/// not empty; then the status `Ready`.
pub open spec fn reply_steps_spec(
    calls: Seq<ToolCall>,
    args: Seq<(Option<String>, Option<String>)>,
    content: Seq<char>,
    yolo: bool,
    relay: bool,
) -> Seq<ReplyStepView> {
    Seq::new(calls.len(), |i: int| tool_step(calls[i], args[i], yolo, relay)) + (if content.len() > 0 {
        seq![ReplyStepView::Say(content)]
    } else {
        Seq::empty()
    }) + seq![ReplyStepView::Status("Ready"@)]
}

/// What steps answering a reply must be, told call by call: one step per
/// tool call, in order, then the text when it is not empty, then `Ready`. In
/// a session connected to another agent a call is relayed as it is. Locally,
/// a `run_shell_command` call asks for confirmation (or, in `[yolo]` mode,
/// runs at once) with exactly the call's `command`, and the confirmation
/// shows exactly the call's `reason`; either is empty only when the call has
/// none. Any other call goes to MCP with its name and input.
pub open spec fn steps_answer_calls(
    steps: Seq<ReplyStepView>,
    calls: Seq<ToolCall>,
    args: Seq<(Option<String>, Option<String>)>,
    content: Seq<char>,
    yolo: bool,
    relay: bool,
) -> bool {
    let n = calls.len();
    &&& steps.len() == n + (if content.len() > 0 { 1int } else { 0int }) + 1
    &&& steps.last() == ReplyStepView::Status("Ready"@)
    &&& content.len() > 0 ==> steps[n as int] == ReplyStepView::Say(content)
    &&& forall|k: int| 0 <= k < n ==> {
        let c = #[trigger] calls[k];
        let a = args[k];
        let s = steps[k];
        if relay {
            s == ReplyStepView::Relay(c.name@, c.input)
        } else if c.name@ == "run_shell_command"@ {
            let command_ok = |cmd: Seq<char>|
                (a.0 matches Some(x) ==> cmd == x@) && (a.0 is None ==> cmd.len() == 0);
            if yolo {
                s matches ReplyStepView::RunShell(cmd) && command_ok(cmd)
            } else {
                &&& s matches ReplyStepView::ConfirmShell(cmd, reason)
                &&& command_ok(cmd)
                &&& a.1 matches Some(x) ==> reason == x@
                &&& a.1 is None ==> reason.len() == 0
            }
        } else {
            s == ReplyStepView::CallTool(c.name@, c.input)
        }
    }
}

/// The steps for a reply answer its calls as `steps_answer_calls` tells:
/// nothing the model gave (a command, its reason, a call's input) is changed
/// or dropped, and no step is added or lost.
pub proof fn lemma_steps_answer_calls(
    calls: Seq<ToolCall>,
    args: Seq<(Option<String>, Option<String>)>,
    content: Seq<char>,
    yolo: bool,
    relay: bool,
)
    requires
        args.len() == calls.len(),
    ensures
        steps_answer_calls(reply_steps_spec(calls, args, content, yolo, relay), calls, args, content, yolo, relay),
{
    let steps = reply_steps_spec(calls, args, content, yolo, relay);
    let n = calls.len();
    assert forall|k: int| 0 <= k < n implies steps[k] == tool_step(calls[k], args[k], yolo, relay) by {}
}

/// What to do with the model's answer. `shell_args[i]` holds the `command`
/// and `reason` strings of tool call `i` where its input has them; `relay`
/// tells whether the current session is connected to another agent.
pub fn reply_steps(response: LlmResponse, shell_args: Vec<(Option<String>, Option<String>)>, yolo: bool, relay: bool) -> (r: Vec<ReplyStep>)
    requires
        shell_args@.len() == response.tool_calls@.len(),
    ensures
        r@.map_values(|s: ReplyStep| s@) == reply_steps_spec(response.tool_calls@, shell_args@, response.content@, yolo, relay),
        steps_answer_calls(
            r@.map_values(|s: ReplyStep| s@),
            response.tool_calls@,
            shell_args@,
            response.content@,
            yolo,
            relay,
        ),
{
    proof {
        lemma_steps_answer_calls(response.tool_calls@, shell_args@, response.content@, yolo, relay);
    }
    let ghost calls = response.tool_calls@;
    let ghost args = shell_args@;
    let LlmResponse { content, tool_calls } = response;
    let mut steps: Vec<ReplyStep> = Vec::new();
    let mut calls_rest = tool_calls;
    let mut args_rest = shell_args;
    let mut i: usize = 0;
    let n = calls_rest.len();
    assert(calls.skip(0) =~= calls);
    assert(args.skip(0) =~= args);
    while calls_rest.len() > 0
        invariant
            i + calls_rest@.len() == calls.len(),
            calls.len() == args.len(),
            calls.len() == n,
            calls_rest@ == calls.skip(i as int),
            args_rest@ == args.skip(i as int),
            steps@.map_values(|s: ReplyStep| s@) == Seq::new(i as nat, |k: int| tool_step(calls[k], args[k], yolo, relay)),
        decreases calls_rest.len(),
    {
        let call = calls_rest.remove(0);
        let a = args_rest.remove(0);
        proof {
            assert(calls_rest@ =~= calls.skip(i + 1));
            assert(args_rest@ =~= args.skip(i + 1));
            assert(call == calls[i as int]);
            assert(a == args[i as int]);
            reveal_strlit("run_shell_command");
        }
        let ToolCall { id, name, input } = call;
        let step = if relay {
            ReplyStep::Relay { name, input }
        } else if str_eq(name.as_str(), "run_shell_command") {
            let (command, reason) = a;
            let command = match command {
                Some(c) => c,
                None => String::new(),
            };
            if yolo {
                ReplyStep::RunShell(command)
            } else {
                let reason = match reason {
                    Some(r) => r,
                    None => String::new(),
                };
                ReplyStep::ConfirmShell { command, reason }
            }
        } else {
            ReplyStep::CallTool { name, input }
        };
        let ghost prev = steps@;
        steps.push(step);
        proof {
            assert(steps@ == prev.push(step));
            assert(step@ == tool_step(calls[i as int], args[i as int], yolo, relay));
            assert(steps@.map_values(|s: ReplyStep| s@) =~= prev.map_values(|s: ReplyStep| s@).push(step@));
            assert(steps@.map_values(|s: ReplyStep| s@) =~= Seq::new((i + 1) as nat, |k: int| tool_step(calls[k], args[k], yolo, relay)));
        }
        i = i + 1;
    }
    let ghost head = steps@.map_values(|s: ReplyStep| s@);
    assert(head =~= Seq::new(calls.len(), |k: int| tool_step(calls[k], args[k], yolo, relay)));
    if content.as_str().unicode_len() > 0 {
        let ghost c = content@;
        let say = ReplyStep::Say(content);
        steps.push(say);
        assert(steps@.map_values(|s: ReplyStep| s@) =~= head + seq![ReplyStepView::Say(c)]);
    } else {
        assert(steps@.map_values(|s: ReplyStep| s@) =~= head + Seq::<ReplyStepView>::empty());
    }
    let ghost mid = steps@.map_values(|s: ReplyStep| s@);
    let ready = ReplyStep::Status(String::from_str("Ready"));
    steps.push(ready);
    assert(steps@.map_values(|s: ReplyStep| s@) =~= mid + seq![ReplyStepView::Status("Ready"@)]);
    steps
}

/// The text shown for an MCP tool's result: `[Tool: {name}]` then the result.
pub fn tool_result_text(name: &str, rendered: &str) -> (r: String)
    ensures
        r@ == "[Tool: "@ + name@ + "]\n"@ + rendered@,
{
    let mut r = concat3("[Tool: ", name, "]\n");
    r.append(rendered);
    r
}

/// The text shown when an MCP tool call fails: `Tool {name} failed: {error}`.
pub fn tool_failure_text(name: &str, error: &str) -> (r: String)
    ensures
        r@ == "Tool "@ + name@ + " failed: "@ + error@,
{
    let mut r = concat3("Tool ", name, " failed: ");
    r.append(error);
    r
}

/// Whether a stored model (the last one stored under `id`) has an API key.
pub open spec fn stored_key_flag(stored: Seq<ModelConfig>, id: Seq<char>) -> Option<bool>
    decreases stored.len(),
{
    if stored.len() == 0 {
        None
    } else if stored.last().id@ == id {
        Some(stored.last().api_key is Some)
    } else {
        stored_key_flag(stored.drop_last(), id)
    }
}

/// Whether a listed model is ready: Ollama and `claude_code` models as by
/// default; others when a key is stored for them.
pub open spec fn listed_ready(id: Seq<char>, provider: Seq<char>, by_default: bool, stored: Seq<ModelConfig>) -> bool {
    if provider == "ollama"@ || provider == "claude_code"@ {
        by_default
    } else {
        stored_key_flag(stored, id) == Some(true)
    }
}

/// The model list shown by `/model`: the known models, each marked ready or
/// not from the stored settings.
pub open spec fn model_list_spec(stored: Seq<ModelConfig>, claude_code_available: bool) -> Seq<(Seq<char>, Seq<char>, Seq<char>, bool)> {
    known_models_spec(claude_code_available).map_values(|e: (Seq<char>, Seq<char>, Seq<char>, bool)|
        (e.0, e.1, e.2, listed_ready(e.0, e.1, e.3, stored)))
}

fn key_flag(stored: &Vec<ModelConfig>, id: &str) -> (r: Option<bool>)
    ensures
        r == stored_key_flag(stored@, id@),
{
    let mut k: usize = stored.len();
    assert(stored@.take(k as int) =~= stored@);
    while k > 0
        invariant
            k <= stored@.len(),
            stored_key_flag(stored@, id@) == stored_key_flag(stored@.take(k as int), id@),
        decreases k,
    {
        proof {
            assert(stored@.take(k as int).drop_last() =~= stored@.take(k - 1));
            assert(stored@.take(k as int).last() == stored@[k - 1]);
        }
        if str_eq(stored[k - 1].id.as_str(), id) {
            return Some(stored[k - 1].api_key.is_some());
        }
        k = k - 1;
    }
    None
}

impl App {
    /// The models offered by `/model`, marked ready or not. `stored` is the
    /// stored model settings; `claude_code_available` whether the
    /// code-assistant command line is installed.
    pub fn get_model_list(stored: &Vec<ModelConfig>, claude_code_available: bool) -> (r: Vec<ModelInfo>)
        ensures
            r@.map_values(|m: ModelInfo| model_info_view(m)) == model_list_spec(stored@, claude_code_available),
    {
        let known = all_known_models(claude_code_available);
        let ghost kv = known@.map_values(|m: ModelInfo| model_info_view(m));
        let mut r: Vec<ModelInfo> = Vec::new();
        let mut i: usize = 0;
        while i < known.len()
            invariant
                i <= known@.len(),
                kv == known@.map_values(|m: ModelInfo| model_info_view(m)),
                kv == known_models_spec(claude_code_available),
                r@.map_values(|m: ModelInfo| model_info_view(m)) == kv.take(i as int).map_values(
                    |e: (Seq<char>, Seq<char>, Seq<char>, bool)| (e.0, e.1, e.2, listed_ready(e.0, e.1, e.3, stored@)),
                ),
            decreases known.len() - i,
        {
            let m = &known[i];
            let ready = if str_eq(m.provider.as_str(), "ollama") || str_eq(m.provider.as_str(), "claude_code") {
                m.configured
            } else {
                match key_flag(stored, m.id.as_str()) {
                    Some(has_key) => has_key,
                    None => false,
                }
            };
            let item = ModelInfo {
                id: m.id.clone(),
                provider: m.provider.clone(),
                display_name: m.display_name.clone(),
                configured: ready,
            };
            let ghost prev = r@;
            r.push(item);
            proof {
                assert(r@ == prev.push(item));
                assert(kv[i as int] == model_info_view(known@[i as int]));
                assert(r@.map_values(|m: ModelInfo| model_info_view(m)) =~= prev.map_values(|m: ModelInfo| model_info_view(m)).push(
                    model_info_view(item),
                ));
                assert(kv.take(i + 1) =~= kv.take(i as int).push(kv[i as int]));
                assert(kv.take(i + 1).map_values(
                    |e: (Seq<char>, Seq<char>, Seq<char>, bool)| (e.0, e.1, e.2, listed_ready(e.0, e.1, e.3, stored@)),
                ) =~= kv.take(i as int).map_values(
                    |e: (Seq<char>, Seq<char>, Seq<char>, bool)| (e.0, e.1, e.2, listed_ready(e.0, e.1, e.3, stored@)),
                ).push((kv[i as int].0, kv[i as int].1, kv[i as int].2, listed_ready(kv[i as int].0, kv[i as int].1, kv[i as int].3, stored@))));
            }
            i = i + 1;
        }
        assert(kv.take(i as int) =~= kv);
        r
    }

    /// The settings stored when the user gives `key` for `model_id`: provider
    /// and display name from the known models (empty provider and the id as
    /// name for an unknown model), no endpoint.
    pub fn save_api_key(model_id: &str, key: &str) -> (r: ModelConfig)
        ensures
            r.id@ == model_id@,
            r.api_key matches Some(k) && k@ == key@,
            r.endpoint is None,
            match known_index(model_id@) {
                Some(i) => r.provider@ == known_model_table()[i].1 && r.display_name@ == known_model_table()[i].2,
                None => r.provider@.len() == 0 && r.display_name@ == model_id@,
            },
    {
        let known = all_known_models(false);
        let ghost kv = known@.map_values(|m: ModelInfo| model_info_view(m));
        assert(kv == known_models_spec(false));
        proof {
            crate::llm::lemma_default_readiness(false);
        }
        let mut i: usize = 0;
        while i < known.len()
            invariant
                i <= known@.len(),
                known@.len() == known_model_table().len(),
                forall|j: int| 0 <= j < known_model_table().len() ==> #[trigger] known_models_spec(false)[j].0 == known_model_table()[j].0
                    && known_models_spec(false)[j].1 == known_model_table()[j].1
                    && known_models_spec(false)[j].2 == known_model_table()[j].2,
                kv == known@.map_values(|m: ModelInfo| model_info_view(m)),
                kv == known_models_spec(false),
                forall|j: int| 0 <= j < i ==> known_model_table()[j].0 != model_id@,
            decreases known.len() - i,
        {
            assert(kv[i as int] == model_info_view(known@[i as int]));
            if str_eq(known[i].id.as_str(), model_id) {
                proof {
                    lemma_known_index(model_id@, i as int);
                }
                return ModelConfig {
                    id: String::from_str(model_id),
                    provider: known[i].provider.clone(),
                    display_name: known[i].display_name.clone(),
                    api_key: Some(String::from_str(key)),
                    endpoint: None,
                };
            }
            i = i + 1;
        }
        proof {
            lemma_known_index_none(model_id@);
        }
        ModelConfig {
            id: String::from_str(model_id),
            provider: String::new(),
            display_name: String::from_str(model_id),
            api_key: Some(String::from_str(key)),
            endpoint: None,
        }
    }

    /// A new session with the remote agent `name` at `host`/`ip`:`port`, with
    /// id `id`, created `now`; the remote model is not yet known.
    pub fn create_agent_session(id: String, name: String, host: String, ip: String, port: u16, now: Timestamp) -> (r: AgentSession)
        ensures
            r.id == id,
            r.remote_name == name,
            r.remote_host == host,
            r.remote_ip == ip,
            r.remote_port == port,
            r.remote_model is None,
            r.created_at == now,
    {
        AgentSession { id, remote_name: name, remote_host: host, remote_ip: ip, remote_port: port, remote_model: None, created_at: now }
    }
}

proof fn lemma_no_stored_key(stored: Seq<ModelConfig>, id: Seq<char>)
    requires
        forall|j: int| 0 <= j < stored.len() ==> stored[j].id@ != id,
    ensures
        stored_key_flag(stored, id) is None,
    decreases stored.len(),
{
    if stored.len() > 0 {
        lemma_no_stored_key(stored.drop_last(), id);
    }
}

/// A model whose provider needs a key is listed as ready once a key is
/// stored for it (as `/model` does when the user enters one), whatever was
/// stored before.
pub proof fn lemma_saved_key_makes_ready(stored: Seq<ModelConfig>, cfg: ModelConfig, claude_code_available: bool, i: int)
    requires
        0 <= i < known_model_table().len(),
        known_model_table()[i].1 != "ollama"@,
        known_model_table()[i].1 != "claude_code"@,
        cfg.id@ == known_model_table()[i].0,
        cfg.api_key is Some,
    ensures
        model_list_spec(stored.push(cfg), claude_code_available)[i].3,
{
    crate::llm::lemma_default_readiness(claude_code_available);
    assert(stored.push(cfg).drop_last() =~= stored);
}

/// A model whose provider needs a key is not ready when no settings are
/// stored for it (as after its key is removed).
pub proof fn lemma_removed_key_not_ready(stored: Seq<ModelConfig>, claude_code_available: bool, i: int)
    requires
        0 <= i < known_model_table().len(),
        known_model_table()[i].1 != "ollama"@,
        known_model_table()[i].1 != "claude_code"@,
        forall|j: int| 0 <= j < stored.len() ==> stored[j].id@ != known_model_table()[i].0,
    ensures
        !model_list_spec(stored, claude_code_available)[i].3,
{
    crate::llm::lemma_default_readiness(claude_code_available);
    lemma_no_stored_key(stored, known_model_table()[i].0);
}

/// Stored keys never change whether an Ollama or `claude_code` model is ready.
pub proof fn lemma_keyless_ignore_keys(stored: Seq<ModelConfig>, claude_code_available: bool, i: int)
    requires
        0 <= i < known_model_table().len(),
        known_model_table()[i].1 == "ollama"@ || known_model_table()[i].1 == "claude_code"@,
    ensures
        model_list_spec(stored, claude_code_available)[i].3 == known_models_spec(claude_code_available)[i].3,
        model_list_spec(stored, claude_code_available)[i].3 == configured_by_default(known_model_table()[i].1, claude_code_available),
{
    crate::llm::lemma_default_readiness(claude_code_available);
}

/// The position of a known model's id in the table, if it is known.
pub open spec fn known_index(id: Seq<char>) -> Option<int> {
    if exists|i: int| 0 <= i < known_model_table().len() && known_model_table()[i].0 == id {
        Some(choose|i: int| 0 <= i < known_model_table().len() && known_model_table()[i].0 == id)
    } else {
        None
    }
}

proof fn lemma_known_ids_distinct()
    ensures
        forall|i: int, j: int| 0 <= i < j < known_model_table().len() ==> known_model_table()[i].0 != known_model_table()[j].0,
{
    let t = known_model_table();
    assert("opus"@.len() == 4) by { reveal_strlit("opus"); }
    assert("sonnet"@.len() == 6) by { reveal_strlit("sonnet"); }
    assert("haiku"@.len() == 5) by { reveal_strlit("haiku"); }
    assert("grok-4"@.len() == 6) by { reveal_strlit("grok-4"); }
    assert("grok-3"@.len() == 6) by { reveal_strlit("grok-3"); }
    assert("grok-3-mini"@.len() == 11) by { reveal_strlit("grok-3-mini"); }
    assert("llama3.2"@.len() == 8) by { reveal_strlit("llama3.2"); }
    assert("mistral"@.len() == 7) by { reveal_strlit("mistral"); }
    assert("phi4"@.len() == 4) by { reveal_strlit("phi4"); }
    assert("opus"@ != "phi4"@) by {
        reveal_strlit("opus");
        reveal_strlit("phi4");
        assert("opus"@[0] != "phi4"@[0]);
    }
    assert("sonnet"@ != "grok-4"@ && "sonnet"@ != "grok-3"@) by {
        reveal_strlit("sonnet");
        reveal_strlit("grok-4");
        reveal_strlit("grok-3");
        assert("sonnet"@[0] != "grok-4"@[0]);
        assert("sonnet"@[0] != "grok-3"@[0]);
    }
    assert("grok-4"@ != "grok-3"@) by {
        reveal_strlit("grok-4");
        reveal_strlit("grok-3");
        assert("grok-4"@[5] != "grok-3"@[5]);
    }
}

proof fn lemma_known_index(id: Seq<char>, i: int)
    requires
        0 <= i < known_model_table().len(),
        known_model_table()[i].0 == id,
    ensures
        known_index(id) == Some(i),
{
    lemma_known_ids_distinct();
    let c = choose|k: int| 0 <= k < known_model_table().len() && known_model_table()[k].0 == id;
    if c != i {
        if c < i {
        } else {
        }
    }
}

proof fn lemma_known_index_none(id: Seq<char>)
    requires
        forall|j: int| 0 <= j < known_model_table().len() ==> known_model_table()[j].0 != id,
    ensures
        known_index(id) is None,
{
}

/// What `/marco` does next.
#[derive(Debug, Clone, PartialEq, Eq)]
pub enum MarcoStep {
    /// Stop advertising.
    Stop,
    /// Start advertising this agent on `port`, with its active model.
    Start { agent_name: String, port: u16, model: Option<String> },
    /// Tell the user that mDNS is not available.
    Unavailable,
    /// Nothing to do.
    Nothing,
}

/// The text `Marco: advertising ON (port {port}, model: {model})`.
pub open spec fn marco_on_text(port: u16, model: Option<Seq<char>>) -> Seq<char> {
    "Marco: advertising ON (port "@ + decimal(port as nat) + ", model: "@ + match model {
        Some(m) => m,
        None => "none"@,
    } + ")"@
}

impl App {
    /// Decides what `/marco` does: stop advertising when on (if mDNS is
    /// there), else start it on the A2A server's port (0 when there is no
    /// server), or report that mDNS is unavailable.
    pub fn handle_marco(&self, server_port: Option<u16>, mdns_available: bool) -> (r: MarcoStep)
        ensures
            self.is_advertising && mdns_available ==> r == MarcoStep::Stop,
            self.is_advertising && !mdns_available ==> r == MarcoStep::Nothing,
            !self.is_advertising && !mdns_available ==> r == MarcoStep::Unavailable,
            !self.is_advertising && mdns_available ==> (r matches MarcoStep::Start { agent_name, port, model }
                && agent_name == self.agent_name && port == match server_port {
                    Some(p) => p,
                    None => 0u16,
                } && model == self.active_model_id),
    {
        if self.is_advertising {
            if mdns_available {
                MarcoStep::Stop
            } else {
                MarcoStep::Nothing
            }
        } else {
            let port = match server_port {
                Some(p) => p,
                None => 0,
            };
            if mdns_available {
                let model = match &self.active_model_id {
                    Some(m) => Some(m.clone()),
                    None => None,
                };
                MarcoStep::Start { agent_name: self.agent_name.clone(), port, model }
            } else {
                MarcoStep::Unavailable
            }
        }
    }

    /// Records how a `/marco` step went and gives the line to show: the new
    /// state on success, `Marco error: {error}` on failure (the state is then
    /// unchanged).
    pub fn marco_finished(&mut self, step: &MarcoStep, outcome: Result<(), String>) -> (r: Option<String>)
        ensures
            match (step, outcome) {
                (MarcoStep::Stop, Ok(())) => !final(self).is_advertising && (r matches Some(t) && t@ == "Marco: advertising OFF"@),
                (MarcoStep::Start { port, model, .. }, Ok(())) => final(self).is_advertising && (r matches Some(t)
                    && t@ == marco_on_text(*port, opt_view(old(self).active_model_id))),
                (MarcoStep::Stop, Err(e)) => final(self).is_advertising == old(self).is_advertising && (r matches Some(t)
                    && t@ == "Marco error: "@ + e@),
                (MarcoStep::Start { .. }, Err(e)) => final(self).is_advertising == old(self).is_advertising && (r matches Some(t)
                    && t@ == "Marco error: "@ + e@),
                (MarcoStep::Unavailable, _) => final(self).is_advertising == old(self).is_advertising && (r matches Some(t)
                    && t@ == "mDNS not available"@),
                (MarcoStep::Nothing, _) => final(self).is_advertising == old(self).is_advertising && r is None,
            },
            final(self).active_model_id == old(self).active_model_id,
            final(self).current_session_id == old(self).current_session_id,
    {
        match step {
            MarcoStep::Stop => match outcome {
                Ok(()) => {
                    self.is_advertising = false;
                    Some(String::from_str("Marco: advertising OFF"))
                },
                Err(e) => Some(concat2("Marco error: ", e.as_str())),
            },
            MarcoStep::Start { port, .. } => match outcome {
                Ok(()) => {
                    self.is_advertising = true;
                    let mut t = String::from_str("Marco: advertising ON (port ");
                    let p = decimal_u64(*port as u64);
                    t.append(p.as_str());
                    t.append(", model: ");
                    match &self.active_model_id {
                        Some(m) => t.append(m.as_str()),
                        None => t.append("none"),
                    }
                    t.append(")");
                    Some(t)
                },
                Err(e) => Some(concat2("Marco error: ", e.as_str())),
            },
            MarcoStep::Unavailable => Some(String::from_str("mDNS not available")),
            MarcoStep::Nothing => None,
        }
    }
}

// ── Identity ─────────────────────────────────────────────────────────────────

/// The number of bytes kept of a text of `len` bytes cut at `n` bytes.
pub open spec fn cut_len(len: int, n: int) -> int {
    if len < n {
        len
    } else {
        n
    }
}

/// The first `n` bytes of `s` (all of it when shorter), as text. The cut must
/// fall between characters.
pub fn byte_prefix(s: &str, n: usize) -> (r: String)
    requires
        s.spec_bytes().len() <= usize::MAX,
        is_char_boundary(s.spec_bytes(), cut_len(s.spec_bytes().len() as int, n as int)),
    ensures
        encode_utf8(r@) == s.spec_bytes().take(cut_len(s.spec_bytes().len() as int, n as int)),
{
    let len = s.len();
    let m = if len < n {
        len
    } else {
        n
    };
    let (head, _tail) = s.split_at(m);
    let r = String::from_str(head);
    assert(head.spec_bytes() =~= s.spec_bytes().take(m as int));
    r
}

/// The text shown for an existing identity token: its first 20 bytes.
pub fn existing_identity_text(token: &str) -> (r: String)
    requires
        token.spec_bytes().len() <= usize::MAX,
        is_char_boundary(token.spec_bytes(), cut_len(token.spec_bytes().len() as int, 20)),
    ensures
        exists|p: Seq<char>| encode_utf8(p) == token.spec_bytes().take(cut_len(token.spec_bytes().len() as int, 20))
            && r@ == "Current identity token: "@ + p + "..."@,
{
    let p = byte_prefix(token, 20);
    concat3("Current identity token: ", p.as_str(), "...")
}

/// The text shown once a token is saved: its first 10 bytes.
pub fn identity_saved_text(code: &str) -> (r: String)
    requires
        code.spec_bytes().len() <= usize::MAX,
        is_char_boundary(code.spec_bytes(), cut_len(code.spec_bytes().len() as int, 10)),
    ensures
        exists|p: Seq<char>| encode_utf8(p) == code.spec_bytes().take(cut_len(code.spec_bytes().len() as int, 10))
            && r@ == "Identity token saved: "@ + p + "..."@,
{
    let p = byte_prefix(code, 10);
    concat3("Identity token saved: ", p.as_str(), "...")
}

/// The page where the device flow starts.
pub fn device_auth_url() -> (r: &'static str)
    ensures
        r@ == "https://github.com/login/device"@,
{
    "https://github.com/login/device"
}

/// The status naming the local address the OAuth provider redirects to.
pub fn oauth_redirect_status(port: u16) -> (r: String)
    ensures
        r@ == "OAuth redirect: http://127.0.0.1:"@ + decimal(port as nat) + "/callback"@,
{
    let p = decimal_u64(port as u64);
    concat3("OAuth redirect: http://127.0.0.1:", p.as_str(), "/callback")
}

/// What `char::is_alphanumeric` says of a character: whether it is Unicode
/// `Alphabetic` or `Numeric`.
pub uninterp spec fn alphanumeric(c: char) -> bool;

/// Calls `char::is_alphanumeric`; the result is `alphanumeric` of the
/// character.
#[verifier::external_body]
fn is_alphanumeric(c: char) -> (r: bool)
    ensures
        r == alphanumeric(c),
{
    c.is_alphanumeric()
}

/// Whether a character may be part of an OAuth code.
pub open spec fn code_char(c: char) -> bool {
    alphanumeric(c) || c == '-' || c == '_'
}

/// The length of the run of code characters that starts `s`.
pub open spec fn code_run(s: Seq<char>) -> int
    decreases s.len(),
{
    if s.len() == 0 || !code_char(s[0]) {
        0
    } else {
        1 + code_run(s.drop_first())
    }
}

/// The OAuth code in a redirect request: the run of code characters right
/// after the first `code=`; none when there is no `code=` or the run is empty.
pub open spec fn oauth_code_spec(request: Seq<char>) -> Option<Seq<char>> {
    match first_occurrence(request, "code="@) {
        Some(i) => {
            let rest = request.skip(i + 5);
            if code_run(rest) > 0 {
                Some(rest.take(code_run(rest)))
            } else {
                None
            }
        },
        None => None,
    }
}

proof fn lemma_code_run(s: Seq<char>, n: int)
    requires
        0 <= n <= s.len(),
        forall|k: int| 0 <= k < n ==> code_char(s[k]),
        n < s.len() ==> !code_char(s[n]),
    ensures
        code_run(s) == n,
    decreases s.len(),
{
    if n > 0 {
        assert forall|k: int| 0 <= k < n - 1 implies code_char(s.drop_first()[k]) by {
            assert(s.drop_first()[k] == s[k + 1]);
        }
        if n - 1 < s.drop_first().len() {
            assert(s.drop_first()[n - 1] == s[n]);
        }
        lemma_code_run(s.drop_first(), n - 1);
    }
}

/// Whether `c` is the whole run of code characters starting at `start` in
/// `text`: unchanged characters of `text`, all code characters, and the run
/// ends at the end of `text` or at a character that is not one.
pub open spec fn whole_code_run_at(text: Seq<char>, start: int, c: Seq<char>) -> bool {
    &&& 0 <= start && start + c.len() <= text.len()
    &&& text.subrange(start, start + c.len()) == c
    &&& forall|k: int| 0 <= k < c.len() ==> code_char(#[trigger] c[k])
    &&& start + c.len() == text.len() || !code_char(text[start + c.len()])
}

proof fn lemma_code_run_shape(s: Seq<char>)
    ensures
        0 <= code_run(s) <= s.len(),
        whole_code_run_at(s, 0, s.take(code_run(s))),
    decreases s.len(),
{
    if s.len() > 0 && code_char(s[0]) {
        let t = s.drop_first();
        lemma_code_run_shape(t);
        let n = code_run(s);
        assert forall|k: int| 0 <= k < n implies code_char(#[trigger] s.take(n)[k]) by {
            if k > 0 {
                assert(s.take(n)[k] == t.take(n - 1)[k - 1]);
            }
        }
        if n < s.len() {
            assert(s[n] == t[n - 1]);
        }
        assert(s.subrange(0, n) =~= s.take(n));
    } else {
        assert(s.subrange(0, 0) =~= s.take(0));
    }
}

/// The code is read from the first `code=` in the request, wherever it
/// stands (first in the query or after other parameters): the result is the
/// whole run of code characters right after it, and there is none only when
/// that run is empty or the request has no `code=` at all.
pub proof fn lemma_code_follows_first_key(text: Seq<char>)
    ensures
        forall|i: int|
            #![trigger occurs_at(text, "code="@, i)]
            occurs_at(text, "code="@, i) && (forall|j: int| 0 <= j < i ==> !occurs_at(text, "code="@, j)) ==> {
                &&& oauth_code_spec(text) is None <==> (i + 5 == text.len() || !code_char(text[i + 5]))
                &&& oauth_code_spec(text) matches Some(c) ==> c.len() > 0 && whole_code_run_at(text, i + 5, c)
            },
        (forall|i: int| !occurs_at(text, "code="@, i)) ==> oauth_code_spec(text) is None,
{
    reveal_strlit("code=");
    assert forall|i: int|
        #![trigger occurs_at(text, "code="@, i)]
        occurs_at(text, "code="@, i) && (forall|j: int| 0 <= j < i ==> !occurs_at(text, "code="@, j)) implies {
            &&& oauth_code_spec(text) is None <==> (i + 5 == text.len() || !code_char(text[i + 5]))
            &&& oauth_code_spec(text) matches Some(c) ==> c.len() > 0 && whole_code_run_at(text, i + 5, c)
        } by {
        let f = first_occurrence(text, "code="@);
        let w = choose|w: int| occurs_at(text, "code="@, w) && forall|j: int| 0 <= j < w ==> !occurs_at(text, "code="@, j);
        assert(f == Some(w));
        if w < i {
        } else if w > i {
        }
        assert(w == i);
        let rest = text.skip(i + 5);
        lemma_code_run_shape(rest);
        let n = code_run(rest);
        if n > 0 {
            let c = rest.take(n);
            assert(text.subrange(i + 5, i + 5 + n) =~= c);
            if i + 5 + n < text.len() {
                assert(text[i + 5 + n] == rest[n]);
            }
            assert(rest[0] == text[i + 5]);
        } else {
            if i + 5 < text.len() {
                assert(rest[0] == text[i + 5]);
            }
        }
    }
}

/// Finds the OAuth code in the bytes of a redirect request (read as UTF-8,
/// invalid sequences replaced).
pub fn extract_oauth_code(request: &[u8]) -> (r: Option<String>)
    ensures
        match oauth_code_spec(lossy_text(request@)) {
            Some(c) => r matches Some(s) && s@ == c,
            None => r is None,
        },
        forall|i: int|
            #![trigger occurs_at(lossy_text(request@), "code="@, i)]
            occurs_at(lossy_text(request@), "code="@, i) && (forall|j: int|
                0 <= j < i ==> !occurs_at(lossy_text(request@), "code="@, j)) ==> {
                &&& r is None <==> (i + 5 == lossy_text(request@).len() || !code_char(lossy_text(request@)[i + 5]))
                &&& r matches Some(s) ==> s@.len() > 0 && whole_code_run_at(lossy_text(request@), i + 5, s@)
            },
        (forall|i: int| !occurs_at(lossy_text(request@), "code="@, i)) ==> r is None,
{
    let r = read_oauth_code(request);
    proof {
        lemma_code_follows_first_key(lossy_text(request@));
    }
    r
}

fn read_oauth_code(request: &[u8]) -> (r: Option<String>)
    ensures
        match oauth_code_spec(lossy_text(request@)) {
            Some(c) => r matches Some(s) && s@ == c,
            None => r is None,
        },
{
    let text = from_utf8_lossy(request);
    let t = text.as_str();
    match find(t, "code=") {
        Some(pos) => {
            proof {
                reveal_strlit("code=");
            }
            assert("code="@.len() == 5);
            let v = chars_of(t);
            assert(pos + 5 <= v.len());
            let start = pos + 5;
            assert(occurs_at(t@, "code="@, pos as int));
            let mut i: usize = start;
            while i < v.len() && (is_alphanumeric(v[i]) || v[i] == '-' || v[i] == '_')
                invariant
                    v@ == t@,
                    start <= i <= v.len(),
                    forall|k: int| start <= k < i ==> code_char(t@[k]),
                decreases v.len() - i,
            {
                i = i + 1;
            }
            proof {
                let rest = t@.skip(start as int);
                let n = (i - start) as int;
                assert forall|k: int| 0 <= k < n implies code_char(rest[k]) by {
                    assert(rest[k] == t@[start + k]);
                }
                if n < rest.len() {
                    assert(rest[n] == t@[i as int]);
                }
                lemma_code_run(rest, n);
                assert(rest.take(n) =~= t@.subrange(start as int, i as int));
            }
            if i > start {
                Some(substring(t, start, i))
            } else {
                None
            }
        },
        None => None,
    }
}

} // verus!
