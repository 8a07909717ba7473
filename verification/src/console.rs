//! The state of the terminal interface: the event log, the scoped agents it shows, and the
//! history of prompts.

use vstd::prelude::*;
use vstd::string::*;

use crate::events::{
    agent_views, event_views, AgentEvent, AgentState, EventView, ScopedAgent, ScopedAgentStatus,
    ScopedView,
};
use crate::message::{opt_view, ChatMessage, ChatRole, ContentView, MessageContent, MessageView};
use crate::session::{Session, SessionView};
use crate::text::{
    eq_ignore_ascii_case, eq_ignore_case_spec, is_blank_spec, str_eq, trim, trim_spec,
    truncate_middle, truncate_middle_spec,
};
use crate::turn::ToolCallInfo;
use crate::text::{decimal, u64_to_decimal};
use crate::util::append_delta_spec;
use crate::words::strs;

verus! {

/// An entry of the event log.
pub enum LogEntry {
    User(String),
    Assistant(String),
    AssistantFinal(String),
    Thinking { kind: String, text: String },
    ToolCall { name: String, args: String },
    ToolResult { name: String, result: String },
    System(String),
    Error(String),
}

/// The contents of a log entry.
pub ghost enum EntryView {
    User(Seq<char>),
    Assistant(Seq<char>),
    AssistantFinal(Seq<char>),
    Thinking { kind: Seq<char>, text: Seq<char> },
    ToolCall { name: Seq<char>, args: Seq<char> },
    ToolResult { name: Seq<char>, result: Seq<char> },
    System(Seq<char>),
    Error(Seq<char>),
}

impl View for LogEntry {
    type V = EntryView;

    open spec fn view(&self) -> EntryView {
        match self {
            LogEntry::User(t) => EntryView::User(t@),
            LogEntry::Assistant(t) => EntryView::Assistant(t@),
            LogEntry::AssistantFinal(t) => EntryView::AssistantFinal(t@),
            LogEntry::Thinking { kind, text } => EntryView::Thinking { kind: kind@, text: text@ },
            LogEntry::ToolCall { name, args } => EntryView::ToolCall { name: name@, args: args@ },
            LogEntry::ToolResult { name, result } => EntryView::ToolResult {
                name: name@,
                result: result@,
            },
            LogEntry::System(t) => EntryView::System(t@),
            LogEntry::Error(t) => EntryView::Error(t@),
        }
    }
}

/// The contents of a log.
pub open spec fn entry_views(v: Seq<LogEntry>) -> Seq<EntryView> {
    v.map_values(|e: LogEntry| e@)
}

/// Which pane of settings or input the interface shows.
#[derive(Clone, Copy, Debug, PartialEq, Eq, Structural)]
pub enum InputState {
    Settings,
    FieldInput,
    Exit,
}

/// What the sidebar lists.
#[derive(Clone, Copy, Debug, PartialEq, Eq, Structural)]
pub enum SidebarMode {
    Sessions,
    Models,
    SlashCommands,
}

/// Where keystrokes go.
#[derive(Clone, Copy, Debug, PartialEq, Eq, Structural)]
pub enum Focus {
    Input,
    Sidebar,
}

impl InputState {
    /// The interface starts with the prompt field.
    pub fn initial() -> (s: InputState)
        ensures
            s == InputState::FieldInput,
    {
        InputState::FieldInput
    }
}

impl SidebarMode {
    /// The sidebar starts with the sessions.
    pub fn initial() -> (s: SidebarMode)
        ensures
            s == SidebarMode::Sessions,
    {
        SidebarMode::Sessions
    }
}

impl Focus {
    /// Keystrokes start in the prompt field.
    pub fn initial() -> (s: Focus)
        ensures
            s == Focus::Input,
    {
        Focus::Input
    }
}

// ---------------------------------------------------------------------------
// Messages of a session as the log shows them
// ---------------------------------------------------------------------------

/// How a stored message appears in the log: a user text as the user's entry; an assistant
/// message that called tools as its first call; another assistant text as a final answer;
/// a tool text as a result under its tool name (`unknown` without one); nothing otherwise.
pub open spec fn message_entry(m: MessageView, first_call: Option<ToolCallInfo>) -> Option<EntryView> {
    match m.role {
        ChatRole::User => match m.content {
            ContentView::Text(t) => Some(EntryView::User(t)),
            _ => None,
        },
        ChatRole::Assistant => match first_call {
            Some(c) => Some(EntryView::ToolCall { name: c.name@, args: c.arguments@ }),
            None => match m.content {
                ContentView::Text(t) => Some(EntryView::AssistantFinal(t)),
                _ => None,
            },
        },
        ChatRole::Tool => match m.content {
            ContentView::Text(t) => Some(
                EntryView::ToolResult {
                    name: match m.name {
                        Some(n) => n,
                        None => "unknown"@,
                    },
                    result: t,
                },
            ),
            _ => None,
        },
        _ => None,
    }
}

/// The log entry of a stored message; `first_call` is the first tool call it records.
pub fn message_to_log_entry(message: &ChatMessage, first_call: Option<&ToolCallInfo>) -> (r: Option<
    LogEntry,
>)
    ensures
        match r {
            Some(e) => message_entry(
                message@,
                match first_call {
                    Some(c) => Some(*c),
                    None => None,
                },
            ) == Some(e@),
            None => message_entry(
                message@,
                match first_call {
                    Some(c) => Some(*c),
                    None => None,
                },
            ) is None,
        },
{
    match &message.role {
        ChatRole::User => match &message.content {
            MessageContent::Text(t) => Some(LogEntry::User(t.clone())),
            _ => None,
        },
        ChatRole::Assistant => match first_call {
            Some(c) => Some(LogEntry::ToolCall { name: c.name.clone(), args: c.arguments.clone() }),
            None => match &message.content {
                MessageContent::Text(t) => Some(LogEntry::AssistantFinal(t.clone())),
                _ => None,
            },
        },
        ChatRole::Tool => match &message.content {
            MessageContent::Text(t) => {
                let name = match &message.name {
                    Some(n) => n.clone(),
                    None => "unknown".to_owned(),
                };
                Some(LogEntry::ToolResult { name, result: t.clone() })
            },
            _ => None,
        },
        _ => None,
    }
}

/// The prompts of a session that the history recalls: the user's texts, trimmed, except
/// blank ones and slash commands.
pub open spec fn prompt_history(ms: Seq<MessageView>) -> Seq<Seq<char>>
    decreases ms.len(),
{
    if ms.len() == 0 {
        seq![]
    } else {
        let rest = prompt_history(ms.drop_last());
        let m = ms.last();
        match (m.role, m.content) {
            (ChatRole::User, ContentView::Text(t)) => if recallable(t) {
                rest.push(trim_spec(t))
            } else {
                rest
            },
            _ => rest,
        }
    }
}

/// A prompt the history keeps: not blank and not a slash command.
pub open spec fn recallable(t: Seq<char>) -> bool {
    trim_spec(t).len() > 0 && !"/"@.is_prefix_of(trim_spec(t))
}

fn recallable_exec(t: &str) -> (r: Option<String>)
    ensures
        match r {
            Some(p) => recallable(t@) && p@ == trim_spec(t@),
            None => !recallable(t@),
        },
{
    let p = trim(t);
    if p.unicode_len() == 0 || crate::text::starts_with(p.as_str(), "/") {
        None
    } else {
        Some(p)
    }
}

/// The prompts of a session that the history recalls.
pub fn session_input_history(session: &Session) -> (r: Vec<String>)
    ensures
        strs(r@) == prompt_history(session@.messages),
{
    let ghost ms = session@.messages;
    let mut out: Vec<String> = Vec::new();
    let mut i: usize = 0;
    while i < session.messages.len()
        invariant
            i <= session.messages@.len(),
            ms == session@.messages,
            ms == crate::message::views(session.messages@),
            strs(out@) == prompt_history(ms.take(i as int)),
        decreases session.messages@.len() - i,
    {
        let m = &session.messages[i];
        proof {
            assert(ms.take(i + 1).drop_last() =~= ms.take(i as int));
            assert(ms.take(i + 1).last() == m@);
        }
        let ghost before = strs(out@);
        if m.role.is_user() {
            match &m.content {
                MessageContent::Text(t) => match recallable_exec(t.as_str()) {
                    Some(p) => {
                        out.push(p);
                        proof {
                            assert(strs(out@) =~= before.push(trim_spec(t@)));
                        }
                    },
                    None => {},
                },
                _ => {},
            }
        }
        i = i + 1;
    }
    proof {
        assert(ms.take(ms.len() as int) =~= ms);
    }
    out
}

/// The log entries of the first `n` stored messages, given the first tool call each one
/// records (`calls`, in the same order); messages the log does not show are left out.
pub open spec fn logged_messages(ms: Seq<MessageView>, calls: Seq<Option<ToolCallInfo>>, n: int) -> Seq<
    EntryView,
>
    decreases n,
{
    if n <= 0 {
        seq![]
    } else {
        let rest = logged_messages(ms, calls, n - 1);
        match message_entry(ms[n - 1], calls[n - 1]) {
            Some(e) => rest.push(e),
            None => rest,
        }
    }
}

/// The log the interface opens with: a restored session's messages and a line saying it
/// was loaded and how many messages it holds; for a new session, a line saying it was
/// created.
pub open spec fn opening_log(s: SessionView, calls: Seq<Option<ToolCallInfo>>, restored: bool) -> Seq<
    EntryView,
> {
    if restored {
        logged_messages(s.messages, calls, s.messages.len() as int).push(
            EntryView::System(
                "Loaded session: "@ + s.name + " ("@ + decimal(s.messages.len()) + " messages)"@,
            ),
        )
    } else {
        seq![EntryView::System("Created session: "@ + s.name)]
    }
}

/// The log the interface opens with for `session`; `calls` holds the first tool call of
/// each of its messages, in order, and `restored` says whether the session was loaded.
pub fn opening_log_entries(session: &Session, calls: &Vec<Option<ToolCallInfo>>, restored: bool) -> (r:
    Vec<LogEntry>)
    requires
        calls@.len() == session@.messages.len(),
    ensures
        entry_views(r@) == opening_log(session@, calls@, restored),
{
    let ghost ms = session@.messages;
    let mut out: Vec<LogEntry> = Vec::new();
    if !restored {
        let mut line = "Created session: ".to_owned();
        line.append(session.name.as_str());
        out.push(LogEntry::System(line));
        proof {
            assert(entry_views(out@) =~= seq![EntryView::System("Created session: "@ + session@.name)]);
        }
        return out;
    }
    let mut i: usize = 0;
    while i < session.messages.len()
        invariant
            i <= session.messages@.len(),
            calls@.len() == session.messages@.len(),
            ms == session@.messages,
            ms == crate::message::views(session.messages@),
            entry_views(out@) == logged_messages(ms, calls@, i as int),
        decreases session.messages@.len() - i,
    {
        let ghost before = entry_views(out@);
        let entry = message_to_log_entry(&session.messages[i], calls[i].as_ref());
        proof {
            assert(ms[i as int] == session.messages@[i as int]@);
        }
        match entry {
            Some(e) => {
                let ghost ev = e@;
                out.push(e);
                proof {
                    assert(entry_views(out@) =~= before.push(ev));
                }
            },
            None => {},
        }
        i = i + 1;
    }
    let mut line = "Loaded session: ".to_owned();
    line.append(session.name.as_str());
    line.append(" (");
    line.append(u64_to_decimal(session.messages.len() as u64).as_str());
    line.append(" messages)");
    let ghost before = entry_views(out@);
    out.push(LogEntry::System(line));
    proof {
        assert(entry_views(out@) =~= before.push(out@.last()@));
    }
    out
}

// ---------------------------------------------------------------------------
// The history of prompts
// ---------------------------------------------------------------------------

/// The prompts typed so far, and the place of the one recalled into the prompt field.
pub struct InputHistory {
    pub entries: Vec<String>,
    /// The recalled prompt, while one is.
    pub index: Option<usize>,
    /// What the field held before recalling started.
    pub draft: String,
}

impl InputHistory {
    /// A history of the given prompts, with none recalled.
    pub fn new(entries: Vec<String>) -> (h: InputHistory)
        ensures
            h.entries == entries,
            h.index is None,
            h.draft@ == Seq::<char>::empty(),
    {
        InputHistory { entries, index: None, draft: String::new() }
    }

    /// Stops recalling.
    pub fn reset_navigation(&mut self)
        ensures
            final(self).entries == old(self).entries,
            final(self).index is None,
            final(self).draft@ == Seq::<char>::empty(),
    {
        self.index = None;
        self.draft = String::new();
    }

    /// Records a submitted prompt (trimmed, unless blank or a slash command) and stops
    /// recalling.
    pub fn append(&mut self, prompt: &str)
        ensures
            strs(final(self).entries@) == if recallable(prompt@) {
                strs(old(self).entries@).push(trim_spec(prompt@))
            } else {
                strs(old(self).entries@)
            },
            final(self).index is None,
            final(self).draft@ == Seq::<char>::empty(),
    {
        let ghost before = strs(self.entries@);
        match recallable_exec(prompt) {
            Some(p) => {
                self.entries.push(p);
                assert(strs(self.entries@) =~= before.push(trim_spec(prompt@)));
            },
            None => {},
        }
        self.reset_navigation();
    }

    /// Keeps what the field holds as the draft, and stops recalling.
    pub fn retain_draft(&mut self, buffer: &str)
        ensures
            final(self).entries == old(self).entries,
            final(self).index is None,
            final(self).draft@ == buffer@,
    {
        self.draft = buffer.to_owned();
        self.index = None;
    }

    /// Recalls the previous prompt into the field (the latest one when none is recalled yet,
    /// keeping the field's text as the draft). Returns the field's new text, or `None` when it
    /// stays as it is (an empty history).
    pub fn load_previous(&mut self, buffer: &str) -> (r: Option<String>)
        requires
            old(self).index matches Some(i) ==> i < old(self).entries@.len(),
        ensures
            final(self).entries == old(self).entries,
            old(self).entries@.len() == 0 ==> r is None && *final(self) == *old(self),
            old(self).entries@.len() > 0 ==> {
                let i = match old(self).index {
                    None => (old(self).entries@.len() - 1) as nat,
                    Some(i) => if i > 0 {
                        (i - 1) as nat
                    } else {
                        0
                    },
                };
                &&& final(self).index == Some(i as usize)
                &&& r matches Some(t) && t@ == old(self).entries@[i as int]@
                &&& final(self).draft@ == if old(self).index is None {
                    buffer@
                } else {
                    old(self).draft@
                }
            },
    {
        if self.entries.len() == 0 {
            return None;
        }
        match self.index {
            None => {
                self.draft = buffer.to_owned();
                self.index = Some(self.entries.len() - 1);
            },
            Some(i) => {
                if i > 0 {
                    self.index = Some(i - 1);
                }
            },
        }
        let i = self.index.unwrap();
        Some(self.entries[i].clone())
    }

    /// Recalls the next prompt, or, past the latest one, gives back the draft and stops
    /// recalling. Returns the field's new text, or `None` when nothing is recalled.
    pub fn load_next(&mut self) -> (r: Option<String>)
        requires
            old(self).index matches Some(i) ==> i < old(self).entries@.len(),
        ensures
            final(self).entries == old(self).entries,
            old(self).index is None ==> r is None && *final(self) == *old(self),
            old(self).index matches Some(i) ==> if i + 1 < old(self).entries@.len() {
                &&& final(self).index == Some((i + 1) as usize)
                &&& r matches Some(t) && t@ == old(self).entries@[i + 1]@
                &&& final(self).draft == old(self).draft
            } else {
                &&& final(self).index is None
                &&& r matches Some(t) && t@ == old(self).draft@
                &&& final(self).draft@ == Seq::<char>::empty()
            },
    {
        let i = match self.index {
            Some(i) => i,
            None => {
                return None;
            },
        };
        assert(i < self.entries@.len());
        if i < self.entries.len() - 1 {
            self.index = Some(i + 1);
            Some(self.entries[i + 1].clone())
        } else {
            let draft = self.draft.clone();
            self.reset_navigation();
            Some(draft)
        }
    }
}

// ---------------------------------------------------------------------------
// The event log
// ---------------------------------------------------------------------------

/// What the interface shows of the agent: the log, the entries that streamed text still
/// goes into, the agent's state, the session title and the scoped agents.
pub struct AgentConsole {
    pub eventlog: Vec<LogEntry>,
    pub active_assistant: Option<usize>,
    pub active_thinking: Option<usize>,
    pub agentstate: AgentState,
    pub title: String,
    pub scoped_agents: Vec<ScopedAgent>,
}

/// The contents of the console.
pub ghost struct ConsoleView {
    pub log: Seq<EntryView>,
    pub assistant_at: Option<usize>,
    pub thinking_at: Option<usize>,
    pub state: AgentState,
    pub title: Seq<char>,
    pub agents: Seq<ScopedView>,
}

impl View for AgentConsole {
    type V = ConsoleView;

    open spec fn view(&self) -> ConsoleView {
        ConsoleView {
            log: entry_views(self.eventlog@),
            assistant_at: self.active_assistant,
            thinking_at: self.active_thinking,
            state: self.agentstate,
            title: self.title@,
            agents: agent_views(self.scoped_agents@),
        }
    }
}

/// What the caller does after an event: forget the agent's task when the agent finished,
/// and the task of a scoped agent that ended.
pub struct EventEffect {
    pub agent_finished: bool,
    pub scoped_task_done: Option<String>,
}

/// Whether a scoped agent answers to `key`: by its id, or by its name in any ASCII case
/// (the key trimmed).
pub open spec fn answers_to(a: ScopedView, key: Seq<char>) -> bool {
    a.id == key || eq_ignore_case_spec(a.name, trim_spec(key))
}

/// The position of the first scoped agent that answers to `key`.
pub open spec fn scoped_index(agents: Seq<ScopedView>, key: Seq<char>) -> Option<int>
    decreases agents.len(),
{
    if agents.len() == 0 {
        None
    } else if answers_to(agents[0], key) {
        Some(0)
    } else {
        match scoped_index(agents.drop_first(), key) {
            Some(i) => Some(i + 1),
            None => None,
        }
    }
}

pub proof fn lemma_scoped_index(agents: Seq<ScopedView>, key: Seq<char>)
    ensures
        match scoped_index(agents, key) {
            Some(i) => 0 <= i < agents.len() && answers_to(agents[i], key) && forall|j: int|
                0 <= j < i ==> !answers_to(#[trigger] agents[j], key),
            None => forall|j: int| 0 <= j < agents.len() ==> !answers_to(#[trigger] agents[j], key),
        },
    decreases agents.len(),
{
    if agents.len() > 0 && !answers_to(agents[0], key) {
        lemma_scoped_index(agents.drop_first(), key);
        assert forall|j: int| 1 <= j < agents.len() implies #[trigger] agents[j] == agents.drop_first()[j
            - 1] by {}
    }
}

/// The last twenty events, at most.
pub open spec fn keep_last_events(events: Seq<Seq<char>>) -> Seq<Seq<char>> {
    if events.len() > 20 {
        events.skip(events.len() - 20)
    } else {
        events
    }
}

/// The scoped agents after `message` is added to the events of the one that answers to `key`.
pub open spec fn with_agent_event(agents: Seq<ScopedView>, key: Seq<char>, message: Seq<char>) -> Seq<
    ScopedView,
> {
    match scoped_index(agents, key) {
        Some(i) => agents.update(
            i,
            ScopedView { events: keep_last_events(agents[i].events.push(message)), ..agents[i] },
        ),
        None => agents,
    }
}

/// The scoped agents after the one that answers to `key` starts step `step`.
pub open spec fn with_agent_step(agents: Seq<ScopedView>, key: Seq<char>, step: u32) -> Seq<ScopedView> {
    match scoped_index(agents, key) {
        Some(i) => agents.update(
            i,
            ScopedView { current_step: step, status: ScopedAgentStatus::Running, ..agents[i] },
        ),
        None => agents,
    }
}

/// The scoped agents after the one that answers to `key` changes to `status`.
pub open spec fn with_agent_status(
    agents: Seq<ScopedView>,
    key: Seq<char>,
    status: ScopedAgentStatus,
) -> Seq<ScopedView> {
    match scoped_index(agents, key) {
        Some(i) => agents.update(i, ScopedView { status, ..agents[i] }),
        None => agents,
    }
}

/// The scoped agents after the one that answers to `key` finished with `result`.
pub open spec fn with_agent_result(agents: Seq<ScopedView>, key: Seq<char>, result: Seq<char>) -> Seq<
    ScopedView,
> {
    match scoped_index(agents, key) {
        Some(i) => agents.update(
            i,
            ScopedView { status: ScopedAgentStatus::Done, result: Some(result), ..agents[i] },
        ),
        None => agents,
    }
}

/// The log after streamed text: it goes into the entry it streams into when that entry is
/// of its kind, else into a new entry, which text then streams into.
pub open spec fn stream_into(
    log: Seq<EntryView>,
    at: Option<usize>,
    entry: EntryView,
) -> (Seq<EntryView>, Option<usize>) {
    let fresh = (log.push(entry), Some((log.len()) as usize));
    match at {
        Some(i) => if i < log.len() {
            match (log[i as int], entry) {
                (EntryView::Thinking { kind, text }, EntryView::Thinking { kind: _, text: d }) => (
                    log.update(i as int, EntryView::Thinking { kind, text: append_delta_spec(text, d) }),
                    at,
                ),
                (EntryView::Assistant(text), EntryView::Assistant(d)) => (
                    log.update(i as int, EntryView::Assistant(append_delta_spec(text, d))),
                    at,
                ),
                _ => fresh,
            }
        } else {
            fresh
        },
        None => fresh,
    }
}

/// The console after an event.
pub open spec fn after_event(v: ConsoleView, e: EventView) -> ConsoleView {
    match e {
        EventView::UserSubmitted { prompt } => ConsoleView {
            log: v.log.push(EntryView::User(prompt)),
            assistant_at: None,
            thinking_at: None,
            state: AgentState::Thinking,
            ..v
        },
        EventView::Thinking { kind, text } => {
            let (log, at) = stream_into(v.log, v.thinking_at, EntryView::Thinking { kind, text });
            ConsoleView { log, thinking_at: at, state: AgentState::Thinking, ..v }
        },
        EventView::ToolCallStarted { name, args } => ConsoleView {
            log: v.log.push(EntryView::ToolCall { name, args }),
            assistant_at: None,
            thinking_at: None,
            state: AgentState::Tool,
            ..v
        },
        EventView::ToolCallFinished { name, result } => ConsoleView {
            log: v.log.push(EntryView::ToolResult { name, result }),
            state: AgentState::Tool,
            ..v
        },
        EventView::AssistantDelta { text } => {
            let (log, at) = stream_into(v.log, v.assistant_at, EntryView::Assistant(text));
            ConsoleView { log, assistant_at: at, state: AgentState::Thinking, ..v }
        },
        EventView::AssistantFinal { text } => {
            let shown = match v.assistant_at {
                Some(i) => i < v.log.len() && v.log[i as int] == EntryView::Assistant(text),
                None => false,
            };
            ConsoleView {
                log: if shown {
                    v.log.update(v.assistant_at->0 as int, EntryView::AssistantFinal(text))
                } else {
                    v.log.push(EntryView::AssistantFinal(text))
                },
                assistant_at: None,
                thinking_at: None,
                state: AgentState::Done,
                ..v
            }
        },
        EventView::Error { message } => ConsoleView {
            log: v.log.push(EntryView::Error(message)),
            assistant_at: None,
            thinking_at: None,
            state: AgentState::Error,
            ..v
        },
        EventView::SystemNotice { message } => ConsoleView {
            log: v.log.push(EntryView::System(message)),
            ..v
        },
        EventView::MaxStepsReached => ConsoleView {
            log: v.log.push(
                EntryView::Error("Agent reached max steps without producing a final response."@),
            ),
            assistant_at: None,
            thinking_at: None,
            state: AgentState::Done,
            ..v
        },
        EventView::SessionTitleUpdated { title } => ConsoleView { title, ..v },
        EventView::ScopedAgentStarted { id, name, task, max_steps } => ConsoleView {
            agents: v.agents.push(
                ScopedView {
                    id,
                    name,
                    task,
                    status: ScopedAgentStatus::Running,
                    current_step: 0,
                    max_steps,
                    events: seq!["started"@],
                    result: None,
                },
            ),
            log: v.log.push(EntryView::System("Scoped agent `"@ + id + "` started."@)),
            ..v
        },
        EventView::ScopedAgentStep { id, step } => ConsoleView {
            agents: with_agent_event(
                with_agent_step(v.agents, id, step),
                id,
                "step "@ + crate::text::decimal(step as nat),
            ),
            ..v
        },
        EventView::ScopedAgentStatus { id, status } => ConsoleView {
            agents: with_agent_event(
                with_agent_status(v.agents, id, status),
                id,
                crate::events::scoped_status_name(status),
            ),
            ..v
        },
        EventView::ScopedAgentLog { id, message } => ConsoleView {
            agents: with_agent_event(v.agents, id, message),
            ..v
        },
        EventView::ScopedAgentFinished { id, result } => ConsoleView {
            agents: with_agent_event(with_agent_result(v.agents, id, result), id, "finished"@),
            log: v.log.push(
                EntryView::System(
                    "Scoped agent `"@ + id + "` completed:\n"@ + truncate_middle_spec(result, 4000),
                ),
            ),
            ..v
        },
        EventView::ScopedAgentError { id, message } => ConsoleView {
            agents: with_agent_event(
                with_agent_status(v.agents, id, ScopedAgentStatus::Error),
                id,
                "error: "@ + message,
            ),
            log: v.log.push(EntryView::Error("Scoped agent `"@ + id + "` failed: "@ + message)),
            ..v
        },
        EventView::Finished => ConsoleView {
            assistant_at: None,
            thinking_at: None,
            state: AgentState::Done,
            ..v
        },
    }
}

/// Puts `x` at position `i` of `v` and returns what was there.
pub fn replace_at<T>(v: &mut Vec<T>, i: usize, x: T) -> (old_item: T)
    requires
        i < old(v)@.len(),
    ensures
        old_item == old(v)@[i as int],
        final(v)@ == old(v)@.update(i as int, x),
{
    let item = v.remove(i);
    v.insert(i, x);
    assert(v@ =~= old(v)@.update(i as int, x));
    item
}

impl AgentConsole {
    /// A console with an empty log, for a session of the given title.
    pub fn new(title: String) -> (c: AgentConsole)
        ensures
            c@ == (ConsoleView {
                log: Seq::empty(),
                assistant_at: None,
                thinking_at: None,
                state: AgentState::Idle,
                title: title@,
                agents: Seq::empty(),
            }),
    {
        let c = AgentConsole {
            eventlog: Vec::new(),
            active_assistant: None,
            active_thinking: None,
            agentstate: AgentState::Idle,
            title,
            scoped_agents: Vec::new(),
        };
        assert(entry_views(c.eventlog@) =~= Seq::<EntryView>::empty());
        assert(agent_views(c.scoped_agents@) =~= Seq::<ScopedView>::empty());
        c
    }

    /// The position of the first scoped agent that answers to `key`.
    pub fn find_scoped_agent_index(&self, key: &str) -> (r: Option<usize>)
        ensures
            match r {
                Some(i) => scoped_index(agent_views(self.scoped_agents@), key@) == Some(i as int),
                None => scoped_index(agent_views(self.scoped_agents@), key@) is None,
            },
    {
        let ghost av = agent_views(self.scoped_agents@);
        let trimmed = trim(key);
        let mut i: usize = 0;
        proof {
            lemma_scoped_index(av, key@);
        }
        while i < self.scoped_agents.len()
            invariant
                i <= self.scoped_agents@.len(),
                av == agent_views(self.scoped_agents@),
                trimmed@ == trim_spec(key@),
                forall|j: int| 0 <= j < i ==> !answers_to(#[trigger] av[j], key@),
            decreases self.scoped_agents@.len() - i,
        {
            let a = &self.scoped_agents[i];
            if str_eq(a.id.as_str(), key) || eq_ignore_ascii_case(a.name.as_str(), trimmed.as_str()) {
                proof {
                    lemma_scoped_index(av, key@);
                    assert(answers_to(av[i as int], key@));
                    match scoped_index(av, key@) {
                        Some(k) => {
                            if k < i {
                                assert(!answers_to(av[k], key@));
                            } else if k > i {
                                assert(!answers_to(av[i as int], key@));
                            }
                        },
                        None => {
                            assert(!answers_to(av[i as int], key@));
                        },
                    }
                }
                return Some(i);
            }
            i = i + 1;
        }
        proof {
            lemma_scoped_index(av, key@);
        }
        None
    }

    /// Adds `message` to the events of the scoped agent that answers to `key`, keeping the
    /// last twenty.
    pub fn push_scoped_agent_event(&mut self, key: &str, message: String)
        ensures
            final(self)@ == (ConsoleView {
                agents: with_agent_event(old(self)@.agents, key@, message@),
                ..old(self)@
            }),
    {
        match self.find_scoped_agent_index(key) {
            None => {},
            Some(i) => {
                proof {
                    lemma_scoped_index(agent_views(self.scoped_agents@), key@);
                }
                let placeholder = ScopedAgent {
                    id: String::new(),
                    name: String::new(),
                    task: String::new(),
                    status: ScopedAgentStatus::Pending,
                    current_step: 0,
                    max_steps: 0,
                    events: Vec::new(),
                    result: None,
                };
                let mut a = replace_at(&mut self.scoped_agents, i, placeholder);
                let ghost before = a@;
                a.events.push(message);
                let ghost pushed = a.events@.map_values(|e: String| e@);
                assert(pushed =~= before.events.push(message@));
                if a.events.len() > 20 {
                    let overflow = a.events.len() - 20;
                    let tail = a.events.split_off(overflow);
                    a.events = tail;
                    assert(a.events@.map_values(|e: String| e@) =~= keep_last_events(pushed));
                }
                let ghost updated = a@;
                replace_at(&mut self.scoped_agents, i, a);
                proof {
                    assert(updated == (ScopedView {
                        events: keep_last_events(before.events.push(message@)),
                        ..before
                    }));
                    assert(agent_views(self.scoped_agents@) =~= with_agent_event(
                        old(self)@.agents,
                        key@,
                        message@,
                    ));
                }
            },
        }
    }
}

impl AgentConsole {
    /// Changes the scoped agent at `i`, found for `key`, to `a`.
    fn set_agent(&mut self, i: usize, a: ScopedAgent)
        requires
            i < old(self).scoped_agents@.len(),
        ensures
            final(self)@ == (ConsoleView {
                agents: old(self)@.agents.update(i as int, a@),
                ..old(self)@
            }),
    {
        replace_at(&mut self.scoped_agents, i, a);
        assert(agent_views(self.scoped_agents@) =~= old(self)@.agents.update(i as int, a@));
    }

    /// Takes the scoped agent at `i` out for a change (a blank one stands in its place).
    fn take_agent(&mut self, i: usize) -> (a: ScopedAgent)
        requires
            i < old(self).scoped_agents@.len(),
        ensures
            a == old(self).scoped_agents@[i as int],
            final(self).scoped_agents@.len() == old(self).scoped_agents@.len(),
            forall|j: int|
                0 <= j < old(self).scoped_agents@.len() && j != i ==> #[trigger] final(self).scoped_agents@[j]
                    == old(self).scoped_agents@[j],
            final(self).eventlog == old(self).eventlog,
            final(self).active_assistant == old(self).active_assistant,
            final(self).active_thinking == old(self).active_thinking,
            final(self).agentstate == old(self).agentstate,
            final(self).title == old(self).title,
    {
        let blank = ScopedAgent {
            id: String::new(),
            name: String::new(),
            task: String::new(),
            status: ScopedAgentStatus::Pending,
            current_step: 0,
            max_steps: 0,
            events: Vec::new(),
            result: None,
        };
        replace_at(&mut self.scoped_agents, i, blank)
    }

    fn agent_step(&mut self, key: &str, step: u32)
        ensures
            final(self)@ == (ConsoleView {
                agents: with_agent_step(old(self)@.agents, key@, step),
                ..old(self)@
            }),
    {
        if let Some(i) = self.find_scoped_agent_index(key) {
            proof {
                lemma_scoped_index(old(self)@.agents, key@);
            }
            let mut a = self.take_agent(i);
            a.current_step = step;
            a.status = ScopedAgentStatus::Running;
            let ghost s = self@;
            self.set_agent(i, a);
            proof {
                assert(self@.agents =~= with_agent_step(old(self)@.agents, key@, step));
            }
        }
    }

    fn agent_status(&mut self, key: &str, status: ScopedAgentStatus)
        ensures
            final(self)@ == (ConsoleView {
                agents: with_agent_status(old(self)@.agents, key@, status),
                ..old(self)@
            }),
    {
        if let Some(i) = self.find_scoped_agent_index(key) {
            proof {
                lemma_scoped_index(old(self)@.agents, key@);
            }
            let mut a = self.take_agent(i);
            a.status = status;
            self.set_agent(i, a);
            proof {
                assert(self@.agents =~= with_agent_status(old(self)@.agents, key@, status));
            }
        }
    }

    fn agent_result(&mut self, key: &str, result: &String)
        ensures
            final(self)@ == (ConsoleView {
                agents: with_agent_result(old(self)@.agents, key@, result@),
                ..old(self)@
            }),
    {
        if let Some(i) = self.find_scoped_agent_index(key) {
            proof {
                lemma_scoped_index(old(self)@.agents, key@);
            }
            let mut a = self.take_agent(i);
            a.status = ScopedAgentStatus::Done;
            a.result = Some(result.clone());
            self.set_agent(i, a);
            proof {
                assert(self@.agents =~= with_agent_result(old(self)@.agents, key@, result@));
            }
        }
    }

    /// Streams `text` into the thinking entry.
    fn stream_thinking(&mut self, kind: String, text: String)
        ensures
            ({
                let (log, at) = stream_into(
                    old(self)@.log,
                    old(self)@.thinking_at,
                    EntryView::Thinking { kind: kind@, text: text@ },
                );
                final(self)@ == (ConsoleView { log, thinking_at: at, ..old(self)@ })
            }),
    {
        if let Some(i) = self.active_thinking {
            if i < self.eventlog.len() {
                let existing = match &self.eventlog[i] {
                    LogEntry::Thinking { kind: k, text: t } => Some((k.clone(), t.clone())),
                    _ => None,
                };
                if let Some((k, t)) = existing {
                    let mut merged = t;
                    crate::util::append_delta(&mut merged, text.as_str());
                    let entry = LogEntry::Thinking { kind: k, text: merged };
                    replace_at(&mut self.eventlog, i, entry);
                    proof {
                        assert(entry_views(self.eventlog@) =~= entry_views(old(self).eventlog@).update(
                            i as int,
                            entry@,
                        ));
                    }
                    return;
                }
            }
        }
        let entry = LogEntry::Thinking { kind, text };
        self.eventlog.push(entry);
        self.active_thinking = Some(self.eventlog.len() - 1);
        proof {
            assert(entry_views(self.eventlog@) =~= entry_views(old(self).eventlog@).push(entry@));
        }
    }

    /// Streams `text` into the assistant entry.
    fn stream_assistant(&mut self, text: String)
        ensures
            ({
                let (log, at) = stream_into(
                    old(self)@.log,
                    old(self)@.assistant_at,
                    EntryView::Assistant(text@),
                );
                final(self)@ == (ConsoleView { log, assistant_at: at, ..old(self)@ })
            }),
    {
        if let Some(i) = self.active_assistant {
            if i < self.eventlog.len() {
                let existing = match &self.eventlog[i] {
                    LogEntry::Assistant(t) => Some(t.clone()),
                    _ => None,
                };
                if let Some(t) = existing {
                    let mut merged = t;
                    crate::util::append_delta(&mut merged, text.as_str());
                    let entry = LogEntry::Assistant(merged);
                    replace_at(&mut self.eventlog, i, entry);
                    proof {
                        assert(entry_views(self.eventlog@) =~= entry_views(old(self).eventlog@).update(
                            i as int,
                            entry@,
                        ));
                    }
                    return;
                }
            }
        }
        let entry = LogEntry::Assistant(text);
        self.eventlog.push(entry);
        self.active_assistant = Some(self.eventlog.len() - 1);
        proof {
            assert(entry_views(self.eventlog@) =~= entry_views(old(self).eventlog@).push(entry@));
        }
    }

    /// Adds an entry at the end of the log.
    fn log(&mut self, entry: LogEntry)
        ensures
            final(self)@ == (ConsoleView { log: old(self)@.log.push(entry@), ..old(self)@ }),
    {
        self.eventlog.push(entry);
        proof {
            assert(entry_views(self.eventlog@) =~= entry_views(old(self).eventlog@).push(entry@));
        }
    }
}

/// What the caller does after an event.
pub open spec fn event_effect(e: EventView) -> (bool, Option<Seq<char>>) {
    match e {
        EventView::Finished => (true, None),
        EventView::ScopedAgentFinished { id, result: _ } => (false, Some(id)),
        EventView::ScopedAgentError { id, message: _ } => (false, Some(id)),
        _ => (false, None),
    }
}

impl AgentConsole {
    /// Shows an event of the agent.
    pub fn handle_agent_event(&mut self, event: AgentEvent) -> (effect: EventEffect)
        ensures
            final(self)@ == after_event(old(self)@, event@),
            effect.agent_finished == event_effect(event@).0,
            opt_view(effect.scoped_task_done) == event_effect(event@).1,
    {
        let ghost e = event@;
        let none = EventEffect { agent_finished: false, scoped_task_done: None };
        match event {
            AgentEvent::UserSubmitted { prompt } => {
                self.active_assistant = None;
                self.active_thinking = None;
                self.log(LogEntry::User(prompt));
                self.agentstate = AgentState::Thinking;
                none
            },
            AgentEvent::Thinking { kind, text } => {
                self.stream_thinking(kind, text);
                self.agentstate = AgentState::Thinking;
                none
            },
            AgentEvent::ToolCallStarted { name, args } => {
                self.active_assistant = None;
                self.active_thinking = None;
                self.log(LogEntry::ToolCall { name, args });
                self.agentstate = AgentState::Tool;
                none
            },
            AgentEvent::ToolCallFinished { name, result } => {
                self.log(LogEntry::ToolResult { name, result });
                self.agentstate = AgentState::Tool;
                none
            },
            AgentEvent::AssistantDelta { text } => {
                self.stream_assistant(text);
                self.agentstate = AgentState::Thinking;
                none
            },
            AgentEvent::AssistantFinal { text } => {
                let shown_at: Option<usize> = match self.active_assistant {
                    Some(i) => if i < self.eventlog.len() {
                        match &self.eventlog[i] {
                            LogEntry::Assistant(existing) => if str_eq(existing.as_str(), text.as_str()) {
                                Some(i)
                            } else {
                                None
                            },
                            _ => None,
                        }
                    } else {
                        None
                    },
                    None => None,
                };
                match shown_at {
                    Some(i) => {
                        let entry = LogEntry::AssistantFinal(text);
                        replace_at(&mut self.eventlog, i, entry);
                        proof {
                            assert(entry_views(self.eventlog@) =~= entry_views(old(self).eventlog@).update(
                                i as int,
                                entry@,
                            ));
                        }
                    },
                    None => {
                        self.log(LogEntry::AssistantFinal(text));
                    },
                }
                self.active_assistant = None;
                self.active_thinking = None;
                self.agentstate = AgentState::Done;
                none
            },
            AgentEvent::Error { message } => {
                self.active_assistant = None;
                self.active_thinking = None;
                self.log(LogEntry::Error(message));
                self.agentstate = AgentState::Error;
                none
            },
            AgentEvent::SystemNotice { message } => {
                self.log(LogEntry::System(message));
                none
            },
            AgentEvent::MaxStepsReached => {
                self.active_assistant = None;
                self.active_thinking = None;
                self.log(
                    LogEntry::Error(
                        "Agent reached max steps without producing a final response.".to_owned(),
                    ),
                );
                self.agentstate = AgentState::Done;
                none
            },
            AgentEvent::SessionTitleUpdated { title } => {
                self.title = title;
                none
            },
            AgentEvent::ScopedAgentStarted { id, name, task, max_steps } => {
                let mut note = "Scoped agent `".to_owned();
                note.append(id.as_str());
                note.append("` started.");
                let events = vec!["started".to_owned()];
                let agent = ScopedAgent {
                    id,
                    name,
                    task,
                    status: ScopedAgentStatus::Running,
                    current_step: 0,
                    max_steps,
                    events,
                    result: None,
                };
                proof {
                    assert(events@.map_values(|e: String| e@) =~= seq!["started"@]);
                }
                let ghost av = agent@;
                self.scoped_agents.push(agent);
                proof {
                    assert(agent_views(self.scoped_agents@) =~= old(self)@.agents.push(av));
                }
                self.log(LogEntry::System(note));
                none
            },
            AgentEvent::ScopedAgentStep { id, step } => {
                self.agent_step(id.as_str(), step);
                let mut message = "step ".to_owned();
                message.append(crate::text::u64_to_decimal(step as u64).as_str());
                self.push_scoped_agent_event(id.as_str(), message);
                none
            },
            AgentEvent::ScopedAgentStatus { id, status } => {
                self.agent_status(id.as_str(), status);
                self.push_scoped_agent_event(id.as_str(), status.label());
                none
            },
            AgentEvent::ScopedAgentLog { id, message } => {
                self.push_scoped_agent_event(id.as_str(), message);
                none
            },
            AgentEvent::ScopedAgentFinished { id, result } => {
                self.agent_result(id.as_str(), &result);
                self.push_scoped_agent_event(id.as_str(), "finished".to_owned());
                let mut note = "Scoped agent `".to_owned();
                note.append(id.as_str());
                note.append("` completed:\n");
                note.append(truncate_middle(result.as_str(), 4000).as_str());
                self.log(LogEntry::System(note));
                EventEffect { agent_finished: false, scoped_task_done: Some(id) }
            },
            AgentEvent::ScopedAgentError { id, message } => {
                self.agent_status(id.as_str(), ScopedAgentStatus::Error);
                let mut text = "error: ".to_owned();
                text.append(message.as_str());
                self.push_scoped_agent_event(id.as_str(), text);
                let mut note = "Scoped agent `".to_owned();
                note.append(id.as_str());
                note.append("` failed: ");
                note.append(message.as_str());
                self.log(LogEntry::Error(note));
                EventEffect { agent_finished: false, scoped_task_done: Some(id) }
            },
            AgentEvent::Finished => {
                self.active_assistant = None;
                self.active_thinking = None;
                self.agentstate = AgentState::Done;
                EventEffect { agent_finished: true, scoped_task_done: None }
            },
        }
    }
}

/// Streamed text of one kind builds up in one log entry: after a delta, the entry it streams
/// into holds the text so far with the delta appended as `append_delta` does.
pub proof fn lemma_delta_accumulates(v: ConsoleView, text: Seq<char>, i: usize, before: Seq<char>)
    requires
        v.assistant_at == Some(i),
        i < v.log.len(),
        v.log[i as int] == EntryView::Assistant(before),
    ensures
        after_event(v, EventView::AssistantDelta { text }).log[i as int] == EntryView::Assistant(
            append_delta_spec(before, text),
        ),
        after_event(v, EventView::AssistantDelta { text }).log.len() == v.log.len(),
        after_event(v, EventView::AssistantDelta { text }).assistant_at == Some(i),
{
}

/// A final answer whose text the streamed entry already shows replaces that entry instead
/// of appearing twice.
pub proof fn lemma_final_not_repeated(v: ConsoleView, text: Seq<char>, i: usize)
    requires
        v.assistant_at == Some(i),
        i < v.log.len(),
        v.log[i as int] == EntryView::Assistant(text),
    ensures
        after_event(v, EventView::AssistantFinal { text }).log == v.log.update(
            i as int,
            EntryView::AssistantFinal(text),
        ),
{
}

/// A scoped agent never keeps more than twenty events.
pub proof fn lemma_agent_events_bounded(agents: Seq<ScopedView>, key: Seq<char>, message: Seq<char>)
    requires
        forall|j: int| 0 <= j < agents.len() ==> (#[trigger] agents[j]).events.len() <= 20,
    ensures
        forall|j: int|
            0 <= j < agents.len() ==> (#[trigger] with_agent_event(agents, key, message)[j]).events.len()
                <= 20,
{
    lemma_scoped_index(agents, key);
}

/// Whether every scoped agent keeps at most twenty events.
pub open spec fn agents_events_bounded(agents: Seq<ScopedView>) -> bool {
    forall|j: int| 0 <= j < agents.len() ==> (#[trigger] agents[j]).events.len() <= 20
}

/// Changing the step, the status or the result of an agent leaves every agent's events as
/// they were.
proof fn lemma_agent_changes_keep_events(agents: Seq<ScopedView>, key: Seq<char>)
    ensures
        forall|step: u32, j: int| 0 <= j < agents.len() ==> (#[trigger] with_agent_step(agents, key, step)[j]).events
            == agents[j].events,
        forall|st: ScopedAgentStatus, j: int| 0 <= j < agents.len() ==> (#[trigger] with_agent_status(agents, key, st)[j]).events
            == agents[j].events,
        forall|r: Seq<char>, j: int| 0 <= j < agents.len() ==> (#[trigger] with_agent_result(agents, key, r)[j]).events
            == agents[j].events,
        forall|step: u32| #[trigger] with_agent_step(agents, key, step).len() == agents.len(),
        forall|st: ScopedAgentStatus| #[trigger] with_agent_status(agents, key, st).len() == agents.len(),
        forall|r: Seq<char>| #[trigger] with_agent_result(agents, key, r).len() == agents.len(),
{
    lemma_scoped_index(agents, key);
}

/// Whatever the event, when every scoped agent keeps at most twenty events it still does
/// after the console takes the event; and a log line of a scoped agent ends the events of
/// the first agent that answers to its id, the older ones kept in order with the oldest
/// dropped beyond twenty.
pub proof fn lemma_agent_events_bounded_after_event(v: ConsoleView, e: EventView)
    requires
        agents_events_bounded(v.agents),
    ensures
        agents_events_bounded(after_event(v, e).agents),
        e matches EventView::ScopedAgentLog { id, message } ==> (match scoped_index(v.agents, id) {
            Some(i) => after_event(v, e).agents[i].events == keep_last_events(v.agents[i].events.push(message)),
            None => after_event(v, e).agents == v.agents,
        }),
{
    let a = v.agents;
    match e {
        EventView::ScopedAgentStarted { id, name, task, max_steps } => {
            let r = after_event(v, e).agents;
            assert forall|j: int| 0 <= j < r.len() implies (#[trigger] r[j]).events.len() <= 20 by {
                if j < a.len() {
                    assert(r[j] == a[j]);
                } else {
                    assert(r[j].events =~= seq!["started"@]);
                }
            }
            assert(agents_events_bounded(r));
        },
        EventView::ScopedAgentStep { id, step } => {
            lemma_agent_changes_keep_events(a, id);
            let b = with_agent_step(a, id, step);
            assert(agents_events_bounded(b)) by {
                assert forall|j: int| 0 <= j < b.len() implies (#[trigger] b[j]).events.len() <= 20 by {
                    assert(b[j].events == a[j].events);
                }
            }
            lemma_scoped_index(b, id);
            lemma_agent_events_bounded(b, id, "step "@ + crate::text::decimal(step as nat));
        },
        EventView::ScopedAgentStatus { id, status } => {
            lemma_agent_changes_keep_events(a, id);
            let b = with_agent_status(a, id, status);
            assert(agents_events_bounded(b)) by {
                assert forall|j: int| 0 <= j < b.len() implies (#[trigger] b[j]).events.len() <= 20 by {
                    assert(b[j].events == a[j].events);
                }
            }
            lemma_scoped_index(b, id);
            lemma_agent_events_bounded(b, id, crate::events::scoped_status_name(status));
        },
        EventView::ScopedAgentLog { id, message } => {
            lemma_agent_events_bounded(a, id, message);
            lemma_scoped_index(a, id);
        },
        EventView::ScopedAgentFinished { id, result } => {
            lemma_agent_changes_keep_events(a, id);
            let b = with_agent_result(a, id, result);
            assert(agents_events_bounded(b)) by {
                assert forall|j: int| 0 <= j < b.len() implies (#[trigger] b[j]).events.len() <= 20 by {
                    assert(b[j].events == a[j].events);
                }
            }
            lemma_scoped_index(b, id);
            lemma_agent_events_bounded(b, id, "finished"@);
        },
        EventView::ScopedAgentError { id, message } => {
            lemma_agent_changes_keep_events(a, id);
            let b = with_agent_status(a, id, ScopedAgentStatus::Error);
            assert(agents_events_bounded(b)) by {
                assert forall|j: int| 0 <= j < b.len() implies (#[trigger] b[j]).events.len() <= 20 by {
                    assert(b[j].events == a[j].events);
                }
            }
            lemma_scoped_index(b, id);
            lemma_agent_events_bounded(b, id, "error: "@ + message);
        },
        _ => {
            assert(after_event(v, e).agents == a);
        },
    }
}

} // verus!
