//! What the agent reports while it works, and the scoped child agents it runs.

use vstd::prelude::*;
use vstd::string::*;

verus! {

/// What the agent is doing, as the interface shows it.
#[derive(Clone, Copy, Debug, PartialEq, Eq, Structural)]
pub enum AgentState {
    Idle,
    Done,
    Thinking,
    Tool,
    Error,
}

impl AgentState {
    /// The state of an agent that has not started: idle.
    pub fn initial() -> (s: AgentState)
        ensures
            s == AgentState::Idle,
    {
        AgentState::Idle
    }
}

/// The state of a scoped child agent.
#[derive(Clone, Copy, Debug, PartialEq, Eq, Structural)]
pub enum ScopedAgentStatus {
    Pending,
    Running,
    Tool,
    Done,
    Error,
    Cancelled,
}

/// The status as `Display` writes it.
pub open spec fn scoped_status_name(s: ScopedAgentStatus) -> Seq<char> {
    match s {
        ScopedAgentStatus::Pending => "Pending"@,
        ScopedAgentStatus::Running => "Running"@,
        ScopedAgentStatus::Tool => "Tool"@,
        ScopedAgentStatus::Done => "Done"@,
        ScopedAgentStatus::Error => "Error"@,
        ScopedAgentStatus::Cancelled => "Cancelled"@,
    }
}

impl ScopedAgentStatus {
    /// The name of the status.
    pub fn label(&self) -> (s: String)
        ensures
            s@ == scoped_status_name(*self),
    {
        match self {
            ScopedAgentStatus::Pending => "Pending".to_owned(),
            ScopedAgentStatus::Running => "Running".to_owned(),
            ScopedAgentStatus::Tool => "Tool".to_owned(),
            ScopedAgentStatus::Done => "Done".to_owned(),
            ScopedAgentStatus::Error => "Error".to_owned(),
            ScopedAgentStatus::Cancelled => "Cancelled".to_owned(),
        }
    }
}

/// Something the agent reports.
pub enum AgentEvent {
    UserSubmitted { prompt: String },
    Thinking { kind: String, text: String },
    ToolCallStarted { name: String, args: String },
    ToolCallFinished { name: String, result: String },
    AssistantDelta { text: String },
    AssistantFinal { text: String },
    Error { message: String },
    SystemNotice { message: String },
    MaxStepsReached,
    SessionTitleUpdated { title: String },
    ScopedAgentStarted { id: String, name: String, task: String, max_steps: u32 },
    ScopedAgentStep { id: String, step: u32 },
    ScopedAgentStatus { id: String, status: ScopedAgentStatus },
    ScopedAgentLog { id: String, message: String },
    ScopedAgentFinished { id: String, result: String },
    ScopedAgentError { id: String, message: String },
    Finished,
}

/// The contents of an event.
pub ghost enum EventView {
    UserSubmitted { prompt: Seq<char> },
    Thinking { kind: Seq<char>, text: Seq<char> },
    ToolCallStarted { name: Seq<char>, args: Seq<char> },
    ToolCallFinished { name: Seq<char>, result: Seq<char> },
    AssistantDelta { text: Seq<char> },
    AssistantFinal { text: Seq<char> },
    Error { message: Seq<char> },
    SystemNotice { message: Seq<char> },
    MaxStepsReached,
    SessionTitleUpdated { title: Seq<char> },
    ScopedAgentStarted { id: Seq<char>, name: Seq<char>, task: Seq<char>, max_steps: u32 },
    ScopedAgentStep { id: Seq<char>, step: u32 },
    ScopedAgentStatus { id: Seq<char>, status: ScopedAgentStatus },
    ScopedAgentLog { id: Seq<char>, message: Seq<char> },
    ScopedAgentFinished { id: Seq<char>, result: Seq<char> },
    ScopedAgentError { id: Seq<char>, message: Seq<char> },
    Finished,
}

impl View for AgentEvent {
    type V = EventView;

    open spec fn view(&self) -> EventView {
        match self {
            AgentEvent::UserSubmitted { prompt } => EventView::UserSubmitted { prompt: prompt@ },
            AgentEvent::Thinking { kind, text } => EventView::Thinking { kind: kind@, text: text@ },
            AgentEvent::ToolCallStarted { name, args } => EventView::ToolCallStarted {
                name: name@,
                args: args@,
            },
            AgentEvent::ToolCallFinished { name, result } => EventView::ToolCallFinished {
                name: name@,
                result: result@,
            },
            AgentEvent::AssistantDelta { text } => EventView::AssistantDelta { text: text@ },
            AgentEvent::AssistantFinal { text } => EventView::AssistantFinal { text: text@ },
            AgentEvent::Error { message } => EventView::Error { message: message@ },
            AgentEvent::SystemNotice { message } => EventView::SystemNotice { message: message@ },
            AgentEvent::MaxStepsReached => EventView::MaxStepsReached,
            AgentEvent::SessionTitleUpdated { title } => EventView::SessionTitleUpdated {
                title: title@,
            },
            AgentEvent::ScopedAgentStarted { id, name, task, max_steps } =>
                EventView::ScopedAgentStarted {
                id: id@,
                name: name@,
                task: task@,
                max_steps: *max_steps,
            },
            AgentEvent::ScopedAgentStep { id, step } => EventView::ScopedAgentStep {
                id: id@,
                step: *step,
            },
            AgentEvent::ScopedAgentStatus { id, status } => EventView::ScopedAgentStatus {
                id: id@,
                status: *status,
            },
            AgentEvent::ScopedAgentLog { id, message } => EventView::ScopedAgentLog {
                id: id@,
                message: message@,
            },
            AgentEvent::ScopedAgentFinished { id, result } => EventView::ScopedAgentFinished {
                id: id@,
                result: result@,
            },
            AgentEvent::ScopedAgentError { id, message } => EventView::ScopedAgentError {
                id: id@,
                message: message@,
            },
            AgentEvent::Finished => EventView::Finished,
        }
    }
}

/// The contents of a list of events.
pub open spec fn event_views(v: Seq<AgentEvent>) -> Seq<EventView> {
    v.map_values(|e: AgentEvent| e@)
}

/// An event and the session it belongs to.
pub struct TaggedAgentEvent {
    pub session_id: String,
    pub event: AgentEvent,
}

/// A scoped child agent, as its parent session tracks it.
pub struct ScopedAgent {
    pub id: String,
    pub name: String,
    pub task: String,
    pub status: ScopedAgentStatus,
    pub current_step: u32,
    pub max_steps: u32,
    pub events: Vec<String>,
    pub result: Option<String>,
}

/// The contents of a scoped agent.
pub ghost struct ScopedView {
    pub id: Seq<char>,
    pub name: Seq<char>,
    pub task: Seq<char>,
    pub status: ScopedAgentStatus,
    pub current_step: u32,
    pub max_steps: u32,
    pub events: Seq<Seq<char>>,
    pub result: Option<Seq<char>>,
}

impl View for ScopedAgent {
    type V = ScopedView;

    open spec fn view(&self) -> ScopedView {
        ScopedView {
            id: self.id@,
            name: self.name@,
            task: self.task@,
            status: self.status,
            current_step: self.current_step,
            max_steps: self.max_steps,
            events: self.events@.map_values(|e: String| e@),
            result: match self.result {
                Some(r) => Some(r@),
                None => None,
            },
        }
    }
}

/// The contents of a list of scoped agents.
pub open spec fn agent_views(v: Seq<ScopedAgent>) -> Seq<ScopedView> {
    v.map_values(|a: ScopedAgent| a@)
}

} // verus!
