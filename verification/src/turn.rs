//! One turn of the agent: what it makes of a streamed completion, and of the tools it calls.
//!
//! The agent loop alternates requests to the model with decisions. The requests, and the
//! tools themselves, are run by the caller; the decisions are made here.

use vstd::prelude::*;
use vstd::string::*;

use crate::cores::CoreProfile;
use crate::events::{event_views, AgentEvent, EventView};
use crate::session::Config;
use crate::message::{text_message, ChatMessage, ChatRole, ContentView, MessageContent, MessageView};
use crate::util::{append_delta, append_delta_spec};

verus! {

/// A tool call the model asked for.
pub struct ToolCallInfo {
    pub id: String,
    pub name: String,
    /// The arguments, as the JSON text the model wrote.
    pub arguments: String,
}

impl ToolCallInfo {
    pub fn duplicate(&self) -> (c: ToolCallInfo)
        ensures
            c == *self,
    {
        ToolCallInfo { id: self.id.clone(), name: self.name.clone(), arguments: self.arguments.clone() }
    }
}

/// Token counts the provider reports for a completion.
#[derive(Clone, Copy, Debug, PartialEq, Eq, Structural)]
pub struct Usage {
    pub prompt_tokens: u32,
    pub completion_tokens: u32,
    pub total_tokens: u32,
}

/// An event of a streamed completion.
pub enum StreamInput {
    ContentDelta(String),
    ReasoningDelta(String),
    /// Reasoning blocks; those without text are `None`.
    ReasoningDetails(Vec<Option<String>>),
    /// The end of the completion: the tool calls (also as their JSON text) and the usage.
    Done { tool_calls: Vec<ToolCallInfo>, tool_calls_json: String, usage: Option<Usage> },
    /// The stream reported an error, described by the text.
    Failed(String),
}

/// What the caller does after an event of the stream: report the events, record the usage
/// when there is one, and stop the run when the stream failed.
pub struct StreamReaction {
    pub events: Vec<AgentEvent>,
    pub usage: Option<Usage>,
    pub failed: bool,
}

/// The state of a streamed completion.
pub struct StreamTurn {
    /// The text received so far.
    pub content: String,
    /// The tool calls and their JSON text, once the stream is done.
    pub done: Option<(Vec<ToolCallInfo>, String)>,
    /// Whether reasoning arrived as plain deltas (then reasoning blocks are not repeated).
    pub saw_reasoning: bool,
}

/// The events that reasoning blocks produce: one `Thinking` event per block with text.
pub open spec fn reasoning_events(blocks: Seq<Option<String>>) -> Seq<EventView>
    decreases blocks.len(),
{
    if blocks.len() == 0 {
        seq![]
    } else {
        let rest = reasoning_events(blocks.drop_last());
        match blocks.last() {
            Some(t) => rest.push(EventView::Thinking { kind: "reasoning"@, text: t@ }),
            None => rest,
        }
    }
}

impl StreamTurn {
    /// A completion that has not started.
    pub fn new() -> (t: StreamTurn)
        ensures
            t.content@ == Seq::<char>::empty(),
            t.done is None,
            !t.saw_reasoning,
    {
        StreamTurn { content: String::new(), done: None, saw_reasoning: false }
    }

    /// Takes one event of the stream. Content deltas grow the text as `append_delta` does
    /// and are reported as they come; reasoning is reported as thinking, its blocks only
    /// when no plain reasoning delta came; the end keeps the tool calls and hands over the
    /// usage; an error is reported and stops the run.
    pub fn absorb(&mut self, input: StreamInput) -> (r: StreamReaction)
        ensures
            match input {
                StreamInput::ContentDelta(t) => {
                    &&& final(self).content@ == append_delta_spec(old(self).content@, t@)
                    &&& final(self).done == old(self).done
                    &&& final(self).saw_reasoning == old(self).saw_reasoning
                    &&& event_views(r.events@) == seq![EventView::AssistantDelta { text: t@ }]
                    &&& r.usage is None && !r.failed
                },
                StreamInput::ReasoningDelta(t) => {
                    &&& final(self).content == old(self).content
                    &&& final(self).done == old(self).done
                    &&& final(self).saw_reasoning
                    &&& event_views(r.events@) == seq![
                        EventView::Thinking { kind: "reasoning"@, text: t@ },
                    ]
                    &&& r.usage is None && !r.failed
                },
                StreamInput::ReasoningDetails(blocks) => {
                    &&& *final(self) == *old(self)
                    &&& event_views(r.events@) == if old(self).saw_reasoning {
                        Seq::empty()
                    } else {
                        reasoning_events(blocks@)
                    }
                    &&& r.usage is None && !r.failed
                },
                StreamInput::Done { tool_calls, tool_calls_json, usage } => {
                    &&& final(self).content == old(self).content
                    &&& final(self).done == Some((tool_calls, tool_calls_json))
                    &&& final(self).saw_reasoning == old(self).saw_reasoning
                    &&& r.events@.len() == 0
                    &&& r.usage == usage && !r.failed
                },
                StreamInput::Failed(m) => {
                    &&& *final(self) == *old(self)
                    &&& event_views(r.events@) == seq![
                        EventView::Error { message: "OpenRouter stream error: "@ + m@ },
                    ]
                    &&& r.usage is None && r.failed
                },
            },
    {
        match input {
            StreamInput::ContentDelta(t) => {
                append_delta(&mut self.content, t.as_str());
                let events = vec![AgentEvent::AssistantDelta { text: t }];
                proof {
                    assert(event_views(events@) =~= seq![EventView::AssistantDelta { text: t@ }]);
                }
                StreamReaction { events, usage: None, failed: false }
            },
            StreamInput::ReasoningDelta(t) => {
                self.saw_reasoning = true;
                let events = vec![AgentEvent::Thinking { kind: "reasoning".to_owned(), text: t }];
                proof {
                    assert(event_views(events@) =~= seq![
                        EventView::Thinking { kind: "reasoning"@, text: t@ },
                    ]);
                }
                StreamReaction { events, usage: None, failed: false }
            },
            StreamInput::ReasoningDetails(blocks) => {
                let mut events: Vec<AgentEvent> = Vec::new();
                if !self.saw_reasoning {
                    let mut i: usize = 0;
                    while i < blocks.len()
                        invariant
                            i <= blocks@.len(),
                            event_views(events@) == reasoning_events(blocks@.take(i as int)),
                        decreases blocks@.len() - i,
                    {
                        let ghost before = event_views(events@);
                        proof {
                            assert(blocks@.take(i + 1).drop_last() =~= blocks@.take(i as int));
                            assert(blocks@.take(i + 1).last() == blocks@[i as int]);
                        }
                        match &blocks[i] {
                            Some(t) => {
                                let e = AgentEvent::Thinking {
                                    kind: "reasoning".to_owned(),
                                    text: t.clone(),
                                };
                                events.push(e);
                                proof {
                                    assert(event_views(events@) =~= before.push(e@));
                                }
                            },
                            None => {},
                        }
                        i = i + 1;
                    }
                    proof {
                        assert(blocks@.take(blocks@.len() as int) =~= blocks@);
                    }
                } else {
                    assert(event_views(events@) =~= Seq::<EventView>::empty());
                }
                StreamReaction { events, usage: None, failed: false }
            },
            StreamInput::Done { tool_calls, tool_calls_json, usage } => {
                self.done = Some((tool_calls, tool_calls_json));
                StreamReaction { events: Vec::new(), usage, failed: false }
            },
            StreamInput::Failed(m) => {
                let mut message = "OpenRouter stream error: ".to_owned();
                message.append(m.as_str());
                let events = vec![AgentEvent::Error { message }];
                proof {
                    assert(event_views(events@) =~= seq![
                        EventView::Error { message: "OpenRouter stream error: "@ + m@ },
                    ]);
                }
                StreamReaction { events, usage: None, failed: true }
            },
        }
    }
}

/// How a turn ends.
pub enum TurnEnd {
    /// The stream ended before its final event; the run stops with this error event.
    Incomplete(AgentEvent),
    /// The model called tools: the assistant message to add, and the calls to run in order.
    Tools { message: ChatMessage, calls: Vec<ToolCallInfo> },
    /// The model answered: the message to add and the event that reports it.
    Final { message: ChatMessage, event: AgentEvent },
}

/// The assistant message that records tool calls: the text received and the calls' JSON.
pub open spec fn tool_call_message(content: Seq<char>, calls_json: Seq<char>) -> MessageView {
    MessageView {
        role: ChatRole::Assistant,
        content: ContentView::Text(content),
        name: None,
        tool_call_id: None,
        tool_calls_json: Some(calls_json),
    }
}

/// Decides how a turn ends once its stream is over.
pub fn conclude_turn(turn: StreamTurn) -> (r: TurnEnd)
    ensures
        match turn.done {
            None => r matches TurnEnd::Incomplete(e) && e@ == (EventView::Error {
                message: "Crust Agent: stream ended without a final event."@,
            }),
            Some((calls, json)) => if calls@.len() > 0 {
                r matches TurnEnd::Tools { message, calls: c } && message@ == tool_call_message(
                    turn.content@,
                    json@,
                ) && c == calls
            } else {
                r matches TurnEnd::Final { message, event } && message@ == text_message(
                    ChatRole::Assistant,
                    turn.content@,
                ) && event@ == (EventView::AssistantFinal { text: turn.content@ })
            },
        },
{
    match turn.done {
        None => TurnEnd::Incomplete(
            AgentEvent::Error {
                message: "Crust Agent: stream ended without a final event.".to_owned(),
            },
        ),
        Some((calls, json)) => {
            if calls.len() > 0 {
                let message = ChatMessage {
                    role: ChatRole::Assistant,
                    content: MessageContent::Text(turn.content),
                    name: None,
                    tool_call_id: None,
                    tool_calls_json: Some(json),
                };
                TurnEnd::Tools { message, calls }
            } else {
                let text = turn.content.clone();
                TurnEnd::Final {
                    message: ChatMessage::new(ChatRole::Assistant, turn.content),
                    event: AgentEvent::AssistantFinal { text },
                }
            }
        },
    }
}

/// The event that reports a tool call as it starts.
pub fn tool_started(call: &ToolCallInfo) -> (e: AgentEvent)
    ensures
        e@ == (EventView::ToolCallStarted { name: call.name@, args: call.arguments@ }),
{
    AgentEvent::ToolCallStarted { name: call.name.clone(), args: call.arguments.clone() }
}

/// The answer to a tool call: a tool message with the call's id and name, carrying the result.
pub open spec fn tool_response(call: ToolCallInfo, text: Seq<char>) -> MessageView {
    MessageView {
        role: ChatRole::Tool,
        content: ContentView::Text(text),
        name: Some(call.name@),
        tool_call_id: Some(call.id@),
        tool_calls_json: None,
    }
}

/// The text that answers a failed tool call.
pub open spec fn tool_failure_text(call: ToolCallInfo, err: Seq<char>) -> Seq<char> {
    "Tool `"@ + call.name@ + "` failed: "@ + err
}

/// What a finished tool call gives: the events to report and the message that answers the
/// call. A result is reported as `ToolCallFinished` and handed to the model; an error is
/// reported as an error and handed to the model as the failure text.
pub fn tool_outcome(call: &ToolCallInfo, result: Result<String, String>) -> (r: (
    Vec<AgentEvent>,
    ChatMessage,
))
    ensures
        match result {
            Ok(out) => {
                &&& event_views(r.0@) == seq![
                    EventView::ToolCallFinished { name: call.name@, result: out@ },
                ]
                &&& r.1@ == tool_response(*call, out@)
            },
            Err(err) => {
                &&& event_views(r.0@) == seq![
                    EventView::Error { message: tool_failure_text(*call, err@) },
                ]
                &&& r.1@ == tool_response(*call, tool_failure_text(*call, err@))
            },
        },
{
    let text = match &result {
        Ok(out) => out.clone(),
        Err(err) => {
            let mut t = "Tool `".to_owned();
            t.append(call.name.as_str());
            t.append("` failed: ");
            t.append(err.as_str());
            t
        },
    };
    let event = match &result {
        Ok(_) => AgentEvent::ToolCallFinished { name: call.name.clone(), result: text.clone() },
        Err(_) => AgentEvent::Error { message: text.clone() },
    };
    let message = ChatMessage {
        role: ChatRole::Tool,
        content: MessageContent::Text(text),
        name: Some(call.name.clone()),
        tool_call_id: Some(call.id.clone()),
        tool_calls_json: None,
    };
    let events = vec![event];
    proof {
        assert(event_views(events@) =~= seq![event@]);
    }
    (events, message)
}

/// Every tool call of a round is answered by exactly one message, in the order of the
/// calls, whatever each call gives.
pub proof fn lemma_each_call_answered(
    calls: Seq<ToolCallInfo>,
    results: Seq<Result<String, String>>,
    answers: Seq<MessageView>,
)
    requires
        calls.len() == results.len(),
        answers.len() == calls.len(),
        forall|i: int|
            0 <= i < calls.len() ==> #[trigger] answers[i] == match results[i] {
                Ok(out) => tool_response(calls[i], out@),
                Err(err) => tool_response(calls[i], tool_failure_text(calls[i], err@)),
            },
    ensures
        forall|i: int|
            0 <= i < calls.len() ==> (#[trigger] answers[i]).role == ChatRole::Tool
                && answers[i].tool_call_id == Some(calls[i].id@) && answers[i].name == Some(
                calls[i].name@,
            ),
{
    assert forall|i: int| 0 <= i < calls.len() implies (#[trigger] answers[i]).role == ChatRole::Tool
        && answers[i].tool_call_id == Some(calls[i].id@) && answers[i].name == Some(
        calls[i].name@,
    ) by {
        match results[i] {
            Ok(out) => {},
            Err(err) => {},
        }
    }
}

// ---------------------------------------------------------------------------
// The run around the turns
// ---------------------------------------------------------------------------

/// The configuration a run uses: the session's, with the model that the core prefers when
/// it prefers one.
pub fn run_config(config: Config, profile: &CoreProfile) -> (c: Config)
    ensures
        c.max_agent_steps == config.max_agent_steps,
        c.modelname@ == match profile.default_model {
            Some(m) => m@,
            None => config.modelname@,
        },
{
    match &profile.default_model {
        Some(m) => Config { max_agent_steps: config.max_agent_steps, modelname: m.clone() },
        None => config,
    }
}

/// The requests a run may still make.
pub struct StepBudget {
    used: u32,
    max: u32,
}

impl StepBudget {
    pub closed spec fn used(&self) -> nat {
        self.used as nat
    }

    pub closed spec fn max(&self) -> nat {
        self.max as nat
    }

    /// A budget of `max` requests, none used.
    pub fn new(max: u32) -> (b: StepBudget)
        ensures
            b.used() == 0,
            b.max() == max,
    {
        StepBudget { used: 0, max }
    }

    /// Whether another request may be made; when it may, it is counted.
    pub fn take(&mut self) -> (granted: bool)
        requires
            old(self).used() <= old(self).max(),
        ensures
            granted == (old(self).used() < old(self).max()),
            final(self).max() == old(self).max(),
            final(self).used() == if granted {
                old(self).used() + 1
            } else {
                old(self).used()
            },
            final(self).used() <= final(self).max(),
    {
        if self.used < self.max {
            self.used = self.used + 1;
            true
        } else {
            false
        }
    }
}

/// The event that ends a run that used all its steps.
pub fn max_steps_event() -> (e: AgentEvent)
    ensures
        e@ == EventView::MaxStepsReached,
{
    AgentEvent::MaxStepsReached
}

} // verus!
