//! Scoped child agents: the `/agent` command, their listing, the context they start from,
//! the tools they may use and the decisions of their run.

use vstd::prelude::*;
use vstd::string::*;

use crate::events::{event_views, scoped_status_name, AgentEvent, EventView, ScopedAgent, ScopedAgentStatus};
use crate::langgraph::{last_n, non_system};
use crate::message::{
    text_message, truncate_message_spec, truncate_message_text, views, ChatMessage, ChatRole,
    MessageView,
};
use crate::session::{Session, SessionView};
use crate::text::{
    ascii_lower, chars_of, contains_chars, contains_spec, decimal, is_blank, is_blank_spec,
    min_int, str_eq, strip_prefix_spec, to_ascii_lowercase, trim, trim_spec, truncate_middle,
    truncate_middle_spec, u64_to_decimal,
};
use crate::turn::{tool_failure_text, tool_response, StreamTurn, ToolCallInfo};
use crate::util::{compact_tool_call_text, compact_tool_result_text, tool_call_line, tool_result_line};
use crate::words::{after_first_word, first_word, join, join_strings, split_first_word, strip_prefix, strs};

verus! {

// ---------------------------------------------------------------------------
// The `/agent` command and the listing
// ---------------------------------------------------------------------------

/// `/agent <name> <task>`: the name and the task, both non-empty and trimmed.
pub open spec fn agent_command_spec(prompt: Seq<char>) -> Option<(Seq<char>, Seq<char>)> {
    match strip_prefix_spec(prompt, "/agent "@) {
        None => None,
        Some(rest) => {
            let args = trim_spec(rest);
            let name = trim_spec(first_word(args));
            let task = trim_spec(
                match after_first_word(args) {
                    Some(a) => a,
                    None => seq![],
                },
            );
            if name.len() == 0 || task.len() == 0 {
                None
            } else {
                Some((name, task))
            }
        },
    }
}

/// Parses `/agent <name> <task>`.
pub fn parse_scoped_agent_command(prompt: &str) -> (r: Option<(String, String)>)
    ensures
        match r {
            Some((name, task)) => agent_command_spec(prompt@) == Some((name@, task@)),
            None => agent_command_spec(prompt@) is None,
        },
{
    let rest = strip_prefix(prompt, "/agent ")?;
    let args = trim(rest.as_str());
    let (first, after) = split_first_word(args.as_str());
    let name = trim(first.as_str());
    let task = match after {
        Some(a) => trim(a.as_str()),
        None => {
            proof {
                reveal_strlit("");
            }
            trim("")
        },
    };
    if name.unicode_len() == 0 || task.unicode_len() == 0 {
        None
    } else {
        Some((name, task))
    }
}

/// The line that lists a scoped agent.
pub open spec fn agent_listing(a: ScopedAgent) -> Seq<char> {
    a.name@ + " ["@ + scoped_status_name(a.status) + "] "@ + decimal(a.current_step as nat) + "/"@
        + decimal(a.max_steps as nat) + " - "@ + truncate_middle_spec(a.task@, 160)
}

/// The listing of the scoped agents of a session.
pub open spec fn agents_listing(agents: Seq<ScopedAgent>) -> Seq<char> {
    if agents.len() == 0 {
        "No scoped agents in this session."@
    } else {
        join(agents.map_values(|a: ScopedAgent| agent_listing(a)), "\n"@)
    }
}

fn agent_listing_exec(a: &ScopedAgent) -> (s: String)
    ensures
        s@ == agent_listing(*a),
{
    let mut s = a.name.clone();
    s.append(" [");
    s.append(a.status.label().as_str());
    s.append("] ");
    s.append(u64_to_decimal(a.current_step as u64).as_str());
    s.append("/");
    s.append(u64_to_decimal(a.max_steps as u64).as_str());
    s.append(" - ");
    s.append(truncate_middle(a.task.as_str(), 160).as_str());
    s
}

/// Lists the scoped agents of a session.
pub fn format_scoped_agents(agents: &[ScopedAgent]) -> (s: String)
    ensures
        s@ == agents_listing(agents@),
{
    if agents.len() == 0 {
        return "No scoped agents in this session.".to_owned();
    }
    let mut lines: Vec<String> = Vec::new();
    let mut i: usize = 0;
    while i < agents.len()
        invariant
            i <= agents@.len(),
            strs(lines@) == agents@.take(i as int).map_values(|a: ScopedAgent| agent_listing(a)),
        decreases agents@.len() - i,
    {
        let line = agent_listing_exec(&agents[i]);
        let ghost before = strs(lines@);
        lines.push(line);
        proof {
            assert(strs(lines@) =~= before.push(line@));
            assert(agents@.take(i + 1).map_values(|a: ScopedAgent| agent_listing(a)) =~= agents@.take(
                i as int,
            ).map_values(|a: ScopedAgent| agent_listing(a)).push(agent_listing(agents@[i as int])));
        }
        i = i + 1;
    }
    proof {
        assert(agents@.take(agents@.len() as int) =~= agents@);
    }
    join_strings(lines.as_slice(), "\n")
}

// ---------------------------------------------------------------------------
// What a scoped agent may do
// ---------------------------------------------------------------------------

/// A shell command that would start another agent: one that mentions `/agent`,
/// `crust agent`, `crust /agent` or `spawn agent`, in any ASCII case.
pub open spec fn is_nested_agent_attempt(command: Seq<char>) -> bool {
    let lower = ascii_lower(command);
    contains_spec(lower, "/agent"@) || contains_spec(lower, "crust agent"@) || contains_spec(
        lower,
        "crust /agent"@,
    ) || contains_spec(lower, "spawn agent"@)
}

/// Whether a shell command would start another agent.
pub fn nested_agent_attempt(command: &str) -> (b: bool)
    ensures
        b == is_nested_agent_attempt(command@),
{
    let lower = chars_of(to_ascii_lowercase(command).as_str());
    contains_chars(&lower, &chars_of("/agent")) || contains_chars(&lower, &chars_of("crust agent"))
        || contains_chars(&lower, &chars_of("crust /agent")) || contains_chars(
        &lower,
        &chars_of("spawn agent"),
    )
}

/// Whether a scoped agent may run the tool `name`; `shell_command` is the command of a
/// shell call. Scoped agents may read and edit files and run shell commands that start no
/// other agent; every other tool is refused.
pub open spec fn scoped_tool_allowed(name: Seq<char>, shell_command: Seq<char>) -> Result<(), Seq<char>> {
    if name == "shell_calling_tool"@ {
        if is_nested_agent_attempt(shell_command) {
            Err("scoped agents cannot spawn or invoke nested agents"@)
        } else {
            Ok(())
        }
    } else if name == "read_file_tool"@ || name == "edit_file_tool"@ {
        Ok(())
    } else {
        Err("tool `"@ + name + "` is not available to scoped agents"@)
    }
}

/// Decides whether a scoped agent may run a tool.
pub fn scoped_tool_permission(name: &str, shell_command: &str) -> (r: Result<(), String>)
    ensures
        match r {
            Ok(()) => scoped_tool_allowed(name@, shell_command@) == Ok::<(), Seq<char>>(()),
            Err(e) => scoped_tool_allowed(name@, shell_command@) == Err::<(), Seq<char>>(e@),
        },
{
    if str_eq(name, "shell_calling_tool") {
        if nested_agent_attempt(shell_command) {
            Err("scoped agents cannot spawn or invoke nested agents".to_owned())
        } else {
            Ok(())
        }
    } else if str_eq(name, "read_file_tool") || str_eq(name, "edit_file_tool") {
        Ok(())
    } else {
        let mut e = "tool `".to_owned();
        e.append(name);
        e.append("` is not available to scoped agents");
        Err(e)
    }
}

// ---------------------------------------------------------------------------
// The context a scoped agent starts from
// ---------------------------------------------------------------------------

/// The instructions of every scoped agent.
pub open spec fn scoped_system_prompt() -> Seq<char> {
    "You are a scoped child coding agent inside a parent Crust session. Work only on the explicit task. Keep context and responses short. You may use only the tools provided to this scoped run. Do not invoke, request, simulate, or spawn another agent; nested agents are forbidden. Do not auto-route work to workflows or agents. Return a concise final result with files changed and validation run."@
}

/// The messages a scoped agent starts from: its instructions; the parent's summary (cut to
/// 4000 bytes) when it is not blank; the parent's last four non-system messages, their
/// texts cut to 4000 bytes; and the task.
pub open spec fn scoped_context(s: SessionView, task: Seq<char>) -> Seq<MessageView> {
    let head = seq![text_message(ChatRole::System, scoped_system_prompt())];
    let with_summary = match s.summary {
        Some(t) => if is_blank_spec(t) {
            head
        } else {
            head.push(
                text_message(
                    ChatRole::System,
                    "Parent session compacted summary for background only:\n"@
                        + truncate_middle_spec(t, 4000),
                ),
            )
        },
        None => head,
    };
    with_summary + truncated_all(last_n(non_system(s.messages), 4), 4000) + seq![
        text_message(ChatRole::User, "Scoped task:\n"@ + task),
    ]
}

/// Every message with its text cut to `max` bytes.
pub open spec fn truncated_all(ms: Seq<MessageView>, max: nat) -> Seq<MessageView> {
    ms.map_values(|m: MessageView| truncate_message_spec(m, max))
}

/// Builds the messages a scoped agent starts from.
pub fn build_scoped_agent_context(session: &Session, task: &str) -> (r: Vec<ChatMessage>)
    ensures
        views(r@) == scoped_context(session@, task@),
{
    let mut out: Vec<ChatMessage> = Vec::new();
    out.push(
        ChatMessage::new(
            ChatRole::System,
            "You are a scoped child coding agent inside a parent Crust session. Work only on the explicit task. Keep context and responses short. You may use only the tools provided to this scoped run. Do not invoke, request, simulate, or spawn another agent; nested agents are forbidden. Do not auto-route work to workflows or agents. Return a concise final result with files changed and validation run.".to_owned(),
        ),
    );
    let ghost head = seq![text_message(ChatRole::System, scoped_system_prompt())];
    assert(views(out@) =~= head);
    match &session.summary {
        Some(t) => {
            if !is_blank(t.as_str()) {
                let mut text = "Parent session compacted summary for background only:\n".to_owned();
                text.append(truncate_middle(t.as_str(), 4000).as_str());
                let m = ChatMessage::new(ChatRole::System, text);
                let ghost before = views(out@);
                out.push(m);
                assert(views(out@) =~= before.push(m@));
            }
        },
        None => {},
    }
    let ghost with_summary = views(out@);
    let ghost msgs = session@.messages;
    let mut picked: Vec<&ChatMessage> = Vec::new();
    let mut i: usize = 0;
    while i < session.messages.len()
        invariant
            i <= session.messages@.len(),
            msgs == session@.messages,
            msgs == views(session.messages@),
            picked@.map_values(|m: &ChatMessage| m@) == non_system(msgs.take(i as int)),
        decreases session.messages@.len() - i,
    {
        let m = &session.messages[i];
        proof {
            assert(msgs.take(i + 1).drop_last() =~= msgs.take(i as int));
            assert(msgs.take(i + 1).last() == m@);
        }
        let ghost before = picked@.map_values(|m: &ChatMessage| m@);
        if !m.role.is_system() {
            picked.push(m);
            proof {
                assert(picked@.map_values(|m: &ChatMessage| m@) =~= before.push(m@));
            }
        }
        i = i + 1;
    }
    proof {
        assert(msgs.take(msgs.len() as int) =~= msgs);
    }
    let ghost ns = non_system(msgs);
    let ghost wanted = truncated_all(last_n(ns, 4), 4000);
    let start: usize = if picked.len() > 4 {
        picked.len() - 4
    } else {
        0
    };
    let mut j: usize = start;
    while j < picked.len()
        invariant
            start <= j <= picked@.len(),
            start == picked@.len() - min_int(4, picked@.len() as int),
            ns == picked@.map_values(|m: &ChatMessage| m@),
            wanted == truncated_all(last_n(ns, 4), 4000),
            views(out@) == with_summary + wanted.take(j - start),
        decreases picked@.len() - j,
    {
        let m = truncate_message_text(picked[j], 4000);
        let ghost before = views(out@);
        out.push(m);
        proof {
            assert(last_n(ns, 4)[j - start] == ns[j as int]);
            assert(views(out@) =~= before.push(m@));
            assert(wanted.take(j - start + 1) =~= wanted.take(j - start).push(
                truncate_message_spec(ns[j as int], 4000),
            ));
        }
        j = j + 1;
    }
    proof {
        assert(wanted.take(picked@.len() - start) =~= wanted);
    }
    let mut task_text = "Scoped task:\n".to_owned();
    task_text.append(task);
    let last = ChatMessage::new(ChatRole::User, task_text);
    let ghost before = views(out@);
    out.push(last);
    proof {
        assert(views(out@) =~= before.push(last@));
        assert(scoped_context(session@, task@) =~= with_summary + wanted + seq![last@]);
    }
    out
}

// ---------------------------------------------------------------------------
// The decisions of a scoped run
// ---------------------------------------------------------------------------

/// The event that reports the step a scoped agent starts (counted from one).
pub fn scoped_step_event(agent_id: &str, step_number: u32) -> (e: AgentEvent)
    ensures
        e@ == (EventView::ScopedAgentStep { id: agent_id@, step: step_number }),
{
    AgentEvent::ScopedAgentStep { id: agent_id.to_owned(), step: step_number }
}

/// How a scoped turn ends.
pub enum ScopedTurnEnd {
    /// The run fails with this error.
    Failed(String),
    /// The model called tools: the assistant message and the calls to run in order.
    Tools { message: ChatMessage, calls: Vec<ToolCallInfo> },
    /// The agent is done: the message for the parent session and the event that reports it.
    Finished { parent_message: ChatMessage, event: AgentEvent },
}

/// The result a scoped agent reports: its text, or a note when it wrote none.
pub open spec fn scoped_result(content: Seq<char>) -> Seq<char> {
    if is_blank_spec(content) {
        "Scoped agent finished without text output."@
    } else {
        content
    }
}

/// The message that brings a scoped agent's result into its parent session.
pub open spec fn scoped_result_message(agent_id: Seq<char>, result: Seq<char>) -> MessageView {
    text_message(
        ChatRole::Assistant,
        "Scoped agent `"@ + agent_id + "` final result:\n"@ + truncate_middle_spec(result, 8000),
    )
}

/// Decides how a scoped turn ends once its stream is over.
pub fn conclude_scoped_turn(turn: StreamTurn, agent_id: &str) -> (r: ScopedTurnEnd)
    ensures
        match turn.done {
            None => r matches ScopedTurnEnd::Failed(e) && e@
                == "scoped agent stream ended without a final event"@,
            Some((calls, json)) => if calls@.len() > 0 {
                r matches ScopedTurnEnd::Tools { message, calls: c } && message@
                    == crate::turn::tool_call_message(turn.content@, json@) && c == calls
            } else {
                r matches ScopedTurnEnd::Finished { parent_message, event } && parent_message@
                    == scoped_result_message(agent_id@, scoped_result(turn.content@)) && event@ == (
                EventView::ScopedAgentFinished { id: agent_id@, result: scoped_result(turn.content@) })
            },
        },
{
    let content = turn.content;
    match turn.done {
        None => ScopedTurnEnd::Failed("scoped agent stream ended without a final event".to_owned()),
        Some((calls, json)) => {
            if calls.len() > 0 {
                let message = ChatMessage {
                    role: ChatRole::Assistant,
                    content: crate::message::MessageContent::Text(content),
                    name: None,
                    tool_call_id: None,
                    tool_calls_json: Some(json),
                };
                ScopedTurnEnd::Tools { message, calls }
            } else {
                let result = if is_blank(content.as_str()) {
                    "Scoped agent finished without text output.".to_owned()
                } else {
                    content
                };
                let mut text = "Scoped agent `".to_owned();
                text.append(agent_id);
                text.append("` final result:\n");
                text.append(truncate_middle(result.as_str(), 8000).as_str());
                ScopedTurnEnd::Finished {
                    parent_message: ChatMessage::new(ChatRole::Assistant, text),
                    event: AgentEvent::ScopedAgentFinished { id: agent_id.to_owned(), result },
                }
            }
        },
    }
}

/// The events that report a tool call of a scoped agent as it starts: its status turns to
/// `Tool`, and the call is logged.
pub fn scoped_tool_started(agent_id: &str, call: &ToolCallInfo) -> (r: Vec<AgentEvent>)
    ensures
        event_views(r@) == seq![
            EventView::ScopedAgentStatus { id: agent_id@, status: ScopedAgentStatus::Tool },
            EventView::ScopedAgentLog {
                id: agent_id@,
                message: tool_call_line(call.name@, call.arguments@),
            },
        ],
{
    let r = vec![
        AgentEvent::ScopedAgentStatus { id: agent_id.to_owned(), status: ScopedAgentStatus::Tool },
        AgentEvent::ScopedAgentLog {
            id: agent_id.to_owned(),
            message: compact_tool_call_text(call.name.as_str(), call.arguments.as_str()),
        },
    ];
    assert(event_views(r@) =~= seq![
        EventView::ScopedAgentStatus { id: agent_id@, status: ScopedAgentStatus::Tool },
        EventView::ScopedAgentLog {
            id: agent_id@,
            message: tool_call_line(call.name@, call.arguments@),
        },
    ]);
    r
}

/// What a finished tool call of a scoped agent gives: the log event of its result and the
/// message that answers the call, its text cut to 8000 bytes. An error becomes the failure
/// text, which the agent reads like a result.
pub fn scoped_tool_outcome(agent_id: &str, call: &ToolCallInfo, result: Result<String, String>) -> (r: (
    AgentEvent,
    ChatMessage,
))
    ensures
        ({
            let text = match result {
                Ok(out) => out@,
                Err(err) => tool_failure_text(*call, err@),
            };
            &&& r.0@ == (EventView::ScopedAgentLog {
                id: agent_id@,
                message: tool_result_line(call.name@, text),
            })
            &&& r.1@ == tool_response(*call, truncate_middle_spec(text, 8000))
        }),
{
    let text = match result {
        Ok(out) => out,
        Err(err) => {
            let mut t = "Tool `".to_owned();
            t.append(call.name.as_str());
            t.append("` failed: ");
            t.append(err.as_str());
            t
        },
    };
    let event = AgentEvent::ScopedAgentLog {
        id: agent_id.to_owned(),
        message: compact_tool_result_text(call.name.as_str(), text.as_str()),
    };
    let message = ChatMessage {
        role: ChatRole::Tool,
        content: crate::message::MessageContent::Text(truncate_middle(text.as_str(), 8000)),
        name: Some(call.name.clone()),
        tool_call_id: Some(call.id.clone()),
        tool_calls_json: None,
    };
    (event, message)
}

/// The error of a scoped run that used all its steps.
pub fn scoped_max_steps_error(max_steps: u32) -> (e: String)
    ensures
        e@ == "scoped agent reached max steps ("@ + decimal(max_steps as nat)
            + ") without a final response"@,
{
    let mut e = "scoped agent reached max steps (".to_owned();
    e.append(u64_to_decimal(max_steps as u64).as_str());
    e.append(") without a final response");
    e
}

} // verus!
