use crust::console::{
    message_to_log_entry, opening_log_entries, session_input_history, AgentConsole, InputHistory,
    LogEntry,
};
use crust::events::{AgentEvent, AgentState, ScopedAgentStatus};
use crust::message::{ChatMessage, ChatRole, MessageContent};
use crust::session::{Config, Session};
use crust::turn::ToolCallInfo;

fn show(e: &LogEntry) -> String {
    match e {
        LogEntry::User(t) => format!("user:{t}"),
        LogEntry::Assistant(t) => format!("assistant:{t}"),
        LogEntry::AssistantFinal(t) => format!("final:{t}"),
        LogEntry::Thinking { kind, text } => format!("thinking[{kind}]:{text}"),
        LogEntry::ToolCall { name, args } => format!("call {name}:{args}"),
        LogEntry::ToolResult { name, result } => format!("result {name}:{result}"),
        LogEntry::System(t) => format!("system:{t}"),
        LogEntry::Error(t) => format!("error:{t}"),
    }
}

fn log_of(c: &AgentConsole) -> Vec<String> {
    c.eventlog.iter().map(show).collect()
}

#[test]
fn streamed_deltas_accumulate_into_one_entry() {
    let mut c = AgentConsole::new("title".to_string());
    c.handle_agent_event(AgentEvent::UserSubmitted { prompt: "hi".to_string() });
    c.handle_agent_event(AgentEvent::AssistantDelta { text: "Hel".to_string() });
    c.handle_agent_event(AgentEvent::AssistantDelta { text: "p me".to_string() });
    assert_eq!(log_of(&c), vec!["user:hi", "assistant:Help me"]);
    assert_eq!(c.agentstate, AgentState::Thinking);
    c.handle_agent_event(AgentEvent::AssistantFinal { text: "Help me".to_string() });
    assert_eq!(log_of(&c), vec!["user:hi", "final:Help me"]);
    assert_eq!(c.agentstate, AgentState::Done);
}

#[test]
fn overlapping_delta_is_merged_at_the_overlap() {
    let mut c = AgentConsole::new(String::new());
    c.handle_agent_event(AgentEvent::AssistantDelta { text: "Hel".to_string() });
    c.handle_agent_event(AgentEvent::AssistantDelta { text: "lo".to_string() });
    assert_eq!(log_of(&c), vec!["assistant:Helo"]);
}

#[test]
fn final_text_that_differs_is_added() {
    let mut c = AgentConsole::new(String::new());
    c.handle_agent_event(AgentEvent::AssistantDelta { text: "draft".to_string() });
    c.handle_agent_event(AgentEvent::AssistantFinal { text: "answer".to_string() });
    assert_eq!(log_of(&c), vec!["assistant:draft", "final:answer"]);
}

#[test]
fn tool_calls_break_the_stream() {
    let mut c = AgentConsole::new(String::new());
    c.handle_agent_event(AgentEvent::AssistantDelta { text: "a".to_string() });
    c.handle_agent_event(AgentEvent::ToolCallStarted { name: "shell_calling_tool".to_string(), args: "{}".to_string() });
    assert_eq!(c.agentstate, AgentState::Tool);
    c.handle_agent_event(AgentEvent::ToolCallFinished { name: "shell_calling_tool".to_string(), result: "ok".to_string() });
    c.handle_agent_event(AgentEvent::AssistantDelta { text: "b".to_string() });
    assert_eq!(
        log_of(&c),
        vec!["assistant:a", "call shell_calling_tool:{}", "result shell_calling_tool:ok", "assistant:b"]
    );
}

#[test]
fn thinking_streams_separately() {
    let mut c = AgentConsole::new(String::new());
    c.handle_agent_event(AgentEvent::Thinking { kind: "reasoning".to_string(), text: "step one".to_string() });
    c.handle_agent_event(AgentEvent::Thinking { kind: "reasoning".to_string(), text: " two".to_string() });
    assert_eq!(log_of(&c), vec!["thinking[reasoning]:step one two"]);
}

#[test]
fn errors_notices_and_limits() {
    let mut c = AgentConsole::new(String::new());
    c.handle_agent_event(AgentEvent::SystemNotice { message: "note".to_string() });
    c.handle_agent_event(AgentEvent::MaxStepsReached);
    assert_eq!(c.agentstate, AgentState::Done);
    c.handle_agent_event(AgentEvent::Error { message: "boom".to_string() });
    assert_eq!(c.agentstate, AgentState::Error);
    assert_eq!(
        log_of(&c),
        vec![
            "system:note",
            "error:Agent reached max steps without producing a final response.",
            "error:boom"
        ]
    );
    c.handle_agent_event(AgentEvent::SessionTitleUpdated { title: "new".to_string() });
    assert_eq!(c.title, "new");
    let effect = c.handle_agent_event(AgentEvent::Finished);
    assert!(effect.agent_finished);
    assert_eq!(c.agentstate, AgentState::Done);
}

#[test]
fn scoped_agents_are_tracked() {
    let mut c = AgentConsole::new(String::new());
    c.handle_agent_event(AgentEvent::ScopedAgentStarted {
        id: "a1".to_string(),
        name: "Helper".to_string(),
        task: "look".to_string(),
        max_steps: 5,
    });
    c.handle_agent_event(AgentEvent::ScopedAgentStep { id: "a1".to_string(), step: 2 });
    c.handle_agent_event(AgentEvent::ScopedAgentLog { id: "helper".to_string(), message: "found it".to_string() });
    let effect = c.handle_agent_event(AgentEvent::ScopedAgentFinished {
        id: "a1".to_string(),
        result: "done".to_string(),
    });
    assert_eq!(effect.scoped_task_done.as_deref(), Some("a1"));
    assert!(!effect.agent_finished);
    let a = &c.scoped_agents[0];
    assert_eq!(a.current_step, 2);
    assert_eq!(a.status, ScopedAgentStatus::Done);
    assert_eq!(a.result.as_deref(), Some("done"));
    assert_eq!(a.events, vec!["started", "step 2", "found it", "finished"]);
    assert_eq!(
        log_of(&c),
        vec!["system:Scoped agent `a1` started.", "system:Scoped agent `a1` completed:\ndone"]
    );
}

#[test]
fn scoped_agent_errors_and_event_limit() {
    let mut c = AgentConsole::new(String::new());
    c.handle_agent_event(AgentEvent::ScopedAgentStarted {
        id: "x".to_string(),
        name: "X".to_string(),
        task: "t".to_string(),
        max_steps: 3,
    });
    for i in 0..30 {
        c.push_scoped_agent_event("x", format!("e{i}"));
    }
    assert_eq!(c.scoped_agents[0].events.len(), 20);
    assert_eq!(c.scoped_agents[0].events[19], "e29");
    c.handle_agent_event(AgentEvent::ScopedAgentError { id: "x".to_string(), message: "bad".to_string() });
    assert_eq!(c.scoped_agents[0].status, ScopedAgentStatus::Error);
    assert_eq!(c.scoped_agents[0].events.last().map(String::as_str), Some("error: bad"));
    assert_eq!(log_of(&c).last().map(String::as_str), Some("error:Scoped agent `x` failed: bad"));
    assert_eq!(c.find_scoped_agent_index("missing"), None);
    assert_eq!(c.find_scoped_agent_index(" x "), Some(0));
}

#[test]
fn stored_messages_as_log_entries() {
    let user = ChatMessage::new(ChatRole::User, "question".to_string());
    assert_eq!(show(&message_to_log_entry(&user, None).unwrap()), "user:question");
    let answer = ChatMessage::new(ChatRole::Assistant, "reply".to_string());
    assert_eq!(show(&message_to_log_entry(&answer, None).unwrap()), "final:reply");
    let call = ToolCallInfo {
        id: "c1".to_string(),
        name: "shell_calling_tool".to_string(),
        arguments: "{\"command\":\"ls\"}".to_string(),
    };
    assert_eq!(
        show(&message_to_log_entry(&answer, Some(&call)).unwrap()),
        "call shell_calling_tool:{\"command\":\"ls\"}"
    );
    let mut tool = ChatMessage::new(ChatRole::Tool, "out".to_string());
    assert_eq!(show(&message_to_log_entry(&tool, None).unwrap()), "result unknown:out");
    tool.name = Some("shell_calling_tool".to_string());
    assert_eq!(show(&message_to_log_entry(&tool, None).unwrap()), "result shell_calling_tool:out");
    let system = ChatMessage::new(ChatRole::System, "sys".to_string());
    assert!(message_to_log_entry(&system, None).is_none());
    let mut empty = ChatMessage::new(ChatRole::Assistant, String::new());
    empty.content = MessageContent::Null;
    assert!(message_to_log_entry(&empty, None).is_none());
}

#[test]
fn history_recalls_prompts() {
    let mut s = Session::new("h".to_string(), "sys", Config::from_env_values(None, None));
    for t in ["  first ", "/compact", "   ", "second"] {
        s.add_message(ChatMessage::new(ChatRole::User, t.to_string()));
    }
    s.add_message(ChatMessage::new(ChatRole::Assistant, "not a prompt".to_string()));
    assert_eq!(session_input_history(&s), vec!["first", "second"]);
}

#[test]
fn input_history_navigation() {
    let mut h = InputHistory::new(vec!["one".to_string(), "two".to_string()]);
    assert_eq!(h.load_next(), None);
    assert_eq!(h.load_previous("typing"), Some("two".to_string()));
    assert_eq!(h.load_previous("ignored"), Some("one".to_string()));
    assert_eq!(h.load_previous("ignored"), Some("one".to_string()));
    assert_eq!(h.load_next(), Some("two".to_string()));
    assert_eq!(h.load_next(), Some("typing".to_string()));
    assert_eq!(h.index, None);
    assert_eq!(h.draft, "");
    h.append("  three ");
    h.append("/exit");
    assert_eq!(h.entries, vec!["one", "two", "three"]);
    let mut empty = InputHistory::new(Vec::new());
    assert_eq!(empty.load_previous("x"), None);
    empty.retain_draft("kept");
    assert_eq!(empty.draft, "kept");
}

#[test]
fn every_kind_of_event_keeps_at_most_twenty_per_agent() {
    let mut c = AgentConsole::new(String::new());
    c.handle_agent_event(AgentEvent::ScopedAgentStarted {
        id: "x".to_string(),
        name: "X".to_string(),
        task: "t".to_string(),
        max_steps: 40,
    });
    for step in 0..25u32 {
        c.handle_agent_event(AgentEvent::ScopedAgentStep { id: "x".to_string(), step });
        c.handle_agent_event(AgentEvent::ScopedAgentLog { id: "X".to_string(), message: format!("log {step}") });
        assert!(c.scoped_agents[0].events.len() <= 20);
    }
    c.handle_agent_event(AgentEvent::ScopedAgentStatus { id: "x".to_string(), status: ScopedAgentStatus::Tool });
    c.handle_agent_event(AgentEvent::ScopedAgentFinished { id: "x".to_string(), result: "done".to_string() });
    assert_eq!(c.scoped_agents[0].events.len(), 20);
    assert_eq!(c.scoped_agents[0].events[18], "Tool");
    assert_eq!(c.scoped_agents[0].events[19], "finished");
    assert_eq!(c.scoped_agents[0].events[17], "log 24");
}

#[test]
fn the_log_opens_with_the_session() {
    let mut s = Session::new("work".to_string(), "sys", Config::from_env_values(None, None));
    s.add_message(ChatMessage::new(ChatRole::User, "hi".to_string()));
    s.add_message(ChatMessage::new(ChatRole::Assistant, String::new()));
    s.add_message(ChatMessage::new(ChatRole::Tool, "out".to_string()));
    let call = ToolCallInfo { id: "c".to_string(), name: "read_file_tool".to_string(), arguments: "{}".to_string() };
    let calls = vec![None, None, Some(call), None];
    let restored: Vec<String> = opening_log_entries(&s, &calls, true).iter().map(show).collect();
    assert_eq!(
        restored,
        vec!["user:hi", "call read_file_tool:{}", "result unknown:out", "system:Loaded session: work (4 messages)"]
    );
    let created: Vec<String> = opening_log_entries(&s, &calls, false).iter().map(show).collect();
    assert_eq!(created, vec!["system:Created session: work"]);
}
