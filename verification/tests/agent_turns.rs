use crust::context::{model_context_window_tokens, ContextBuilder, ModelWindow};
use crust::cores::{core_profile, default_system_prompt, InteractionMode, ShellKind};
use crust::events::{AgentEvent, ScopedAgent, ScopedAgentStatus};
use crust::message::{estimate_tokens_for_messages, ChatMessage, ChatRole, MessageContent};
use crust::scoped::{
    build_scoped_agent_context, format_scoped_agents, nested_agent_attempt,
    parse_scoped_agent_command, scoped_max_steps_error, scoped_tool_permission,
};
use crust::session::{Config, CoreKind, Session};
use crust::turn::{
    conclude_turn, max_steps_event, run_config, tool_outcome, StepBudget, StreamInput,
    StreamTurn, ToolCallInfo, TurnEnd, Usage,
};

fn text_of(m: &ChatMessage) -> String {
    match &m.content {
        MessageContent::Text(t) => t.clone(),
        _ => panic!("expected text"),
    }
}

fn call(id: &str, name: &str) -> ToolCallInfo {
    ToolCallInfo { id: id.to_string(), name: name.to_string(), arguments: "{}".to_string() }
}

#[test]
fn a_turn_that_answers() {
    let mut t = StreamTurn::new();
    let r = t.absorb(StreamInput::ContentDelta("Hel".to_string()));
    assert!(matches!(&r.events[..], [AgentEvent::AssistantDelta { text }] if text == "Hel"));
    t.absorb(StreamInput::ContentDelta("Hello".to_string()));
    let done = t.absorb(StreamInput::Done {
        tool_calls: Vec::new(),
        tool_calls_json: "[]".to_string(),
        usage: Some(Usage { prompt_tokens: 3, completion_tokens: 2, total_tokens: 5 }),
    });
    assert!(done.events.is_empty());
    assert_eq!(done.usage.map(|u| u.total_tokens), Some(5));
    match conclude_turn(t) {
        TurnEnd::Final { message, event } => {
            assert_eq!(text_of(&message), "Hello");
            assert!(matches!(message.role, ChatRole::Assistant));
            assert!(matches!(event, AgentEvent::AssistantFinal { text } if text == "Hello"));
        }
        _ => panic!("expected a final answer"),
    }
}

#[test]
fn a_turn_that_calls_tools() {
    let mut t = StreamTurn::new();
    t.absorb(StreamInput::Done {
        tool_calls: vec![call("c1", "shell_calling_tool")],
        tool_calls_json: "[{\"id\":\"c1\"}]".to_string(),
        usage: None,
    });
    match conclude_turn(t) {
        TurnEnd::Tools { message, calls } => {
            assert_eq!(calls.len(), 1);
            assert_eq!(calls[0].id, "c1");
            assert_eq!(message.tool_calls_json.as_deref(), Some("[{\"id\":\"c1\"}]"));
        }
        _ => panic!("expected tool calls"),
    }
}

#[test]
fn a_turn_without_end_or_with_failure() {
    let mut t = StreamTurn::new();
    let failed = t.absorb(StreamInput::Failed("timeout".to_string()));
    assert!(failed.failed);
    assert!(matches!(&failed.events[..], [AgentEvent::Error { message }] if message == "OpenRouter stream error: timeout"));
    match conclude_turn(t) {
        TurnEnd::Incomplete(AgentEvent::Error { message }) => {
            assert_eq!(message, "Crust Agent: stream ended without a final event.")
        }
        _ => panic!("expected an incomplete turn"),
    }
}

#[test]
fn reasoning_details_only_without_plain_reasoning() {
    let mut t = StreamTurn::new();
    let r = t.absorb(StreamInput::ReasoningDetails(vec![Some("a".to_string()), None, Some("b".to_string())]));
    assert_eq!(r.events.len(), 2);
    t.absorb(StreamInput::ReasoningDelta("plain".to_string()));
    assert!(t.saw_reasoning);
    let r = t.absorb(StreamInput::ReasoningDetails(vec![Some("c".to_string())]));
    assert!(r.events.is_empty());
}

#[test]
fn tool_outcomes_answer_each_call() {
    let c = call("id-7", "read_file_tool");
    let (events, message) = tool_outcome(&c, Ok("contents".to_string()));
    assert!(matches!(&events[..], [AgentEvent::ToolCallFinished { name, result }] if name == "read_file_tool" && result == "contents"));
    assert_eq!(message.tool_call_id.as_deref(), Some("id-7"));
    assert_eq!(message.name.as_deref(), Some("read_file_tool"));
    assert!(message.role.is_tool());
    let (events, message) = tool_outcome(&c, Err("no such file".to_string()));
    assert!(matches!(&events[..], [AgentEvent::Error { message }] if message == "Tool `read_file_tool` failed: no such file"));
    assert_eq!(text_of(&message), "Tool `read_file_tool` failed: no such file");
}

#[test]
fn step_budget_and_limits() {
    let mut b = StepBudget::new(2);
    assert!(b.take());
    assert!(b.take());
    assert!(!b.take());
    assert!(!StepBudget::new(0).take());
    assert!(matches!(max_steps_event(), AgentEvent::MaxStepsReached));
    assert_eq!(
        scoped_max_steps_error(4),
        "scoped agent reached max steps (4) without a final response"
    );
}

#[test]
fn cores_and_shells() {
    let general = core_profile(CoreKind::General, ShellKind::Bash, "vendor/model");
    assert_eq!(general.display_name, "General");
    assert!(general.default_model.is_none());
    assert_eq!(general.interaction_mode, InteractionMode::Autonomous);
    assert!(general.system_prompt.contains("run Bash commands"));
    let pair = core_profile(CoreKind::PairProgramming, ShellKind::PowerShell, "vendor/model");
    assert_eq!(pair.interaction_mode, InteractionMode::SuggestAndConfirm);
    assert_eq!(pair.default_model.as_deref(), Some("vendor/model"));
    assert_eq!(pair.display_name, "Pair Programming");
    assert!(pair.system_prompt.contains("run PowerShell commands"));
    assert_eq!(default_system_prompt(ShellKind::Cmd), core_profile(CoreKind::General, ShellKind::Cmd, "vendor/model").system_prompt);

    assert_eq!(ShellKind::from_config(" Bash ", true), Ok(ShellKind::Bash));
    assert_eq!(ShellKind::from_config("pwsh", false), Ok(ShellKind::PowerShell));
    assert_eq!(ShellKind::from_config("", true), Ok(ShellKind::PowerShell));
    assert_eq!(ShellKind::from_config("AUTO", false), Ok(ShellKind::Bash));
    assert_eq!(ShellKind::from_config("cmd", false), Ok(ShellKind::Cmd));
    assert_eq!(
        ShellKind::from_config(" Zsh ", false),
        Err("Unsupported CRUST_SHELL value `zsh`. Use auto, bash, powershell, or cmd.".to_string())
    );
    assert_eq!(ShellKind::Cmd.display_name(), "cmd.exe");
}

#[test]
fn run_uses_the_core_model() {
    let cfg = Config::from_env_values(Some("7".to_string()), Some("base".to_string()));
    let learning = core_profile(CoreKind::Learning, ShellKind::Bash, "teacher");
    let c = run_config(cfg, &learning);
    assert_eq!(c.modelname, "teacher");
    assert_eq!(learning.interaction_mode, InteractionMode::Autonomous);
    assert_eq!(learning.display_name, "Learning");
    assert_eq!(c.max_agent_steps, 7);
    let general = core_profile(CoreKind::General, ShellKind::Bash, "vendor/model");
    let c = run_config(Config::from_env_values(None, Some("base".to_string())), &general);
    assert_eq!(c.modelname, "base");
}

#[test]
fn context_windows() {
    let catalog = vec![
        ModelWindow { id: "a".to_string(), context_window: 1000 },
        ModelWindow { id: "b".to_string(), context_window: 0 },
    ];
    assert_eq!(model_context_window_tokens("a", &catalog), 1000);
    assert_eq!(model_context_window_tokens("b", &catalog), 128_000);
    assert_eq!(model_context_window_tokens("c", &catalog), 128_000);
}

#[test]
fn token_estimates() {
    let msgs = vec![ChatMessage::new(ChatRole::User, "abcd".to_string())];
    assert_eq!(estimate_tokens_for_messages(&msgs), 2);
    let msgs = vec![ChatMessage::new(ChatRole::Tool, "abcd".to_string())];
    assert_eq!(estimate_tokens_for_messages(&msgs), 2);
    assert_eq!(estimate_tokens_for_messages(&[]), 0);
    assert_eq!(ContextBuilder::default().estimate_context_tokens(&msgs), 2);
    assert_eq!(ContextBuilder::default().estimate_context_tokens(&[]), 0);
}

#[test]
fn context_of_a_session() {
    let mut s = Session::new("c".to_string(), "sys", Config::from_env_values(None, None));
    s.add_message(ChatMessage::new(ChatRole::User, "q".to_string()));
    let mut tool = ChatMessage::new(ChatRole::Tool, "z".repeat(100));
    tool.tool_call_id = Some("t1".to_string());
    s.add_message(tool);
    let builder = ContextBuilder { max_tool_response_chars: 70, min_recent_messages: 12 };
    let ctx = builder.build_context(&s, 0);
    let texts: Vec<String> = ctx.iter().map(text_of).collect();
    assert_eq!(texts.len(), 3);
    assert_eq!(texts[0], "sys");
    assert_eq!(texts[1], "q");
    assert_eq!(
        texts[2],
        format!(
            "[Tool output truncated from 100 chars to 70 chars for model context]\n{}\n... [truncated] ...\n{}",
            "z".repeat(24),
            "z".repeat(25)
        )
    );

    s.summary = Some("earlier work".to_string());
    s.compacted_until = 2;
    let ctx = ContextBuilder::default().build_context(&s, 0);
    let texts: Vec<String> = ctx.iter().map(text_of).collect();
    assert_eq!(texts.len(), 4);
    assert_eq!(
        texts[1],
        "Prior compacted conversation summary. Treat this as durable context, not a new user request.\n\nearlier work"
    );
    assert_eq!(texts[2], "q");
    assert_eq!(texts[3], "z".repeat(100));
}

#[test]
fn scoped_agent_commands_and_permissions() {
    assert_eq!(
        parse_scoped_agent_command("/agent helper  find the bug "),
        Some(("helper".to_string(), "find the bug".to_string()))
    );
    assert_eq!(parse_scoped_agent_command("/agent helper"), None);
    assert_eq!(parse_scoped_agent_command("/agents"), None);
    assert!(nested_agent_attempt("CRUST Agent run"));
    assert!(nested_agent_attempt("echo /agent x"));
    assert!(!nested_agent_attempt("cargo test"));
    assert_eq!(scoped_tool_permission("read_file_tool", ""), Ok(()));
    assert_eq!(scoped_tool_permission("shell_calling_tool", "ls"), Ok(()));
    assert_eq!(
        scoped_tool_permission("shell_calling_tool", "spawn agent now"),
        Err("scoped agents cannot spawn or invoke nested agents".to_string())
    );
    assert_eq!(
        scoped_tool_permission("web_search_tool", ""),
        Err("tool `web_search_tool` is not available to scoped agents".to_string())
    );
}

#[test]
fn scoped_agent_listing() {
    assert_eq!(format_scoped_agents(&[]), "No scoped agents in this session.");
    let a = ScopedAgent {
        id: "a1".to_string(),
        name: "helper".to_string(),
        task: "find the bug".to_string(),
        status: ScopedAgentStatus::Tool,
        current_step: 2,
        max_steps: 6,
        events: Vec::new(),
        result: None,
    };
    assert_eq!(format_scoped_agents(&[a]), "helper [Tool] 2/6 - find the bug");
}

#[test]
fn scoped_agent_context() {
    let mut s = Session::new("p".to_string(), "sys", Config::from_env_values(None, None));
    for t in ["one", "two", "three", "four", "five"] {
        s.add_message(ChatMessage::new(ChatRole::User, t.to_string()));
    }
    s.summary = Some("sum".to_string());
    let ctx = build_scoped_agent_context(&s, "the task");
    let texts: Vec<String> = ctx.iter().map(text_of).collect();
    assert_eq!(texts.len(), 7);
    assert!(texts[0].starts_with("You are a scoped child coding agent"));
    assert_eq!(texts[1], "Parent session compacted summary for background only:\nsum");
    assert_eq!(&texts[2..6], &["two", "three", "four", "five"]);
    assert_eq!(texts[6], "Scoped task:\nthe task");
    assert!(matches!(ctx[6].role, ChatRole::User));
}

#[test]
fn each_shell_runs_commands_with_its_own_program() {
    let (program, args) = ShellKind::Bash.invocation("ls -la");
    assert_eq!(program, "bash");
    assert_eq!(args, vec!["-lc", "ls -la"]);
    let (program, args) = ShellKind::PowerShell.invocation("dir");
    assert_eq!(program, "powershell.exe");
    assert_eq!(args, vec!["-NoProfile", "-Command", "dir"]);
    let (program, args) = ShellKind::Cmd.invocation("dir");
    assert_eq!(program, "cmd.exe");
    assert_eq!(args, vec!["/C", "dir"]);
}
