use crust::approval::{ApprovalBook, PendingApproval};
use crust::cores::InteractionMode;
use crust::events::{AgentEvent, ScopedAgentStatus};
use crust::gateway::{
    accept_prompt, activity_line, agent_event_summary, approval_not_found_error,
    create_space_from_request, interaction_mode_str, rename_request_name,
    session_not_found_error, session_request_defaults, DEFAULT_SYSPROMPT,
};
use crust::registry::{CrustSpace, SpaceStatus, SpacesRegistry};
use crust::spaces::{
    build_space_context_handoff_message, context_handoff_message, format_spaces_registry,
    validate_agent_protocol_message, AgentProtocolMessage, AgentProtocolMessageType,
    AgentProtocolPayload, SpaceControl, SpaceControlCommand, SpaceHeartbeat, SpaceResultReturn,
};

fn space(id: &str) -> CrustSpace {
    CrustSpace {
        id: id.to_string(),
        name: id.to_string(),
        session_id: "sess".to_string(),
        cwd: "/w".to_string(),
        status: SpaceStatus::Idle,
        process_id: None,
        task_id: None,
        task: None,
        created_at: "c".to_string(),
        updated_at: "u".to_string(),
    }
}

#[test]
fn request_defaults() {
    assert_eq!(
        session_request_defaults(None, None),
        ("Gateway Session".to_string(), DEFAULT_SYSPROMPT.to_string())
    );
    assert_eq!(
        session_request_defaults(Some("n".to_string()), Some("p".to_string())),
        ("n".to_string(), "p".to_string())
    );
    assert_eq!(session_not_found_error("x"), "session 'x' not found");
    assert_eq!(approval_not_found_error("a"), "approval 'a' not found");
}

#[test]
fn prompts_are_checked() {
    assert_eq!(accept_prompt("hi", "s", true), Ok(()));
    assert_eq!(accept_prompt("  ", "s", true), Err((400, "prompt must not be empty".to_string())));
    assert_eq!(accept_prompt("hi", "s", false), Err((404, "session 's' not found".to_string())));
    assert_eq!(accept_prompt("", "s", false), Err((400, "prompt must not be empty".to_string())));
}

#[test]
fn renames_are_checked() {
    assert_eq!(rename_request_name("  new name "), Ok("new name".to_string()));
    assert_eq!(rename_request_name(" \t"), Err("name must not be empty".to_string()));
}

#[test]
fn spaces_created_by_request() {
    let registry = SpacesRegistry { spaces: vec![space("taken")] };
    let s = create_space_from_request(" fresh ", &registry, "/cwd".to_string(), "sid".to_string(), "now".to_string()).unwrap();
    assert_eq!(s.id, "fresh");
    assert_eq!(s.name, "fresh");
    assert_eq!(s.cwd, "/cwd");
    assert_eq!(s.status, SpaceStatus::Idle);
    match create_space_from_request("TAKEN", &registry, "/cwd".to_string(), "sid".to_string(), "now".to_string()) {
        Err((code, e)) => {
            assert_eq!(code, 409);
            assert_eq!(e, "space 'TAKEN' already exists");
        }
        Ok(_) => panic!("a taken id must be refused"),
    }
    match create_space_from_request("  ", &registry, "/cwd".to_string(), "sid".to_string(), "now".to_string()) {
        Err((code, e)) => {
            assert_eq!(code, 400);
            assert_eq!(e, "id must not be empty");
        }
        Ok(_) => panic!("a blank id must be refused"),
    }
}

#[test]
fn event_summaries() {
    assert_eq!(interaction_mode_str(InteractionMode::Autonomous), "autonomous");
    assert_eq!(interaction_mode_str(InteractionMode::SuggestAndConfirm), "suggest_and_confirm");
    assert_eq!(
        agent_event_summary(&AgentEvent::UserSubmitted { prompt: "héllo".to_string() }),
        "user submitted (6 chars)"
    );
    assert_eq!(
        agent_event_summary(&AgentEvent::ToolCallStarted { name: "shell_calling_tool".to_string(), args: "{}".to_string() }),
        "tool started shell_calling_tool"
    );
    assert_eq!(
        agent_event_summary(&AgentEvent::ScopedAgentStatus { id: "a".to_string(), status: ScopedAgentStatus::Cancelled }),
        "scoped agent a status Cancelled"
    );
    assert_eq!(
        agent_event_summary(&AgentEvent::ScopedAgentStep { id: "a".to_string(), step: 3 }),
        "scoped agent a step 3"
    );
    assert_eq!(agent_event_summary(&AgentEvent::Finished), "finished");
    assert_eq!(agent_event_summary(&AgentEvent::MaxStepsReached), "max steps reached");
}

#[test]
fn activity_lines_pad_the_component() {
    assert_eq!(activity_line("12:00:00", "http", "GET /"), "[12:00:00] http    GET /");
    assert_eq!(activity_line("t", "component", "m"), "[t] component m");
}

#[test]
fn spaces_listing() {
    let empty = SpacesRegistry { spaces: Vec::new() };
    assert_eq!(
        format_spaces_registry(&empty, "/w/.crust_spaces/registry.json"),
        "No Crust spaces registered. Create one with `crust spaces create <id>`. Registry: /w/.crust_spaces/registry.json"
    );
    let mut busy = space("b");
    busy.status = SpaceStatus::Running;
    busy.task = Some("build".to_string());
    busy.process_id = Some(42);
    let reg = SpacesRegistry { spaces: vec![space("a"), busy] };
    assert_eq!(
        format_spaces_registry(&reg, "ignored"),
        "a [idle] session=sess cwd=/w task=none pid=none\nb [running] session=sess cwd=/w task=build pid=42"
    );
}

fn message(message_type: AgentProtocolMessageType, payload: AgentProtocolPayload) -> AgentProtocolMessage {
    AgentProtocolMessage {
        protocol_version: 1,
        message_id: "m".to_string(),
        space_id: "s".to_string(),
        task_id: "t".to_string(),
        message_type,
        correlation_id: "c".to_string(),
        timestamp: "now".to_string(),
        payload,
    }
}

fn heartbeat() -> AgentProtocolPayload {
    AgentProtocolPayload::Heartbeat(SpaceHeartbeat { status: SpaceStatus::Running })
}

#[test]
fn protocol_messages_are_validated() {
    let ok = message(AgentProtocolMessageType::Heartbeat, heartbeat());
    assert_eq!(validate_agent_protocol_message(&ok, None), Ok(()));

    let mut old = message(AgentProtocolMessageType::Heartbeat, heartbeat());
    old.protocol_version = 2;
    assert_eq!(
        validate_agent_protocol_message(&old, None),
        Err("unsupported AgentProtocol version `2`; expected `1`".to_string())
    );

    let mut blank = message(AgentProtocolMessageType::Heartbeat, heartbeat());
    blank.task_id = " ".to_string();
    blank.timestamp = String::new();
    assert_eq!(
        validate_agent_protocol_message(&blank, None),
        Err("AgentProtocol missing required field `task_id`".to_string())
    );

    let mismatch = message(AgentProtocolMessageType::Progress, heartbeat());
    assert_eq!(
        validate_agent_protocol_message(&mismatch, None),
        Err("AgentProtocol message_type `Progress` does not match payload variant".to_string())
    );

    let empty_result = message(
        AgentProtocolMessageType::ResultReturn,
        AgentProtocolPayload::ResultReturn(SpaceResultReturn {
            final_summary: "  ".to_string(),
            changed_files: Vec::new(),
            validation: Vec::new(),
            artifacts: Vec::new(),
            errors: Vec::new(),
            raw_log_refs: Vec::new(),
        }),
    );
    assert_eq!(
        validate_agent_protocol_message(&empty_result, None),
        Err("result return final_summary cannot be empty".to_string())
    );

    let resume = message(
        AgentProtocolMessageType::Control,
        AgentProtocolPayload::Control(SpaceControl { command: SpaceControlCommand::Resume, reason: None }),
    );
    assert_eq!(
        validate_agent_protocol_message(&resume, Some(&SpaceStatus::Stopped)),
        Err("cannot resume a stopped space".to_string())
    );
    assert_eq!(validate_agent_protocol_message(&resume, Some(&SpaceStatus::Idle)), Ok(()));
}

#[test]
fn handoffs_to_spaces() {
    let mut s = space("s1");
    let m = context_handoff_message(&s, "do it", "mid".to_string(), "cid".to_string(), "tid".to_string(), "ts".to_string());
    assert_eq!(m.task_id, "tid");
    assert_eq!(m.space_id, "s1");
    assert_eq!(m.message_type, AgentProtocolMessageType::ContextHandoff);
    match &m.payload {
        AgentProtocolPayload::ContextHandoff(h) => {
            assert_eq!(h.task, "do it");
            assert_eq!(h.cwd, "/w");
            assert_eq!(h.constraints, vec!["Use only the provided task context unless told otherwise."]);
        }
        _ => panic!("expected a context handoff"),
    }
    assert_eq!(validate_agent_protocol_message(&m, None), Ok(()));

    s.task_id = Some("existing".to_string());
    let built = build_space_context_handoff_message(&s, "again");
    assert_eq!(built.task_id, "existing");
    assert_eq!(built.message_id.len(), 36);
    assert_eq!(built.correlation_id.len(), 36);
    assert_ne!(built.message_id, built.correlation_id);
    assert!(!built.timestamp.is_empty());
    let fresh = build_space_context_handoff_message(&space("s2"), "new");
    assert_eq!(fresh.task_id.len(), 36);
    for id in [&fresh.message_id, &fresh.correlation_id, &fresh.task_id] {
        for (i, c) in id.chars().enumerate() {
            if [8, 13, 18, 23].contains(&i) {
                assert_eq!(c, '-');
            } else {
                assert!(c.is_ascii_digit() || ('a'..='f').contains(&c));
            }
        }
    }
    assert!(fresh.timestamp.ends_with("+00:00") && fresh.timestamp.len() >= 25);
    for status in [None, Some(&SpaceStatus::Idle), Some(&SpaceStatus::Stopped)] {
        assert_eq!(validate_agent_protocol_message(&fresh, status), Ok(()));
        assert_eq!(validate_agent_protocol_message(&built, status), Ok(()));
    }
}

#[test]
fn approvals_are_delivered_once() {
    let mut book = ApprovalBook::new();
    let a = book.enqueue("s1".to_string(), "shell_calling_tool".to_string(), "{}".to_string());
    let b = book.enqueue("s2".to_string(), "write_file_tool".to_string(), "{}".to_string());
    let c = book.enqueue("s1".to_string(), "edit_file_tool".to_string(), "{}".to_string());
    assert_eq!(a.id.len(), 36);
    let mine: Vec<String> = book.pending_for_session("s1").into_iter().map(|p| p.tool_name).collect();
    assert_eq!(mine, vec!["shell_calling_tool", "edit_file_tool"]);
    assert_eq!(book.remove(&a.id).map(|p| p.tool_name), Some("shell_calling_tool".to_string()));
    assert!(book.remove(&a.id).is_none());
    assert_eq!(book.pending_for_session("s1").len(), 1);
    assert_eq!(book.pending_for_session("s2")[0].id, b.id);
    assert_eq!(book.remove(&c.id).map(|p| p.session_id), Some("s1".to_string()));
    assert!(book.pending_for_session("s1").is_empty());
}

#[test]
fn an_approval_with_a_pending_id_takes_its_place() {
    let mut book = ApprovalBook::new();
    let pending = |id: &str, tool: &str| PendingApproval {
        id: id.to_string(),
        session_id: "s1".to_string(),
        tool_name: tool.to_string(),
        args: "{}".to_string(),
    };
    book.insert(pending("a", "shell_calling_tool"));
    book.insert(pending("b", "write_file_tool"));
    book.insert(pending("a", "edit_file_tool"));
    let ids: Vec<(String, String)> = book
        .pending_for_session("s1")
        .into_iter()
        .map(|p| (p.id, p.tool_name))
        .collect();
    assert_eq!(
        ids,
        vec![
            ("b".to_string(), "write_file_tool".to_string()),
            ("a".to_string(), "edit_file_tool".to_string()),
        ]
    );
}
