//! Crust spaces: their listing and the messages of the protocol between a space and its
//! parent.

use vstd::prelude::*;
use vstd::string::*;

use crate::json::JsonValue;
use crate::registry::{space_status_name, CrustSpace, SpaceStatus, SpacesRegistry};
use crate::system::{
    current_timestamp, hyphenated_uuid, lemma_stamp_not_blank, lemma_uuid_not_blank, new_uuid_string,
    utc_rfc3339,
};
use crate::text::{decimal, is_blank, is_blank_spec, u64_to_decimal};
use crate::words::{join, join_strings, strs, text_or, text_or_default};

verus! {

/// The version of the protocol this library speaks.
pub const AGENT_PROTOCOL_VERSION: u32 = 1;

// ---------------------------------------------------------------------------
// The listing
// ---------------------------------------------------------------------------

/// The line that lists one space.
pub open spec fn space_listing(s: CrustSpace) -> Seq<char> {
    s.id@ + " ["@ + space_status_name(s.status) + "] session="@ + s.session_id@ + " cwd="@
        + s.cwd@ + " task="@ + text_or(s.task, "none"@) + " pid="@ + match s.process_id {
        Some(p) => decimal(p as nat),
        None => "none"@,
    }
}

/// The listing of the registry whose file is at `registry_path`.
pub open spec fn spaces_listing(spaces: Seq<CrustSpace>, registry_path: Seq<char>) -> Seq<char> {
    if spaces.len() == 0 {
        "No Crust spaces registered. Create one with `crust spaces create <id>`. Registry: "@
            + registry_path
    } else {
        join(spaces.map_values(|s: CrustSpace| space_listing(s)), "\n"@)
    }
}

fn space_listing_exec(s: &CrustSpace) -> (r: String)
    ensures
        r@ == space_listing(*s),
{
    let mut r = s.id.clone();
    r.append(" [");
    r.append(s.status.label().as_str());
    r.append("] session=");
    r.append(s.session_id.as_str());
    r.append(" cwd=");
    r.append(s.cwd.as_str());
    r.append(" task=");
    r.append(text_or_default(&s.task, "none").as_str());
    r.append(" pid=");
    match s.process_id {
        Some(p) => r.append(u64_to_decimal(p as u64).as_str()),
        None => r.append("none"),
    }
    r
}

/// Lists the spaces; `registry_path` names the registry file.
pub fn format_spaces_registry(registry: &SpacesRegistry, registry_path: &str) -> (r: String)
    ensures
        r@ == spaces_listing(registry.spaces@, registry_path@),
{
    let spaces = &registry.spaces;
    if spaces.len() == 0 {
        let mut r = "No Crust spaces registered. Create one with `crust spaces create <id>`. Registry: ".to_owned();
        r.append(registry_path);
        return r;
    }
    let mut lines: Vec<String> = Vec::new();
    let mut i: usize = 0;
    while i < spaces.len()
        invariant
            i <= spaces@.len(),
            spaces@ == registry.spaces@,
            strs(lines@) == spaces@.take(i as int).map_values(|s: CrustSpace| space_listing(s)),
        decreases spaces@.len() - i,
    {
        let line = space_listing_exec(&spaces[i]);
        let ghost before = strs(lines@);
        lines.push(line);
        proof {
            assert(strs(lines@) =~= before.push(line@));
            assert(spaces@.take(i + 1).map_values(|s: CrustSpace| space_listing(s)) =~= spaces@.take(
                i as int,
            ).map_values(|s: CrustSpace| space_listing(s)).push(space_listing(spaces@[i as int])));
        }
        i = i + 1;
    }
    proof {
        assert(spaces@.take(spaces@.len() as int) =~= spaces@);
    }
    join_strings(lines.as_slice(), "\n")
}

// ---------------------------------------------------------------------------
// Protocol messages
// ---------------------------------------------------------------------------

/// The kind of a protocol message.
#[derive(Clone, Copy, Debug, PartialEq, Eq, Structural)]
pub enum AgentProtocolMessageType {
    ContextHandoff,
    ResultReturn,
    Control,
    Status,
    Progress,
    Heartbeat,
}

/// The kind as `Debug` writes it.
pub open spec fn message_type_name(t: AgentProtocolMessageType) -> Seq<char> {
    match t {
        AgentProtocolMessageType::ContextHandoff => "ContextHandoff"@,
        AgentProtocolMessageType::ResultReturn => "ResultReturn"@,
        AgentProtocolMessageType::Control => "Control"@,
        AgentProtocolMessageType::Status => "Status"@,
        AgentProtocolMessageType::Progress => "Progress"@,
        AgentProtocolMessageType::Heartbeat => "Heartbeat"@,
    }
}

fn message_type_label(t: AgentProtocolMessageType) -> (s: String)
    ensures
        s@ == message_type_name(t),
{
    match t {
        AgentProtocolMessageType::ContextHandoff => "ContextHandoff".to_owned(),
        AgentProtocolMessageType::ResultReturn => "ResultReturn".to_owned(),
        AgentProtocolMessageType::Control => "Control".to_owned(),
        AgentProtocolMessageType::Status => "Status".to_owned(),
        AgentProtocolMessageType::Progress => "Progress".to_owned(),
        AgentProtocolMessageType::Heartbeat => "Heartbeat".to_owned(),
    }
}

/// A task handed to a space, with the context it may use.
pub struct SpaceContextHandoff {
    pub task: String,
    pub cwd: String,
    pub compact_summary: Option<String>,
    pub recent_messages: Vec<JsonValue>,
    pub selected_files: Vec<JsonValue>,
    pub skills: Vec<JsonValue>,
    pub constraints: Vec<String>,
}

/// What a space hands back when its task is done.
pub struct SpaceResultReturn {
    pub final_summary: String,
    pub changed_files: Vec<String>,
    pub validation: Vec<String>,
    pub artifacts: Vec<String>,
    pub errors: Vec<String>,
    pub raw_log_refs: Vec<String>,
}

/// An order to a space.
#[derive(Clone, Copy, Debug, PartialEq, Eq, Structural)]
pub enum SpaceControlCommand {
    Cancel,
    Pause,
    Resume,
}

/// An order to a space, with its reason.
pub struct SpaceControl {
    pub command: SpaceControlCommand,
    pub reason: Option<String>,
}

/// A change of a space's status.
pub struct SpaceStatusUpdate {
    pub status: SpaceStatus,
    pub detail: Option<String>,
}

/// Progress of a space's task.
pub struct SpaceProgress {
    pub message: String,
    pub step: Option<u32>,
    pub total_steps: Option<u32>,
}

/// A sign of life of a space.
pub struct SpaceHeartbeat {
    pub status: SpaceStatus,
}

/// The body of a protocol message.
pub enum AgentProtocolPayload {
    ContextHandoff(SpaceContextHandoff),
    ResultReturn(SpaceResultReturn),
    Control(SpaceControl),
    Status(SpaceStatusUpdate),
    Progress(SpaceProgress),
    Heartbeat(SpaceHeartbeat),
}

/// A message between a space and its parent.
pub struct AgentProtocolMessage {
    pub protocol_version: u32,
    pub message_id: String,
    pub space_id: String,
    pub task_id: String,
    pub message_type: AgentProtocolMessageType,
    pub correlation_id: String,
    pub timestamp: String,
    pub payload: AgentProtocolPayload,
}

/// Whether the body is of the kind the message declares.
pub open spec fn payload_matches(t: AgentProtocolMessageType, p: AgentProtocolPayload) -> bool {
    match (t, p) {
        (AgentProtocolMessageType::ContextHandoff, AgentProtocolPayload::ContextHandoff(_)) => true,
        (AgentProtocolMessageType::ResultReturn, AgentProtocolPayload::ResultReturn(_)) => true,
        (AgentProtocolMessageType::Control, AgentProtocolPayload::Control(_)) => true,
        (AgentProtocolMessageType::Status, AgentProtocolPayload::Status(_)) => true,
        (AgentProtocolMessageType::Progress, AgentProtocolPayload::Progress(_)) => true,
        (AgentProtocolMessageType::Heartbeat, AgentProtocolPayload::Heartbeat(_)) => true,
        _ => false,
    }
}

/// The first required field of a message that is blank, in the order message id, space
/// id, task id, correlation id, timestamp.
pub open spec fn blank_field(m: AgentProtocolMessage) -> Option<Seq<char>> {
    if is_blank_spec(m.message_id@) {
        Some("message_id"@)
    } else if is_blank_spec(m.space_id@) {
        Some("space_id"@)
    } else if is_blank_spec(m.task_id@) {
        Some("task_id"@)
    } else if is_blank_spec(m.correlation_id@) {
        Some("correlation_id"@)
    } else if is_blank_spec(m.timestamp@) {
        Some("timestamp"@)
    } else {
        None
    }
}

/// Why a message must be refused, given the status of its space; `None` when it is valid.
/// The version must be the current one; the required fields must not be blank; the body
/// must be of the declared kind; a handoff needs a task and a directory; a result needs a
/// summary; and a stopped space cannot be resumed.
pub open spec fn protocol_error(m: AgentProtocolMessage, current: Option<SpaceStatus>) -> Option<Seq<char>> {
    if m.protocol_version != AGENT_PROTOCOL_VERSION {
        Some("unsupported AgentProtocol version `"@ + decimal(m.protocol_version as nat)
            + "`; expected `1`"@)
    } else if blank_field(m) is Some {
        Some("AgentProtocol missing required field `"@ + blank_field(m)->0 + "`"@)
    } else if !payload_matches(m.message_type, m.payload) {
        Some("AgentProtocol message_type `"@ + message_type_name(m.message_type)
            + "` does not match payload variant"@)
    } else {
        match m.payload {
            AgentProtocolPayload::ContextHandoff(h) => if is_blank_spec(h.task@) {
                Some("context handoff task cannot be empty"@)
            } else if is_blank_spec(h.cwd@) {
                Some("context handoff cwd cannot be empty"@)
            } else {
                None
            },
            AgentProtocolPayload::ResultReturn(r) => if is_blank_spec(r.final_summary@) {
                Some("result return final_summary cannot be empty"@)
            } else {
                None
            },
            AgentProtocolPayload::Control(c) => if current == Some(SpaceStatus::Stopped)
                && c.command == SpaceControlCommand::Resume {
                Some("cannot resume a stopped space"@)
            } else {
                None
            },
            _ => None,
        }
    }
}

/// Checks a protocol message before it is written or acted upon.
pub fn validate_agent_protocol_message(
    message: &AgentProtocolMessage,
    current_status: Option<&SpaceStatus>,
) -> (r: Result<(), String>)
    ensures
        match r {
            Ok(()) => protocol_error(
                *message,
                match current_status {
                    Some(s) => Some(*s),
                    None => None,
                },
            ) is None,
            Err(e) => protocol_error(
                *message,
                match current_status {
                    Some(s) => Some(*s),
                    None => None,
                },
            ) == Some(e@),
        },
{
    if message.protocol_version != AGENT_PROTOCOL_VERSION {
        let mut e = "unsupported AgentProtocol version `".to_owned();
        e.append(u64_to_decimal(message.protocol_version as u64).as_str());
        e.append("`; expected `1`");
        return Err(e);
    }
    let field: Option<&str> = if is_blank(message.message_id.as_str()) {
        Some("message_id")
    } else if is_blank(message.space_id.as_str()) {
        Some("space_id")
    } else if is_blank(message.task_id.as_str()) {
        Some("task_id")
    } else if is_blank(message.correlation_id.as_str()) {
        Some("correlation_id")
    } else if is_blank(message.timestamp.as_str()) {
        Some("timestamp")
    } else {
        None
    };
    if let Some(f) = field {
        let mut e = "AgentProtocol missing required field `".to_owned();
        e.append(f);
        e.append("`");
        return Err(e);
    }
    match (&message.message_type, &message.payload) {
        (AgentProtocolMessageType::ContextHandoff, AgentProtocolPayload::ContextHandoff(h)) => {
            if is_blank(h.task.as_str()) {
                return Err("context handoff task cannot be empty".to_owned());
            }
            if is_blank(h.cwd.as_str()) {
                return Err("context handoff cwd cannot be empty".to_owned());
            }
        },
        (AgentProtocolMessageType::ResultReturn, AgentProtocolPayload::ResultReturn(r)) => {
            if is_blank(r.final_summary.as_str()) {
                return Err("result return final_summary cannot be empty".to_owned());
            }
        },
        (AgentProtocolMessageType::Control, AgentProtocolPayload::Control(c)) => {
            let stopped = match current_status {
                Some(SpaceStatus::Stopped) => true,
                _ => false,
            };
            let resume = match c.command {
                SpaceControlCommand::Resume => true,
                _ => false,
            };
            if stopped && resume {
                return Err("cannot resume a stopped space".to_owned());
            }
        },
        (AgentProtocolMessageType::Status, AgentProtocolPayload::Status(_))
        | (AgentProtocolMessageType::Progress, AgentProtocolPayload::Progress(_))
        | (AgentProtocolMessageType::Heartbeat, AgentProtocolPayload::Heartbeat(_)) => {},
        _ => {
            let mut e = "AgentProtocol message_type `".to_owned();
            e.append(message_type_label(message.message_type).as_str());
            e.append("` does not match payload variant");
            return Err(e);
        },
    }
    Ok(())
}

/// The one constraint every handoff to a space carries.
pub open spec fn handoff_constraint() -> Seq<char> {
    "Use only the provided task context unless told otherwise."@
}

/// A handoff of `task` to `space`, with the given identifiers and time: the space's task id
/// when it has one, else `fresh_task_id`; the space's directory; no summary, messages,
/// files or skills; and the one constraint.
pub open spec fn is_context_handoff(
    m: AgentProtocolMessage,
    space: CrustSpace,
    task: Seq<char>,
    message_id: Seq<char>,
    correlation_id: Seq<char>,
    fresh_task_id: Seq<char>,
    timestamp: Seq<char>,
) -> bool {
    &&& m.protocol_version == AGENT_PROTOCOL_VERSION
    &&& m.message_id@ == message_id
    &&& m.space_id@ == space.id@
    &&& m.task_id@ == text_or(space.task_id, fresh_task_id)
    &&& m.message_type == AgentProtocolMessageType::ContextHandoff
    &&& m.correlation_id@ == correlation_id
    &&& m.timestamp@ == timestamp
    &&& m.payload matches AgentProtocolPayload::ContextHandoff(h) && h.task@ == task && h.cwd@
        == space.cwd@ && h.compact_summary is None && h.recent_messages@.len() == 0
        && h.selected_files@.len() == 0 && h.skills@.len() == 0 && strs(h.constraints@) == seq![
        handoff_constraint(),
    ]
}

/// Builds a handoff of `task` to `space` from the identifiers and time it is given.
pub fn context_handoff_message(
    space: &CrustSpace,
    task: &str,
    message_id: String,
    correlation_id: String,
    fresh_task_id: String,
    timestamp: String,
) -> (m: AgentProtocolMessage)
    ensures
        is_context_handoff(m, *space, task@, message_id@, correlation_id@, fresh_task_id@, timestamp@),
{
    let task_id = match &space.task_id {
        Some(t) => t.clone(),
        None => fresh_task_id,
    };
    let constraints = vec!["Use only the provided task context unless told otherwise.".to_owned()];
    assert(strs(constraints@) =~= seq![handoff_constraint()]);
    AgentProtocolMessage {
        protocol_version: AGENT_PROTOCOL_VERSION,
        message_id,
        space_id: space.id.clone(),
        task_id,
        message_type: AgentProtocolMessageType::ContextHandoff,
        correlation_id,
        timestamp,
        payload: AgentProtocolPayload::ContextHandoff(
            SpaceContextHandoff {
                task: task.to_owned(),
                cwd: space.cwd.clone(),
                compact_summary: None,
                recent_messages: Vec::new(),
                selected_files: Vec::new(),
                skills: Vec::new(),
                constraints,
            },
        ),
    }
}

/// Builds a handoff of `task` to `space` with fresh random identifiers and the current time.
/// The identifiers are version-4 UUIDs in hyphenated form and the time is an RFC 3339 UTC
/// stamp; so where the space's id and directory and the task are not blank, and the space's
/// own task id (if it has one) is not blank, the message passes validation whatever the
/// status of the space.
pub fn build_space_context_handoff_message(space: &CrustSpace, task: &str) -> (m: AgentProtocolMessage)
    ensures
        exists|message_id: Seq<char>, correlation_id: Seq<char>, fresh: Seq<char>, now: Seq<char>|
            is_context_handoff(m, *space, task@, message_id, correlation_id, fresh, now)
                && hyphenated_uuid(message_id) && hyphenated_uuid(correlation_id) && (
            space.task_id is None ==> hyphenated_uuid(fresh)) && utc_rfc3339(now),
        !is_blank_spec(space.id@) && !is_blank_spec(space.cwd@) && !is_blank_spec(task@) && (
        space.task_id matches Some(t) ==> !is_blank_spec(t@)) ==> forall|st: Option<SpaceStatus>|
            #[trigger] protocol_error(m, st) is None,
{
    let fresh_task_id = match &space.task_id {
        Some(t) => t.clone(),
        None => new_uuid_string(),
    };
    let message_id = new_uuid_string();
    let correlation_id = new_uuid_string();
    let timestamp = current_timestamp();
    let ghost args = (message_id@, correlation_id@, fresh_task_id@, timestamp@);
    proof {
        lemma_uuid_not_blank(message_id@);
        lemma_uuid_not_blank(correlation_id@);
        lemma_stamp_not_blank(timestamp@);
        if space.task_id is None {
            lemma_uuid_not_blank(fresh_task_id@);
        }
    }
    let m = context_handoff_message(space, task, message_id, correlation_id, fresh_task_id, timestamp);
    assert(is_context_handoff(m, *space, task@, args.0, args.1, args.2, args.3));
    m
}

} // verus!
