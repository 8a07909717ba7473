//! The HTTP gateway: what its handlers decide, and the lines of its activity log.

use vstd::prelude::*;
use vstd::string::*;

use crate::cores::InteractionMode;
use crate::events::{scoped_status_name, AgentEvent, EventView};
use crate::registry::{first_space_match, CrustSpace, SpaceStatus, SpacesRegistry};
use crate::text::{
    byte_len, decimal, is_blank, is_blank_spec, lemma_utf8_len_at_least_chars, trim, trim_spec,
    u64_to_decimal, utf8_len,
};

verus! {

/// The prompt of a session created without one.
pub const DEFAULT_SYSPROMPT: &'static str = "You are Crust, a helpful coding agent.";

/// The name and the prompt of a session created by a request: the requested ones, or
/// `Gateway Session` and the default prompt.
pub fn session_request_defaults(name: Option<String>, sysprompt: Option<String>) -> (r: (
    String,
    String,
))
    ensures
        r.0@ == match name {
            Some(n) => n@,
            None => "Gateway Session"@,
        },
        r.1@ == match sysprompt {
            Some(p) => p@,
            None => DEFAULT_SYSPROMPT@,
        },
{
    let n = match name {
        Some(n) => n,
        None => "Gateway Session".to_owned(),
    };
    let p = match sysprompt {
        Some(p) => p,
        None => DEFAULT_SYSPROMPT.to_owned(),
    };
    (n, p)
}

/// The error for a session id that names no session.
pub open spec fn not_found_message(id: Seq<char>) -> Seq<char> {
    "session '"@ + id + "' not found"@
}

/// The error for a session id that names no session.
pub fn session_not_found_error(id: &str) -> (e: String)
    ensures
        e@ == not_found_message(id@),
{
    let mut e = "session '".to_owned();
    e.append(id);
    e.append("' not found");
    e
}

/// The error for an approval id that names no pending approval.
pub fn approval_not_found_error(approval_id: &str) -> (e: String)
    ensures
        e@ == "approval '"@ + approval_id@ + "' not found"@,
{
    let mut e = "approval '".to_owned();
    e.append(approval_id);
    e.append("' not found");
    e
}

/// Whether a prompt sent to a session is taken: a blank prompt is refused with 400, a prompt
/// for a session that does not exist with 404; any other is accepted (202).
pub open spec fn prompt_decision(prompt: Seq<char>, session_id: Seq<char>, session_exists: bool) -> Result<
    (),
    (u16, Seq<char>),
> {
    if is_blank_spec(prompt) {
        Err((400u16, "prompt must not be empty"@))
    } else if !session_exists {
        Err((404u16, not_found_message(session_id)))
    } else {
        Ok(())
    }
}

/// Decides whether a prompt sent to a session is taken.
pub fn accept_prompt(prompt: &str, session_id: &str, session_exists: bool) -> (r: Result<
    (),
    (u16, String),
>)
    ensures
        match r {
            Ok(()) => prompt_decision(prompt@, session_id@, session_exists) is Ok,
            Err((code, e)) => prompt_decision(prompt@, session_id@, session_exists) == Err::<
                (),
                (u16, Seq<char>),
            >((code, e@)),
        },
{
    if is_blank(prompt) {
        Err((400, "prompt must not be empty".to_owned()))
    } else if !session_exists {
        Err((404, session_not_found_error(session_id)))
    } else {
        Ok(())
    }
}

/// The name a session is renamed to: the requested name trimmed, which must not be empty.
pub open spec fn rename_decision(name: Seq<char>) -> Result<Seq<char>, Seq<char>> {
    if trim_spec(name).len() == 0 {
        Err("name must not be empty"@)
    } else {
        Ok(trim_spec(name))
    }
}

/// Checks the name in a request to rename a session (a refusal is answered with 400).
pub fn rename_request_name(name: &str) -> (r: Result<String, String>)
    ensures
        match r {
            Ok(n) => rename_decision(name@) == Ok::<Seq<char>, Seq<char>>(n@),
            Err(e) => rename_decision(name@) == Err::<Seq<char>, Seq<char>>(e@),
        },
{
    let trimmed = trim(name);
    if byte_len(trimmed.as_str()) == 0 {
        proof {
            reveal_strlit("name must not be empty");
            lemma_utf8_len_at_least_chars(trimmed@);
        }
        Err("name must not be empty".to_owned())
    } else {
        Ok(trimmed)
    }
}

/// What a request to create a space gives: the trimmed id must not be empty (400) nor name a
/// registered space (409); otherwise a new idle space named after the id, in `cwd`, with its
/// own session and no task, created now (201).
pub open spec fn space_request_decision(
    raw_id: Seq<char>,
    spaces: Seq<CrustSpace>,
) -> Result<Seq<char>, (u16, Seq<char>)> {
    let id = trim_spec(raw_id);
    if id.len() == 0 {
        Err((400u16, "id must not be empty"@))
    } else if first_space_match(spaces, trim_spec(id)) is Some {
        Err((409u16, "space '"@ + id + "' already exists"@))
    } else {
        Ok(id)
    }
}

/// Decides a request to create a space, and builds the space.
pub fn create_space_from_request(
    raw_id: &str,
    registry: &SpacesRegistry,
    cwd: String,
    session_id: String,
    now: String,
) -> (r: Result<CrustSpace, (u16, String)>)
    ensures
        match r {
            Ok(s) => space_request_decision(raw_id@, registry.spaces@) == Ok::<
                Seq<char>,
                (u16, Seq<char>),
            >(s.id@) && s.name@ == s.id@ && s.session_id == session_id && s.cwd == cwd
                && s.status == SpaceStatus::Idle && s.process_id is None && s.task_id is None
                && s.task is None && s.created_at == now && s.updated_at == now,
            Err((code, e)) => space_request_decision(raw_id@, registry.spaces@) == Err::<
                Seq<char>,
                (u16, Seq<char>),
            >((code, e@)),
        },
{
    let id = trim(raw_id);
    if id.unicode_len() == 0 {
        return Err((400, "id must not be empty".to_owned()));
    }
    if registry.find(id.as_str()).is_some() {
        let mut e = "space '".to_owned();
        e.append(id.as_str());
        e.append("' already exists");
        return Err((409, e));
    }
    Ok(
        CrustSpace {
            id: id.clone(),
            name: id,
            session_id,
            cwd,
            status: SpaceStatus::Idle,
            process_id: None,
            task_id: None,
            task: None,
            created_at: now.clone(),
            updated_at: now,
        },
    )
}

/// How the gateway names a mode of interaction.
pub fn interaction_mode_str(mode: InteractionMode) -> (s: &'static str)
    ensures
        s@ == match mode {
            InteractionMode::Autonomous => "autonomous"@,
            InteractionMode::SuggestAndConfirm => "suggest_and_confirm"@,
        },
{
    match mode {
        InteractionMode::Autonomous => "autonomous",
        InteractionMode::SuggestAndConfirm => "suggest_and_confirm",
    }
}

/// `text (<n> chars)`, where `n` counts the bytes of a text.
pub open spec fn sized(prefix: Seq<char>, text: Seq<char>) -> Seq<char> {
    prefix + " ("@ + decimal(utf8_len(text)) + " chars)"@
}

fn sized_exec(prefix: &str, text: &str) -> (r: String)
    ensures
        r@ == sized(prefix@, text@),
{
    let mut r = prefix.to_owned();
    r.append(" (");
    r.append(u64_to_decimal(byte_len(text) as u64).as_str());
    r.append(" chars)");
    r
}

/// The activity-log summary of an agent event.
pub open spec fn event_summary(e: EventView) -> Seq<char> {
    match e {
        EventView::UserSubmitted { prompt } => sized("user submitted"@, prompt),
        EventView::Thinking { kind, text } => sized("thinking "@ + kind, text),
        EventView::ToolCallStarted { name, args: _ } => "tool started "@ + name,
        EventView::ToolCallFinished { name, result } => sized("tool finished "@ + name, result),
        EventView::AssistantDelta { text } => sized("assistant delta"@, text),
        EventView::AssistantFinal { text } => sized("assistant final"@, text),
        EventView::Error { message } => "error "@ + message,
        EventView::SystemNotice { message } => "notice "@ + message,
        EventView::MaxStepsReached => "max steps reached"@,
        EventView::SessionTitleUpdated { title } => "title updated "@ + title,
        EventView::ScopedAgentStarted { id, name, task: _, max_steps: _ } => "scoped agent started "@
            + name + " ("@ + id + ")"@,
        EventView::ScopedAgentStep { id, step } => "scoped agent "@ + id + " step "@ + decimal(
            step as nat,
        ),
        EventView::ScopedAgentStatus { id, status } => "scoped agent "@ + id + " status "@
            + scoped_status_name(status),
        EventView::ScopedAgentLog { id, message } => "scoped agent "@ + id + " log "@ + message,
        EventView::ScopedAgentFinished { id, result } => sized(
            "scoped agent "@ + id + " finished"@,
            result,
        ),
        EventView::ScopedAgentError { id, message } => "scoped agent "@ + id + " error "@ + message,
        EventView::Finished => "finished"@,
    }
}

/// Summarizes an agent event for the activity log.
pub fn agent_event_summary(event: &AgentEvent) -> (s: String)
    ensures
        s@ == event_summary(event@),
{
    match event {
        AgentEvent::UserSubmitted { prompt } => sized_exec("user submitted", prompt.as_str()),
        AgentEvent::Thinking { kind, text } => {
            let mut p = "thinking ".to_owned();
            p.append(kind.as_str());
            sized_exec(p.as_str(), text.as_str())
        },
        AgentEvent::ToolCallStarted { name, args: _ } => {
            let mut s = "tool started ".to_owned();
            s.append(name.as_str());
            s
        },
        AgentEvent::ToolCallFinished { name, result } => {
            let mut p = "tool finished ".to_owned();
            p.append(name.as_str());
            sized_exec(p.as_str(), result.as_str())
        },
        AgentEvent::AssistantDelta { text } => sized_exec("assistant delta", text.as_str()),
        AgentEvent::AssistantFinal { text } => sized_exec("assistant final", text.as_str()),
        AgentEvent::Error { message } => {
            let mut s = "error ".to_owned();
            s.append(message.as_str());
            s
        },
        AgentEvent::SystemNotice { message } => {
            let mut s = "notice ".to_owned();
            s.append(message.as_str());
            s
        },
        AgentEvent::MaxStepsReached => "max steps reached".to_owned(),
        AgentEvent::SessionTitleUpdated { title } => {
            let mut s = "title updated ".to_owned();
            s.append(title.as_str());
            s
        },
        AgentEvent::ScopedAgentStarted { id, name, task: _, max_steps: _ } => {
            let mut s = "scoped agent started ".to_owned();
            s.append(name.as_str());
            s.append(" (");
            s.append(id.as_str());
            s.append(")");
            s
        },
        AgentEvent::ScopedAgentStep { id, step } => {
            let mut s = "scoped agent ".to_owned();
            s.append(id.as_str());
            s.append(" step ");
            s.append(u64_to_decimal(*step as u64).as_str());
            s
        },
        AgentEvent::ScopedAgentStatus { id, status } => {
            let mut s = "scoped agent ".to_owned();
            s.append(id.as_str());
            s.append(" status ");
            s.append(status.label().as_str());
            s
        },
        AgentEvent::ScopedAgentLog { id, message } => {
            let mut s = "scoped agent ".to_owned();
            s.append(id.as_str());
            s.append(" log ");
            s.append(message.as_str());
            s
        },
        AgentEvent::ScopedAgentFinished { id, result } => {
            let mut p = "scoped agent ".to_owned();
            p.append(id.as_str());
            p.append(" finished");
            sized_exec(p.as_str(), result.as_str())
        },
        AgentEvent::ScopedAgentError { id, message } => {
            let mut s = "scoped agent ".to_owned();
            s.append(id.as_str());
            s.append(" error ");
            s.append(message.as_str());
            s
        },
        AgentEvent::Finished => "finished".to_owned(),
    }
}

/// `text` padded with spaces to at least `width` characters, as `{:<width}` writes it.
pub open spec fn left_aligned(text: Seq<char>, width: nat) -> Seq<char> {
    if text.len() >= width {
        text
    } else {
        text + Seq::new((width - text.len()) as nat, |i: int| ' ')
    }
}

/// A line of the activity log: `[<time>] <component padded to 7> <message>`.
pub fn activity_line(timestamp: &str, component: &str, message: &str) -> (s: String)
    ensures
        s@ == "["@ + timestamp@ + "] "@ + left_aligned(component@, 7) + " "@ + message@,
{
    let mut s = "[".to_owned();
    s.append(timestamp);
    s.append("] ");
    s.append(component);
    let n = component.unicode_len();
    let ghost base = s@;
    let mut k: usize = n;
    while k < 7
        invariant
            n == component@.len(),
            n <= k <= 7 || (n > 7 && k == n),
            s@ == base + Seq::new((k - n) as nat, |i: int| ' '),
        decreases 7 - k,
    {
        s.push(' ');
        k = k + 1;
        assert(s@ =~= base + Seq::new((k - n) as nat, |i: int| ' '));
    }
    proof {
        if n >= 7 {
            assert(s@ =~= base);
        }
        assert(base + Seq::new((k - n) as nat, |i: int| ' ') =~= "["@ + timestamp@ + "] "@
            + left_aligned(component@, 7));
    }
    s.append(" ");
    s.append(message);
    s
}

} // verus!
