//! Chat sessions: their history, token accounting and compaction.

use vstd::prelude::*;
use vstd::string::*;

use crate::message::{
    clone_messages, clone_opt_string, content_text, opt_view, role_name_spec, text_message, views,
    ChatMessage, ChatRole, MessageView,
};
use crate::system::{current_timestamp, new_uuid_string, utc_rfc3339};
use crate::text::{
    decimal, is_blank, is_blank_spec, parse_unsigned, parse_unsigned_spec, trim, trim_spec,
    truncate_middle, truncate_middle_spec, u64_to_decimal,
};

verus! {

/// The agent personality a session runs with.
#[derive(Clone, Copy, Debug, PartialEq, Eq, Structural)]
pub enum CoreKind {
    General,
    Learning,
    PairProgramming,
}

impl Default for CoreKind {
    fn default() -> (k: CoreKind)
        ensures
            k == CoreKind::General,
    {
        CoreKind::General
    }
}

/// Model settings of a session.
pub struct Config {
    pub max_agent_steps: u32,
    pub modelname: String,
}

pub ghost struct ConfigView {
    pub max_agent_steps: u32,
    pub modelname: Seq<char>,
}

impl View for Config {
    type V = ConfigView;

    open spec fn view(&self) -> ConfigView {
        ConfigView { max_agent_steps: self.max_agent_steps, modelname: self.modelname@ }
    }
}

pub const DEFAULT_MAX_AGENT_STEPS: u32 = 10;

pub const DEFAULT_MODEL: &'static str = "moonshotai/kimi-latest";

/// The settings read from `MAX_AGENT_STEPS` and `OPENROUTER_MAIN_MODEL`: a step count that
/// does not parse as `u32`, or is unset, gives 10; an unset model gives the default model.
pub open spec fn config_from_env_spec(
    max_agent_steps: Option<Seq<char>>,
    model: Option<Seq<char>>,
) -> ConfigView {
    ConfigView {
        max_agent_steps: match max_agent_steps {
            Some(v) => match parse_unsigned_spec(v, u32::MAX as nat) {
                Some(n) => n as u32,
                None => 10,
            },
            None => 10,
        },
        modelname: match model {
            Some(m) => m,
            None => DEFAULT_MODEL@,
        },
    }
}

impl Config {
    /// The configuration given the values of the two environment variables.
    pub fn from_env_values(max_agent_steps: Option<String>, model: Option<String>) -> (c: Config)
        ensures
            c@ == config_from_env_spec(opt_view(max_agent_steps), opt_view(model)),
    {
        let steps: u32 = match &max_agent_steps {
            Some(v) => match parse_unsigned(v.as_str(), u32::MAX as u64) {
                Some(n) => n as u32,
                None => DEFAULT_MAX_AGENT_STEPS,
            },
            None => DEFAULT_MAX_AGENT_STEPS,
        };
        let modelname = match model {
            Some(m) => m,
            None => DEFAULT_MODEL.to_owned(),
        };
        Config { max_agent_steps: steps, modelname }
    }

    pub fn duplicate(&self) -> (c: Config)
        ensures
            c@ == self@,
    {
        Config { max_agent_steps: self.max_agent_steps, modelname: self.modelname.clone() }
    }
}

/// A chat session.
pub struct Session {
    pub id: String,
    pub name: String,
    pub created_at: String,
    pub edited_at: String,
    pub messages: Vec<ChatMessage>,
    pub sysprompt: ChatMessage,
    pub config: Config,
    pub core_profile: CoreKind,
    pub summary: Option<String>,
    pub compacted_until: usize,
    pub latest_prompt_tokens: u32,
    pub latest_completion_tokens: u32,
    pub latest_total_tokens: u32,
    pub cumulative_prompt_tokens: u64,
    pub cumulative_completion_tokens: u64,
    pub cumulative_total_tokens: u64,
}

pub ghost struct SessionView {
    pub id: Seq<char>,
    pub name: Seq<char>,
    pub created_at: Seq<char>,
    pub edited_at: Seq<char>,
    pub messages: Seq<MessageView>,
    pub sysprompt: MessageView,
    pub config: ConfigView,
    pub core_profile: CoreKind,
    pub summary: Option<Seq<char>>,
    pub compacted_until: nat,
    pub latest_prompt_tokens: u32,
    pub latest_completion_tokens: u32,
    pub latest_total_tokens: u32,
    pub cumulative_prompt_tokens: u64,
    pub cumulative_completion_tokens: u64,
    pub cumulative_total_tokens: u64,
}

impl View for Session {
    type V = SessionView;

    open spec fn view(&self) -> SessionView {
        SessionView {
            id: self.id@,
            name: self.name@,
            created_at: self.created_at@,
            edited_at: self.edited_at@,
            messages: views(self.messages@),
            sysprompt: self.sysprompt@,
            config: self.config@,
            core_profile: self.core_profile,
            summary: opt_view(self.summary),
            compacted_until: self.compacted_until as nat,
            latest_prompt_tokens: self.latest_prompt_tokens,
            latest_completion_tokens: self.latest_completion_tokens,
            latest_total_tokens: self.latest_total_tokens,
            cumulative_prompt_tokens: self.cumulative_prompt_tokens,
            cumulative_completion_tokens: self.cumulative_completion_tokens,
            cumulative_total_tokens: self.cumulative_total_tokens,
        }
    }
}

/// The view of a session of the given name, prompt and configuration, as created.
pub open spec fn fresh_session(
    id: Seq<char>,
    now: Seq<char>,
    name: Seq<char>,
    sysprompt: Seq<char>,
    config: ConfigView,
) -> SessionView {
    SessionView {
        id,
        name,
        created_at: now,
        edited_at: now,
        messages: seq![text_message(ChatRole::System, sysprompt)],
        sysprompt: text_message(ChatRole::System, sysprompt),
        config,
        core_profile: CoreKind::General,
        summary: None,
        compacted_until: 0,
        latest_prompt_tokens: 0,
        latest_completion_tokens: 0,
        latest_total_tokens: 0,
        cumulative_prompt_tokens: 0,
        cumulative_completion_tokens: 0,
        cumulative_total_tokens: 0,
    }
}

/// The first line of a compacted summary, which carries over an earlier summary.
pub open spec fn summary_preamble(existing: Option<Seq<char>>) -> Seq<char> {
    match existing {
        Some(s) => if !is_blank_spec(s) {
            "Previous compacted summary:\n"@ + trim_spec(s) + "\n\nNewly compacted transcript notes:\n"@
        } else {
            "Compacted transcript notes:\n"@
        },
        None => "Compacted transcript notes:\n"@,
    }
}

/// The note that compaction writes for the message at `index`: nothing for a system
/// message; otherwise its index, role and trimmed text (at most 1500 bytes), and its tool
/// calls (at most 1000 bytes).
pub open spec fn compaction_note(index: nat, m: MessageView) -> Seq<char> {
    if m.role is System {
        seq![]
    } else {
        "\n["@ + decimal(index) + "] "@ + role_name_spec(m.role) + ": "@ + trim_spec(
            truncate_middle_spec(content_text(m.content), 1500),
        ) + match m.tool_calls_json {
            Some(j) => "\n  tool_calls: "@ + truncate_middle_spec(j, 1000),
            None => seq![],
        }
    }
}

/// The notes for the messages at `from..to`, in order.
pub open spec fn compaction_notes(msgs: Seq<MessageView>, from: int, to: int) -> Seq<char>
    decreases to - from,
{
    if to <= from {
        seq![]
    } else {
        compaction_notes(msgs, from, to - 1) + compaction_note((to - 1) as nat, msgs[to - 1])
    }
}

/// The index up to which compaction keeping `min_recent` messages summarizes.
pub open spec fn compaction_cutoff(s: SessionView, min_recent: nat) -> nat {
    if s.messages.len() >= min_recent {
        (s.messages.len() - min_recent) as nat
    } else {
        0
    }
}

/// Compaction has something to do when it would summarize at least two new messages.
pub open spec fn can_compact(s: SessionView, min_recent: nat) -> bool {
    compaction_cutoff(s, min_recent) > s.compacted_until + 1
}

/// The summary that compaction writes, at most 40000 bytes.
pub open spec fn compacted_summary(s: SessionView, min_recent: nat) -> Seq<char> {
    truncate_middle_spec(
        summary_preamble(s.summary) + compaction_notes(
            s.messages,
            s.compacted_until as int,
            compaction_cutoff(s, min_recent) as int,
        ),
        40000,
    )
}

/// The notes of the messages at `from..to`, one per index in order, joined.
proof fn lemma_notes_are_per_message(msgs: Seq<MessageView>, from: int, to: int)
    requires
        from <= to,
    ensures
        compaction_notes(msgs, from, to) == Seq::new(
            (to - from) as nat,
            |k: int| compaction_note((from + k) as nat, msgs[from + k]),
        ).flatten(),
    decreases to - from,
{
    let f = |k: int| compaction_note((from + k) as nat, msgs[from + k]);
    let all = Seq::new((to - from) as nat, f);
    all.lemma_flatten_and_flatten_alt_are_equivalent();
    if to > from {
        lemma_notes_are_per_message(msgs, from, to - 1);
        let fewer = Seq::new((to - 1 - from) as nat, f);
        assert(all.drop_last() =~= fewer);
        fewer.lemma_flatten_and_flatten_alt_are_equivalent();
        assert(all.last() == compaction_note((to - 1) as nat, msgs[to - 1]));
    } else {
        assert(all =~= Seq::<Seq<char>>::empty());
    }
}

/// What a compaction adds to the summary are exactly the notes of the messages it newly
/// summarizes, those at `compacted_until..cutoff`, one per message in order; no message
/// summarized by an earlier compaction gets a note again. They follow the preamble that
/// carries the earlier summary, and the whole is cut to 40000 bytes.
pub proof fn lemma_compaction_notes_only_new(s: SessionView, min_recent: nat)
    requires
        can_compact(s, min_recent),
    ensures
        compacted_summary(s, min_recent) == truncate_middle_spec(
            summary_preamble(s.summary) + Seq::new(
                (compaction_cutoff(s, min_recent) - s.compacted_until) as nat,
                |k: int| compaction_note((s.compacted_until + k) as nat, s.messages[s.compacted_until + k]),
            ).flatten(),
            40000,
        ),
{
    lemma_notes_are_per_message(s.messages, s.compacted_until as int, compaction_cutoff(s, min_recent) as int);
}

pub open spec fn not_enough_history_message() -> Seq<char> {
    "Not enough uncompacted history to compact."@
}

impl Session {
    /// A new session whose history holds the system prompt; its id is a fresh UUID and both
    /// timestamps are the current time.
    pub fn new(name: String, sysprompt: &str, config: Config) -> (s: Session)
        ensures
            s@ == fresh_session(s@.id, s@.created_at, name@, sysprompt@, config@),
            s@.id.len() == 36,
            utc_rfc3339(s@.created_at),
    {
        let id = new_uuid_string();
        let now = current_timestamp();
        let sys = ChatMessage::new(ChatRole::System, sysprompt.to_owned());
        let mut messages: Vec<ChatMessage> = Vec::new();
        messages.push(sys.duplicate());
        let s = Session {
            id,
            name,
            created_at: now.clone(),
            edited_at: now,
            messages,
            sysprompt: sys,
            config,
            core_profile: CoreKind::General,
            summary: None,
            compacted_until: 0,
            latest_prompt_tokens: 0,
            latest_completion_tokens: 0,
            latest_total_tokens: 0,
            cumulative_prompt_tokens: 0,
            cumulative_completion_tokens: 0,
            cumulative_total_tokens: 0,
        };
        assert(s@.messages =~= seq![text_message(ChatRole::System, sysprompt@)]);
        s
    }

    /// Stamps the session as edited now: `edited_at` becomes the current UTC time in RFC 3339
    /// form; nothing else changes.
    pub fn touch(&mut self)
        ensures
            final(self)@ == (SessionView { edited_at: final(self)@.edited_at, ..old(self)@ }),
            utc_rfc3339(final(self)@.edited_at),
    {
        self.edited_at = current_timestamp();
    }

    /// Appends a message to the history.
    pub fn add_message(&mut self, message: ChatMessage)
        ensures
            final(self)@ == (SessionView {
                edited_at: final(self)@.edited_at,
                messages: old(self)@.messages.push(message@),
                ..old(self)@
            }),
    {
        let ghost m = message@;
        self.messages.push(message);
        assert(views(self.messages@) =~= old(self)@.messages.push(m));
        self.touch();
    }

    /// Records the token usage of the latest request: the latest counts are replaced and the
    /// cumulative counts grow by them.
    pub fn record_usage(&mut self, prompt_tokens: u32, completion_tokens: u32, total_tokens: u32)
        requires
            old(self).cumulative_prompt_tokens + prompt_tokens <= u64::MAX,
            old(self).cumulative_completion_tokens + completion_tokens <= u64::MAX,
            old(self).cumulative_total_tokens + total_tokens <= u64::MAX,
        ensures
            final(self)@ == (SessionView {
                edited_at: final(self)@.edited_at,
                latest_prompt_tokens: prompt_tokens,
                latest_completion_tokens: completion_tokens,
                latest_total_tokens: total_tokens,
                cumulative_prompt_tokens: (old(self).cumulative_prompt_tokens
                    + prompt_tokens) as u64,
                cumulative_completion_tokens: (old(self).cumulative_completion_tokens
                    + completion_tokens) as u64,
                cumulative_total_tokens: (old(self).cumulative_total_tokens
                    + total_tokens) as u64,
                ..old(self)@
            }),
    {
        self.latest_prompt_tokens = prompt_tokens;
        self.latest_completion_tokens = completion_tokens;
        self.latest_total_tokens = total_tokens;
        self.cumulative_prompt_tokens = self.cumulative_prompt_tokens + prompt_tokens as u64;
        self.cumulative_completion_tokens = self.cumulative_completion_tokens
            + completion_tokens as u64;
        self.cumulative_total_tokens = self.cumulative_total_tokens + total_tokens as u64;
        self.touch();
    }

    /// Empties the history down to the system prompt and forgets the summary.
    pub fn clear_messages(&mut self)
        ensures
            final(self)@ == (SessionView {
                edited_at: final(self)@.edited_at,
                messages: seq![old(self)@.sysprompt],
                summary: None,
                compacted_until: 0,
                ..old(self)@
            }),
    {
        self.messages = Vec::new();
        self.messages.push(self.sysprompt.duplicate());
        assert(views(self.messages@) =~= seq![old(self)@.sysprompt]);
        self.summary = None;
        self.compacted_until = 0;
        self.touch();
    }

    /// Summarizes the history before the last `min_recent_messages` messages into the
    /// session summary. Returns the new compaction index, or an error when fewer than two
    /// messages would be newly summarized.
    pub fn compact_to_recent(&mut self, min_recent_messages: usize) -> (r: Result<usize, String>)
        ensures
            can_compact(old(self)@, min_recent_messages as nat) ==> {
                &&& r == Ok::<usize, String>(
                    compaction_cutoff(old(self)@, min_recent_messages as nat) as usize,
                )
                &&& final(self)@ == (SessionView {
                    edited_at: final(self)@.edited_at,
                    summary: Some(compacted_summary(old(self)@, min_recent_messages as nat)),
                    compacted_until: compaction_cutoff(old(self)@, min_recent_messages as nat),
                    ..old(self)@
                })
            },
            !can_compact(old(self)@, min_recent_messages as nat) ==> {
                &&& r matches Err(e) && e@ == not_enough_history_message()
                &&& final(self)@ == old(self)@
            },
    {
        let len = self.messages.len();
        let cutoff = if len >= min_recent_messages {
            len - min_recent_messages
        } else {
            0
        };
        if cutoff <= self.compacted_until || cutoff - self.compacted_until <= 1 {
            return Err("Not enough uncompacted history to compact.".to_owned());
        }
        let ghost old_view = self@;
        let mut summary = String::new();
        let keep_existing = match &self.summary {
            Some(existing) => !is_blank(existing.as_str()),
            None => false,
        };
        if keep_existing {
            let existing = self.summary.as_ref().unwrap();
            summary.append("Previous compacted summary:\n");
            summary.append(trim(existing.as_str()).as_str());
            summary.append("\n\nNewly compacted transcript notes:\n");
        } else {
            summary.append("Compacted transcript notes:\n");
        }
        let ghost preamble = summary@;
        assert(preamble == summary_preamble(old_view.summary));
        let from = self.compacted_until;
        let mut index = from;
        while index < cutoff
            invariant
                from <= index <= cutoff <= len == self.messages@.len(),
                self@ == old_view,
                summary@ == preamble + compaction_notes(old_view.messages, from as int, index as int),
            decreases cutoff - index,
        {
            let message = &self.messages[index];
            let ghost before = summary@;
            let ghost mv = message@;
            assert(mv == old_view.messages[index as int]);
            if !message.role.is_system() {
                summary.append("\n[");
                summary.append(u64_to_decimal(index as u64).as_str());
                summary.append("] ");
                summary.append(message.role.name().as_str());
                summary.append(": ");
                let content = crate::message::content_to_compaction_text(&message.content, 1_500);
                summary.append(trim(content.as_str()).as_str());
                if let Some(calls) = &message.tool_calls_json {
                    summary.append("\n  tool_calls: ");
                    summary.append(truncate_middle(calls.as_str(), 1_000).as_str());
                }
            }
            assert(summary@ =~= before + compaction_note(index as nat, mv));
            index = index + 1;
        }
        self.summary = Some(truncate_middle(summary.as_str(), 40_000));
        self.compacted_until = cutoff;
        self.touch();
        Ok(cutoff)
    }

    /// A copy of the session's configuration.
    pub fn get_config(&self) -> (c: Config)
        ensures
            c@ == self@.config,
    {
        self.config.duplicate()
    }

    /// A copy of the session.
    pub fn duplicate(&self) -> (s: Session)
        ensures
            s@ == self@,
    {
        Session {
            id: self.id.clone(),
            name: self.name.clone(),
            created_at: self.created_at.clone(),
            edited_at: self.edited_at.clone(),
            messages: clone_messages(&self.messages),
            sysprompt: self.sysprompt.duplicate(),
            config: self.config.duplicate(),
            core_profile: self.core_profile,
            summary: clone_opt_string(&self.summary),
            compacted_until: self.compacted_until,
            latest_prompt_tokens: self.latest_prompt_tokens,
            latest_completion_tokens: self.latest_completion_tokens,
            latest_total_tokens: self.latest_total_tokens,
            cumulative_prompt_tokens: self.cumulative_prompt_tokens,
            cumulative_completion_tokens: self.cumulative_completion_tokens,
            cumulative_total_tokens: self.cumulative_total_tokens,
        }
    }
}

} // verus!
