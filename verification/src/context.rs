//! The model context of a session: what history is sent, and how it is kept within budget.

use vstd::prelude::*;
use vstd::string::*;

use crate::message::{
    estimate_tokens_for_messages, message_char_len_sum, messages_bytes, sat, text_message, truncate_message_spec,
    truncate_message_text, views, ChatMessage, ChatRole, MessageView,
};
use crate::session::{Session, SessionView};
use crate::text::{is_blank, is_blank_spec};

verus! {

/// Context window assumed for a model that the model catalog does not list.
pub const DEFAULT_CONTEXT_WINDOW_TOKENS: usize = 128_000;

/// A model and the size of its context window, as the model catalog lists it.
pub struct ModelWindow {
    pub id: String,
    pub context_window: u32,
}

/// The catalog entry for `modelname`, if any, and its window when it is positive;
/// otherwise the default window.
pub open spec fn model_window_spec(catalog: Seq<ModelWindow>, modelname: Seq<char>) -> nat {
    if exists|i: int| 0 <= i < catalog.len() && catalog[i].id@ == modelname {
        let i = choose|i: int|
            0 <= i < catalog.len() && catalog[i].id@ == modelname && forall|j: int|
                0 <= j < i ==> catalog[j].id@ != modelname;
        if catalog[i].context_window > 0 {
            catalog[i].context_window as nat
        } else {
            DEFAULT_CONTEXT_WINDOW_TOKENS as nat
        }
    } else {
        DEFAULT_CONTEXT_WINDOW_TOKENS as nat
    }
}

/// The context window, in tokens, of the model named `modelname`.
pub fn model_context_window_tokens(modelname: &str, catalog: &[ModelWindow]) -> (n: usize)
    ensures
        n == model_window_spec(catalog@, modelname@),
{
    let mut i: usize = 0;
    while i < catalog.len()
        invariant
            i <= catalog@.len(),
            forall|j: int| 0 <= j < i ==> catalog@[j].id@ != modelname@,
        decreases catalog@.len() - i,
    {
        if crate::text::str_eq(catalog[i].id.as_str(), modelname) {
            proof {
                let w = choose|k: int|
                    0 <= k < catalog@.len() && catalog@[k].id@ == modelname@ && forall|j: int|
                        0 <= j < k ==> catalog@[j].id@ != modelname@;
                assert(0 <= i < catalog@.len() && catalog@[i as int].id@ == modelname@);
                if w < i {
                } else if w > i {
                }
                assert(w == i);
            }
            if catalog[i].context_window > 0 {
                return catalog[i].context_window as usize;
            } else {
                return DEFAULT_CONTEXT_WINDOW_TOKENS;
            }
        }
        i = i + 1;
    }
    DEFAULT_CONTEXT_WINDOW_TOKENS
}

/// Decides what history goes into a request and how large a tool output may be there.
pub struct ContextBuilder {
    pub max_tool_response_chars: usize,
    pub min_recent_messages: usize,
}

impl Default for ContextBuilder {
    fn default() -> (b: ContextBuilder)
        ensures
            b.max_tool_response_chars == 12_000,
            b.min_recent_messages == 12,
    {
        ContextBuilder { max_tool_response_chars: 12_000, min_recent_messages: 12 }
    }
}

pub open spec fn summary_intro() -> Seq<char> {
    "Prior compacted conversation summary. Treat this as durable context, not a new user request.\n\n"@
}

/// The system message that carries a compacted summary.
pub open spec fn summary_context_message(summary: Seq<char>) -> MessageView {
    text_message(ChatRole::System, summary_intro() + summary)
}

/// A tool response has its text truncated to `max` bytes; other messages are kept.
pub open spec fn prepare_spec(m: MessageView, max: nat) -> MessageView {
    if m.role is Tool {
        truncate_message_spec(m, max)
    } else {
        m
    }
}

/// The non-system messages of `msgs`, prepared, in order.
pub open spec fn prepared(msgs: Seq<MessageView>, max: nat) -> Seq<MessageView>
    decreases msgs.len(),
{
    if msgs.len() == 0 {
        seq![]
    } else {
        let rest = prepared(msgs.drop_last(), max);
        if msgs.last().role is System {
            rest
        } else {
            rest.push(prepare_spec(msgs.last(), max))
        }
    }
}

/// Where the history sent to the model starts: after the compacted part, but never cutting
/// into the last `min_recent` messages; from the start when nothing was compacted.
pub open spec fn context_start(s: SessionView, min_recent: nat) -> int {
    let n = s.messages.len();
    let recent_start = if n >= min_recent {
        n - min_recent
    } else {
        0
    };
    if s.summary is Some || s.compacted_until > 0 {
        if s.compacted_until <= recent_start {
            s.compacted_until as int
        } else {
            recent_start as int
        }
    } else {
        0
    }
}

/// The context before any budget is applied: the system prompt, the summary when it is not
/// blank, and the prepared history from the start index on.
pub open spec fn full_context(s: SessionView, max_tool: nat, min_recent: nat) -> Seq<MessageView> {
    let head = match s.summary {
        Some(sum) => if !is_blank_spec(sum) {
            seq![s.sysprompt, summary_context_message(sum)]
        } else {
            seq![s.sysprompt]
        },
        None => seq![s.sysprompt],
    };
    head + prepared(s.messages.skip(context_start(s, min_recent)), max_tool)
}

/// The index of the first non-system message at or after `j`.
pub open spec fn first_non_system_from(ctx: Seq<MessageView>, j: int) -> Option<int>
    decreases ctx.len() - j,
{
    if j >= ctx.len() || j < 0 {
        None
    } else if !(ctx[j].role is System) {
        Some(j)
    } else {
        first_non_system_from(ctx, j + 1)
    }
}

/// The end of the conversation unit that continues at `j`: the next user message, or the end.
pub open spec fn unit_end_from(ctx: Seq<MessageView>, j: int) -> int
    decreases ctx.len() - j,
{
    if j >= ctx.len() {
        ctx.len() as int
    } else if ctx[j].role is User {
        j
    } else {
        unit_end_from(ctx, j + 1)
    }
}

pub proof fn lemma_unit_end_bounds(ctx: Seq<MessageView>, j: int)
    requires
        0 <= j <= ctx.len(),
    ensures
        j <= unit_end_from(ctx, j) <= ctx.len(),
    decreases ctx.len() - j,
{
    if j < ctx.len() && !(ctx[j].role is User) {
        lemma_unit_end_bounds(ctx, j + 1);
    }
}

pub proof fn lemma_first_non_system_bounds(ctx: Seq<MessageView>, j: int)
    requires
        0 <= j,
    ensures
        first_non_system_from(ctx, j) matches Some(k) ==> j <= k < ctx.len() && !(
        ctx[k].role is System),
    decreases ctx.len() - j,
{
    if j < ctx.len() && ctx[j].role is System {
        lemma_first_non_system_bounds(ctx, j + 1);
    }
}

/// The context without its oldest conversation unit: from the first non-system message up
/// to the next user message. `None` when every message is a system message.
pub open spec fn remove_unit_spec(ctx: Seq<MessageView>) -> Option<Seq<MessageView>> {
    match first_non_system_from(ctx, 0) {
        Some(st) => Some(ctx.take(st) + ctx.skip(unit_end_from(ctx, st + 1))),
        None => None,
    }
}

pub proof fn lemma_remove_unit_shrinks(ctx: Seq<MessageView>)
    ensures
        remove_unit_spec(ctx) matches Some(c) ==> c.len() < ctx.len(),
{
    lemma_first_non_system_bounds(ctx, 0);
    if let Some(st) = first_non_system_from(ctx, 0) {
        lemma_unit_end_bounds(ctx, st + 1);
    }
}

/// Drops the oldest units until the context fits the budget (measured in saturated bytes),
/// keeping at least `min_recent + 1` messages; a zero budget keeps everything.
pub open spec fn drop_spec(ctx: Seq<MessageView>, budget: nat, min_recent: nat) -> Seq<MessageView>
    decreases ctx.len(),
{
    if budget == 0 {
        ctx
    } else if sat(messages_bytes(ctx)) > budget && ctx.len() > min_recent + 1 {
        match remove_unit_spec(ctx) {
            Some(c) => {
                proof {
                    lemma_remove_unit_shrinks(ctx);
                }
                drop_spec(c, budget, min_recent)
            },
            None => ctx,
        }
    } else {
        ctx
    }
}

/// `r` is `ctx` with whole conversation units removed from the front of the history: the
/// leading system messages (`..p`) are kept, and what follows them is kept from a message
/// `q` on, where `q` starts a unit (a user message) or is the end; nothing when `p == q`.
pub open spec fn units_dropped(ctx: Seq<MessageView>, r: Seq<MessageView>) -> bool {
    exists|p: int, q: int|
        #![trigger ctx.take(p), ctx.skip(q)]
        0 <= p <= q <= ctx.len() && (forall|i: int| 0 <= i < p ==> (#[trigger] ctx[i]).role is System)
            && (q == p || q == ctx.len() || ctx[q].role is User) && r == ctx.take(p) + ctx.skip(q)
}

proof fn lemma_first_non_system_skips(ctx: Seq<MessageView>, j: int)
    requires
        0 <= j,
    ensures
        match first_non_system_from(ctx, j) {
            Some(k) => j <= k < ctx.len() && !(ctx[k].role is System) && forall|i: int|
                j <= i < k ==> (#[trigger] ctx[i]).role is System,
            None => forall|i: int| j <= i < ctx.len() ==> (#[trigger] ctx[i]).role is System,
        },
    decreases ctx.len() - j,
{
    if j < ctx.len() && ctx[j].role is System {
        lemma_first_non_system_skips(ctx, j + 1);
    }
}

proof fn lemma_unit_end_is_user(ctx: Seq<MessageView>, j: int)
    requires
        0 <= j,
    ensures
        unit_end_from(ctx, j) == ctx.len() || (0 <= unit_end_from(ctx, j) < ctx.len() && ctx[unit_end_from(
            ctx,
            j,
        )].role is User),
    decreases ctx.len() - j,
{
    if j < ctx.len() && !(ctx[j].role is User) {
        lemma_unit_end_is_user(ctx, j + 1);
    }
}

/// Dropping more units after some were dropped is still dropping units of the original.
#[verifier::spinoff_prover]
proof fn lemma_units_dropped_compose(ctx: Seq<MessageView>, st: int, e: int, r: Seq<MessageView>)
    requires
        0 <= st < e <= ctx.len(),
        forall|i: int| 0 <= i < st ==> (#[trigger] ctx[i]).role is System,
        e == ctx.len() || ctx[e].role is User,
        units_dropped(ctx.take(st) + ctx.skip(e), r),
    ensures
        units_dropped(ctx, r),
{
    let c = ctx.take(st) + ctx.skip(e);
    let (p2, q2) = choose|p: int, q: int|
        #![trigger c.take(p), c.skip(q)]
        0 <= p <= q <= c.len() && (forall|i: int| 0 <= i < p ==> (#[trigger] c[i]).role is System)
            && (q == p || q == c.len() || c[q].role is User) && r == c.take(p) + c.skip(q);
    if p2 > st {
        assert(c[st].role is System);
        assert(c[st] == ctx[e]);
    }
    assert(p2 <= st);
    if q2 < st {
        assert(c[q2] == ctx[q2]);
        assert(q2 == p2);
        assert(r =~= c);
        assert(c == ctx.take(st) + ctx.skip(e));
    } else {
        let q = e + q2 - st;
        assert(c.take(p2) =~= ctx.take(p2));
        assert(c.skip(q2) =~= ctx.skip(q));
        assert forall|i: int| 0 <= i < p2 implies (#[trigger] ctx[i]).role is System by {}
        if q2 < c.len() {
            assert(c[q2] == ctx[q]);
        }
        assert(0 <= p2 <= q <= ctx.len() && (q == p2 || q == ctx.len() || ctx[q].role is User)
            && r == ctx.take(p2) + ctx.skip(q));
    }
}

/// For a positive budget, dropping the oldest units leaves a context that fits the budget,
/// or that is down to `min_recent + 1` messages, or that has only system messages left. It
/// is the context with whole oldest conversation units removed, and a context that already
/// fits, or is short enough, is left as it is; one that does not fit loses its oldest unit
/// and is then treated the same way.
#[verifier::spinoff_prover]
pub proof fn lemma_drop_oldest_fits(ctx: Seq<MessageView>, budget: nat, min_recent: nat)
    requires
        budget > 0,
    ensures
        sat(messages_bytes(drop_spec(ctx, budget, min_recent))) <= budget || drop_spec(
            ctx,
            budget,
            min_recent,
        ).len() <= min_recent + 1 || forall|i: int|
            0 <= i < drop_spec(ctx, budget, min_recent).len() ==> (#[trigger] drop_spec(
                ctx,
                budget,
                min_recent,
            )[i]).role is System,
        units_dropped(ctx, drop_spec(ctx, budget, min_recent)),
        sat(messages_bytes(ctx)) <= budget || ctx.len() <= min_recent + 1 ==> drop_spec(
            ctx,
            budget,
            min_recent,
        ) == ctx,
        sat(messages_bytes(ctx)) > budget && ctx.len() > min_recent + 1 ==> match remove_unit_spec(ctx) {
            Some(c) => drop_spec(ctx, budget, min_recent) == drop_spec(c, budget, min_recent),
            None => drop_spec(ctx, budget, min_recent) == ctx,
        },
    decreases ctx.len(),
{
    let r = drop_spec(ctx, budget, min_recent);
    if sat(messages_bytes(ctx)) > budget && ctx.len() > min_recent + 1 {
        lemma_first_non_system_skips(ctx, 0);
        match first_non_system_from(ctx, 0) {
            Some(st) => {
                let e = unit_end_from(ctx, st + 1);
                lemma_unit_end_bounds(ctx, st + 1);
                lemma_unit_end_is_user(ctx, st + 1);
                lemma_remove_unit_shrinks(ctx);
                let c = ctx.take(st) + ctx.skip(e);
                lemma_drop_oldest_fits(c, budget, min_recent);
                lemma_units_dropped_compose(ctx, st, e, r);
            },
            None => {
                assert(ctx.take(0) + ctx.skip(0) =~= ctx);
                assert(units_dropped(ctx, ctx.take(0) + ctx.skip(0)));
            },
        }
    } else {
        assert(ctx.take(0) + ctx.skip(0) =~= ctx);
        assert(units_dropped(ctx, ctx.take(0) + ctx.skip(0)));
    }
}

/// The context a request of the session carries, given a budget in bytes.
pub open spec fn build_context_spec(
    b: ContextBuilder,
    s: SessionView,
    budget: nat,
) -> Seq<MessageView> {
    drop_spec(
        full_context(s, b.max_tool_response_chars as nat, b.min_recent_messages as nat),
        budget,
        b.min_recent_messages as nat,
    )
}

/// Removes the oldest conversation unit; false when there is none to remove.
pub fn remove_oldest_non_system_unit(context: &mut Vec<ChatMessage>) -> (removed: bool)
    ensures
        match remove_unit_spec(views(old(context)@)) {
            Some(c) => removed && views(final(context)@) == c,
            None => !removed && final(context)@ == old(context)@,
        },
{
    let ghost ctx = views(context@);
    let n = context.len();
    let mut start: usize = 0;
    while start < n && context[start].role.is_system()
        invariant
            start <= n == context@.len(),
            ctx == views(context@),
            first_non_system_from(ctx, 0) == first_non_system_from(ctx, start as int),
        decreases n - start,
    {
        start = start + 1;
    }
    if start == n {
        return false;
    }
    assert(first_non_system_from(ctx, start as int) == Some(start as int));
    let mut end: usize = start + 1;
    while end < n && !context[end].role.is_user()
        invariant
            start < end <= n == context@.len(),
            ctx == views(context@),
            unit_end_from(ctx, start + 1) == unit_end_from(ctx, end as int),
        decreases n - end,
    {
        end = end + 1;
    }
    let mut tail = context.split_off(end);
    context.truncate(start);
    context.append(&mut tail);
    proof {
        assert(views(context@) =~= ctx.take(start as int) + ctx.skip(end as int));
    }
    true
}

impl ContextBuilder {
    /// The tokens a context is estimated to take: a quarter of its bytes, rounded up.
    pub fn estimate_context_tokens(&self, context: &[ChatMessage]) -> (n: usize)
        ensures
            n == (sat(messages_bytes(views(context@))) + 3) / 4,
    {
        estimate_tokens_for_messages(context)
    }

    /// A tool response with its text truncated to the tool-output limit; other messages as
    /// they are.
    pub fn prepare_message_for_context(&self, message: &ChatMessage) -> (m: ChatMessage)
        ensures
            m@ == prepare_spec(message@, self.max_tool_response_chars as nat),
    {
        if message.role.is_tool() {
            truncate_message_text(message, self.max_tool_response_chars)
        } else {
            message.duplicate()
        }
    }

    /// Removes whole conversation units, oldest first, until the context fits
    /// `target_char_budget` bytes or only `min_recent_messages + 1` messages remain.
    pub fn drop_oldest_until_under_budget(
        &self,
        context: Vec<ChatMessage>,
        target_char_budget: usize,
    ) -> (r: Vec<ChatMessage>)
        ensures
            views(r@) == drop_spec(
                views(context@),
                target_char_budget as nat,
                self.min_recent_messages as nat,
            ),
    {
        let ghost original = views(context@);
        let mut current = context;
        if target_char_budget == 0 {
            return current;
        }
        loop
            invariant
                target_char_budget > 0,
                original == views(context@),
                drop_spec(views(current@), target_char_budget as nat, self.min_recent_messages as nat)
                    == drop_spec(original, target_char_budget as nat, self.min_recent_messages as nat),
            decreases current@.len(),
        {
            let total = message_char_len_sum(current.as_slice());
            if !(total > target_char_budget && current.len() > 0 && current.len() - 1
                > self.min_recent_messages) {
                return current;
            }
            let ghost before = views(current@);
            let removed = remove_oldest_non_system_unit(&mut current);
            if !removed {
                return current;
            }
            proof {
                lemma_remove_unit_shrinks(before);
            }
        }
    }

    /// The messages a request of `session` carries: the system prompt, the summary, the
    /// uncompacted history with tool outputs truncated, then trimmed to the byte budget.
    pub fn build_context(&self, session: &Session, target_char_budget: usize) -> (r: Vec<
        ChatMessage,
    >)
        ensures
            views(r@) == build_context_spec(*self, session@, target_char_budget as nat),
    {
        let ghost s = session@;
        let mut context: Vec<ChatMessage> = Vec::new();
        context.push(session.sysprompt.duplicate());
        if let Some(summary) = &session.summary {
            if !is_blank(summary.as_str()) {
                let mut text = "Prior compacted conversation summary. Treat this as durable context, not a new user request.\n\n".to_owned();
                text.append(summary.as_str());
                context.push(ChatMessage::new(ChatRole::System, text));
            }
        }
        let ghost head = views(context@);
        let n = session.messages.len();
        let recent_start = if n >= self.min_recent_messages {
            n - self.min_recent_messages
        } else {
            0
        };
        let start = if session.summary.is_some() || session.compacted_until > 0 {
            if session.compacted_until <= recent_start {
                session.compacted_until
            } else {
                recent_start
            }
        } else {
            0
        };
        assert(start == context_start(s, self.min_recent_messages as nat));
        let ghost msgs = s.messages;
        let mut i = start;
        while i < n
            invariant
                start <= i <= n == session.messages@.len(),
                s == session@,
                msgs == s.messages,
                views(context@) == head + prepared(
                    msgs.subrange(start as int, i as int),
                    self.max_tool_response_chars as nat,
                ),
            decreases n - i,
        {
            let message = &session.messages[i];
            proof {
                let sub = msgs.subrange(start as int, i + 1);
                assert(sub.drop_last() =~= msgs.subrange(start as int, i as int));
                assert(sub.last() == message@);
            }
            let ghost old_ctx = views(context@);
            if !message.role.is_system() {
                let prepared_message = self.prepare_message_for_context(message);
                let ghost pm = prepared_message@;
                context.push(prepared_message);
                assert(views(context@) =~= old_ctx.push(pm));
            } else {
                assert(views(context@) =~= old_ctx);
            }
            i = i + 1;
            proof {
                let sub = msgs.subrange(start as int, i as int);
                assert(views(context@) =~= head + prepared(sub, self.max_tool_response_chars as nat));
            }
        }
        proof {
            assert(msgs.subrange(start as int, n as int) =~= msgs.skip(start as int));
            assert(head =~= match s.summary {
                Some(sum) => if !is_blank_spec(sum) {
                    seq![s.sysprompt, summary_context_message(sum)]
                } else {
                    seq![s.sysprompt]
                },
                None => seq![s.sysprompt],
            });
        }
        self.drop_oldest_until_under_budget(context, target_char_budget)
    }
}

} // verus!
