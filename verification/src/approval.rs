//! Tool calls that wait for a person's approval.
//!
//! The book keeps the pending approvals; the caller keeps, for each, the channel on which the
//! decision is delivered, and delivers it when the book hands the approval back.

use vstd::prelude::*;
use vstd::string::*;

use crate::system::new_uuid_string;
use crate::text::str_eq;

verus! {

/// A tool call waiting for approval.
pub struct PendingApproval {
    pub id: String,
    pub session_id: String,
    pub tool_name: String,
    pub args: String,
}

impl PendingApproval {
    pub fn duplicate(&self) -> (c: PendingApproval)
        ensures
            c == *self,
    {
        PendingApproval {
            id: self.id.clone(),
            session_id: self.session_id.clone(),
            tool_name: self.tool_name.clone(),
            args: self.args.clone(),
        }
    }
}

/// What a person decided about a tool call.
pub enum ApprovalDecision {
    Approved,
    Rejected { reason: String },
}

/// The approvals of `s` other than the one with id `id`, in order.
pub open spec fn without_id(s: Seq<PendingApproval>, id: Seq<char>) -> Seq<PendingApproval>
    decreases s.len(),
{
    if s.len() == 0 {
        seq![]
    } else if s.last().id@ == id {
        without_id(s.drop_last(), id)
    } else {
        without_id(s.drop_last(), id).push(s.last())
    }
}

/// The approval of `s` with id `id`.
pub open spec fn with_id(s: Seq<PendingApproval>, id: Seq<char>) -> Option<PendingApproval>
    decreases s.len(),
{
    if s.len() == 0 {
        None
    } else if s.last().id@ == id {
        Some(s.last())
    } else {
        with_id(s.drop_last(), id)
    }
}

/// The approvals of `s` for the session `session_id`, in order.
pub open spec fn of_session(s: Seq<PendingApproval>, session_id: Seq<char>) -> Seq<PendingApproval>
    decreases s.len(),
{
    if s.len() == 0 {
        seq![]
    } else if s.last().session_id@ == session_id {
        of_session(s.drop_last(), session_id).push(s.last())
    } else {
        of_session(s.drop_last(), session_id)
    }
}

/// No two approvals share an id.
pub open spec fn distinct_ids(s: Seq<PendingApproval>) -> bool {
    forall|i: int, j: int| 0 <= i < j < s.len() ==> #[trigger] s[i].id@ != #[trigger] s[j].id@
}

/// The approvals waiting for a decision.
pub struct ApprovalBook {
    pending: Vec<PendingApproval>,
}

impl ApprovalBook {
    /// The pending approvals, oldest first.
    pub closed spec fn pending(&self) -> Seq<PendingApproval> {
        self.pending@
    }

    /// A book with no pending approval.
    pub fn new() -> (b: ApprovalBook)
        ensures
            b.pending() == Seq::<PendingApproval>::empty(),
    {
        ApprovalBook { pending: Vec::new() }
    }

    /// Adds an approval; one that has the same id as a pending one replaces it.
    pub fn insert(&mut self, approval: PendingApproval)
        ensures
            final(self).pending() == without_id(old(self).pending(), approval.id@).push(approval),
    {
        let _ = self.remove(approval.id.as_str());
        self.pending.push(approval);
    }

    /// Records a tool call that needs approval, under a fresh random id of 36 characters,
    /// and returns the pending approval.
    pub fn enqueue(&mut self, session_id: String, tool_name: String, args: String) -> (a:
        PendingApproval)
        ensures
            a.id@.len() == 36,
            a.session_id == session_id,
            a.tool_name == tool_name,
            a.args == args,
            final(self).pending() == without_id(old(self).pending(), a.id@).push(a),
    {
        let approval = PendingApproval { id: new_uuid_string(), session_id, tool_name, args };
        let copy = approval.duplicate();
        self.insert(approval);
        copy
    }

    /// Takes the approval with id `id` out of the book, if it is pending.
    pub fn remove(&mut self, id: &str) -> (r: Option<PendingApproval>)
        ensures
            r == with_id(old(self).pending(), id@),
            final(self).pending() == without_id(old(self).pending(), id@),
    {
        let ghost all = self.pending@;
        let mut kept: Vec<PendingApproval> = Vec::new();
        let mut found: Option<PendingApproval> = None;
        let mut i: usize = 0;
        while i < self.pending.len()
            invariant
                all == self.pending@,
                i <= all.len(),
                kept@ == without_id(all.take(i as int), id@),
                found == with_id(all.take(i as int), id@),
            decreases all.len() - i,
        {
            proof {
                assert(all.take(i + 1).drop_last() =~= all.take(i as int));
                assert(all.take(i + 1).last() == all[i as int]);
            }
            let item = self.pending[i].duplicate();
            if str_eq(item.id.as_str(), id) {
                found = Some(item);
            } else {
                kept.push(item);
            }
            i = i + 1;
        }
        proof {
            assert(all.take(all.len() as int) =~= all);
        }
        self.pending = kept;
        found
    }

    /// The pending approvals of a session, oldest first.
    pub fn pending_for_session(&self, session_id: &str) -> (r: Vec<PendingApproval>)
        ensures
            r@ == of_session(self.pending(), session_id@),
    {
        let ghost all = self.pending@;
        let mut out: Vec<PendingApproval> = Vec::new();
        let mut i: usize = 0;
        while i < self.pending.len()
            invariant
                all == self.pending@,
                i <= all.len(),
                out@ == of_session(all.take(i as int), session_id@),
            decreases all.len() - i,
        {
            proof {
                assert(all.take(i + 1).drop_last() =~= all.take(i as int));
                assert(all.take(i + 1).last() == all[i as int]);
            }
            if str_eq(self.pending[i].session_id.as_str(), session_id) {
                out.push(self.pending[i].duplicate());
            }
            i = i + 1;
        }
        proof {
            assert(all.take(all.len() as int) =~= all);
        }
        out
    }
}

/// After an approval is taken out, none with its id is left: a decision is delivered at
/// most once.
pub proof fn lemma_removed_once(s: Seq<PendingApproval>, id: Seq<char>)
    ensures
        with_id(without_id(s, id), id) is None,
    decreases s.len(),
{
    if s.len() > 0 {
        lemma_removed_once(s.drop_last(), id);
        if s.last().id@ != id {
            let w = without_id(s.drop_last(), id);
            assert(w.push(s.last()).drop_last() =~= w);
        }
    }
}

/// A just-recorded approval is the one its id finds, and it is pending for its session.
pub proof fn lemma_enqueued_is_pending(s: Seq<PendingApproval>, a: PendingApproval)
    ensures
        with_id(without_id(s, a.id@).push(a), a.id@) == Some(a),
        of_session(without_id(s, a.id@).push(a), a.session_id@).last() == a,
{
    let t = without_id(s, a.id@).push(a);
    assert(t.last() == a);
    assert(t.drop_last() =~= without_id(s, a.id@));
}

/// What is left after taking out the approvals with id `id` came from `s`, and none of it
/// has that id; taking out keeps ids distinct.
proof fn lemma_without_id_props(s: Seq<PendingApproval>, id: Seq<char>)
    ensures
        forall|k: int|
            0 <= k < without_id(s, id).len() ==> (#[trigger] without_id(s, id)[k]).id@ != id,
        forall|k: int|
            0 <= k < without_id(s, id).len() ==> exists|j: int|
                0 <= j < s.len() && s[j] == #[trigger] without_id(s, id)[k],
        distinct_ids(s) ==> distinct_ids(without_id(s, id)),
    decreases s.len(),
{
    if s.len() > 0 {
        let p = s.drop_last();
        lemma_without_id_props(p, id);
        let w = without_id(p, id);
        assert forall|k: int| 0 <= k < w.len() implies exists|j: int|
            0 <= j < s.len() && s[j] == #[trigger] w[k] by {
            let j = choose|j: int| 0 <= j < p.len() && p[j] == w[k];
            assert(s[j] == p[j]);
        }
        if s.last().id@ != id {
            let t = w.push(s.last());
            assert forall|k: int| 0 <= k < t.len() implies exists|j: int|
                0 <= j < s.len() && s[j] == #[trigger] t[k] by {
                if k == w.len() {
                    assert(s[s.len() - 1] == t[k]);
                } else {
                    assert(t[k] == w[k]);
                }
            }
            if distinct_ids(s) {
                assert(distinct_ids(p));
                assert forall|a: int, b: int| 0 <= a < b < t.len() implies #[trigger] t[a].id@
                    != #[trigger] t[b].id@ by {
                    if b == w.len() {
                        assert(t[a] == w[a]);
                        let j = choose|j: int| 0 <= j < p.len() && p[j] == w[a];
                        assert(s[j] == p[j]);
                        assert(s[s.len() - 1] == t[b]);
                    } else {
                        assert(t[a] == w[a] && t[b] == w[b]);
                    }
                }
            }
        } else {
            if distinct_ids(s) {
                assert(distinct_ids(p));
            }
        }
    }
}

/// Recording an approval keeps the ids of the pending approvals distinct: one with the
/// same id as a pending one takes its place.
pub proof fn lemma_insert_keeps_ids_distinct(s: Seq<PendingApproval>, a: PendingApproval)
    requires
        distinct_ids(s),
    ensures
        distinct_ids(without_id(s, a.id@).push(a)),
{
    lemma_without_id_props(s, a.id@);
    let w = without_id(s, a.id@);
    let t = w.push(a);
    assert forall|i: int, j: int| 0 <= i < j < t.len() implies #[trigger] t[i].id@ != #[trigger] t[j].id@ by {
        assert(t[i] == w[i]);
        if j < w.len() {
            assert(t[j] == w[j]);
        }
    }
}

} // verus!
