//! The set of sessions of a workspace and which of them is current.

use vstd::prelude::*;
use vstd::string::*;

use crate::message::{opt_view, ChatMessage};
use crate::session::{
    can_compact, not_enough_history_message, Config, ConfigView, CoreKind, Session, SessionView,
};
use crate::text::{
    lemma_lex_lt_irreflexive, lemma_lex_lt_total, lemma_lex_lt_transitive, lex_lt, str_eq, str_less,
};

verus! {

pub open spec fn session_views(s: Seq<Session>) -> Seq<SessionView> {
    s.map_values(|x: Session| x@)
}

/// Index of the session with the given id.
pub open spec fn index_of_id(s: Seq<SessionView>, id: Seq<char>) -> Option<int> {
    if exists|i: int| 0 <= i < s.len() && s[i].id == id {
        Some(choose|i: int| 0 <= i < s.len() && s[i].id == id)
    } else {
        None
    }
}

/// No two sessions share an id.
pub open spec fn ids_unique(s: Seq<SessionView>) -> bool {
    forall|i: int, j: int|
        #![trigger s[i], s[j]]
        0 <= i < s.len() && 0 <= j < s.len() && i != j ==> s[i].id != s[j].id
}

/// The last session among those edited most recently (`Iterator::max_by` keeps the last of
/// equal maxima).
pub open spec fn latest_index(s: Seq<SessionView>) -> int
    decreases s.len(),
{
    if s.len() <= 1 {
        0
    } else {
        let k = latest_index(s.drop_last());
        if lex_lt(s.last().edited_at, s[k].edited_at) {
            k
        } else {
            s.len() - 1
        }
    }
}

pub open spec fn latest_id(s: Seq<SessionView>) -> Option<Seq<char>> {
    if s.len() == 0 {
        None
    } else {
        Some(s[latest_index(s)].id)
    }
}

proof fn lemma_latest_index_bounds(s: Seq<SessionView>)
    requires
        s.len() > 0,
    ensures
        0 <= latest_index(s) < s.len(),
    decreases s.len(),
{
    if s.len() > 1 {
        lemma_latest_index_bounds(s.drop_last());
    }
}

/// The session chosen as the latest was edited no earlier than any other session (its
/// stamp is not below any other's), and every session listed after it was edited strictly
/// earlier: of sessions edited at the same latest time, the last one listed is chosen.
#[verifier::spinoff_prover]
pub proof fn lemma_latest_is_most_recent(s: Seq<SessionView>)
    requires
        s.len() > 0,
    ensures
        0 <= latest_index(s) < s.len(),
        forall|j: int| 0 <= j < s.len() ==> !lex_lt(s[latest_index(s)].edited_at, #[trigger] s[j].edited_at),
        forall|j: int|
            latest_index(s) < j < s.len() ==> lex_lt(#[trigger] s[j].edited_at, s[latest_index(s)].edited_at),
    decreases s.len(),
{
    if s.len() == 1 {
        lemma_lex_lt_irreflexive(s[0].edited_at);
    } else {
        let p = s.drop_last();
        lemma_latest_is_most_recent(p);
        let kp = latest_index(p);
        let last = s.last();
        assert(s[kp] == p[kp]);
        if lex_lt(last.edited_at, p[kp].edited_at) {
            assert forall|j: int| 0 <= j < s.len() implies !lex_lt(s[kp].edited_at, #[trigger] s[j].edited_at) by {
                if j < s.len() - 1 {
                    assert(s[j] == p[j]);
                } else {
                    if lex_lt(p[kp].edited_at, last.edited_at) {
                        lemma_lex_lt_transitive(p[kp].edited_at, last.edited_at, p[kp].edited_at);
                        lemma_lex_lt_irreflexive(p[kp].edited_at);
                    }
                }
            }
            assert forall|j: int| kp < j < s.len() implies lex_lt(#[trigger] s[j].edited_at, s[kp].edited_at) by {
                if j < s.len() - 1 {
                    assert(s[j] == p[j]);
                }
            }
        } else {
            let k = s.len() - 1;
            assert forall|j: int| 0 <= j < s.len() implies !lex_lt(s[k].edited_at, #[trigger] s[j].edited_at) by {
                if j < k {
                    assert(s[j] == p[j]);
                    if lex_lt(last.edited_at, p[j].edited_at) {
                        lemma_lex_lt_total(p[kp].edited_at, p[j].edited_at);
                        lemma_lex_lt_total(p[kp].edited_at, last.edited_at);
                        if lex_lt(p[j].edited_at, p[kp].edited_at) {
                            lemma_lex_lt_transitive(last.edited_at, p[j].edited_at, p[kp].edited_at);
                        }
                    }
                } else {
                    lemma_lex_lt_irreflexive(last.edited_at);
                }
            }
        }
    }
}

/// When the current session is the one chosen as the latest (as after restoring sessions,
/// or after deleting the current one), it was edited no earlier than any session there is.
pub proof fn lemma_current_is_most_recent(sessions: Seq<SessionView>, current: Option<Seq<char>>)
    requires
        ids_unique(sessions),
        sessions.len() > 0,
        current == latest_id(sessions),
    ensures
        current matches Some(id) && index_of_id(sessions, id) matches Some(i) && forall|j: int|
            0 <= j < sessions.len() ==> !lex_lt(sessions[i].edited_at, #[trigger] sessions[j].edited_at),
{
    lemma_latest_is_most_recent(sessions);
    let k = latest_index(sessions);
    let id = sessions[k].id;
    assert(index_of_id(sessions, id) is Some);
    let i = index_of_id(sessions, id)->0;
    assert(sessions[i].id == id);
    if i != k {
        assert(sessions[i].id != sessions[k].id);
    }
}

/// Once the session with an id is removed from sessions whose ids are unique, no session
/// has that id.
pub proof fn lemma_deleted_session_gone(s: Seq<SessionView>, id: Seq<char>)
    requires
        ids_unique(s),
    ensures
        match index_of_id(s, id) {
            Some(i) => index_of_id(s.remove(i), id) is None,
            None => true,
        },
{
    if let Some(i) = index_of_id(s, id) {
        let r = s.remove(i);
        assert forall|k: int| 0 <= k < r.len() implies r[k].id != id by {
            if k < i {
                assert(r[k] == s[k]);
            } else {
                assert(r[k] == s[k + 1]);
            }
        }
    }
}

/// The sessions of a workspace, one of which may be current.
pub struct SessionManager {
    sessions: Vec<Session>,
    current_session_id: Option<String>,
    storage_path: String,
}

impl SessionManager {
    pub closed spec fn sessions_view(&self) -> Seq<SessionView> {
        session_views(self.sessions@)
    }

    pub closed spec fn current_id(&self) -> Option<Seq<char>> {
        opt_view(self.current_session_id)
    }

    pub closed spec fn storage(&self) -> Seq<char> {
        self.storage_path@
    }

    /// Ids are unique and the current id, if any, names a session.
    pub open spec fn wf(&self) -> bool {
        &&& ids_unique(self.sessions_view())
        &&& match self.current_id() {
            Some(id) => index_of_id(self.sessions_view(), id) is Some,
            None => true,
        }
    }

    /// The current session, if any.
    pub open spec fn current_view(&self) -> Option<SessionView> {
        match self.current_id() {
            Some(id) => match index_of_id(self.sessions_view(), id) {
                Some(i) => Some(self.sessions_view()[i]),
                None => None,
            },
            None => None,
        }
    }

    /// The current session is the one that looking its id up finds.
    pub proof fn lemma_current_is_found(&self)
        requires
            self.wf(),
        ensures
            match self.current_view() {
                Some(v) => index_of_id(self.sessions_view(), v.id) matches Some(i)
                    && self.sessions_view()[i] == v,
                None => true,
            },
    {
    }

    /// An empty manager that keeps its sessions under `storage_path`.
    pub fn new(storage_path: String) -> (m: SessionManager)
        ensures
            m.wf(),
            m.sessions_view().len() == 0,
            m.current_id() is None,
            m.storage() == storage_path@,
    {
        SessionManager { sessions: Vec::new(), current_session_id: None, storage_path }
    }

    /// The directory the sessions are kept in.
    pub fn storage_path(&self) -> (p: &String)
        ensures
            p@ == self.storage(),
    {
        &self.storage_path
    }

    fn find_index(&self, id: &str) -> (r: Option<usize>)
        requires
            self.wf(),
        ensures
            match r {
                Some(i) => i < self.sessions_view().len() && self.sessions_view()[i as int].id
                    == id@ && index_of_id(self.sessions_view(), id@) == Some(i as int),
                None => index_of_id(self.sessions_view(), id@) is None,
            },
    {
        let mut i: usize = 0;
        while i < self.sessions.len()
            invariant
                self.wf(),
                i <= self.sessions@.len(),
                forall|j: int| 0 <= j < i ==> self.sessions@[j]@.id != id@,
            decreases self.sessions@.len() - i,
        {
            if str_eq(self.sessions[i].id.as_str(), id) {
                proof {
                    let s = self.sessions_view();
                    assert(s[i as int].id == id@);
                    assert(ids_unique(s));
                    let k = choose|k: int| 0 <= k < s.len() && s[k].id == id@;
                    assert(0 <= k < s.len() && s[k].id == id@);
                    if k != i {
                        assert(s[k].id != s[i as int].id);
                    }
                }
                return Some(i);
            }
            i = i + 1;
        }
        proof {
            let s = self.sessions_view();
            assert(!(exists|k: int| 0 <= k < s.len() && s[k].id == id@)) by {
                assert forall|k: int| 0 <= k < s.len() implies s[k].id != id@ by {
                    assert(s[k] == self.sessions@[k]@);
                }
            }
        }
        None
    }

    fn current_index(&self) -> (r: Option<usize>)
        requires
            self.wf(),
        ensures
            match r {
                Some(i) => i < self.sessions_view().len() && self.current_view() == Some(
                    self.sessions_view()[i as int],
                ) && self.current_id() == Some(self.sessions_view()[i as int].id),
                None => self.current_view() is None && self.current_id() is None,
            },
    {
        match &self.current_session_id {
            Some(id) => self.find_index(id.as_str()),
            None => None,
        }
    }

    /// Whether some session has the given name.
    pub fn session_name_exists(&self, session_name: &str) -> (b: bool)
        ensures
            b == exists|i: int|
                0 <= i < self.sessions_view().len() && #[trigger] self.sessions_view()[i].name
                    == session_name@,
    {
        let mut i: usize = 0;
        while i < self.sessions.len()
            invariant
                i <= self.sessions@.len(),
                forall|j: int| 0 <= j < i ==> self.sessions@[j]@.name != session_name@,
            decreases self.sessions@.len() - i,
        {
            if str_eq(self.sessions[i].name.as_str(), session_name) {
                assert(self.sessions_view()[i as int].name == session_name@);
                return true;
            }
            i = i + 1;
        }
        assert forall|j: int| 0 <= j < self.sessions_view().len() implies #[trigger] self.sessions_view()[j].name
            != session_name@ by {
            assert(self.sessions_view()[j] == self.sessions@[j]@);
        }
        false
    }

    /// Inserts a session, replacing a session with the same id, and makes it current.
    fn insert_current(&mut self, session: Session) -> (idx: usize)
        requires
            old(self).wf(),
        ensures
            final(self).wf(),
            idx < final(self).sessions_view().len(),
            final(self).sessions_view()[idx as int] == session@,
            final(self).current_id() == Some(session@.id),
            final(self).storage() == old(self).storage(),
            forall|k: int|
                0 <= k < old(self).sessions_view().len() && old(self).sessions_view()[k].id
                    != session@.id ==> final(self).sessions_view().contains(
                    #[trigger] old(self).sessions_view()[k],
                ),
            forall|k: int|
                0 <= k < final(self).sessions_view().len() && k != idx ==> old(
                    self,
                ).sessions_view().contains(#[trigger] final(self).sessions_view()[k]),
    {
        let ghost before = self.sessions_view();
        let found = self.find_index(session.id.as_str());
        let id = session.id.clone();
        let idx = match found {
            Some(i) => {
                self.sessions.set(i, session);
                i
            },
            None => {
                self.sessions.push(session);
                self.sessions.len() - 1
            },
        };
        self.current_session_id = Some(id);
        proof {
            let after = self.sessions_view();
            assert(after[idx as int] == session@);
            match found {
                Some(i) => {
                    assert(after =~= before.update(i as int, session@));
                    assert forall|k: int|
                        0 <= k < before.len() && before[k].id != session@.id implies after.contains(
                        #[trigger] before[k],
                    ) by {
                        assert(after[k] == before[k]);
                    }
                    assert forall|k: int| 0 <= k < after.len() && k != idx implies before.contains(
                        #[trigger] after[k],
                    ) by {
                        assert(after[k] == before[k]);
                    }
                },
                None => {
                    assert(after =~= before.push(session@));
                    assert forall|k: int|
                        0 <= k < before.len() && before[k].id != session@.id implies after.contains(
                        #[trigger] before[k],
                    ) by {
                        assert(after[k] == before[k]);
                    }
                    assert forall|k: int| 0 <= k < after.len() && k != idx implies before.contains(
                        #[trigger] after[k],
                    ) by {
                        assert(after[k] == before[k]);
                    }
                    assert(ids_unique(after));
                },
            }
            assert(index_of_id(after, session@.id) is Some);
        }
        idx
    }

    /// Creates a session with the general core and makes it current.
    pub fn create_session(&mut self, name: String, sysprompt: &str, config: Config) -> (s: &Session)
        requires
            old(self).wf(),
        ensures
            final(self).wf(),
            final(self).current_view() == Some(s@),
            s@ == (SessionView { edited_at: s@.edited_at, ..fresh_session_of(s@, name@, sysprompt@, config@, CoreKind::General) }),
    {
        self.create_session_with_core(name, sysprompt, CoreKind::General, config)
    }

    /// Creates a session with the given core and makes it current. Its id is a fresh UUID;
    /// a session that happened to have the same id is replaced.
    pub fn create_session_with_core(
        &mut self,
        name: String,
        sysprompt: &str,
        core_profile: CoreKind,
        config: Config,
    ) -> (s: &Session)
        requires
            old(self).wf(),
        ensures
            final(self).wf(),
            final(self).current_view() == Some(s@),
            s@ == (SessionView { edited_at: s@.edited_at, ..fresh_session_of(s@, name@, sysprompt@, config@, core_profile) }),
            final(self).storage() == old(self).storage(),
            forall|k: int|
                0 <= k < old(self).sessions_view().len() && old(self).sessions_view()[k].id
                    != s@.id ==> final(self).sessions_view().contains(
                    #[trigger] old(self).sessions_view()[k],
                ),
            forall|t: SessionView|
                final(self).sessions_view().contains(t) && t.id != s@.id ==> old(
                    self,
                ).sessions_view().contains(t),
    {
        let mut session = Session::new(name, sysprompt, config);
        session.core_profile = core_profile;
        session.touch();
        let ghost sv = session@;
        let idx = self.insert_current(session);
        proof {
            let after = self.sessions_view();
            assert(index_of_id(after, sv.id) == Some(idx as int));
            assert forall|t: SessionView| after.contains(t) && t.id != sv.id implies old(
                self,
            ).sessions_view().contains(t) by {
                let k = choose|k: int| 0 <= k < after.len() && after[k] == t;
                assert(k != idx);
            }
        }
        &self.sessions[idx]
    }

    /// The names of all sessions.
    pub fn list_session_names(&self) -> (names: Vec<String>)
        ensures
            names@.len() == self.sessions_view().len(),
            forall|i: int| 0 <= i < names@.len() ==> #[trigger] names@[i]@ == self.sessions_view()[i].name,
    {
        let mut names: Vec<String> = Vec::new();
        let mut i: usize = 0;
        while i < self.sessions.len()
            invariant
                i <= self.sessions@.len(),
                names@.len() == i,
                forall|k: int| 0 <= k < i ==> #[trigger] names@[k]@ == self.sessions@[k]@.name,
            decreases self.sessions@.len() - i,
        {
            names.push(self.sessions[i].name.clone());
            i = i + 1;
        }
        names
    }

    /// Copies of all sessions.
    pub fn list_sessions(&self) -> (all: Vec<Session>)
        ensures
            session_views(all@) == self.sessions_view(),
    {
        let mut all: Vec<Session> = Vec::new();
        let mut i: usize = 0;
        while i < self.sessions.len()
            invariant
                i <= self.sessions@.len(),
                all@.len() == i,
                forall|k: int| 0 <= k < i ==> (#[trigger] all@[k])@ == self.sessions@[k]@,
            decreases self.sessions@.len() - i,
        {
            all.push(self.sessions[i].duplicate());
            i = i + 1;
        }
        assert(session_views(all@) =~= self.sessions_view());
        all
    }

    /// The session with the given id.
    pub fn get_session(&self, session_id: &str) -> (r: Option<&Session>)
        requires
            self.wf(),
        ensures
            match index_of_id(self.sessions_view(), session_id@) {
                Some(i) => r matches Some(s) && s@ == self.sessions_view()[i],
                None => r is None,
            },
    {
        match self.find_index(session_id) {
            Some(i) => Some(&self.sessions[i]),
            None => None,
        }
    }

    /// The id of the first session with the given name.
    pub fn find_session_id_by_name(&self, session_name: &str) -> (r: Option<String>)
        ensures
            match r {
                Some(id) => exists|i: int|
                    0 <= i < self.sessions_view().len() && self.sessions_view()[i].name
                        == session_name@ && self.sessions_view()[i].id == id@ && forall|j: int|
                        0 <= j < i ==> self.sessions_view()[j].name != session_name@,
                None => forall|i: int|
                    0 <= i < self.sessions_view().len() ==> self.sessions_view()[i].name
                        != session_name@,
            },
    {
        let mut i: usize = 0;
        while i < self.sessions.len()
            invariant
                i <= self.sessions@.len(),
                forall|j: int| 0 <= j < i ==> self.sessions@[j]@.name != session_name@,
            decreases self.sessions@.len() - i,
        {
            if str_eq(self.sessions[i].name.as_str(), session_name) {
                let id = self.sessions[i].id.clone();
                proof {
                    let s = self.sessions_view();
                    assert(s[i as int] == self.sessions@[i as int]@);
                    assert forall|j: int| 0 <= j < i implies s[j].name != session_name@ by {
                        assert(s[j] == self.sessions@[j]@);
                    }
                }
                return Some(id);
            }
            i = i + 1;
        }
        proof {
            let s = self.sessions_view();
            assert forall|j: int| 0 <= j < s.len() implies s[j].name != session_name@ by {
                assert(s[j] == self.sessions@[j]@);
            }
        }
        None
    }

    /// Makes the session with the given id current; an unknown id is an error and changes
    /// nothing.
    pub fn switch_session(&mut self, session_id: &str) -> (r: Result<&Session, String>)
        requires
            old(self).wf(),
        ensures
            final(self).wf(),
            final(self).sessions_view() == old(self).sessions_view(),
            final(self).storage() == old(self).storage(),
            match index_of_id(old(self).sessions_view(), session_id@) {
                Some(i) => r matches Ok(s) && s@ == old(self).sessions_view()[i]
                    && final(self).current_id() == Some(session_id@),
                None => r matches Err(e) && e@ == session_not_found(session_id@)
                    && final(self).current_id() == old(self).current_id(),
            },
    {
        match self.find_index(session_id) {
            Some(i) => {
                self.current_session_id = Some(session_id.to_owned());
                Ok(&self.sessions[i])
            },
            None => {
                let mut e = "Session '".to_owned();
                e.append(session_id);
                e.append("' not found");
                Err(e)
            },
        }
    }

    fn latest_session_id(&self) -> (r: Option<String>)
        ensures
            opt_view(r) == latest_id(self.sessions_view()),
    {
        if self.sessions.len() == 0 {
            return None;
        }
        let mut best: usize = 0;
        let mut i: usize = 1;
        while i < self.sessions.len()
            invariant
                1 <= i <= self.sessions@.len(),
                best < i,
                best == latest_index(self.sessions_view().take(i as int)),
            decreases self.sessions@.len() - i,
        {
            proof {
                let s = self.sessions_view();
                assert(s.take(i + 1).drop_last() =~= s.take(i as int));
                assert(s.take(i + 1)[best as int] == self.sessions@[best as int]@);
                assert(s.take(i + 1).last() == self.sessions@[i as int]@);
            }
            if !str_less(self.sessions[i].edited_at.as_str(), self.sessions[best].edited_at.as_str()) {
                best = i;
            }
            i = i + 1;
        }
        assert(self.sessions_view().take(i as int) =~= self.sessions_view());
        Some(self.sessions[best].id.clone())
    }

    /// Deletes the session with the given id. When the current session is deleted, or there
    /// was none, the most recently edited remaining session becomes current.
    pub fn delete_session(&mut self, session_id: &str) -> (r: Result<(), String>)
        requires
            old(self).wf(),
        ensures
            final(self).wf(),
            final(self).storage() == old(self).storage(),
            match index_of_id(old(self).sessions_view(), session_id@) {
                Some(i) => {
                    &&& r is Ok
                    &&& final(self).sessions_view() == old(self).sessions_view().remove(i)
                    &&& final(self).current_id() == if old(self).current_id() is None
                        || old(self).current_id() == Some(session_id@) {
                        latest_id(final(self).sessions_view())
                    } else {
                        old(self).current_id()
                    }
                },
                None => r matches Err(e) && e@ == session_not_found(session_id@)
                    && final(self).sessions_view() == old(self).sessions_view()
                    && final(self).current_id() == old(self).current_id(),
            },
    {
        let found = self.find_index(session_id);
        match found {
            None => {
                let mut e = "Session '".to_owned();
                e.append(session_id);
                e.append("' not found");
                Err(e)
            },
            Some(i) => {
                let ghost before = self.sessions_view();
                let clear = match &self.current_session_id {
                    Some(current) => str_eq(current.as_str(), session_id),
                    None => true,
                };
                self.sessions.remove(i);
                proof {
                    assert(self.sessions_view() =~= before.remove(i as int));
                }
                if clear {
                    self.current_session_id = self.latest_session_id();
                    proof {
                        let s = self.sessions_view();
                        if s.len() > 0 {
                            lemma_latest_index_bounds(s);
                            let k = latest_index(s);
                            assert(index_of_id(s, s[k].id) is Some);
                        }
                    }
                } else {
                    proof {
                        let s = self.sessions_view();
                        let cid = self.current_id()->0;
                        let j = index_of_id(before, cid)->0;
                        assert(j != i);
                        if j < i {
                            assert(s[j] == before[j]);
                        } else {
                            assert(s[j - 1] == before[j]);
                        }
                    }
                }
                proof {
                    let s = self.sessions_view();
                    assert forall|a: int, b: int|
                        0 <= a < s.len() && 0 <= b < s.len() && a != b implies s[a].id != s[b].id by {
                        let a0 = if a < i { a } else { a + 1 };
                        let b0 = if b < i { b } else { b + 1 };
                        assert(s[a] == before[a0]);
                        assert(s[b] == before[b0]);
                    }
                }
                Ok(())
            },
        }
    }

    /// The session with the given id, to be changed in place; the other sessions and the
    /// current id stay as they are.
    pub fn get_session_mut(&mut self, session_id: &str) -> (r: Option<&mut Session>)
        requires
            old(self).wf(),
        ensures
            match index_of_id(old(self).sessions_view(), session_id@) {
                Some(i) => r matches Some(s) && s@ == old(self).sessions_view()[i]
                    && final(self).sessions_view() == old(self).sessions_view().update(i, final(s)@),
                None => r is None && final(self).sessions_view() == old(self).sessions_view(),
            },
            final(self).current_id() == old(self).current_id(),
            final(self).storage() == old(self).storage(),
    {
        match self.find_index(session_id) {
            Some(i) => Some(&mut self.sessions[i]),
            None => None,
        }
    }

    /// The current session, to be changed in place; the other sessions and the current id
    /// stay as they are.
    pub fn get_current_session_mut(&mut self) -> (r: Option<&mut Session>)
        requires
            old(self).wf(),
        ensures
            match old(self).current_id() {
                Some(id) => index_of_id(old(self).sessions_view(), id) matches Some(i) && r matches Some(s)
                    && s@ == old(self).sessions_view()[i] && final(self).sessions_view()
                    == old(self).sessions_view().update(i, final(s)@),
                None => r is None && final(self).sessions_view() == old(self).sessions_view(),
            },
            final(self).current_id() == old(self).current_id(),
            final(self).storage() == old(self).storage(),
    {
        match self.current_index() {
            Some(i) => Some(&mut self.sessions[i]),
            None => None,
        }
    }

    /// The current session, if any.
    pub fn get_current_session(&self) -> (r: Option<&Session>)
        requires
            self.wf(),
        ensures
            match self.current_view() {
                Some(v) => r matches Some(s) && s@ == v,
                None => r is None,
            },
    {
        match self.current_index() {
            Some(i) => Some(&self.sessions[i]),
            None => None,
        }
    }

    /// Applies `f` to the session at `i`, leaving the others and the current id as they are.
    fn update_at(&mut self, i: usize, session: Session)
        requires
            old(self).wf(),
            i < old(self).sessions_view().len(),
            session@.id == old(self).sessions_view()[i as int].id,
        ensures
            final(self).wf(),
            final(self).sessions_view() == old(self).sessions_view().update(i as int, session@),
            final(self).current_id() == old(self).current_id(),
            final(self).storage() == old(self).storage(),
    {
        let ghost before = self.sessions_view();
        self.sessions.set(i, session);
        proof {
            let s = self.sessions_view();
            assert(s =~= before.update(i as int, session@));
            assert forall|a: int| 0 <= a < s.len() implies s[a].id == before[a].id by {}
            match self.current_id() {
                Some(cid) => {
                    let j = index_of_id(before, cid)->0;
                    assert(s[j].id == cid);
                },
                None => {},
            }
        }
    }

    /// Appends a message to the session with the given id; false when there is none.
    pub fn add_message_to_session(&mut self, session_id: &str, message: ChatMessage) -> (b: bool)
        requires
            old(self).wf(),
        ensures
            final(self).wf(),
            final(self).current_id() == old(self).current_id(),
            final(self).storage() == old(self).storage(),
            match index_of_id(old(self).sessions_view(), session_id@) {
                Some(i) => b && final(self).sessions_view().len() == old(self).sessions_view().len()
                    && final(self).sessions_view() == old(self).sessions_view().update(
                    i,
                    SessionView {
                        edited_at: final(self).sessions_view()[i].edited_at,
                        messages: old(self).sessions_view()[i].messages.push(message@),
                        ..old(self).sessions_view()[i]
                    },
                ),
                None => !b && final(self).sessions_view() == old(self).sessions_view(),
            },
    {
        match self.find_index(session_id) {
            Some(i) => {
                let mut s = self.sessions[i].duplicate();
                s.add_message(message);
                self.update_at(i, s);
                true
            },
            None => false,
        }
    }

    /// Appends a message to the current session, if any.
    pub fn add_message_to_current(&mut self, message: ChatMessage)
        requires
            old(self).wf(),
        ensures
            final(self).wf(),
            final(self).current_id() == old(self).current_id(),
            final(self).storage() == old(self).storage(),
            match old(self).current_id() {
                Some(id) => {
                    let i = index_of_id(old(self).sessions_view(), id)->0;
                    final(self).sessions_view() == old(self).sessions_view().update(
                        i,
                        SessionView {
                            edited_at: final(self).sessions_view()[i].edited_at,
                            messages: old(self).sessions_view()[i].messages.push(message@),
                            ..old(self).sessions_view()[i]
                        },
                    )
                },
                None => final(self).sessions_view() == old(self).sessions_view(),
            },
    {
        match self.current_index() {
            Some(i) => {
                let mut s = self.sessions[i].duplicate();
                s.add_message(message);
                self.update_at(i, s);
            },
            None => {},
        }
    }

    /// Records token usage on the session with the given id; false when there is none.
    pub fn record_usage_to_session(
        &mut self,
        session_id: &str,
        prompt_tokens: u32,
        completion_tokens: u32,
        total_tokens: u32,
    ) -> (b: bool)
        requires
            old(self).wf(),
            forall|i: int|
                0 <= i < old(self).sessions_view().len() ==> usage_fits(
                    #[trigger] old(self).sessions_view()[i],
                    prompt_tokens,
                    completion_tokens,
                    total_tokens,
                ),
        ensures
            final(self).wf(),
            final(self).current_id() == old(self).current_id(),
            final(self).storage() == old(self).storage(),
            match index_of_id(old(self).sessions_view(), session_id@) {
                Some(i) => b && final(self).sessions_view() == old(self).sessions_view().update(
                    i,
                    usage_recorded(
                        old(self).sessions_view()[i],
                        final(self).sessions_view()[i].edited_at,
                        prompt_tokens,
                        completion_tokens,
                        total_tokens,
                    ),
                ),
                None => !b && final(self).sessions_view() == old(self).sessions_view(),
            },
    {
        match self.find_index(session_id) {
            Some(i) => {
                let mut s = self.sessions[i].duplicate();
                assert(usage_fits(self.sessions_view()[i as int], prompt_tokens, completion_tokens, total_tokens));
                s.record_usage(prompt_tokens, completion_tokens, total_tokens);
                self.update_at(i, s);
                true
            },
            None => false,
        }
    }

    /// Records token usage on the current session, if any.
    pub fn record_usage_to_current(
        &mut self,
        prompt_tokens: u32,
        completion_tokens: u32,
        total_tokens: u32,
    )
        requires
            old(self).wf(),
            forall|i: int|
                0 <= i < old(self).sessions_view().len() ==> usage_fits(
                    #[trigger] old(self).sessions_view()[i],
                    prompt_tokens,
                    completion_tokens,
                    total_tokens,
                ),
        ensures
            final(self).wf(),
            final(self).current_id() == old(self).current_id(),
            final(self).storage() == old(self).storage(),
            match old(self).current_id() {
                Some(id) => {
                    let i = index_of_id(old(self).sessions_view(), id)->0;
                    final(self).sessions_view() == old(self).sessions_view().update(
                        i,
                        usage_recorded(
                            old(self).sessions_view()[i],
                            final(self).sessions_view()[i].edited_at,
                            prompt_tokens,
                            completion_tokens,
                            total_tokens,
                        ),
                    )
                },
                None => final(self).sessions_view() == old(self).sessions_view(),
            },
    {
        match self.current_index() {
            Some(i) => {
                let mut s = self.sessions[i].duplicate();
                assert(usage_fits(self.sessions_view()[i as int], prompt_tokens, completion_tokens, total_tokens));
                s.record_usage(prompt_tokens, completion_tokens, total_tokens);
                self.update_at(i, s);
            },
            None => {},
        }
    }

    /// The configuration of the current session, if any.
    pub fn get_current_config(&self) -> (c: Option<Config>)
        requires
            self.wf(),
        ensures
            match self.current_view() {
                Some(v) => c matches Some(cfg) && cfg@ == v.config,
                None => c is None,
            },
    {
        match self.current_index() {
            Some(i) => Some(self.sessions[i].get_config()),
            None => None,
        }
    }

    /// The configuration of the session with the given id.
    pub fn get_session_config(&self, session_id: &str) -> (c: Option<Config>)
        requires
            self.wf(),
        ensures
            match index_of_id(self.sessions_view(), session_id@) {
                Some(i) => c matches Some(cfg) && cfg@ == self.sessions_view()[i].config,
                None => c is None,
            },
    {
        match self.find_index(session_id) {
            Some(i) => Some(self.sessions[i].get_config()),
            None => None,
        }
    }

    /// Clears the history of the current session, if any.
    pub fn clear_current_session(&mut self)
        requires
            old(self).wf(),
        ensures
            final(self).wf(),
            final(self).current_id() == old(self).current_id(),
            final(self).storage() == old(self).storage(),
            match old(self).current_id() {
                Some(id) => {
                    let i = index_of_id(old(self).sessions_view(), id)->0;
                    let o = old(self).sessions_view()[i];
                    final(self).sessions_view() == old(self).sessions_view().update(
                        i,
                        SessionView {
                            edited_at: final(self).sessions_view()[i].edited_at,
                            messages: seq![o.sysprompt],
                            summary: None,
                            compacted_until: 0,
                            ..o
                        },
                    )
                },
                None => final(self).sessions_view() == old(self).sessions_view(),
            },
    {
        match self.current_index() {
            Some(i) => {
                let mut s = self.sessions[i].duplicate();
                s.clear_messages();
                self.update_at(i, s);
            },
            None => {},
        }
    }

    /// Compacts the current session; an error when there is none or it has too little
    /// history.
    pub fn compact_current_session_to_recent(&mut self, min_recent_messages: usize) -> (r: Result<
        usize,
        String,
    >)
        requires
            old(self).wf(),
        ensures
            final(self).wf(),
            final(self).current_id() == old(self).current_id(),
            final(self).storage() == old(self).storage(),
            match old(self).current_view() {
                Some(v) => if can_compact(v, min_recent_messages as nat) {
                    &&& r == Ok::<usize, String>(crate::session::compaction_cutoff(v, min_recent_messages as nat) as usize)
                    &&& final(self).current_view() matches Some(nv)
                    &&& nv == (SessionView {
                        edited_at: nv.edited_at,
                        summary: Some(crate::session::compacted_summary(v, min_recent_messages as nat)),
                        compacted_until: crate::session::compaction_cutoff(v, min_recent_messages as nat),
                        ..v
                    })
                } else {
                    r matches Err(e) && e@ == not_enough_history_message()
                        && final(self).sessions_view() == old(self).sessions_view()
                },
                None => r matches Err(e) && e@ == "No current session."@
                    && final(self).sessions_view() == old(self).sessions_view(),
            },
    {
        match self.current_index() {
            Some(i) => {
                let mut s = self.sessions[i].duplicate();
                let r = s.compact_to_recent(min_recent_messages);
                match r {
                    Ok(cutoff) => {
                        self.update_at(i, s);
                        proof {
                            let cid = self.current_id()->0;
                            assert(index_of_id(self.sessions_view(), cid) == Some(i as int)) by {
                                let k = choose|k: int| 0 <= k < self.sessions_view().len() && self.sessions_view()[k].id == cid;
                                if k != i {
                                    assert(self.sessions_view()[k].id != self.sessions_view()[i as int].id);
                                }
                            }
                        }
                        Ok(cutoff)
                    },
                    Err(e) => Err(e),
                }
            },
            None => Err("No current session.".to_owned()),
        }
    }

    /// Replaces all sessions by the given ones (a later one replaces an earlier one with the
    /// same id; an empty edit time is taken from the creation time) and makes the most
    /// recently edited one current. Leaves the manager unchanged and returns false when no
    /// session is given.
    pub fn restore_sessions(&mut self, sessions: Vec<Session>) -> (b: bool)
        requires
            old(self).wf(),
        ensures
            final(self).wf(),
            final(self).storage() == old(self).storage(),
            b == (sessions@.len() > 0),
            !b ==> final(self).sessions_view() == old(self).sessions_view() && final(self).current_id()
                == old(self).current_id(),
            b ==> final(self).current_id() == latest_id(final(self).sessions_view()),
            b ==> forall|t: SessionView| #[trigger]
                final(self).sessions_view().contains(t) ==> exists|k: int|
                    0 <= k < sessions@.len() && t == restored(sessions@[k]@),
            b ==> forall|k: int|
                0 <= k < sessions@.len() && (forall|j: int|
                    k < j < sessions@.len() ==> sessions@[j]@.id != sessions@[k]@.id)
                    ==> final(self).sessions_view().contains(#[trigger] restored(sessions@[k]@)),
    {
        if sessions.len() == 0 {
            return false;
        }
        let ghost given = sessions@;
        self.sessions = Vec::new();
        self.current_session_id = None;
        let mut i: usize = 0;
        let n = sessions.len();
        let mut rest = sessions;
        proof {
            assert(self.sessions_view() =~= Seq::<SessionView>::empty());
        }
        while i < n
            invariant
                n == given.len(),
                i <= n,
                self.wf(),
                self.storage() == old(self).storage(),
                rest@ == given,
                i > 0 ==> self.sessions_view().len() > 0,
                forall|t: SessionView| #[trigger]
                    self.sessions_view().contains(t) ==> exists|k: int|
                        0 <= k < i && t == restored(given[k]@),
                forall|k: int|
                    0 <= k < i && (forall|j: int| k < j < i ==> given[j]@.id != given[k]@.id)
                        ==> self.sessions_view().contains(#[trigger] restored(given[k]@)),
            decreases n - i,
        {
            let mut s = rest[i].duplicate();
            if s.edited_at.as_str().unicode_len() == 0 {
                s.edited_at = s.created_at.clone();
            }
            let ghost sv = s@;
            assert(sv == restored(given[i as int]@));
            let ghost before = self.sessions_view();
            self.insert_current(s);
            proof {
                let after = self.sessions_view();
                assert forall|t: SessionView| #[trigger] after.contains(t) implies exists|k: int|
                    0 <= k < i + 1 && t == restored(given[k]@) by {
                    if t != sv {
                        let q = choose|q: int| 0 <= q < after.len() && after[q] == t;
                        assert(before.contains(after[q]) || after[q] == sv);
                    }
                }
                assert forall|k: int|
                    0 <= k < i + 1 && (forall|j: int| k < j < i + 1 ==> given[j]@.id != given[k]@.id)
                        implies after.contains(#[trigger] restored(given[k]@)) by {
                    if k < i {
                        let t = restored(given[k]@);
                        assert(before.contains(t));
                        let q = choose|q: int| 0 <= q < before.len() && before[q] == t;
                        assert(given[i as int]@.id != given[k]@.id);
                        assert(before[q].id != sv.id);
                    } else {
                        assert(after.contains(sv)) by {
                            let idx = choose|idx: int| 0 <= idx < after.len() && after[idx] == sv;
                        }
                    }
                }
            }
            i = i + 1;
        }
        self.current_session_id = self.latest_session_id();
        proof {
            let s = self.sessions_view();
            lemma_latest_index_bounds(s);
            let k = latest_index(s);
            assert(index_of_id(s, s[k].id) is Some);
        }
        true
    }
}

/// The error for an unknown session id.
pub open spec fn session_not_found(id: Seq<char>) -> Seq<char> {
    "Session '"@ + id + "' not found"@
}

/// A session as restored from storage: an empty edit time is replaced by the creation time.
pub open spec fn restored(s: SessionView) -> SessionView {
    if s.edited_at.len() == 0 {
        SessionView { edited_at: s.created_at, ..s }
    } else {
        s
    }
}

/// The view a created session has, whatever its id and timestamps.
pub open spec fn fresh_session_of(
    s: SessionView,
    name: Seq<char>,
    sysprompt: Seq<char>,
    config: ConfigView,
    core: CoreKind,
) -> SessionView {
    SessionView {
        core_profile: core,
        ..crate::session::fresh_session(s.id, s.created_at, name, sysprompt, config)
    }
}

/// The cumulative counters can take the given usage without overflowing.
pub open spec fn usage_fits(s: SessionView, prompt: u32, completion: u32, total: u32) -> bool {
    &&& s.cumulative_prompt_tokens + prompt <= u64::MAX
    &&& s.cumulative_completion_tokens + completion <= u64::MAX
    &&& s.cumulative_total_tokens + total <= u64::MAX
}

/// A session after recording the given usage at time `now`.
pub open spec fn usage_recorded(
    s: SessionView,
    now: Seq<char>,
    prompt: u32,
    completion: u32,
    total: u32,
) -> SessionView {
    SessionView {
        edited_at: now,
        latest_prompt_tokens: prompt,
        latest_completion_tokens: completion,
        latest_total_tokens: total,
        cumulative_prompt_tokens: (s.cumulative_prompt_tokens + prompt) as u64,
        cumulative_completion_tokens: (s.cumulative_completion_tokens + completion) as u64,
        cumulative_total_tokens: (s.cumulative_total_tokens + total) as u64,
        ..s
    }
}

} // verus!
