//! Registries of Crust spaces and of LangGraph servers, kept sorted by id.

use vstd::prelude::*;
use vstd::string::*;

use crate::text::{
    ascii_lower, chars_of, eq_ignore_ascii_case, eq_ignore_ascii_case_chars, eq_ignore_case_spec,
    is_blank, is_blank_spec, lemma_lex_lt_irreflexive, lemma_lex_lt_transitive, lex_lt, lower_chars,
    trim, trim_spec,
};

verus! {

// ---------------------------------------------------------------------------
// Stable ordering by id
// ---------------------------------------------------------------------------

/// Ids are ordered case-insensitively for ASCII letters.
pub open spec fn id_key_lt(a: Seq<char>, b: Seq<char>) -> bool {
    lex_lt(ascii_lower(a), ascii_lower(b))
}

/// Position at which `x` goes into `sorted`: after every element whose key is not greater.
pub open spec fn insert_pos<T>(sorted: Seq<T>, x: T, key: spec_fn(T) -> Seq<char>) -> int
    decreases sorted.len(),
{
    if sorted.len() == 0 {
        0
    } else if id_key_lt(key(x), key(sorted[0])) {
        0
    } else {
        1 + insert_pos(sorted.drop_first(), x, key)
    }
}

pub open spec fn insert_sorted<T>(sorted: Seq<T>, x: T, key: spec_fn(T) -> Seq<char>) -> Seq<T> {
    let p = insert_pos(sorted, x, key);
    sorted.take(p).push(x) + sorted.skip(p)
}

/// The stable sort of `s` by case-insensitive id (what `slice::sort_by` computes).
pub open spec fn stable_sort<T>(s: Seq<T>, key: spec_fn(T) -> Seq<char>) -> Seq<T>
    decreases s.len(),
{
    if s.len() == 0 {
        s
    } else {
        insert_sorted(stable_sort(s.drop_last(), key), s.last(), key)
    }
}

proof fn lemma_insert_pos_bounds<T>(sorted: Seq<T>, x: T, key: spec_fn(T) -> Seq<char>)
    ensures
        0 <= insert_pos(sorted, x, key) <= sorted.len(),
        forall|j: int|
            0 <= j < insert_pos(sorted, x, key) ==> !id_key_lt(key(x), key(#[trigger] sorted[j])),
        insert_pos(sorted, x, key) < sorted.len() ==> id_key_lt(
            key(x),
            key(sorted[insert_pos(sorted, x, key)]),
        ),
    decreases sorted.len(),
{
    if sorted.len() > 0 && !id_key_lt(key(x), key(sorted[0])) {
        lemma_insert_pos_bounds(sorted.drop_first(), x, key);
        assert forall|j: int| 0 <= j < insert_pos(sorted, x, key) implies !id_key_lt(
            key(x),
            key(#[trigger] sorted[j]),
        ) by {
            if j > 0 {
                assert(sorted[j] == sorted.drop_first()[j - 1]);
            }
        }
    }
}

proof fn lemma_insert_pos_first<T>(sorted: Seq<T>, x: T, key: spec_fn(T) -> Seq<char>, p: int)
    requires
        0 <= p <= sorted.len(),
        forall|j: int| 0 <= j < p ==> !id_key_lt(key(x), key(#[trigger] sorted[j])),
        p < sorted.len() ==> id_key_lt(key(x), key(sorted[p])),
    ensures
        insert_pos(sorted, x, key) == p,
    decreases sorted.len(),
{
    if sorted.len() > 0 && p > 0 {
        assert(!id_key_lt(key(x), key(sorted[0])));
        assert forall|j: int| 0 <= j < p - 1 implies !id_key_lt(
            key(x),
            key(#[trigger] sorted.drop_first()[j]),
        ) by {
            assert(sorted.drop_first()[j] == sorted[j + 1]);
        }
        lemma_insert_pos_first(sorted.drop_first(), x, key, p - 1);
    }
}

/// Inserting keeps every element and adds `x`.
proof fn lemma_insert_sorted_contains<T>(sorted: Seq<T>, x: T, key: spec_fn(T) -> Seq<char>)
    ensures
        insert_sorted(sorted, x, key).len() == sorted.len() + 1,
        forall|y: T| #[trigger]
            insert_sorted(sorted, x, key).contains(y) <==> (sorted.contains(y) || y == x),
{
    lemma_insert_pos_bounds(sorted, x, key);
    let p = insert_pos(sorted, x, key);
    let r = insert_sorted(sorted, x, key);
    assert(r.len() == sorted.len() + 1);
    assert(r[p] == x);
    assert forall|y: T| #[trigger] r.contains(y) implies (sorted.contains(y) || y == x) by {
        let k = choose|k: int| 0 <= k < r.len() && r[k] == y;
        if k < p {
            assert(r[k] == sorted[k]);
        } else if k > p {
            assert(r[k] == sorted[k - 1]);
        }
    }
    assert forall|y: T| sorted.contains(y) || y == x implies #[trigger] r.contains(y) by {
        if y == x {
            assert(r[p] == y);
        } else {
            let j = choose|j: int| 0 <= j < sorted.len() && sorted[j] == y;
            if j < p {
                assert(r[j] == y);
            } else {
                assert(r[j + 1] == y);
            }
        }
    }
}

/// Sorting neither adds nor drops an element.
pub proof fn lemma_stable_sort_contains<T>(s: Seq<T>, key: spec_fn(T) -> Seq<char>)
    ensures
        stable_sort(s, key).len() == s.len(),
        forall|y: T| #[trigger] stable_sort(s, key).contains(y) <==> s.contains(y),
    decreases s.len(),
{
    if s.len() > 0 {
        let rest = s.drop_last();
        lemma_stable_sort_contains(rest, key);
        lemma_insert_sorted_contains(stable_sort(rest, key), s.last(), key);
        assert forall|y: T| #[trigger] s.contains(y) <==> (rest.contains(y) || y == s.last()) by {
            if s.contains(y) {
                let k = choose|k: int| 0 <= k < s.len() && s[k] == y;
                if k < s.len() - 1 {
                    assert(rest[k] == y);
                }
            }
            if rest.contains(y) {
                let k = choose|k: int| 0 <= k < rest.len() && rest[k] == y;
                assert(s[k] == y);
            }
            if y == s.last() {
                assert(s[s.len() - 1] == y);
            }
        }
    }
}

// ---------------------------------------------------------------------------
// Spaces
// ---------------------------------------------------------------------------

/// The state of a Crust space.
#[derive(Clone, Copy, Debug, PartialEq, Eq, Structural)]
pub enum SpaceStatus {
    Idle,
    Running,
    Stopped,
    Failed,
}

pub open spec fn space_status_name(s: SpaceStatus) -> Seq<char> {
    match s {
        SpaceStatus::Idle => "idle"@,
        SpaceStatus::Running => "running"@,
        SpaceStatus::Stopped => "stopped"@,
        SpaceStatus::Failed => "failed"@,
    }
}

impl SpaceStatus {
    /// The status as `Display` writes it.
    pub fn label(&self) -> (s: String)
        ensures
            s@ == space_status_name(*self),
    {
        match self {
            SpaceStatus::Idle => "idle".to_owned(),
            SpaceStatus::Running => "running".to_owned(),
            SpaceStatus::Stopped => "stopped".to_owned(),
            SpaceStatus::Failed => "failed".to_owned(),
        }
    }
}

/// A work slot: a task running in its own session and directory.
pub struct CrustSpace {
    pub id: String,
    pub name: String,
    pub session_id: String,
    pub cwd: String,
    pub status: SpaceStatus,
    pub process_id: Option<u32>,
    pub task_id: Option<String>,
    pub task: Option<String>,
    pub created_at: String,
    pub updated_at: String,
}

impl CrustSpace {
    pub fn duplicate(&self) -> (c: CrustSpace)
        ensures
            c == *self,
    {
        CrustSpace {
            id: self.id.clone(),
            name: self.name.clone(),
            session_id: self.session_id.clone(),
            cwd: self.cwd.clone(),
            status: self.status,
            process_id: self.process_id,
            task_id: crate::message::clone_opt_string(&self.task_id),
            task: crate::message::clone_opt_string(&self.task),
            created_at: self.created_at.clone(),
            updated_at: self.updated_at.clone(),
        }
    }
}

/// Spaces are ordered by id.
pub open spec fn space_key() -> spec_fn(CrustSpace) -> Seq<char> {
    |c: CrustSpace| c.id@
}

/// The registry of spaces.
pub struct SpacesRegistry {
    pub spaces: Vec<CrustSpace>,
}

/// The error that validation reports for the space at `i`, given that the earlier ones
/// passed: a blank id, name or directory, or an id that repeats an earlier one up to ASCII case.
pub open spec fn space_error(s: Seq<CrustSpace>, i: int) -> Option<Seq<char>> {
    let sp = s[i];
    if is_blank_spec(sp.id@) {
        Some("space id cannot be empty"@)
    } else if is_blank_spec(sp.name@) {
        Some("space `"@ + sp.id@ + "` name cannot be empty"@)
    } else if is_blank_spec(sp.cwd@) {
        Some("space `"@ + sp.id@ + "` cwd cannot be empty"@)
    } else if exists|j: int| 0 <= j < i && eq_ignore_case_spec(#[trigger] s[j].id@, sp.id@) {
        Some("duplicate space id `"@ + sp.id@ + "`"@)
    } else {
        None
    }
}

/// The first error among the first `n` spaces.
pub open spec fn spaces_validation(s: Seq<CrustSpace>, n: int) -> Result<(), Seq<char>>
    decreases n,
{
    if n <= 0 {
        Ok(())
    } else {
        match spaces_validation(s, n - 1) {
            Err(e) => Err(e),
            Ok(()) => match space_error(s, n - 1) {
                Some(e) => Err(e),
                None => Ok(()),
            },
        }
    }
}

proof fn lemma_spaces_validation_err(s: Seq<CrustSpace>, n: int, m: int)
    requires
        n <= m,
        spaces_validation(s, n) is Err,
    ensures
        spaces_validation(s, m) == spaces_validation(s, n),
    decreases m - n,
{
    if n < m {
        lemma_spaces_validation_err(s, n, m - 1);
    }
}

/// Index of the first space whose id matches `id` up to ASCII case.
pub open spec fn first_space_match(s: Seq<CrustSpace>, id: Seq<char>) -> Option<int> {
    if exists|i: int| 0 <= i < s.len() && eq_ignore_case_spec(s[i].id@, id) {
        Some(
            choose|i: int|
                0 <= i < s.len() && eq_ignore_case_spec(s[i].id@, id) && forall|j: int|
                    0 <= j < i ==> !eq_ignore_case_spec(#[trigger] s[j].id@, id),
        )
    } else {
        None
    }
}

/// The spaces after `space` is upserted: it replaces the first space whose id matches its
/// trimmed id, or joins the others, sorted by id.
pub open spec fn upserted_spaces(s: Seq<CrustSpace>, space: CrustSpace) -> Seq<CrustSpace> {
    match first_space_match(s, trim_spec(space.id@)) {
        Some(i) => s.update(i, space),
        None => stable_sort(s.push(space), space_key()),
    }
}

/// Spaces listed in order of their ids, compared without regard to ASCII case.
pub open spec fn spaces_sorted(s: Seq<CrustSpace>) -> bool {
    forall|i: int, j: int| 0 <= i < j < s.len() ==> !id_key_lt(#[trigger] s[j].id@, #[trigger] s[i].id@)
}

/// Every space has a non-blank id, name and directory, and no two ids are equal up to
/// ASCII case.
pub open spec fn spaces_valid(s: Seq<CrustSpace>) -> bool {
    &&& forall|i: int|
        0 <= i < s.len() ==> !is_blank_spec(#[trigger] s[i].id@) && !is_blank_spec(s[i].name@)
            && !is_blank_spec(s[i].cwd@)
    &&& forall|i: int, j: int|
        0 <= i < j < s.len() ==> !eq_ignore_case_spec(#[trigger] s[i].id@, #[trigger] s[j].id@)
}

/// The validation of the first `n` spaces passes exactly when none of them has an error.
proof fn lemma_spaces_validation_ok(s: Seq<CrustSpace>, n: int)
    requires
        0 <= n <= s.len(),
    ensures
        spaces_validation(s, n) is Ok <==> forall|i: int| 0 <= i < n ==> #[trigger] space_error(s, i) is None,
    decreases n,
{
    if n > 0 {
        lemma_spaces_validation_ok(s, n - 1);
    }
}

/// Validation passes exactly when the spaces are valid.
proof fn lemma_spaces_validation_valid(s: Seq<CrustSpace>)
    ensures
        spaces_validation(s, s.len() as int) is Ok <==> spaces_valid(s),
{
    lemma_spaces_validation_ok(s, s.len() as int);
    if spaces_validation(s, s.len() as int) is Ok {
        assert forall|i: int, j: int| 0 <= i < j < s.len() implies !eq_ignore_case_spec(
            #[trigger] s[i].id@,
            #[trigger] s[j].id@,
        ) by {
            assert(space_error(s, j) is None);
        }
        assert forall|i: int| 0 <= i < s.len() implies !is_blank_spec(#[trigger] s[i].id@)
            && !is_blank_spec(s[i].name@) && !is_blank_spec(s[i].cwd@) by {
            assert(space_error(s, i) is None);
        }
    }
    if spaces_valid(s) {
        assert forall|i: int| 0 <= i < s.len() implies #[trigger] space_error(s, i) is None by {
            if exists|j: int| 0 <= j < i && eq_ignore_case_spec(#[trigger] s[j].id@, s[i].id@) {
                let j = choose|j: int| 0 <= j < i && eq_ignore_case_spec(#[trigger] s[j].id@, s[i].id@);
                assert(!eq_ignore_case_spec(s[j].id@, s[i].id@));
            }
        }
    }
}

/// Sorting spaces that are already in order leaves them as they are.
proof fn lemma_stable_sort_sorted(s: Seq<CrustSpace>)
    requires
        spaces_sorted(s),
    ensures
        stable_sort(s, space_key()) == s,
    decreases s.len(),
{
    if s.len() > 0 {
        let rest = s.drop_last();
        assert(spaces_sorted(rest)) by {
            assert forall|i: int, j: int| 0 <= i < j < rest.len() implies !id_key_lt(
                #[trigger] rest[j].id@,
                #[trigger] rest[i].id@,
            ) by {
                assert(rest[i] == s[i] && rest[j] == s[j]);
            }
        }
        lemma_stable_sort_sorted(rest);
        let x = s.last();
        assert forall|j: int| 0 <= j < rest.len() implies !id_key_lt(
            space_key()(x),
            space_key()(#[trigger] rest[j]),
        ) by {
            assert(rest[j] == s[j]);
            assert(x == s[s.len() - 1]);
        }
        lemma_insert_pos_first(rest, x, space_key(), rest.len() as int);
        assert(insert_sorted(rest, x, space_key()) =~= s);
    }
}

/// Inserting a space into spaces in order keeps them in order.
proof fn lemma_insert_sorted_sorted(s: Seq<CrustSpace>, x: CrustSpace)
    requires
        spaces_sorted(s),
    ensures
        spaces_sorted(insert_sorted(s, x, space_key())),
{
    lemma_insert_pos_bounds(s, x, space_key());
    let p = insert_pos(s, x, space_key());
    let r = insert_sorted(s, x, space_key());
    assert forall|i: int, j: int| 0 <= i < j < r.len() implies !id_key_lt(
        #[trigger] r[j].id@,
        #[trigger] r[i].id@,
    ) by {
        let ki = ascii_lower(r[i].id@);
        let kj = ascii_lower(r[j].id@);
        if j < p {
            assert(r[i] == s[i] && r[j] == s[j]);
        } else if j == p {
            assert(r[j] == x && r[i] == s[i]);
        } else if i > p {
            assert(r[i] == s[i - 1] && r[j] == s[j - 1]);
        } else if i == p {
            assert(r[i] == x && r[j] == s[j - 1]);
            assert(id_key_lt(x.id@, s[p].id@));
            if id_key_lt(s[j - 1].id@, x.id@) {
                lemma_lex_lt_transitive(
                    ascii_lower(s[j - 1].id@),
                    ascii_lower(x.id@),
                    ascii_lower(s[p].id@),
                );
                if j - 1 == p {
                    lemma_lex_lt_irreflexive(ascii_lower(s[p].id@));
                }
            }
        } else {
            assert(r[i] == s[i] && r[j] == s[j - 1]);
        }
    }
}

/// Replacing the space at `k` by one whose id matches the old one's up to ASCII case, and
/// whose fields are not blank, keeps valid spaces valid and in order.
#[verifier::spinoff_prover]
proof fn lemma_replace_keeps_valid(s: Seq<CrustSpace>, space: CrustSpace, k: int)
    requires
        spaces_valid(s),
        spaces_sorted(s),
        0 <= k < s.len(),
        eq_ignore_case_spec(s[k].id@, space.id@),
        !is_blank_spec(space.id@),
        !is_blank_spec(space.name@),
        !is_blank_spec(space.cwd@),
    ensures
        spaces_valid(s.update(k, space)),
        spaces_sorted(s.update(k, space)),
{
    let r = s.update(k, space);
    assert forall|i: int, j: int| 0 <= i < j < r.len() implies !eq_ignore_case_spec(
        #[trigger] r[i].id@,
        #[trigger] r[j].id@,
    ) by {
        if i == k {
            assert(r[i] == space && r[j] == s[j]);
            assert(!eq_ignore_case_spec(s[k].id@, s[j].id@));
        } else if j == k {
            assert(r[j] == space && r[i] == s[i]);
            assert(!eq_ignore_case_spec(s[i].id@, s[k].id@));
        } else {
            assert(r[i] == s[i] && r[j] == s[j]);
        }
    }
    assert forall|i: int, j: int| 0 <= i < j < r.len() implies !id_key_lt(
        #[trigger] r[j].id@,
        #[trigger] r[i].id@,
    ) by {
        if i == k {
            assert(r[i] == space && r[j] == s[j]);
            assert(!id_key_lt(s[j].id@, s[k].id@));
        } else if j == k {
            assert(r[j] == space && r[i] == s[i]);
            assert(!id_key_lt(s[k].id@, s[i].id@));
        } else {
            assert(r[i] == s[i] && r[j] == s[j]);
        }
    }
    assert forall|i: int| 0 <= i < r.len() implies !is_blank_spec(#[trigger] r[i].id@)
        && !is_blank_spec(r[i].name@) && !is_blank_spec(r[i].cwd@) by {
        if i != k {
            assert(r[i] == s[i]);
        } else {
            assert(r[i] == space);
        }
    }
    assert(spaces_valid(r));
    assert(spaces_sorted(r));
}

/// Inserting, in order, a space whose id matches none of the others and whose fields are
/// not blank keeps valid spaces valid and in order.
#[verifier::spinoff_prover]
proof fn lemma_insert_keeps_valid(s: Seq<CrustSpace>, space: CrustSpace)
    requires
        spaces_valid(s),
        spaces_sorted(s),
        forall|j: int| 0 <= j < s.len() ==> !eq_ignore_case_spec(#[trigger] s[j].id@, space.id@),
        !is_blank_spec(space.id@),
        !is_blank_spec(space.name@),
        !is_blank_spec(space.cwd@),
    ensures
        spaces_valid(insert_sorted(s, space, space_key())),
        spaces_sorted(insert_sorted(s, space, space_key())),
{
    let r = insert_sorted(s, space, space_key());
    lemma_insert_sorted_sorted(s, space);
    lemma_insert_pos_bounds(s, space, space_key());
    let p = insert_pos(s, space, space_key());
    assert(r.len() == s.len() + 1);
    assert(forall|i: int| 0 <= i < p ==> #[trigger] r[i] == s[i]);
    assert(r[p] == space);
    assert(forall|i: int| p < i < r.len() ==> #[trigger] r[i] == s[i - 1]);
    assert forall|i: int| 0 <= i < r.len() implies !is_blank_spec(#[trigger] r[i].id@)
        && !is_blank_spec(r[i].name@) && !is_blank_spec(r[i].cwd@) by {
        if i < p {
            assert(r[i] == s[i]);
        } else if i > p {
            assert(r[i] == s[i - 1]);
        }
    }
    assert forall|i: int, j: int| 0 <= i < j < r.len() implies !eq_ignore_case_spec(
        #[trigger] r[i].id@,
        #[trigger] r[j].id@,
    ) by {
        if j < p {
            assert(r[i] == s[i] && r[j] == s[j]);
        } else if j == p {
            assert(r[i] == s[i] && r[j] == space);
            assert(!eq_ignore_case_spec(s[i].id@, space.id@));
        } else if i > p {
            assert(r[i] == s[i - 1] && r[j] == s[j - 1]);
            assert(!eq_ignore_case_spec(s[i - 1].id@, s[j - 1].id@));
        } else if i == p {
            assert(r[i] == space && r[j] == s[j - 1]);
            assert(!eq_ignore_case_spec(s[j - 1].id@, space.id@));
        } else {
            assert(r[i] == s[i] && r[j] == s[j - 1]);
            assert(!eq_ignore_case_spec(s[i].id@, s[j - 1].id@));
        }
    }
    assert(spaces_valid(r));
}

/// Upserting a space whose id is trimmed and whose id, name and directory are not blank
/// keeps a valid registry, listed in order of the ids, valid and in order; the space
/// replaces the one whose id matches its own, keeping the count, or is added, adding one.
#[verifier::spinoff_prover]
pub proof fn lemma_upsert_keeps_registry_valid(s: Seq<CrustSpace>, space: CrustSpace)
    requires
        spaces_validation(s, s.len() as int) is Ok,
        spaces_sorted(s),
        trim_spec(space.id@) == space.id@,
        !is_blank_spec(space.id@),
        !is_blank_spec(space.name@),
        !is_blank_spec(space.cwd@),
    ensures
        spaces_validation(upserted_spaces(s, space), upserted_spaces(s, space).len() as int) is Ok,
        spaces_sorted(upserted_spaces(s, space)),
        upserted_spaces(s, space).len() == s.len() + if first_space_match(s, space.id@) is Some {
            0int
        } else {
            1int
        },
{
    lemma_spaces_validation_valid(s);
    let r = upserted_spaces(s, space);
    first_space_match_props(s, space.id@);
    match first_space_match(s, space.id@) {
        Some(k) => {
            lemma_replace_keeps_valid(s, space, k);
        },
        None => {
            let pushed = s.push(space);
            assert(pushed.drop_last() =~= s);
            lemma_stable_sort_sorted(s);
            assert(r == insert_sorted(s, space, space_key()));
            lemma_insert_keeps_valid(s, space);
            lemma_insert_sorted_contains(s, space, space_key());
        },
    }
    lemma_spaces_validation_valid(r);
}

/// A space that was upserted under a trimmed id is what looking that id up finds.
pub proof fn lemma_find_after_upsert_space(s: Seq<CrustSpace>, space: CrustSpace)
    requires
        trim_spec(space.id@) == space.id@,
    ensures
        first_space_match(upserted_spaces(s, space), space.id@) matches Some(k)
            && upserted_spaces(s, space)[k] == space,
{
    let id = space.id@;
    first_space_match_props(s, trim_spec(id));
    match first_space_match(s, trim_spec(id)) {
        Some(i) => {
            let r = s.update(i, space);
            assert forall|j: int| 0 <= j < i implies !eq_ignore_case_spec(#[trigger] r[j].id@, id) by {
                assert(r[j] == s[j]);
            }
            first_space_match_at(r, id, i);
        },
        None => {
            let pushed = s.push(space);
            let r = stable_sort(pushed, space_key());
            lemma_stable_sort_contains(pushed, space_key());
            assert(pushed[s.len() as int] == space);
            assert(pushed.contains(space));
            assert(r.contains(space));
            let at = choose|at: int| 0 <= at < r.len() && r[at] == space;
            assert(eq_ignore_case_spec(r[at].id@, id));
            first_space_match_props(r, id);
            let w = first_space_match(r, id)->0;
            assert(r.contains(r[w]));
            assert(pushed.contains(r[w]));
            let q = choose|q: int| 0 <= q < pushed.len() && pushed[q] == r[w];
            if q < s.len() {
                assert(pushed[q] == s[q]);
                assert(!eq_ignore_case_spec(s[q].id@, trim_spec(id)));
            }
        },
    }
}

proof fn first_space_match_at(s: Seq<CrustSpace>, id: Seq<char>, k: int)
    requires
        0 <= k < s.len(),
        eq_ignore_case_spec(s[k].id@, id),
        forall|j: int| 0 <= j < k ==> !eq_ignore_case_spec(#[trigger] s[j].id@, id),
    ensures
        first_space_match(s, id) == Some(k),
{
    first_space_match_props(s, id);
    match first_space_match(s, id) {
        Some(w) => {
            if w < k {
            } else if w > k {
                assert(!eq_ignore_case_spec(s[k].id@, id));
            }
        },
        None => {
            assert(!eq_ignore_case_spec(s[k].id@, id));
        },
    }
}

proof fn first_space_match_props(s: Seq<CrustSpace>, id: Seq<char>)
    ensures
        match first_space_match(s, id) {
            Some(w) => 0 <= w < s.len() && eq_ignore_case_spec(s[w].id@, id) && forall|j: int|
                0 <= j < w ==> !eq_ignore_case_spec(#[trigger] s[j].id@, id),
            None => forall|j: int| 0 <= j < s.len() ==> !eq_ignore_case_spec(#[trigger] s[j].id@, id),
        },
{
    if exists|i: int| 0 <= i < s.len() && eq_ignore_case_spec(s[i].id@, id) {
        first_space_match_least(s, id, 0);
    }
}

proof fn first_space_match_least(s: Seq<CrustSpace>, id: Seq<char>, k: int)
    requires
        0 <= k <= s.len(),
        forall|j: int| 0 <= j < k ==> !eq_ignore_case_spec(#[trigger] s[j].id@, id),
        exists|i: int| k <= i < s.len() && eq_ignore_case_spec(s[i].id@, id),
    ensures
        exists|w: int|
            0 <= w < s.len() && eq_ignore_case_spec(s[w].id@, id) && forall|j: int|
                0 <= j < w ==> !eq_ignore_case_spec(#[trigger] s[j].id@, id),
    decreases s.len() - k,
{
    if eq_ignore_case_spec(s[k].id@, id) {
        assert(0 <= k < s.len() && eq_ignore_case_spec(s[k].id@, id) && forall|j: int|
            0 <= j < k ==> !eq_ignore_case_spec(#[trigger] s[j].id@, id));
    } else {
        first_space_match_least(s, id, k + 1);
    }
}

fn space_key_less(a: &CrustSpace, b: &CrustSpace) -> (r: bool)
    ensures
        r == id_key_lt(a.id@, b.id@),
{
    let ka = crate::text::string_of(&lower_chars(&chars_of(a.id.as_str())));
    let kb = crate::text::string_of(&lower_chars(&chars_of(b.id.as_str())));
    crate::text::str_less(ka.as_str(), kb.as_str())
}

impl SpacesRegistry {
    /// Checks that every space has a non-blank id, name and directory, and that no two ids
    /// are equal up to ASCII case; reports the first problem.
    pub fn validate(&self) -> (r: Result<(), String>)
        ensures
            match spaces_validation(self.spaces@, self.spaces@.len() as int) {
                Ok(()) => r is Ok,
                Err(e) => r matches Err(m) && m@ == e,
            },
    {
        let s = &self.spaces;
        let mut seen: Vec<Vec<char>> = Vec::new();
        let mut i: usize = 0;
        while i < s.len()
            invariant
                s@ == self.spaces@,
                i <= s@.len(),
                spaces_validation(s@, i as int) == Ok::<(), Seq<char>>(()),
                seen@.len() == i,
                forall|k: int| 0 <= k < i ==> (#[trigger] seen@[k])@ == ascii_lower(s@[k].id@),
            decreases s@.len() - i,
        {
            let space = &s[i];
            proof {
                assert(spaces_validation(s@, i + 1) == match space_error(s@, i as int) {
                    Some(e) => Err(e),
                    None => Ok(()),
                });
                assert(space == s@[i as int]);
                if space_error(s@, i as int) is Some {
                    lemma_spaces_validation_err(s@, i + 1, s@.len() as int);
                }
            }
            if is_blank(space.id.as_str()) {
                return Err("space id cannot be empty".to_owned());
            }
            if is_blank(space.name.as_str()) {
                let mut e = "space `".to_owned();
                e.append(space.id.as_str());
                e.append("` name cannot be empty");
                return Err(e);
            }
            if is_blank(space.cwd.as_str()) {
                let mut e = "space `".to_owned();
                e.append(space.id.as_str());
                e.append("` cwd cannot be empty");
                return Err(e);
            }
            let lowered = lower_chars(&chars_of(space.id.as_str()));
            let mut k: usize = 0;
            while k < seen.len()
                invariant
                    k <= seen@.len() == i,
                    i < s@.len(),
                    s@ == self.spaces@,
                    space == s@[i as int],
                    !is_blank_spec(space.id@),
                    !is_blank_spec(space.name@),
                    !is_blank_spec(space.cwd@),
                    spaces_validation(s@, i as int) == Ok::<(), Seq<char>>(()),
                    lowered@ == ascii_lower(s@[i as int].id@),
                    forall|q: int| 0 <= q < i ==> (#[trigger] seen@[q])@ == ascii_lower(s@[q].id@),
                    forall|q: int| 0 <= q < k ==> !eq_ignore_case_spec(#[trigger] s@[q].id@, space.id@),
                decreases seen@.len() - k,
            {
                if crate::text::chars_eq(&seen[k], &lowered) {
                    let mut e = "duplicate space id `".to_owned();
                    e.append(space.id.as_str());
                    e.append("`");
                    proof {
                        assert(eq_ignore_case_spec(s@[k as int].id@, space.id@));
                        assert(space_error(s@, i as int) is Some);
                        lemma_spaces_validation_err(s@, i + 1, s@.len() as int);
                    }
                    return Err(e);
                }
                k = k + 1;
            }
            seen.push(lowered);
            i = i + 1;
        }
        Ok(())
    }

    fn find_index(&self, id: &str) -> (r: Option<usize>)
        ensures
            r matches Some(k) ==> k < self.spaces@.len(),
            match first_space_match(self.spaces@, trim_spec(id@)) {
                Some(i) => 0 <= i < self.spaces@.len() && (r matches Some(k) && k as int == i),
                None => r is None,
            },
    {
        let key = trim(id);
        let key_chars = chars_of(key.as_str());
        let mut i: usize = 0;
        while i < self.spaces.len()
            invariant
                i <= self.spaces@.len(),
                key@ == trim_spec(id@),
                key_chars@ == key@,
                forall|j: int| 0 <= j < i ==> !eq_ignore_case_spec(#[trigger] self.spaces@[j].id@, key@),
            decreases self.spaces@.len() - i,
        {
            if eq_ignore_ascii_case_chars(&chars_of(self.spaces[i].id.as_str()), &key_chars) {
                proof {
                    let s = self.spaces@;
                    let w = choose|w: int|
                        0 <= w < s.len() && eq_ignore_case_spec(s[w].id@, key@) && forall|j: int|
                            0 <= j < w ==> !eq_ignore_case_spec(#[trigger] s[j].id@, key@);
                    assert(eq_ignore_case_spec(s[i as int].id@, key@));
                    if w < i {
                    } else if w > i {
                    }
                }
                return Some(i);
            }
            i = i + 1;
        }
        None
    }

    /// The first space whose id matches the trimmed `id` up to ASCII case.
    pub fn find(&self, id: &str) -> (r: Option<&CrustSpace>)
        ensures
            match first_space_match(self.spaces@, trim_spec(id@)) {
                Some(i) => r == Some(&self.spaces@[i]),
                None => r is None,
            },
    {
        match self.find_index(id) {
            Some(i) => Some(&self.spaces[i]),
            None => None,
        }
    }

    /// Like `find`, for changing the space in place.
    pub fn find_mut(&mut self, id: &str) -> (r: Option<&mut CrustSpace>)
        ensures
            match first_space_match(old(self).spaces@, trim_spec(id@)) {
                Some(i) => r matches Some(m) && *m == old(self).spaces@[i] && final(self).spaces@
                    == old(self).spaces@.update(i, *final(m)),
                None => r is None && final(self).spaces@ == old(self).spaces@,
            },
    {
        match self.find_index(id) {
            Some(i) => Some(&mut self.spaces[i]),
            None => None,
        }
    }

    /// Replaces the space whose id matches `space.id`, or adds it and sorts the spaces by id.
    pub fn upsert(&mut self, space: CrustSpace)
        ensures
            final(self).spaces@ == upserted_spaces(old(self).spaces@, space),
    {
        match self.find_index(space.id.as_str()) {
            Some(i) => {
                self.spaces.set(i, space);
            },
            None => {
                self.spaces.push(space);
                self.sort_by_id();
            },
        }
    }

    /// Stable insertion sort of the spaces by case-insensitive id.
    fn sort_by_id(&mut self)
        ensures
            final(self).spaces@ == stable_sort(old(self).spaces@, space_key()),
    {
        let ghost original = self.spaces@;
        let ghost key = space_key();
        let mut items: Vec<CrustSpace> = Vec::new();
        std::mem::swap(&mut items, &mut self.spaces);
        let mut sorted: Vec<CrustSpace> = Vec::new();
        let n = items.len();
        let mut k: usize = 0;
        while k < n
            invariant
                key == space_key(),
                k <= n == original.len(),
                items@ == original.skip(k as int),
                sorted@ == stable_sort(original.take(k as int), key),
            decreases n - k,
        {
            let x = items.remove(0);
            proof {
                assert(x == original[k as int]);
                assert(original.take(k + 1).drop_last() =~= original.take(k as int));
                assert(original.take(k + 1).last() == x);
            }
            let mut p: usize = 0;
            while p < sorted.len() && !space_key_less(&x, &sorted[p])
                invariant
                    key == space_key(),
                    p <= sorted@.len(),
                    forall|j: int| 0 <= j < p ==> !id_key_lt(key(x), key(#[trigger] sorted@[j])),
                decreases sorted@.len() - p,
            {
                p = p + 1;
            }
            proof {
                lemma_insert_pos_first(sorted@, x, key, p as int);
            }
            let ghost before = sorted@;
            sorted.insert(p, x);
            proof {
                assert(sorted@ =~= before.take(p as int).push(x) + before.skip(p as int));
                assert(items@ =~= original.skip(k + 1));
            }
            k = k + 1;
        }
        assert(original.take(n as int) =~= original);
        self.spaces = sorted;
    }
}

// ---------------------------------------------------------------------------
// LangGraph servers
// ---------------------------------------------------------------------------

/// A registered LangGraph dev server.
pub struct LangGraphServer {
    pub id: String,
    pub name: String,
    pub base_url: String,
    pub assistant_id: Option<String>,
    pub default_graph: Option<String>,
    pub auth_env: Option<String>,
    pub auth_header: Option<String>,
    pub auth_scheme: Option<String>,
    pub timeout_secs: Option<u64>,
}

impl LangGraphServer {
    pub fn duplicate(&self) -> (c: LangGraphServer)
        ensures
            c == *self,
    {
        LangGraphServer {
            id: self.id.clone(),
            name: self.name.clone(),
            base_url: self.base_url.clone(),
            assistant_id: crate::message::clone_opt_string(&self.assistant_id),
            default_graph: crate::message::clone_opt_string(&self.default_graph),
            auth_env: crate::message::clone_opt_string(&self.auth_env),
            auth_header: crate::message::clone_opt_string(&self.auth_header),
            auth_scheme: crate::message::clone_opt_string(&self.auth_scheme),
            timeout_secs: self.timeout_secs,
        }
    }
}

/// Servers are ordered by id.
pub open spec fn server_key() -> spec_fn(LangGraphServer) -> Seq<char> {
    |c: LangGraphServer| c.id@
}

/// The registry of LangGraph servers.
pub struct LangGraphRegistry {
    pub servers: Vec<LangGraphServer>,
}

/// The error that validation reports for the server at `i`, given that the earlier ones
/// passed.
pub open spec fn server_error(s: Seq<LangGraphServer>, i: int) -> Option<Seq<char>> {
    let sv = s[i];
    if is_blank_spec(sv.id@) {
        Some("LangGraph server id cannot be empty"@)
    } else if is_blank_spec(sv.name@) {
        Some("LangGraph server `"@ + sv.id@ + "` name cannot be empty"@)
    } else if is_blank_spec(sv.base_url@) {
        Some("LangGraph server `"@ + sv.id@ + "` base_url cannot be empty"@)
    } else if exists|j: int| 0 <= j < i && eq_ignore_case_spec(#[trigger] s[j].id@, sv.id@) {
        Some("duplicate LangGraph server id `"@ + sv.id@ + "`"@)
    } else {
        None
    }
}

/// The first error among the first `n` servers.
pub open spec fn servers_validation(s: Seq<LangGraphServer>, n: int) -> Result<(), Seq<char>>
    decreases n,
{
    if n <= 0 {
        Ok(())
    } else {
        match servers_validation(s, n - 1) {
            Err(e) => Err(e),
            Ok(()) => match server_error(s, n - 1) {
                Some(e) => Err(e),
                None => Ok(()),
            },
        }
    }
}

proof fn lemma_servers_validation_err(s: Seq<LangGraphServer>, n: int, m: int)
    requires
        n <= m,
        servers_validation(s, n) is Err,
    ensures
        servers_validation(s, m) == servers_validation(s, n),
    decreases m - n,
{
    if n < m {
        lemma_servers_validation_err(s, n, m - 1);
    }
}

/// Index of the first server whose id matches `id` up to ASCII case.
pub open spec fn first_server_match(s: Seq<LangGraphServer>, id: Seq<char>) -> Option<int> {
    if exists|i: int| 0 <= i < s.len() && eq_ignore_case_spec(s[i].id@, id) {
        Some(
            choose|i: int|
                0 <= i < s.len() && eq_ignore_case_spec(s[i].id@, id) && forall|j: int|
                    0 <= j < i ==> !eq_ignore_case_spec(#[trigger] s[j].id@, id),
        )
    } else {
        None
    }
}

/// The servers after `server` is upserted: it replaces the first server whose id matches
/// its id, or joins the others, sorted by id.
pub open spec fn upserted_servers(s: Seq<LangGraphServer>, server: LangGraphServer) -> Seq<LangGraphServer> {
    match first_server_match(s, server.id@) {
        Some(i) => s.update(i, server),
        None => stable_sort(s.push(server), server_key()),
    }
}

/// A server that was upserted is what looking its id up finds.
pub proof fn lemma_find_after_upsert_server(s: Seq<LangGraphServer>, server: LangGraphServer)
    ensures
        first_server_match(upserted_servers(s, server), server.id@) matches Some(k)
            && upserted_servers(s, server)[k] == server,
{
    let id = server.id@;
    first_server_match_props(s, id);
    match first_server_match(s, id) {
        Some(i) => {
            let r = s.update(i, server);
            assert forall|j: int| 0 <= j < i implies !eq_ignore_case_spec(#[trigger] r[j].id@, id) by {
                assert(r[j] == s[j]);
            }
            first_server_match_at(r, id, i);
        },
        None => {
            let pushed = s.push(server);
            let r = stable_sort(pushed, server_key());
            lemma_stable_sort_contains(pushed, server_key());
            assert(pushed[s.len() as int] == server);
            assert(pushed.contains(server));
            assert(r.contains(server));
            let at = choose|at: int| 0 <= at < r.len() && r[at] == server;
            assert(eq_ignore_case_spec(r[at].id@, id));
            first_server_match_props(r, id);
            let w = first_server_match(r, id)->0;
            assert(r.contains(r[w]));
            assert(pushed.contains(r[w]));
            let q = choose|q: int| 0 <= q < pushed.len() && pushed[q] == r[w];
            if q < s.len() {
                assert(pushed[q] == s[q]);
                assert(!eq_ignore_case_spec(s[q].id@, id));
            }
        },
    }
}

proof fn first_server_match_at(s: Seq<LangGraphServer>, id: Seq<char>, k: int)
    requires
        0 <= k < s.len(),
        eq_ignore_case_spec(s[k].id@, id),
        forall|j: int| 0 <= j < k ==> !eq_ignore_case_spec(#[trigger] s[j].id@, id),
    ensures
        first_server_match(s, id) == Some(k),
{
    first_server_match_props(s, id);
    match first_server_match(s, id) {
        Some(w) => {
            if w < k {
            } else if w > k {
                assert(!eq_ignore_case_spec(s[k].id@, id));
            }
        },
        None => {
            assert(!eq_ignore_case_spec(s[k].id@, id));
        },
    }
}

proof fn first_server_match_props(s: Seq<LangGraphServer>, id: Seq<char>)
    ensures
        match first_server_match(s, id) {
            Some(w) => 0 <= w < s.len() && eq_ignore_case_spec(s[w].id@, id) && forall|j: int|
                0 <= j < w ==> !eq_ignore_case_spec(#[trigger] s[j].id@, id),
            None => forall|j: int| 0 <= j < s.len() ==> !eq_ignore_case_spec(#[trigger] s[j].id@, id),
        },
{
    if exists|i: int| 0 <= i < s.len() && eq_ignore_case_spec(s[i].id@, id) {
        first_server_match_least(s, id, 0);
    }
}

proof fn first_server_match_least(s: Seq<LangGraphServer>, id: Seq<char>, k: int)
    requires
        0 <= k <= s.len(),
        forall|j: int| 0 <= j < k ==> !eq_ignore_case_spec(#[trigger] s[j].id@, id),
        exists|i: int| k <= i < s.len() && eq_ignore_case_spec(s[i].id@, id),
    ensures
        exists|w: int|
            0 <= w < s.len() && eq_ignore_case_spec(s[w].id@, id) && forall|j: int|
                0 <= j < w ==> !eq_ignore_case_spec(#[trigger] s[j].id@, id),
    decreases s.len() - k,
{
    if eq_ignore_case_spec(s[k].id@, id) {
        assert(0 <= k < s.len() && eq_ignore_case_spec(s[k].id@, id) && forall|j: int|
            0 <= j < k ==> !eq_ignore_case_spec(#[trigger] s[j].id@, id));
    } else {
        first_server_match_least(s, id, k + 1);
    }
}

/// No server that is left after removing an id matches that id.
pub proof fn lemma_removed_server_not_found(s: Seq<LangGraphServer>, id: Seq<char>)
    ensures
        first_server_match(servers_without(s, id), id) is None,
    decreases s.len(),
{
    let r = servers_without(s, id);
    assert forall|k: int| 0 <= k < r.len() implies !eq_ignore_case_spec(#[trigger] r[k].id@, id) by {
        lemma_servers_without_members(s, id, k);
    }
}

proof fn lemma_servers_without_members(s: Seq<LangGraphServer>, id: Seq<char>, k: int)
    requires
        0 <= k < servers_without(s, id).len(),
    ensures
        !eq_ignore_case_spec(servers_without(s, id)[k].id@, id),
    decreases s.len(),
{
    if s.len() > 0 {
        let rest = servers_without(s.drop_last(), id);
        if k < rest.len() {
            lemma_servers_without_members(s.drop_last(), id, k);
        }
    }
}

fn server_key_less(a: &LangGraphServer, b: &LangGraphServer) -> (r: bool)
    ensures
        r == id_key_lt(a.id@, b.id@),
{
    let ka = crate::text::string_of(&lower_chars(&chars_of(a.id.as_str())));
    let kb = crate::text::string_of(&lower_chars(&chars_of(b.id.as_str())));
    crate::text::str_less(ka.as_str(), kb.as_str())
}

/// The servers whose id does not match `id` up to ASCII case, in order.
pub open spec fn servers_without(s: Seq<LangGraphServer>, id: Seq<char>) -> Seq<LangGraphServer>
    decreases s.len(),
{
    if s.len() == 0 {
        s
    } else if eq_ignore_case_spec(s.last().id@, id) {
        servers_without(s.drop_last(), id)
    } else {
        servers_without(s.drop_last(), id).push(s.last())
    }
}

impl LangGraphRegistry {
    /// Checks that every server has a non-blank id, name and base URL, and that no two ids
    /// are equal up to ASCII case; reports the first problem.
    pub fn validate(&self) -> (r: Result<(), String>)
        ensures
            match servers_validation(self.servers@, self.servers@.len() as int) {
                Ok(()) => r is Ok,
                Err(e) => r matches Err(m) && m@ == e,
            },
    {
        let s = &self.servers;
        let mut seen: Vec<Vec<char>> = Vec::new();
        let mut i: usize = 0;
        while i < s.len()
            invariant
                s@ == self.servers@,
                i <= s@.len(),
                servers_validation(s@, i as int) == Ok::<(), Seq<char>>(()),
                seen@.len() == i,
                forall|k: int| 0 <= k < i ==> (#[trigger] seen@[k])@ == ascii_lower(s@[k].id@),
            decreases s@.len() - i,
        {
            let server = &s[i];
            proof {
                assert(servers_validation(s@, i + 1) == match server_error(s@, i as int) {
                    Some(e) => Err(e),
                    None => Ok(()),
                });
                assert(server == s@[i as int]);
                if server_error(s@, i as int) is Some {
                    lemma_servers_validation_err(s@, i + 1, s@.len() as int);
                }
            }
            if is_blank(server.id.as_str()) {
                return Err("LangGraph server id cannot be empty".to_owned());
            }
            if is_blank(server.name.as_str()) {
                let mut e = "LangGraph server `".to_owned();
                e.append(server.id.as_str());
                e.append("` name cannot be empty");
                return Err(e);
            }
            if is_blank(server.base_url.as_str()) {
                let mut e = "LangGraph server `".to_owned();
                e.append(server.id.as_str());
                e.append("` base_url cannot be empty");
                return Err(e);
            }
            let lowered = lower_chars(&chars_of(server.id.as_str()));
            let mut k: usize = 0;
            while k < seen.len()
                invariant
                    k <= seen@.len() == i,
                    i < s@.len(),
                    s@ == self.servers@,
                    server == s@[i as int],
                    !is_blank_spec(server.id@),
                    !is_blank_spec(server.name@),
                    !is_blank_spec(server.base_url@),
                    servers_validation(s@, i as int) == Ok::<(), Seq<char>>(()),
                    lowered@ == ascii_lower(s@[i as int].id@),
                    forall|q: int| 0 <= q < i ==> (#[trigger] seen@[q])@ == ascii_lower(s@[q].id@),
                    forall|q: int| 0 <= q < k ==> !eq_ignore_case_spec(#[trigger] s@[q].id@, server.id@),
                decreases seen@.len() - k,
            {
                if crate::text::chars_eq(&seen[k], &lowered) {
                    let mut e = "duplicate LangGraph server id `".to_owned();
                    e.append(server.id.as_str());
                    e.append("`");
                    proof {
                        assert(eq_ignore_case_spec(s@[k as int].id@, server.id@));
                        assert(server_error(s@, i as int) is Some);
                        lemma_servers_validation_err(s@, i + 1, s@.len() as int);
                    }
                    return Err(e);
                }
                k = k + 1;
            }
            seen.push(lowered);
            i = i + 1;
        }
        Ok(())
    }

    fn find_index(&self, key: &str) -> (r: Option<usize>)
        ensures
            match first_server_match(self.servers@, key@) {
                Some(i) => 0 <= i < self.servers@.len() && (r matches Some(k) && k as int == i),
                None => r is None,
            },
    {
        let key_chars = chars_of(key);
        let mut i: usize = 0;
        while i < self.servers.len()
            invariant
                i <= self.servers@.len(),
                key_chars@ == key@,
                forall|j: int| 0 <= j < i ==> !eq_ignore_case_spec(#[trigger] self.servers@[j].id@, key@),
            decreases self.servers@.len() - i,
        {
            if eq_ignore_ascii_case_chars(&chars_of(self.servers[i].id.as_str()), &key_chars) {
                proof {
                    let s = self.servers@;
                    let w = choose|w: int|
                        0 <= w < s.len() && eq_ignore_case_spec(s[w].id@, key@) && forall|j: int|
                            0 <= j < w ==> !eq_ignore_case_spec(#[trigger] s[j].id@, key@);
                    assert(eq_ignore_case_spec(s[i as int].id@, key@));
                    if w < i {
                    } else if w > i {
                    }
                }
                return Some(i);
            }
            i = i + 1;
        }
        None
    }

    /// The first server whose id matches the trimmed `id` up to ASCII case.
    pub fn find(&self, id: &str) -> (r: Option<&LangGraphServer>)
        ensures
            match first_server_match(self.servers@, trim_spec(id@)) {
                Some(i) => r == Some(&self.servers@[i]),
                None => r is None,
            },
    {
        let key = trim(id);
        match self.find_index(key.as_str()) {
            Some(i) => Some(&self.servers[i]),
            None => None,
        }
    }

    /// Replaces the server whose id matches `server.id` up to ASCII case, or adds it and
    /// sorts the servers by id.
    pub fn upsert(&mut self, server: LangGraphServer)
        ensures
            final(self).servers@ == upserted_servers(old(self).servers@, server),
    {
        match self.find_index(server.id.as_str()) {
            Some(i) => {
                self.servers.set(i, server);
            },
            None => {
                self.servers.push(server);
                self.sort_by_id();
            },
        }
    }

    /// Removes every server whose id matches the trimmed `id` up to ASCII case; true when
    /// one was removed.
    pub fn remove(&mut self, id: &str) -> (removed: bool)
        ensures
            final(self).servers@ == servers_without(old(self).servers@, trim_spec(id@)),
            removed == (final(self).servers@.len() != old(self).servers@.len()),
    {
        let key = trim(id);
        let key_chars = chars_of(key.as_str());
        let ghost original = self.servers@;
        let before = self.servers.len();
        let mut items: Vec<LangGraphServer> = Vec::new();
        std::mem::swap(&mut items, &mut self.servers);
        let mut kept: Vec<LangGraphServer> = Vec::new();
        let n = items.len();
        let mut k: usize = 0;
        while k < n
            invariant
                k <= n == original.len(),
                key_chars@ == trim_spec(id@),
                items@ == original.skip(k as int),
                kept@ == servers_without(original.take(k as int), trim_spec(id@)),
            decreases n - k,
        {
            let x = items.remove(0);
            proof {
                assert(x == original[k as int]);
                assert(original.take(k + 1).drop_last() =~= original.take(k as int));
                assert(original.take(k + 1).last() == x);
                assert(items@ =~= original.skip(k + 1));
            }
            if !eq_ignore_ascii_case_chars(&chars_of(x.id.as_str()), &key_chars) {
                kept.push(x);
            }
            k = k + 1;
        }
        assert(original.take(n as int) =~= original);
        self.servers = kept;
        self.servers.len() != before
    }

    /// Stable insertion sort of the servers by case-insensitive id.
    fn sort_by_id(&mut self)
        ensures
            final(self).servers@ == stable_sort(old(self).servers@, server_key()),
    {
        let ghost original = self.servers@;
        let ghost key = server_key();
        let mut items: Vec<LangGraphServer> = Vec::new();
        std::mem::swap(&mut items, &mut self.servers);
        let mut sorted: Vec<LangGraphServer> = Vec::new();
        let n = items.len();
        let mut k: usize = 0;
        while k < n
            invariant
                key == server_key(),
                k <= n == original.len(),
                items@ == original.skip(k as int),
                sorted@ == stable_sort(original.take(k as int), key),
            decreases n - k,
        {
            let x = items.remove(0);
            proof {
                assert(x == original[k as int]);
                assert(original.take(k + 1).drop_last() =~= original.take(k as int));
                assert(original.take(k + 1).last() == x);
            }
            let mut p: usize = 0;
            while p < sorted.len() && !server_key_less(&x, &sorted[p])
                invariant
                    key == server_key(),
                    p <= sorted@.len(),
                    forall|j: int| 0 <= j < p ==> !id_key_lt(key(x), key(#[trigger] sorted@[j])),
                decreases sorted@.len() - p,
            {
                p = p + 1;
            }
            proof {
                lemma_insert_pos_first(sorted@, x, key, p as int);
            }
            let ghost before = sorted@;
            sorted.insert(p, x);
            proof {
                assert(sorted@ =~= before.take(p as int).push(x) + before.skip(p as int));
                assert(items@ =~= original.skip(k + 1));
            }
            k = k + 1;
        }
        assert(original.take(n as int) =~= original);
        self.servers = sorted;
    }
}

} // verus!
