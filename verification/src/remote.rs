//! Requests to LangGraph servers: how they are authenticated, what the answers mean, and
//! the order in which stored runs are listed. The requests themselves are sent by the caller.

use vstd::prelude::*;
use vstd::string::*;

use crate::json::{get_string_field, string_field, JsonValue};
use crate::langgraph::{langgraph_url, LangGraphRunRecord};
use crate::registry::{first_server_match, LangGraphRegistry, LangGraphServer};
use crate::text::{eq_ignore_ascii_case, eq_ignore_case_spec, lex_lt, str_less, trim_spec};
use crate::words::{text_or, text_or_default, trim_end_char};

verus! {

// ---------------------------------------------------------------------------
// Authentication
// ---------------------------------------------------------------------------

/// The header a request to `server` carries, given the value of the variable that holds its
/// token: none without an auth variable; an error when the variable is not set; otherwise
/// the configured header (by default `authorization`) with the token, preceded by the scheme
/// (by default `Bearer`) when the header is `authorization`.
pub open spec fn auth_spec(server: LangGraphServer, token: Option<Seq<char>>) -> Result<
    Option<(Seq<char>, Seq<char>)>,
    Seq<char>,
> {
    match server.auth_env {
        None => Ok(None),
        Some(var) => match token {
            None => Err(
                "LangGraph auth env var `"@ + var@ + "` is not set for `"@ + server.id@ + "`"@,
            ),
            Some(t) => {
                let name = text_or(server.auth_header, "authorization"@);
                if eq_ignore_case_spec(name, "authorization"@) {
                    Ok(Some((name, text_or(server.auth_scheme, "Bearer"@) + " "@ + t)))
                } else {
                    Ok(Some((name, t)))
                }
            },
        },
    }
}

/// Decides the authentication header of a request to `server`; `token` is the value of its
/// auth variable, if that is set.
pub fn langgraph_auth(server: &LangGraphServer, token: Option<String>) -> (r: Result<
    Option<(String, String)>,
    String,
>)
    ensures
        match r {
            Ok(None) => auth_spec(*server, crate::message::opt_view(token)) == Ok::<
                Option<(Seq<char>, Seq<char>)>,
                Seq<char>,
            >(None),
            Ok(Some((n, v))) => auth_spec(*server, crate::message::opt_view(token)) == Ok::<
                Option<(Seq<char>, Seq<char>)>,
                Seq<char>,
            >(Some((n@, v@))),
            Err(e) => auth_spec(*server, crate::message::opt_view(token)) == Err::<
                Option<(Seq<char>, Seq<char>)>,
                Seq<char>,
            >(e@),
        },
{
    let var = match &server.auth_env {
        None => {
            return Ok(None);
        },
        Some(v) => v,
    };
    let t = match token {
        None => {
            let mut e = "LangGraph auth env var `".to_owned();
            e.append(var.as_str());
            e.append("` is not set for `");
            e.append(server.id.as_str());
            e.append("`");
            return Err(e);
        },
        Some(t) => t,
    };
    let name = text_or_default(&server.auth_header, "authorization");
    if eq_ignore_ascii_case(name.as_str(), "authorization") {
        let mut value = text_or_default(&server.auth_scheme, "Bearer");
        value.append(" ");
        value.append(t.as_str());
        Ok(Some((name, value)))
    } else {
        Ok(Some((name, t)))
    }
}

// ---------------------------------------------------------------------------
// Answers of a server
// ---------------------------------------------------------------------------

/// An HTTP status of success.
pub open spec fn is_success(status: u16) -> bool {
    200 <= status && status < 300
}

/// What a ping of `server` reports, given the status of its answer and the text of that
/// status (such as `200 OK`).
pub open spec fn ping_spec(server: LangGraphServer, status: u16, status_text: Seq<char>) -> Result<
    Seq<char>,
    Seq<char>,
> {
    if is_success(status) {
        Ok("LangGraph server `"@ + server.id@ + "` reachable at "@ + server.base_url@ + " ("@
            + status_text + ")"@)
    } else {
        Err("LangGraph server `"@ + server.id@ + "` responded with HTTP "@ + status_text)
    }
}

/// Reports a ping of `server`.
pub fn ping_reply(server: &LangGraphServer, status: u16, status_text: &str) -> (r: Result<String, String>)
    ensures
        match r {
            Ok(m) => ping_spec(*server, status, status_text@) == Ok::<Seq<char>, Seq<char>>(m@),
            Err(e) => ping_spec(*server, status, status_text@) == Err::<Seq<char>, Seq<char>>(e@),
        },
{
    let mut m = "LangGraph server `".to_owned();
    m.append(server.id.as_str());
    if 200 <= status && status < 300 {
        m.append("` reachable at ");
        m.append(server.base_url.as_str());
        m.append(" (");
        m.append(status_text);
        m.append(")");
        Ok(m)
    } else {
        m.append("` responded with HTTP ");
        m.append(status_text);
        Err(m)
    }
}

/// The id of a new thread in the answer to its creation: its `thread_id`, else its `id`;
/// an error quoting the answer (`reply_text`) otherwise.
pub open spec fn thread_id_spec(reply: JsonValue, reply_text: Seq<char>) -> Result<Seq<char>, Seq<char>> {
    match string_field(reply, "thread_id"@) {
        Some(t) => Ok(t),
        None => match string_field(reply, "id"@) {
            Some(t) => Ok(t),
            None => Err("LangGraph thread create response did not include thread_id: "@ + reply_text),
        },
    }
}

/// Reads the id of a new thread from the server's answer, whose text is `reply_text`.
pub fn thread_id_from_reply(reply: &JsonValue, reply_text: &str) -> (r: Result<String, String>)
    ensures
        match r {
            Ok(t) => thread_id_spec(*reply, reply_text@) == Ok::<Seq<char>, Seq<char>>(t@),
            Err(e) => thread_id_spec(*reply, reply_text@) == Err::<Seq<char>, Seq<char>>(e@),
        },
{
    if let Some(t) = get_string_field(reply, "thread_id") {
        return Ok(t);
    }
    if let Some(t) = get_string_field(reply, "id") {
        return Ok(t);
    }
    let mut e = "LangGraph thread create response did not include thread_id: ".to_owned();
    e.append(reply_text);
    Err(e)
}

/// Where a run is cancelled: on the server it ran on (which must be registered), at the
/// provider's run id (which it must have).
pub open spec fn cancel_target_spec(record: LangGraphRunRecord, servers: Seq<LangGraphServer>) -> Result<
    (LangGraphServer, Seq<char>),
    Seq<char>,
> {
    match first_server_match(servers, trim_spec(record.server_id@)) {
        None => Err("LangGraph server `"@ + record.server_id@ + "` not found"@),
        Some(i) => match record.run_id {
            None => Err("LangGraph run has no provider run_id to cancel"@),
            Some(run) => Ok(
                (
                    servers[i],
                    trim_end_char(servers[i].base_url@, '/') + "/threads/"@ + record.thread_id@
                        + "/runs/"@ + run@ + "/cancel"@,
                ),
            ),
        },
    }
}

/// The server and the address to which the cancellation of a run is sent.
pub fn cancel_target<'a>(record: &LangGraphRunRecord, registry: &'a LangGraphRegistry) -> (r: Result<
    (&'a LangGraphServer, String),
    String,
>)
    ensures
        match r {
            Ok((s, url)) => cancel_target_spec(*record, registry.servers@) == Ok::<
                (LangGraphServer, Seq<char>),
                Seq<char>,
            >((*s, url@)),
            Err(e) => cancel_target_spec(*record, registry.servers@) == Err::<
                (LangGraphServer, Seq<char>),
                Seq<char>,
            >(e@),
        },
{
    let server = match registry.find(record.server_id.as_str()) {
        Some(s) => s,
        None => {
            let mut e = "LangGraph server `".to_owned();
            e.append(record.server_id.as_str());
            e.append("` not found");
            return Err(e);
        },
    };
    let run = match &record.run_id {
        Some(r) => r,
        None => {
            return Err("LangGraph run has no provider run_id to cancel".to_owned());
        },
    };
    let mut path = "/threads/".to_owned();
    path.append(record.thread_id.as_str());
    path.append("/runs/");
    path.append(run.as_str());
    path.append("/cancel");
    let url = langgraph_url(server, path.as_str());
    assert(url@ =~= trim_end_char(server.base_url@, '/') + "/threads/"@ + record.thread_id@
        + "/runs/"@ + run@ + "/cancel"@);
    Ok((server, url))
}

/// What a cancellation reports, given the status of the server's answer and its text.
pub open spec fn cancel_reply_spec(record: LangGraphRunRecord, status: u16, status_text: Seq<char>) -> Result<
    Seq<char>,
    Seq<char>,
> {
    if is_success(status) {
        Ok("Cancel requested for LangGraph run `"@ + record.id@ + "`"@)
    } else {
        Err("LangGraph cancel failed with HTTP "@ + status_text)
    }
}

/// Reports the cancellation of a run.
pub fn cancel_reply(record: &LangGraphRunRecord, status: u16, status_text: &str) -> (r: Result<
    String,
    String,
>)
    ensures
        match r {
            Ok(m) => cancel_reply_spec(*record, status, status_text@) == Ok::<Seq<char>, Seq<char>>(
                m@,
            ),
            Err(e) => cancel_reply_spec(*record, status, status_text@) == Err::<
                Seq<char>,
                Seq<char>,
            >(e@),
        },
{
    if 200 <= status && status < 300 {
        let mut m = "Cancel requested for LangGraph run `".to_owned();
        m.append(record.id.as_str());
        m.append("`");
        Ok(m)
    } else {
        let mut e = "LangGraph cancel failed with HTTP ".to_owned();
        e.append(status_text);
        Err(e)
    }
}

// ---------------------------------------------------------------------------
// Stored runs, newest first
// ---------------------------------------------------------------------------

/// Where a run goes among runs already ordered newest first: after every run updated no
/// earlier than it.
pub open spec fn newer_pos(sorted: Seq<LangGraphRunRecord>, x: LangGraphRunRecord) -> int
    decreases sorted.len(),
{
    if sorted.len() == 0 {
        0
    } else if lex_lt(sorted[0].updated_at@, x.updated_at@) {
        0
    } else {
        1 + newer_pos(sorted.drop_first(), x)
    }
}

/// The runs in `s` ordered by their update time, newest first; runs updated at the same
/// time keep their order (what a stable sort by descending `updated_at` gives).
pub open spec fn newest_first(s: Seq<LangGraphRunRecord>) -> Seq<LangGraphRunRecord>
    decreases s.len(),
{
    if s.len() == 0 {
        s
    } else {
        let sorted = newest_first(s.drop_last());
        let p = newer_pos(sorted, s.last());
        sorted.take(p).push(s.last()) + sorted.skip(p)
    }
}

proof fn lemma_newer_pos_first(sorted: Seq<LangGraphRunRecord>, x: LangGraphRunRecord, p: int)
    requires
        0 <= p <= sorted.len(),
        forall|j: int| 0 <= j < p ==> !lex_lt(#[trigger] sorted[j].updated_at@, x.updated_at@),
        p < sorted.len() ==> lex_lt(sorted[p].updated_at@, x.updated_at@),
    ensures
        newer_pos(sorted, x) == p,
    decreases sorted.len(),
{
    if sorted.len() > 0 && p > 0 {
        assert(!lex_lt(sorted[0].updated_at@, x.updated_at@));
        assert forall|j: int| 0 <= j < p - 1 implies !lex_lt(
            #[trigger] sorted.drop_first()[j].updated_at@,
            x.updated_at@,
        ) by {
            assert(sorted.drop_first()[j] == sorted[j + 1]);
        }
        lemma_newer_pos_first(sorted.drop_first(), x, p - 1);
    }
}

/// Orders runs newest first, as the listing of runs shows them.
pub fn sort_runs_newest_first(records: Vec<LangGraphRunRecord>) -> (r: Vec<LangGraphRunRecord>)
    ensures
        r@ == newest_first(records@),
{
    let ghost original = records@;
    let mut items = records;
    let mut sorted: Vec<LangGraphRunRecord> = Vec::new();
    let n = items.len();
    let mut k: usize = 0;
    while k < n
        invariant
            k <= n == original.len(),
            items@ == original.skip(k as int),
            sorted@ == newest_first(original.take(k as int)),
        decreases n - k,
    {
        let x = items.remove(0);
        proof {
            assert(x == original[k as int]);
            assert(original.take(k + 1).drop_last() =~= original.take(k as int));
            assert(original.take(k + 1).last() == x);
        }
        let mut p: usize = 0;
        while p < sorted.len() && !str_less(sorted[p].updated_at.as_str(), x.updated_at.as_str())
            invariant
                p <= sorted@.len(),
                forall|j: int| 0 <= j < p ==> !lex_lt(#[trigger] sorted@[j].updated_at@, x.updated_at@),
            decreases sorted@.len() - p,
        {
            p = p + 1;
        }
        proof {
            lemma_newer_pos_first(sorted@, x, p as int);
        }
        let ghost before = sorted@;
        sorted.insert(p, x);
        proof {
            assert(sorted@ =~= before.take(p as int).push(x) + before.skip(p as int));
            assert(items@ =~= original.skip(k + 1));
        }
        k = k + 1;
    }
    assert(original.take(n as int) =~= original);
    sorted
}

} // verus!
