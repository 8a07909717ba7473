//! LangGraph dev servers: slash commands, listings, run records and the stream of a run.

use vstd::prelude::*;
use vstd::string::*;

use crate::json::{
    array, get, get_string_field, items_view, json_get, json_str, member, members_view, object,
    string_field, text, JsonValue, JsonView,
};
use crate::message::{
    content_text, content_to_compaction_text, role_name_spec, views, ChatMessage, ChatRole,
    MessageView,
};
use crate::session::{Session, SessionView};
use crate::message::opt_view;
use crate::registry::{LangGraphRegistry, LangGraphServer};
use crate::text::{
    decimal, is_blank, min_int, str_eq, strip_prefix_spec, trim, trim_spec, truncate_middle,
    truncate_middle_spec, u64_to_decimal,
};
use crate::words::{
    after_first_word, char_pos, first_word, lemma_char_pos, join, join_strings, join_strings_from, split_first_word, split_whitespace,
    split_char, split_on, strip_prefix, strs, text_or, text_or_default, trim_end_char, trim_end_matches, words,
};

verus! {

// ---------------------------------------------------------------------------
// Slash commands
// ---------------------------------------------------------------------------

/// `/langgraph add <id> <url>`: the id and the url, both non-empty.
pub open spec fn add_command_spec(prompt: Seq<char>) -> Option<(Seq<char>, Seq<char>)> {
    match strip_prefix_spec(prompt, "/langgraph add "@) {
        None => None,
        Some(rest) => {
            let args = trim_spec(rest);
            match after_first_word(args) {
                None => None,
                Some(after) => {
                    let id = trim_spec(first_word(args));
                    let url = trim_spec(after);
                    if id.len() == 0 || url.len() == 0 {
                        None
                    } else {
                        Some((id, url))
                    }
                },
            }
        },
    }
}

/// Parses `/langgraph add <id> <url>`.
pub fn parse_langgraph_add_command(prompt: &str) -> (r: Option<(String, String)>)
    ensures
        match r {
            Some((id, url)) => add_command_spec(prompt@) == Some((id@, url@)),
            None => add_command_spec(prompt@) is None,
        },
{
    let rest = strip_prefix(prompt, "/langgraph add ")?;
    let args = trim(rest.as_str());
    let (first, after) = split_first_word(args.as_str());
    let after = after?;
    let id = trim(first.as_str());
    let url = trim(after.as_str());
    if id.unicode_len() == 0 || url.unicode_len() == 0 {
        None
    } else {
        Some((id, url))
    }
}

/// `/<prefix><arg>`: the trimmed argument when it is not empty.
pub open spec fn single_arg_spec(prompt: Seq<char>, prefix: Seq<char>) -> Option<Seq<char>> {
    match strip_prefix_spec(prompt, prefix) {
        None => None,
        Some(rest) => if trim_spec(rest).len() == 0 {
            None
        } else {
            Some(trim_spec(rest))
        },
    }
}

/// Parses a command made of `prefix` and one argument.
pub fn parse_langgraph_single_arg_command(prompt: &str, prefix: &str) -> (r: Option<String>)
    ensures
        match r {
            Some(a) => single_arg_spec(prompt@, prefix@) == Some(a@),
            None => single_arg_spec(prompt@, prefix@) is None,
        },
{
    let rest = strip_prefix(prompt, prefix)?;
    let arg = trim(rest.as_str());
    if arg.unicode_len() == 0 {
        None
    } else {
        Some(arg)
    }
}

/// The words of a `/langgraph result` command: at most one run id and any number of
/// `--inject` flags; `None` when a second run id appears.
pub open spec fn result_args(
    ws: Seq<Seq<char>>,
    run_id: Option<Seq<char>>,
    inject: bool,
) -> Option<(Option<Seq<char>>, bool)>
    decreases ws.len(),
{
    if ws.len() == 0 {
        Some((run_id, inject))
    } else if ws[0] == "--inject"@ {
        result_args(ws.drop_first(), run_id, true)
    } else if run_id is None {
        result_args(ws.drop_first(), Some(ws[0]), inject)
    } else {
        None
    }
}

/// `/langgraph result <run_id> [--inject]`: the run id and whether to inject the result.
pub open spec fn result_command_spec(prompt: Seq<char>) -> Option<(Seq<char>, bool)> {
    match strip_prefix_spec(prompt, "/langgraph result"@) {
        None => None,
        Some(rest) => {
            let args = trim_spec(rest);
            if args.len() == 0 {
                None
            } else {
                match result_args(words(args), None, false) {
                    Some((Some(id), inject)) => Some((id, inject)),
                    _ => None,
                }
            }
        },
    }
}

/// Parses `/langgraph result <run_id> [--inject]`.
pub fn parse_langgraph_result_command(prompt: &str) -> (r: Option<(String, bool)>)
    ensures
        match r {
            Some((id, inject)) => result_command_spec(prompt@) == Some((id@, inject)),
            None => result_command_spec(prompt@) is None,
        },
{
    let rest = strip_prefix(prompt, "/langgraph result")?;
    let args = trim(rest.as_str());
    if args.unicode_len() == 0 {
        return None;
    }
    let ws = split_whitespace(args.as_str());
    let ghost all = strs(ws@);
    let mut run_id: Option<String> = None;
    let mut inject = false;
    let mut i: usize = 0;
    assert(all.skip(0) =~= all);
    while i < ws.len()
        invariant
            i <= ws@.len(),
            all == strs(ws@),
            all == words(args@),
            strip_prefix_spec(prompt@, "/langgraph result"@) == Some(rest@),
            args@ == trim_spec(rest@),
            args@.len() > 0,
            result_args(all, None, false) == result_args(
                all.skip(i as int),
                match run_id {
                    Some(s) => Some(s@),
                    None => None,
                },
                inject,
            ),
        decreases ws@.len() - i,
    {
        let ghost rest_ws = all.skip(i as int);
        proof {
            assert(rest_ws[0] == ws@[i as int]@);
            assert(rest_ws.drop_first() =~= all.skip(i + 1));
        }
        if str_eq(ws[i].as_str(), "--inject") {
            inject = true;
        } else if run_id.is_none() {
            run_id = Some(ws[i].clone());
        } else {
            proof {
                assert(rest_ws[0] != "--inject"@);
                assert(result_args(rest_ws, Some(run_id->0@), inject) is None);
            }
            return None;
        }
        i = i + 1;
    }
    proof {
        assert(all.skip(i as int) =~= Seq::<Seq<char>>::empty());
    }
    match run_id {
        Some(id) => Some((id, inject)),
        None => None,
    }
}

/// A parsed `/langgraph run` command.
pub struct LangGraphRunCommand {
    pub server_id: String,
    pub input: String,
    pub context_scope: Option<String>,
    pub files: Vec<String>,
    pub skill_names: Vec<String>,
}

/// The contents of a run command.
pub struct RunCommandView {
    pub server_id: Seq<char>,
    pub input: Seq<char>,
    pub context_scope: Option<Seq<char>>,
    pub files: Seq<Seq<char>>,
    pub skill_names: Seq<Seq<char>>,
}

impl LangGraphRunCommand {
    pub open spec fn view(&self) -> RunCommandView {
        RunCommandView {
            server_id: self.server_id@,
            input: self.input@,
            context_scope: match self.context_scope {
                Some(s) => Some(s@),
                None => None,
            },
            files: strs(self.files@),
            skill_names: strs(self.skill_names@),
        }
    }
}

/// The options that follow the server id of `/langgraph run`: `--context-scope <scope>`,
/// `--file <path>` and `--skill <name>` in any order, then the input, which is the rest of
/// the words joined by single spaces. `None` when an option lacks its value.
pub open spec fn run_options(cmd: RunCommandView, ws: Seq<Seq<char>>) -> Option<RunCommandView>
    decreases ws.len(),
{
    if ws.len() == 0 {
        Some(cmd)
    } else if ws[0] == "--context-scope"@ || ws[0] == "--file"@ || ws[0] == "--skill"@ {
        if ws.len() < 2 {
            None
        } else if ws[0] == "--context-scope"@ {
            run_options(RunCommandView { context_scope: Some(ws[1]), ..cmd }, ws.skip(2))
        } else if ws[0] == "--file"@ {
            run_options(RunCommandView { files: cmd.files.push(ws[1]), ..cmd }, ws.skip(2))
        } else {
            run_options(
                RunCommandView { skill_names: cmd.skill_names.push(ws[1]), ..cmd },
                ws.skip(2),
            )
        }
    } else {
        Some(RunCommandView { input: join(ws, " "@), ..cmd })
    }
}

/// `/langgraph run <id> [options] <input>`: the command, when it names a server and has a
/// non-blank input.
pub open spec fn run_command_spec(prompt: Seq<char>) -> Option<RunCommandView> {
    match strip_prefix_spec(prompt, "/langgraph run "@) {
        None => None,
        Some(rest) => {
            let ws = words(trim_spec(rest));
            if ws.len() == 0 {
                None
            } else {
                let start = RunCommandView {
                    server_id: ws[0],
                    input: seq![],
                    context_scope: None,
                    files: seq![],
                    skill_names: seq![],
                };
                match run_options(start, ws.drop_first()) {
                    Some(cmd) => if trim_spec(cmd.input).len() == 0 {
                        None
                    } else {
                        Some(cmd)
                    },
                    None => None,
                }
            }
        },
    }
}

/// Parses `/langgraph run <id> [--context-scope <scope>] [--file <path>]... [--skill <name>]...
/// <input>`.
pub fn parse_langgraph_run_command(prompt: &str) -> (r: Option<LangGraphRunCommand>)
    ensures
        match r {
            Some(cmd) => run_command_spec(prompt@) == Some(cmd.view()),
            None => run_command_spec(prompt@) is None,
        },
{
    let rest = strip_prefix(prompt, "/langgraph run ")?;
    let args = trim(rest.as_str());
    let ws = split_whitespace(args.as_str());
    let ghost all = strs(ws@);
    if ws.len() == 0 {
        return None;
    }
    let mut cmd = LangGraphRunCommand {
        server_id: ws[0].clone(),
        input: String::new(),
        context_scope: None,
        files: Vec::new(),
        skill_names: Vec::new(),
    };
    let ghost start = cmd.view();
    proof {
        assert(all.skip(1) =~= all.drop_first());
        assert(start.files =~= Seq::<Seq<char>>::empty());
        assert(start.skill_names =~= Seq::<Seq<char>>::empty());
    }
    let mut i: usize = 1;
    loop
        invariant_except_break
            1 <= i <= ws@.len(),
            all == strs(ws@),
            all == words(args@),
            strip_prefix_spec(prompt@, "/langgraph run "@) == Some(rest@),
            args@ == trim_spec(rest@),
            start.server_id == all[0],
            start.input == Seq::<char>::empty(),
            start.context_scope is None,
            start.files == Seq::<Seq<char>>::empty(),
            start.skill_names == Seq::<Seq<char>>::empty(),
            run_options(start, all.drop_first()) == run_options(cmd.view(), all.skip(i as int)),
            cmd.input@ == Seq::<char>::empty(),
        ensures
            run_options(start, all.drop_first()) == Some(cmd.view()),
        decreases ws@.len() - i,
    {
        let ghost rest_ws = all.skip(i as int);
        if i >= ws.len() {
            proof {
                assert(rest_ws.len() == 0);
            }
            break;
        }
        proof {
            assert(rest_ws[0] == ws@[i as int]@);
        }
        let word = ws[i].as_str();
        let is_scope = str_eq(word, "--context-scope");
        let is_file = str_eq(word, "--file");
        let is_skill = str_eq(word, "--skill");
        if is_scope || is_file || is_skill {
            if i + 1 >= ws.len() {
                proof {
                    assert(rest_ws.len() < 2);
                    assert(run_options(cmd.view(), rest_ws) is None);
                }
                return None;
            }
            proof {
                assert(rest_ws[1] == ws@[i + 1]@);
                assert(rest_ws.skip(2) =~= all.skip(i + 2));
            }
            let value = ws[i + 1].clone();
            let ghost files_before = strs(cmd.files@);
            let ghost skills_before = strs(cmd.skill_names@);
            if is_scope {
                cmd.context_scope = Some(value);
            } else if is_file {
                cmd.files.push(value);
                proof {
                    assert(strs(cmd.files@) =~= files_before.push(value@));
                }
            } else {
                cmd.skill_names.push(value);
                proof {
                    assert(strs(cmd.skill_names@) =~= skills_before.push(value@));
                }
            }
            i = i + 2;
        } else {
            let tail = join_strings_from(ws.as_slice(), i, " ");
            cmd.input = tail;
            break;
        }
    }
    if is_blank(cmd.input.as_str()) {
        None
    } else {
        Some(cmd)
    }
}

// ---------------------------------------------------------------------------
// Servers
// ---------------------------------------------------------------------------

/// `url.trim().trim_end_matches('/')`.
pub fn normalize_base_url(url: &str) -> (r: String)
    ensures
        r@ == trim_end_char(trim_spec(url@), '/'),
{
    let t = trim(url);
    trim_end_matches(t.as_str(), '/')
}

/// The address of `path` on `server`: its base URL without trailing slashes, then `path`.
pub fn langgraph_url(server: &LangGraphServer, path: &str) -> (r: String)
    ensures
        r@ == trim_end_char(server.base_url@, '/') + path@,
{
    let mut r = trim_end_matches(server.base_url.as_str(), '/');
    r.append(path);
    r
}

/// Seconds a request to `server` may take: its configured timeout, else thirty.
pub fn langgraph_timeout_secs(server: &LangGraphServer) -> (r: u64)
    ensures
        r == match server.timeout_secs {
            Some(t) => t,
            None => 30,
        },
{
    match server.timeout_secs {
        Some(t) => t,
        None => 30,
    }
}

/// The line that lists one server.
pub open spec fn server_listing(s: LangGraphServer) -> Seq<char> {
    "- "@ + s.name@ + " ("@ + s.id@ + ") -> "@ + s.base_url@ + "\n  assistant_id: "@ + text_or(
        s.assistant_id,
        "none"@,
    ) + " | default_graph: "@ + text_or(s.default_graph, "none"@) + " | auth_env: "@
        + text_or(s.auth_env, "none"@)
}

/// The listing of a registry, whose file is at `registry_path`.
pub open spec fn registry_listing(servers: Seq<LangGraphServer>, registry_path: Seq<char>) -> Seq<
    char,
> {
    if servers.len() == 0 {
        "No LangGraph servers registered. Add one with `crust langgraph add <id> --url <base_url>`. Registry: "@
            + registry_path
    } else {
        join(
            seq!["Registered "@ + decimal(servers.len()) + " LangGraph server(s):"@]
                + servers.map_values(|s: LangGraphServer| server_listing(s)),
            "\n"@,
        )
    }
}

fn server_listing_exec(s: &LangGraphServer) -> (r: String)
    ensures
        r@ == server_listing(*s),
{
    let mut r = "- ".to_owned();
    r.append(s.name.as_str());
    r.append(" (");
    r.append(s.id.as_str());
    r.append(") -> ");
    r.append(s.base_url.as_str());
    r.append("\n  assistant_id: ");
    r.append(text_or_default(&s.assistant_id, "none").as_str());
    r.append(" | default_graph: ");
    r.append(text_or_default(&s.default_graph, "none").as_str());
    r.append(" | auth_env: ");
    r.append(text_or_default(&s.auth_env, "none").as_str());
    r
}

/// Lists the registered servers; `registry_path` names the registry file.
pub fn format_langgraph_registry(registry: &LangGraphRegistry, registry_path: &str) -> (r: String)
    ensures
        r@ == registry_listing(registry.servers@, registry_path@),
{
    let servers = &registry.servers;
    if servers.len() == 0 {
        let mut r =
            "No LangGraph servers registered. Add one with `crust langgraph add <id> --url <base_url>`. Registry: ".to_owned();
        r.append(registry_path);
        return r;
    }
    let mut lines: Vec<String> = Vec::new();
    let mut head = "Registered ".to_owned();
    head.append(u64_to_decimal(servers.len() as u64).as_str());
    head.append(" LangGraph server(s):");
    lines.push(head);
    let ghost head_v = head@;
    let mut i: usize = 0;
    while i < servers.len()
        invariant
            i <= servers@.len(),
            servers@ == registry.servers@,
            head_v == "Registered "@ + decimal(servers@.len()) + " LangGraph server(s):"@,
            strs(lines@) == seq![head_v] + servers@.take(i as int).map_values(
                |s: LangGraphServer| server_listing(s),
            ),
        decreases servers@.len() - i,
    {
        let line = server_listing_exec(&servers[i]);
        let ghost before = strs(lines@);
        lines.push(line);
        proof {
            assert(strs(lines@) =~= before.push(line@));
            assert(servers@.take(i + 1).map_values(|s: LangGraphServer| server_listing(s))
                =~= servers@.take(i as int).map_values(|s: LangGraphServer| server_listing(s)).push(
                server_listing(servers@[i as int]),
            ));
        }
        i = i + 1;
    }
    proof {
        assert(servers@.take(servers@.len() as int) =~= servers@);
    }
    join_strings(lines.as_slice(), "\n")
}

// ---------------------------------------------------------------------------
// Context scopes of a handoff
// ---------------------------------------------------------------------------

/// The context scopes a handoff accepts.
pub open spec fn context_scopes() -> Seq<Seq<char>> {
    seq![
        "none"@,
        "summary"@,
        "recent"@,
        "files"@,
        "summary+recent"@,
        "summary+files"@,
        "full-allowed"@,
    ]
}

/// The requested scope (by default `summary+recent`), trimmed, when it is one of the known
/// scopes; otherwise the error that lists them.
pub open spec fn context_scope_spec(scope: Option<Seq<char>>) -> Result<Seq<char>, Seq<char>> {
    let s = trim_spec(
        match scope {
            Some(x) => x,
            None => "summary+recent"@,
        },
    );
    if context_scopes().contains(s) {
        Ok(s)
    } else {
        Err("invalid context scope `"@ + s
            + "`. Use one of: none, summary, recent, files, summary+recent, summary+files, full-allowed"@)
    }
}

/// Checks a requested context scope.
pub fn validate_langgraph_context_scope(scope: Option<&str>) -> (r: Result<String, String>)
    ensures
        match r {
            Ok(s) => context_scope_spec(match scope {
                Some(x) => Some(x@),
                None => None,
            }) == Ok::<Seq<char>, Seq<char>>(s@),
            Err(e) => context_scope_spec(match scope {
                Some(x) => Some(x@),
                None => None,
            }) == Err::<Seq<char>, Seq<char>>(e@),
        },
{
    let s = match scope {
        Some(x) => trim(x),
        None => trim("summary+recent"),
    };
    let known = str_eq(s.as_str(), "none") || str_eq(s.as_str(), "summary") || str_eq(
        s.as_str(),
        "recent",
    ) || str_eq(s.as_str(), "files") || str_eq(s.as_str(), "summary+recent") || str_eq(
        s.as_str(),
        "summary+files",
    ) || str_eq(s.as_str(), "full-allowed");
    proof {
        let ks = context_scopes();
        assert(ks[0] == "none"@);
        assert(ks[1] == "summary"@);
        assert(ks[2] == "recent"@);
        assert(ks[3] == "files"@);
        assert(ks[4] == "summary+recent"@);
        assert(ks[5] == "summary+files"@);
        assert(ks[6] == "full-allowed"@);
        if ks.contains(s@) {
            let i = choose|i: int| 0 <= i < ks.len() && ks[i] == s@;
            assert(known);
        }
    }
    if known {
        Ok(s)
    } else {
        let mut e = "invalid context scope `".to_owned();
        e.append(s.as_str());
        e.append(
            "`. Use one of: none, summary, recent, files, summary+recent, summary+files, full-allowed",
        );
        Err(e)
    }
}

/// The scopes that include the session summary.
pub open spec fn includes_summary(scope: Seq<char>) -> bool {
    scope == "summary"@ || scope == "summary+recent"@ || scope == "summary+files"@ || scope
        == "full-allowed"@
}

/// The scopes that include recent messages.
pub open spec fn includes_recent(scope: Seq<char>) -> bool {
    scope == "recent"@ || scope == "summary+recent"@ || scope == "full-allowed"@
}

/// The scopes that include selected files.
pub open spec fn includes_files(scope: Seq<char>) -> bool {
    scope == "files"@ || scope == "summary+files"@ || scope == "full-allowed"@
}

/// What a handoff of the given scope carries: the summary, recent messages, files.
pub fn scope_inclusions(scope: &str) -> (r: (bool, bool, bool))
    ensures
        r.0 == includes_summary(scope@),
        r.1 == includes_recent(scope@),
        r.2 == includes_files(scope@),
{
    let summary = str_eq(scope, "summary") || str_eq(scope, "summary+recent") || str_eq(
        scope,
        "summary+files",
    ) || str_eq(scope, "full-allowed");
    let recent = str_eq(scope, "recent") || str_eq(scope, "summary+recent") || str_eq(
        scope,
        "full-allowed",
    );
    let files = str_eq(scope, "files") || str_eq(scope, "summary+files") || str_eq(
        scope,
        "full-allowed",
    );
    (summary, recent, files)
}

// ---------------------------------------------------------------------------
// Run records
// ---------------------------------------------------------------------------

/// One event of a run's stream.
pub struct LangGraphStreamEvent {
    pub event: String,
    pub data: JsonValue,
}

/// A run of a LangGraph workflow, as stored.
pub struct LangGraphRunRecord {
    pub id: String,
    pub server_id: String,
    pub thread_id: String,
    pub run_id: Option<String>,
    pub status: String,
    pub input: String,
    pub final_text: Option<String>,
    pub error: Option<String>,
    pub created_at: String,
    pub updated_at: String,
    pub raw_event_log_path: String,
    pub events: Vec<LangGraphStreamEvent>,
}

/// The line that lists one run.
pub open spec fn run_listing(r: LangGraphRunRecord) -> Seq<char> {
    r.id@ + " ["@ + r.status@ + "] server="@ + r.server_id@ + " thread="@ + r.thread_id@
        + " run="@ + text_or(r.run_id, "none"@) + " - "@ + truncate_middle_spec(r.input@, 120)
}

/// The listing of runs: the first twenty, one per line.
pub open spec fn runs_listing(records: Seq<LangGraphRunRecord>, runs_dir: Seq<char>) -> Seq<char> {
    if records.len() == 0 {
        "No LangGraph runs found. Run records are stored in `"@ + runs_dir + "`."@
    } else {
        join(
            records.take(min_int(20, records.len() as int)).map_values(
                |r: LangGraphRunRecord| run_listing(r),
            ),
            "\n"@,
        )
    }
}

fn run_listing_exec(r: &LangGraphRunRecord) -> (s: String)
    ensures
        s@ == run_listing(*r),
{
    let mut s = r.id.clone();
    s.append(" [");
    s.append(r.status.as_str());
    s.append("] server=");
    s.append(r.server_id.as_str());
    s.append(" thread=");
    s.append(r.thread_id.as_str());
    s.append(" run=");
    s.append(text_or_default(&r.run_id, "none").as_str());
    s.append(" - ");
    s.append(truncate_middle(r.input.as_str(), 120).as_str());
    s
}

/// Lists runs; `runs_dir` names the directory of run records.
pub fn format_langgraph_runs(records: &[LangGraphRunRecord], runs_dir: &str) -> (s: String)
    ensures
        s@ == runs_listing(records@, runs_dir@),
{
    if records.len() == 0 {
        let mut s = "No LangGraph runs found. Run records are stored in `".to_owned();
        s.append(runs_dir);
        s.append("`.");
        return s;
    }
    let n: usize = if records.len() < 20 {
        records.len()
    } else {
        20
    };
    let mut lines: Vec<String> = Vec::new();
    let mut i: usize = 0;
    while i < n
        invariant
            i <= n <= records@.len(),
            n == min_int(20, records@.len() as int),
            strs(lines@) == records@.take(i as int).map_values(
                |r: LangGraphRunRecord| run_listing(r),
            ),
        decreases n - i,
    {
        let line = run_listing_exec(&records[i]);
        let ghost before = strs(lines@);
        lines.push(line);
        proof {
            assert(strs(lines@) =~= before.push(line@));
            assert(records@.take(i + 1).map_values(|r: LangGraphRunRecord| run_listing(r))
                =~= records@.take(i as int).map_values(|r: LangGraphRunRecord| run_listing(r)).push(
                run_listing(records@[i as int]),
            ));
        }
        i = i + 1;
    }
    join_strings(lines.as_slice(), "\n")
}

/// What a run produced: its final text, else its error, else a note that there is none.
pub open spec fn run_result_text(r: LangGraphRunRecord) -> Seq<char> {
    match r.final_text {
        Some(t) => t@,
        None => text_or(r.error, "No final text recorded."@),
    }
}

fn run_result_text_exec(r: &LangGraphRunRecord) -> (s: String)
    ensures
        s@ == run_result_text(*r),
{
    match &r.final_text {
        Some(t) => t.clone(),
        None => text_or_default(&r.error, "No final text recorded."),
    }
}

/// The detail of a run, as `/langgraph result` shows it.
pub open spec fn run_result_report(r: LangGraphRunRecord) -> Seq<char> {
    "LangGraph run "@ + r.id@ + " ["@ + r.status@ + "]\nserver: "@ + r.server_id@
        + "\nthread: "@ + r.thread_id@ + "\nrun: "@ + text_or(r.run_id, "none"@)
        + "\nraw events: "@ + r.raw_event_log_path@ + "\n\n"@ + run_result_text(r)
}

/// Shows the detail of a run.
pub fn format_langgraph_run_result(record: &LangGraphRunRecord) -> (s: String)
    ensures
        s@ == run_result_report(*record),
{
    let mut s = "LangGraph run ".to_owned();
    s.append(record.id.as_str());
    s.append(" [");
    s.append(record.status.as_str());
    s.append("]\nserver: ");
    s.append(record.server_id.as_str());
    s.append("\nthread: ");
    s.append(record.thread_id.as_str());
    s.append("\nrun: ");
    s.append(text_or_default(&record.run_id, "none").as_str());
    s.append("\nraw events: ");
    s.append(record.raw_event_log_path.as_str());
    s.append("\n\n");
    s.append(run_result_text_exec(record).as_str());
    s
}

/// The summary of a run that is handed back to the conversation.
pub open spec fn run_injection(r: LangGraphRunRecord) -> Seq<char> {
    "LangGraph run `"@ + r.id@ + "` result summary:\nstatus: "@ + r.status@ + "\nserver: "@
        + r.server_id@ + "\nthread: "@ + r.thread_id@ + "\nrun: "@ + text_or(r.run_id, "none"@)
        + "\n\n"@ + truncate_middle_spec(run_result_text(r), 8000)
}

/// Summarizes a run for the conversation; its result is cut to 8000 bytes.
pub fn langgraph_result_injection_summary(record: &LangGraphRunRecord) -> (s: String)
    ensures
        s@ == run_injection(*record),
{
    let mut s = "LangGraph run `".to_owned();
    s.append(record.id.as_str());
    s.append("` result summary:\nstatus: ");
    s.append(record.status.as_str());
    s.append("\nserver: ");
    s.append(record.server_id.as_str());
    s.append("\nthread: ");
    s.append(record.thread_id.as_str());
    s.append("\nrun: ");
    s.append(text_or_default(&record.run_id, "none").as_str());
    s.append("\n\n");
    s.append(truncate_middle(run_result_text_exec(record).as_str(), 8000).as_str());
    s
}

// ---------------------------------------------------------------------------
// Reading the events of a run
// ---------------------------------------------------------------------------

/// The provider's run id in an event: `run_id`, else `id`, else `metadata.run_id`.
pub open spec fn event_run_id(v: JsonValue) -> Option<Seq<char>> {
    match string_field(v, "run_id"@) {
        Some(t) => Some(t),
        None => match string_field(v, "id"@) {
            Some(t) => Some(t),
            None => match json_get(v, "metadata"@) {
                Some(m) => string_field(m, "run_id"@),
                None => None,
            },
        },
    }
}

/// The `content` text of the last message in `ms` that has one.
pub open spec fn last_content(ms: Seq<JsonValue>) -> Option<Seq<char>>
    decreases ms.len(),
{
    if ms.len() == 0 {
        None
    } else {
        match string_field(ms.last(), "content"@) {
            Some(t) => Some(t),
            None => last_content(ms.drop_last()),
        }
    }
}

/// The text an event carries: the value itself when it is a string; else its `final`,
/// `output`, `result`, `content` or `message` text, in that order; else, when it has a
/// `messages` array, the content of the last message that has one.
pub open spec fn event_text(v: JsonValue) -> Option<Seq<char>> {
    match json_str(v) {
        Some(t) => Some(t),
        None => match string_field(v, "final"@) {
            Some(t) => Some(t),
            None => match string_field(v, "output"@) {
                Some(t) => Some(t),
                None => match string_field(v, "result"@) {
                    Some(t) => Some(t),
                    None => match string_field(v, "content"@) {
                        Some(t) => Some(t),
                        None => match string_field(v, "message"@) {
                            Some(t) => Some(t),
                            None => match json_get(v, "messages"@) {
                                Some(JsonValue::Array(ms)) => last_content(ms@),
                                _ => None,
                            },
                        },
                    },
                },
            },
        },
    }
}

/// Finds the provider's run id in an event.
pub fn extract_langgraph_run_id(value: &JsonValue) -> (r: Option<String>)
    ensures
        opt_view(r) == event_run_id(*value),
{
    if let Some(t) = get_string_field(value, "run_id") {
        return Some(t);
    }
    if let Some(t) = get_string_field(value, "id") {
        return Some(t);
    }
    match get(value, "metadata") {
        Some(m) => get_string_field(m, "run_id"),
        None => None,
    }
}

fn last_message_content(ms: &Vec<JsonValue>) -> (r: Option<String>)
    ensures
        opt_view(r) == last_content(ms@),
{
    let mut i: usize = ms.len();
    assert(ms@.take(ms@.len() as int) =~= ms@);
    while i > 0
        invariant
            i <= ms@.len(),
            last_content(ms@) == last_content(ms@.take(i as int)),
        decreases i,
    {
        let ghost pre = ms@.take(i as int);
        proof {
            assert(pre.last() == ms@[i - 1]);
            assert(pre.drop_last() =~= ms@.take(i - 1));
        }
        if let Some(t) = get_string_field(&ms[i - 1], "content") {
            return Some(t);
        }
        i = i - 1;
    }
    None
}

/// Finds the text an event carries.
pub fn extract_langgraph_text(value: &JsonValue) -> (r: Option<String>)
    ensures
        opt_view(r) == event_text(*value),
{
    if let JsonValue::Str(t) = value {
        return Some(t.clone());
    }
    if let Some(t) = get_string_field(value, "final") {
        return Some(t);
    }
    if let Some(t) = get_string_field(value, "output") {
        return Some(t);
    }
    if let Some(t) = get_string_field(value, "result") {
        return Some(t);
    }
    if let Some(t) = get_string_field(value, "content") {
        return Some(t);
    }
    if let Some(t) = get_string_field(value, "message") {
        return Some(t);
    }
    match get(value, "messages") {
        Some(JsonValue::Array(ms)) => last_message_content(ms),
        _ => None,
    }
}

/// The run id of the first event that has one.
pub open spec fn first_run_id(events: Seq<LangGraphStreamEvent>) -> Option<Seq<char>>
    decreases events.len(),
{
    if events.len() == 0 {
        None
    } else {
        match event_run_id(events[0].data) {
            Some(t) => Some(t),
            None => first_run_id(events.drop_first()),
        }
    }
}

/// The text of the last event that has one.
pub open spec fn last_text(events: Seq<LangGraphStreamEvent>) -> Option<Seq<char>>
    decreases events.len(),
{
    if events.len() == 0 {
        None
    } else {
        match event_text(events.last().data) {
            Some(t) => Some(t),
            None => last_text(events.drop_last()),
        }
    }
}

fn first_event_run_id(events: &Vec<LangGraphStreamEvent>) -> (r: Option<String>)
    ensures
        opt_view(r) == first_run_id(events@),
{
    let mut i: usize = 0;
    assert(events@.skip(0) =~= events@);
    while i < events.len()
        invariant
            i <= events@.len(),
            first_run_id(events@) == first_run_id(events@.skip(i as int)),
        decreases events@.len() - i,
    {
        let ghost rest = events@.skip(i as int);
        proof {
            assert(rest[0] == events@[i as int]);
            assert(rest.drop_first() =~= events@.skip(i + 1));
        }
        let found = extract_langgraph_run_id(&events[i].data);
        if found.is_some() {
            return found;
        }
        i = i + 1;
    }
    None
}

fn last_event_text(events: &Vec<LangGraphStreamEvent>) -> (r: Option<String>)
    ensures
        opt_view(r) == last_text(events@),
{
    let mut j: usize = events.len();
    assert(events@.take(events@.len() as int) =~= events@);
    while j > 0
        invariant
            j <= events@.len(),
            last_text(events@) == last_text(events@.take(j as int)),
        decreases j,
    {
        let ghost pre = events@.take(j as int);
        proof {
            assert(pre.last() == events@[j - 1]);
            assert(pre.drop_last() =~= events@.take(j - 1));
        }
        let found = extract_langgraph_text(&events[j - 1].data);
        if found.is_some() {
            return found;
        }
        j = j - 1;
    }
    None
}

/// Records a completed run from its events: the run id of the first event that names one,
/// the text of the last event that carries one, status `completed` and no error.
pub fn completed_run_record(
    id: String,
    server_id: String,
    thread_id: String,
    input: String,
    created_at: String,
    updated_at: String,
    raw_event_log_path: String,
    events: Vec<LangGraphStreamEvent>,
) -> (r: LangGraphRunRecord)
    ensures
        r.id == id,
        r.server_id == server_id,
        r.thread_id == thread_id,
        r.input == input,
        r.created_at == created_at,
        r.updated_at == updated_at,
        r.raw_event_log_path == raw_event_log_path,
        r.events == events,
        r.status@ == "completed"@,
        r.error is None,
        opt_view(r.run_id) == first_run_id(events@),
        opt_view(r.final_text) == last_text(events@),
{
    let run_id = first_event_run_id(&events);
    let final_text = last_event_text(&events);
    LangGraphRunRecord {
        id,
        server_id,
        thread_id,
        run_id,
        status: "completed".to_owned(),
        input,
        final_text,
        error: None,
        created_at,
        updated_at,
        raw_event_log_path,
        events,
    }
}

// ---------------------------------------------------------------------------
// Server-sent events of a run's stream
// ---------------------------------------------------------------------------

/// One line of an event stream, read with the name of the current event: an `event:` line
/// names the events that follow (when the name is not blank); a `data:` line yields an
/// event with that data, unless the data is blank or `[DONE]`; other lines are ignored.
/// A carriage return at the end of the line does not count.
pub open spec fn sse_step(current: Option<Seq<char>>, raw: Seq<char>) -> (
    Option<Seq<char>>,
    Option<(Seq<char>, Seq<char>)>,
) {
    let line = trim_end_char(raw, '\r');
    if line.len() == 0 {
        (current, None)
    } else {
        match strip_prefix_spec(line, "event:"@) {
            Some(rest) => if trim_spec(rest).len() > 0 {
                (Some(trim_spec(rest)), None)
            } else {
                (current, None)
            },
            None => match strip_prefix_spec(line, "data:"@) {
                None => (current, None),
                Some(rest) => {
                    let data = trim_spec(rest);
                    if data.len() == 0 || data == "[DONE]"@ {
                        (current, None)
                    } else {
                        (
                            current,
                            Some(
                                (
                                    match current {
                                        Some(e) => e,
                                        None => "message"@,
                                    },
                                    data,
                                ),
                            ),
                        )
                    }
                },
            },
        }
    }
}

/// Reads one line of an event stream: updates the current event name, and returns the
/// event name and the data text of an event that the line completes.
pub fn read_sse_line(current_event: &mut Option<String>, line: &str) -> (r: Option<(String, String)>)
    ensures
        opt_view(*final(current_event)) == sse_step(opt_view(*old(current_event)), line@).0,
        match r {
            Some((e, d)) => sse_step(opt_view(*old(current_event)), line@).1 == Some((e@, d@)),
            None => sse_step(opt_view(*old(current_event)), line@).1 is None,
        },
{
    let line = trim_end_matches(line, '\r');
    if line.unicode_len() == 0 {
        return None;
    }
    if let Some(rest) = strip_prefix(line.as_str(), "event:") {
        let name = trim(rest.as_str());
        if name.unicode_len() > 0 {
            *current_event = Some(name);
        }
        return None;
    }
    match strip_prefix(line.as_str(), "data:") {
        None => None,
        Some(rest) => {
            let data = trim(rest.as_str());
            if data.unicode_len() == 0 || str_eq(data.as_str(), "[DONE]") {
                None
            } else {
                let name = text_or_default(current_event, "message");
                Some((name, data))
            }
        },
    }
}

/// Collects the lines of a stream that arrives in chunks.
pub struct SseLineBuffer {
    pending: String,
}

impl SseLineBuffer {
    /// The text received after the last complete line.
    pub closed spec fn pending(&self) -> Seq<char> {
        self.pending@
    }

    /// An empty buffer.
    pub fn new() -> (b: SseLineBuffer)
        ensures
            b.pending() == Seq::<char>::empty(),
    {
        SseLineBuffer { pending: String::new() }
    }

    /// Adds a chunk and returns the lines it completes, without their `\n`.
    pub fn feed(&mut self, chunk: &str) -> (lines: Vec<String>)
        ensures
            strs(lines@) == split_on(old(self).pending() + chunk@, '\n').drop_last(),
            final(self).pending() == split_on(old(self).pending() + chunk@, '\n').last(),
    {
        let mut all = self.pending.clone();
        all.append(chunk);
        let mut pieces = split_char(all.as_str(), '\n');
        proof {
            lemma_split_on_nonempty(all@, '\n');
        }
        let ghost whole = strs(pieces@);
        let last = pieces.pop().unwrap();
        proof {
            assert(strs(pieces@) =~= whole.drop_last());
        }
        self.pending = last;
        pieces
    }

    /// The text after the last complete line, if there is any, when the stream ends.
    pub fn finish(self) -> (rest: Option<String>)
        ensures
            match rest {
                Some(t) => t@ == self.pending() && t@.len() > 0,
                None => self.pending().len() == 0,
            },
    {
        if self.pending.unicode_len() > 0 {
            Some(self.pending)
        } else {
            None
        }
    }
}

/// Splitting yields at least one piece.
pub proof fn lemma_split_on_nonempty(s: Seq<char>, c: char)
    ensures
        split_on(s, c).len() >= 1,
    decreases s.len(),
{
    lemma_char_pos(s, c);
    let p = char_pos(s, c);
    if p < s.len() {
        lemma_split_on_nonempty(s.skip(p + 1int), c);
    }
}

/// Joining the pieces of a split with the separator gives back the text.
pub proof fn lemma_split_on_join(s: Seq<char>, c: char)
    ensures
        join(split_on(s, c), seq![c]) == s,
    decreases s.len(),
{
    lemma_char_pos(s, c);
    let p = char_pos(s, c);
    if p < s.len() {
        let rest = s.skip(p + 1int);
        lemma_split_on_join(rest, c);
        lemma_split_on_nonempty(rest, c);
        lemma_join_cons(s.take(p as int), split_on(rest, c), seq![c]);
        assert(s =~= s.take(p as int) + seq![c] + rest);
    }
}

/// Joining a list with a first element in front.
pub proof fn lemma_join_cons(x: Seq<char>, rest: Seq<Seq<char>>, sep: Seq<char>)
    requires
        rest.len() >= 1,
    ensures
        join(seq![x] + rest, sep) == x + sep + join(rest, sep),
    decreases rest.len(),
{
    let all = seq![x] + rest;
    if rest.len() == 1 {
        assert(all.drop_last() =~= seq![x]);
        assert(all.last() == rest[0]);
        assert(join(seq![x], sep) == x);
        assert(join(rest, sep) == rest[0]);
    } else {
        assert(join(rest, sep) == join(rest.drop_last(), sep) + sep + rest.last());
        assert(all.drop_last() =~= seq![x] + rest.drop_last());
        lemma_join_cons(x, rest.drop_last(), sep);
        assert(all.last() == rest.last());
        assert(x + sep + join(rest.drop_last(), sep) + sep + rest.last() =~= x + sep + (join(
            rest.drop_last(),
            sep,
        ) + sep + rest.last()));
    }
}

/// The lines a buffer hands out, each followed by `\n`, and then what it still holds, are
/// exactly the text it was fed.
pub proof fn lemma_sse_buffer_keeps_text(before: Seq<char>, chunk: Seq<char>)
    ensures
        join(
            split_on(before + chunk, '\n').drop_last().push(split_on(before + chunk, '\n').last()),
            seq!['\n'],
        ) == before + chunk,
{
    let pieces = split_on(before + chunk, '\n');
    lemma_split_on_nonempty(before + chunk, '\n');
    assert(pieces.drop_last().push(pieces.last()) =~= pieces);
    lemma_split_on_join(before + chunk, '\n');
}

// ---------------------------------------------------------------------------
// What a run is handed: the handoff payload and the request
// ---------------------------------------------------------------------------

/// The messages of `ms` that are not system messages, in order.
pub open spec fn non_system(ms: Seq<MessageView>) -> Seq<MessageView>
    decreases ms.len(),
{
    if ms.len() == 0 {
        seq![]
    } else if ms.last().role is System {
        non_system(ms.drop_last())
    } else {
        non_system(ms.drop_last()).push(ms.last())
    }
}

/// The last `n` elements of `s` (all of them when there are fewer).
pub open spec fn last_n<T>(s: Seq<T>, n: nat) -> Seq<T> {
    s.skip(s.len() - min_int(n as int, s.len() as int))
}

/// A recent message as a handoff carries it: its role and its text, cut to 4000 bytes.
pub open spec fn handoff_message(m: MessageView) -> JsonView {
    JsonView::Object(
        seq![
            ("role"@, JsonView::Str(role_name_spec(m.role))),
            (
                "content"@,
                JsonView::Str(
                    truncate_middle_spec(
                        truncate_middle_spec(content_text(m.content), 4000),
                        4000,
                    ),
                ),
            ),
        ],
    )
}

/// Recent messages as a handoff carries them.
pub open spec fn handoff_messages(ms: Seq<MessageView>) -> Seq<JsonView> {
    ms.map_values(|m: MessageView| handoff_message(m))
}

/// The session part of a handoff: id and name, the summary (cut to 8000 bytes) when the
/// scope includes it, and the last ten non-system messages when the scope includes them.
pub open spec fn handoff_session(s: SessionView, with_summary: bool, with_recent: bool) -> JsonView {
    JsonView::Object(
        seq![
            ("id"@, JsonView::Str(s.id)),
            ("name"@, JsonView::Str(s.name)),
            (
                "summary"@,
                if with_summary {
                    match s.summary {
                        Some(t) => JsonView::Str(truncate_middle_spec(t, 8000)),
                        None => JsonView::Null,
                    }
                } else {
                    JsonView::Null
                },
            ),
            (
                "recent_messages"@,
                JsonView::Array(
                    if with_recent {
                        handoff_messages(last_n(non_system(s.messages), 10))
                    } else {
                        seq![]
                    },
                ),
            ),
        ],
    )
}

/// A handoff that includes recent messages carries the last ten non-system messages of the
/// session (all of them when there are fewer), oldest first: its last entry is the latest
/// non-system message. One that leaves them out carries none.
pub proof fn lemma_handoff_recent_are_latest(s: SessionView, with_summary: bool, with_recent: bool)
    ensures
        match handoff_session(s, with_summary, with_recent) {
            JsonView::Object(ms) => ms.len() == 4 && ms[3].0 == "recent_messages"@ && match ms[3].1 {
                JsonView::Array(a) => {
                    let ns = non_system(s.messages);
                    let n = if !with_recent {
                        0
                    } else if ns.len() < 10 {
                        ns.len() as int
                    } else {
                        10
                    };
                    &&& a.len() == n
                    &&& forall|i: int| 0 <= i < n ==> #[trigger] a[i] == handoff_message(ns[ns.len() - n + i])
                },
                _ => false,
            },
            _ => false,
        },
{
    let ns = non_system(s.messages);
    if with_recent {
        let l = last_n(ns, 10);
        assert forall|i: int| 0 <= i < l.len() implies #[trigger] l[i] == ns[ns.len() - l.len() + i] by {}
    }
}

fn handoff_message_json(m: &ChatMessage) -> (v: JsonValue)
    ensures
        v@ == handoff_message(m@),
{
    let role = text(m.role.name().as_str());
    let body = content_to_compaction_text(&m.content, 4000);
    let content = text(truncate_middle(body.as_str(), 4000).as_str());
    let members = vec![member("role", role), member("content", content)];
    let v = object(members);
    proof {
        assert(members_view(members@) =~= seq![
            ("role"@, JsonView::Str(role_name_spec(m.role))),
            (
                "content"@,
                JsonView::Str(
                    truncate_middle_spec(truncate_middle_spec(content_text(m@.content), 4000), 4000),
                ),
            ),
        ]);
    }
    v
}

/// The JSON of the session part of a handoff.
pub fn handoff_session_json(session: &Session, with_summary: bool, with_recent: bool) -> (v:
    JsonValue)
    ensures
        v@ == handoff_session(session@, with_summary, with_recent),
{
    let summary = if with_summary {
        match &session.summary {
            Some(t) => text(truncate_middle(t.as_str(), 8000).as_str()),
            None => JsonValue::Null,
        }
    } else {
        JsonValue::Null
    };
    assert(summary@ == (if with_summary {
        match session@.summary {
            Some(t) => JsonView::Str(truncate_middle_spec(t, 8000)),
            None => JsonView::Null,
        }
    } else {
        JsonView::Null
    }));
    let mut recent: Vec<JsonValue> = Vec::new();
    let ghost msgs = session@.messages;
    let ghost wanted = if with_recent {
        handoff_messages(last_n(non_system(msgs), 10))
    } else {
        seq![]
    };
    if with_recent {
        let mut picked: Vec<&ChatMessage> = Vec::new();
        let mut i: usize = 0;
        while i < session.messages.len()
            invariant
                i <= session.messages@.len(),
                msgs == session@.messages,
                msgs == views(session.messages@),
                picked@.map_values(|m: &ChatMessage| m@) == non_system(msgs.take(i as int)),
            decreases session.messages@.len() - i,
        {
            let m = &session.messages[i];
            proof {
                assert(msgs.take(i + 1).drop_last() =~= msgs.take(i as int));
                assert(msgs.take(i + 1).last() == m@);
            }
            let ghost before = picked@.map_values(|m: &ChatMessage| m@);
            if !m.role.is_system() {
                picked.push(m);
                proof {
                    assert(picked@.map_values(|m: &ChatMessage| m@) =~= before.push(m@));
                }
            }
            i = i + 1;
        }
        proof {
            assert(msgs.take(msgs.len() as int) =~= msgs);
        }
        let ghost ns = non_system(msgs);
        let start: usize = if picked.len() > 10 {
            picked.len() - 10
        } else {
            0
        };
        let mut j: usize = start;
        while j < picked.len()
            invariant
                start <= j <= picked@.len(),
                start == picked@.len() - min_int(10, picked@.len() as int),
                ns == picked@.map_values(|m: &ChatMessage| m@),
                ns == non_system(msgs),
                wanted == handoff_messages(last_n(ns, 10)),
                recent@.map_values(|v: JsonValue| v@) == wanted.take(j - start),
            decreases picked@.len() - j,
        {
            let v = handoff_message_json(picked[j]);
            let ghost before = recent@.map_values(|v: JsonValue| v@);
            recent.push(v);
            proof {
                assert(last_n(ns, 10)[j - start] == ns[j as int]);
                assert(recent@.map_values(|v: JsonValue| v@) =~= before.push(v@));
                assert(wanted.take(j - start + 1) =~= wanted.take(j - start).push(
                    handoff_message(ns[j as int]),
                ));
            }
            j = j + 1;
        }
        proof {
            assert(wanted.take(picked@.len() - start) =~= wanted);
        }
    }
    let ghost rv = recent@.map_values(|v: JsonValue| v@);
    let recent_json = array(recent);
    proof {
        assert(items_view(recent@) =~= rv);
        assert(rv =~= wanted);
    }
    let members = vec![
        member("id", text(session.id.as_str())),
        member("name", text(session.name.as_str())),
        member("summary", summary),
        member("recent_messages", recent_json),
    ];
    let v = object(members);
    proof {
        assert(members_view(members@) =~= seq![
            ("id"@, JsonView::Str(session@.id)),
            ("name"@, JsonView::Str(session@.name)),
            (
                "summary"@,
                if with_summary {
                    match session@.summary {
                        Some(t) => JsonView::Str(truncate_middle_spec(t, 8000)),
                        None => JsonView::Null,
                    }
                } else {
                    JsonView::Null
                },
            ),
            ("recent_messages"@, JsonView::Array(wanted)),
        ]);
        assert(v@ == JsonView::Object(members_view(members@)));
        assert(wanted == (if with_recent {
            handoff_messages(last_n(non_system(session@.messages), 10))
        } else {
            seq![]
        }));
        let expected = handoff_session(session@, with_summary, with_recent);
        if let JsonView::Object(ms) = expected {
            assert(ms =~= members_view(members@));
        }
    }
    v
}

/// A selected file as a handoff carries it: the requested path, where it resolved, and its
/// content cut to 12000 bytes.
pub open spec fn handoff_file(path: Seq<char>, resolved: Seq<char>, content: Seq<char>) -> JsonView {
    JsonView::Object(
        seq![
            ("path"@, JsonView::Str(path)),
            ("resolved_path"@, JsonView::Str(resolved)),
            ("content"@, JsonView::Str(truncate_middle_spec(content, 12000))),
        ],
    )
}

/// The JSON of a selected file of a handoff.
pub fn handoff_file_json(path: &str, resolved_path: &str, content: &str) -> (v: JsonValue)
    ensures
        v@ == handoff_file(path@, resolved_path@, content@),
{
    let members = vec![
        member("path", text(path)),
        member("resolved_path", text(resolved_path)),
        member("content", text(truncate_middle(content, 12000).as_str())),
    ];
    let v = object(members);
    proof {
        if let JsonView::Object(ms) = handoff_file(path@, resolved_path@, content@) {
            assert(ms =~= members_view(members@));
        }
    }
    v
}

/// A handoff: the task, the scope, the working directory, the session part (`null` without a
/// session), the selected files and skills, and the source `crust`.
pub open spec fn handoff_payload(
    task: Seq<char>,
    scope: Seq<char>,
    cwd: Seq<char>,
    session: Option<JsonView>,
    files: Seq<JsonView>,
    skills: Seq<JsonView>,
) -> JsonView {
    JsonView::Object(
        seq![
            ("task"@, JsonView::Str(task)),
            ("context_scope"@, JsonView::Str(scope)),
            ("cwd"@, JsonView::Str(cwd)),
            (
                "session"@,
                match session {
                    Some(v) => v,
                    None => JsonView::Null,
                },
            ),
            ("files"@, JsonView::Array(files)),
            ("skills"@, JsonView::Array(skills)),
            ("source"@, JsonView::Str("crust"@)),
        ],
    )
}

/// Builds the payload handed to a LangGraph run, for a scope that
/// `validate_langgraph_context_scope` accepted. The session part follows the scope; `files`
/// and `skills` are the entries of the selected files and skills.
pub fn build_langgraph_handoff_payload(
    task: &str,
    session: Option<&Session>,
    context_scope: &str,
    cwd: &str,
    files: Vec<JsonValue>,
    skills: Vec<JsonValue>,
) -> (v: JsonValue)
    ensures
        v@ == handoff_payload(
            task@,
            context_scope@,
            cwd@,
            match session {
                Some(s) => Some(
                    handoff_session(s@, includes_summary(context_scope@), includes_recent(context_scope@)),
                ),
                None => None,
            },
            items_view(files@),
            items_view(skills@),
        ),
{
    let (with_summary, with_recent, _with_files) = scope_inclusions(context_scope);
    let session_value = match session {
        Some(s) => handoff_session_json(s, with_summary, with_recent),
        None => JsonValue::Null,
    };
    let ghost fv = items_view(files@);
    let ghost sv = items_view(skills@);
    let files_value = array(files);
    let skills_value = array(skills);
    let members = vec![
        member("task", text(task)),
        member("context_scope", text(context_scope)),
        member("cwd", text(cwd)),
        member("session", session_value),
        member("files", files_value),
        member("skills", skills_value),
        member("source", text("crust")),
    ];
    let v = object(members);
    proof {
        let expected = handoff_payload(
            task@,
            context_scope@,
            cwd@,
            match session {
                Some(s) => Some(handoff_session(s@, with_summary, with_recent)),
                None => None,
            },
            fv,
            sv,
        );
        if let JsonView::Object(ms) = expected {
            assert(ms =~= members_view(members@));
        }
    }
    v
}

/// The assistant a run is started with: the server's assistant id, else its default graph,
/// else `agent`.
pub open spec fn run_assistant(server: LangGraphServer) -> Seq<char> {
    match server.assistant_id {
        Some(a) => a@,
        None => text_or(server.default_graph, "agent"@),
    }
}

/// The body of the request that starts a streamed run: the assistant, the input as one user
/// message (with the handoff under `crust_handoff` when there is one), and the server's
/// default graph under `graph_id` when it has one.
pub open spec fn run_request(server: LangGraphServer, input: Seq<char>, handoff: Option<JsonView>) -> JsonView {
    let message = JsonView::Object(
        seq![("role"@, JsonView::Str("user"@)), ("content"@, JsonView::Str(input))],
    );
    let messages = ("messages"@, JsonView::Array(seq![message]));
    let input_value = JsonView::Object(
        match handoff {
            Some(h) => seq![messages, ("crust_handoff"@, h)],
            None => seq![messages],
        },
    );
    let base = seq![("assistant_id"@, JsonView::Str(run_assistant(server))), ("input"@, input_value)];
    JsonView::Object(
        match server.default_graph {
            Some(g) => base.push(("graph_id"@, JsonView::Str(g@))),
            None => base,
        },
    )
}

/// Builds the body of the request that starts a streamed run.
pub fn langgraph_run_request(server: &LangGraphServer, input: &str, handoff: Option<JsonValue>) -> (v:
    JsonValue)
    ensures
        v@ == run_request(
            *server,
            input@,
            match handoff {
                Some(h) => Some(h@),
                None => None,
            },
        ),
{
    let assistant = match &server.assistant_id {
        Some(a) => a.clone(),
        None => text_or_default(&server.default_graph, "agent"),
    };
    let message_members = vec![member("role", text("user")), member("content", text(input))];
    let ghost mv = members_view(message_members@);
    let message = object(message_members);
    let message_items = vec![message];
    let ghost iv = items_view(message_items@);
    let messages = array(message_items);
    let ghost hv = match &handoff {
        Some(h) => Some(h@),
        None => None,
    };
    let mut input_members = vec![member("messages", messages)];
    match handoff {
        Some(h) => {
            input_members.push(member("crust_handoff", h));
        },
        None => {},
    }
    let ghost inv = members_view(input_members@);
    let input_value = object(input_members);
    let mut members = vec![member("assistant_id", text(assistant.as_str())), member("input", input_value)];
    match &server.default_graph {
        Some(g) => {
            members.push(member("graph_id", text(g.as_str())));
        },
        None => {},
    }
    let v = object(members);
    proof {
        assert(mv =~= seq![("role"@, JsonView::Str("user"@)), ("content"@, JsonView::Str(input@))]);
        let message_view = JsonView::Object(mv);
        assert(iv =~= seq![message_view]);
        let mm = ("messages"@, JsonView::Array(iv));
        match hv {
            Some(h) => assert(inv =~= seq![mm, ("crust_handoff"@, h)]),
            None => assert(inv =~= seq![mm]),
        }
        if let JsonView::Object(ms) = run_request(*server, input@, hv) {
            assert(ms =~= members_view(members@));
        }
    }
    v
}

// ---------------------------------------------------------------------------
// The LangGraph tool
// ---------------------------------------------------------------------------

/// A text that is given and not blank.
pub open spec fn given(o: Option<Seq<char>>) -> Option<Seq<char>> {
    match o {
        Some(t) => if trim_spec(t).len() == 0 {
            None
        } else {
            Some(t)
        },
        None => None,
    }
}

fn given_exec(o: Option<&str>) -> (r: Option<String>)
    ensures
        opt_view(r) == given(
            match o {
                Some(t) => Some(t@),
                None => None,
            },
        ),
{
    match o {
        Some(t) => if is_blank(t) {
            None
        } else {
            Some(t.to_owned())
        },
        None => None,
    }
}

/// The server a tool call runs on: the registered one, with the assistant and the graph
/// that the call names (when not blank) in place of its own.
pub fn apply_run_overrides(
    server: &LangGraphServer,
    assistant_id: Option<&str>,
    graph: Option<&str>,
) -> (r: LangGraphServer)
    ensures
        r.id == server.id,
        r.name == server.name,
        r.base_url == server.base_url,
        r.auth_env == server.auth_env,
        r.auth_header == server.auth_header,
        r.auth_scheme == server.auth_scheme,
        r.timeout_secs == server.timeout_secs,
        opt_view(r.assistant_id) == match given(
            match assistant_id {
                Some(t) => Some(t@),
                None => None,
            },
        ) {
            Some(a) => Some(a),
            None => opt_view(server.assistant_id),
        },
        opt_view(r.default_graph) == match given(
            match graph {
                Some(t) => Some(t@),
                None => None,
            },
        ) {
            Some(g) => Some(g),
            None => opt_view(server.default_graph),
        },
{
    let mut r = server.duplicate();
    match given_exec(assistant_id) {
        Some(a) => r.assistant_id = Some(a),
        None => {},
    }
    match given_exec(graph) {
        Some(g) => r.default_graph = Some(g),
        None => {},
    }
    r
}

/// The thread a tool call continues: the one it names, when not blank.
pub fn requested_thread(thread_id: Option<&str>) -> (r: Option<String>)
    ensures
        opt_view(r) == given(
            match thread_id {
                Some(t) => Some(t@),
                None => None,
            },
        ),
{
    given_exec(thread_id)
}

/// The error for a tool call that names no registered server.
pub fn unknown_server_error(server_id: &str) -> (e: String)
    ensures
        e@ == "registered LangGraph server `"@ + server_id@ + "` not found"@,
{
    let mut e = "registered LangGraph server `".to_owned();
    e.append(server_id);
    e.append("` not found");
    e
}

/// An optional text as JSON: the text, or `null`.
pub open spec fn optional_json(o: Option<Seq<char>>) -> JsonView {
    match o {
        Some(t) => JsonView::Str(t),
        None => JsonView::Null,
    }
}

fn optional_json_exec(o: &Option<String>) -> (v: JsonValue)
    ensures
        v@ == optional_json(opt_view(*o)),
{
    match o {
        Some(t) => text(t.as_str()),
        None => JsonValue::Null,
    }
}

/// The reply of the LangGraph tool: what identifies the run, its status and final text,
/// and the scope and skills it was handed.
pub open spec fn run_tool_reply(
    r: LangGraphRunRecord,
    context_scope: Option<Seq<char>>,
    skill_names: Seq<Seq<char>>,
) -> JsonView {
    JsonView::Object(
        seq![
            ("id"@, JsonView::Str(r.id@)),
            ("server_id"@, JsonView::Str(r.server_id@)),
            ("thread_id"@, JsonView::Str(r.thread_id@)),
            ("run_id"@, optional_json(opt_view(r.run_id))),
            ("status"@, JsonView::Str(r.status@)),
            ("context_scope"@, optional_json(context_scope)),
            ("skill_names"@, JsonView::Array(skill_names.map_values(|t: Seq<char>| JsonView::Str(t)))),
            ("final_text"@, optional_json(opt_view(r.final_text))),
            ("raw_event_log_path"@, JsonView::Str(r.raw_event_log_path@)),
        ],
    )
}

/// Builds the reply of the LangGraph tool.
pub fn langgraph_tool_reply(
    record: &LangGraphRunRecord,
    context_scope: &Option<String>,
    skill_names: &Vec<String>,
) -> (v: JsonValue)
    ensures
        v@ == run_tool_reply(*record, opt_view(*context_scope), strs(skill_names@)),
{
    let mut names: Vec<JsonValue> = Vec::new();
    let mut i: usize = 0;
    while i < skill_names.len()
        invariant
            i <= skill_names@.len(),
            items_view(names@) == strs(skill_names@).take(i as int).map_values(
                |t: Seq<char>| JsonView::Str(t),
            ),
        decreases skill_names@.len() - i,
    {
        let t = text(skill_names[i].as_str());
        let ghost before = items_view(names@);
        names.push(t);
        proof {
            assert(items_view(names@) =~= before.push(t@));
            assert(strs(skill_names@).take(i + 1).map_values(|t: Seq<char>| JsonView::Str(t))
                =~= strs(skill_names@).take(i as int).map_values(|t: Seq<char>| JsonView::Str(t)).push(
                JsonView::Str(skill_names@[i as int]@),
            ));
        }
        i = i + 1;
    }
    proof {
        assert(strs(skill_names@).take(skill_names@.len() as int) =~= strs(skill_names@));
    }
    let members = vec![
        member("id", text(record.id.as_str())),
        member("server_id", text(record.server_id.as_str())),
        member("thread_id", text(record.thread_id.as_str())),
        member("run_id", optional_json_exec(&record.run_id)),
        member("status", text(record.status.as_str())),
        member("context_scope", optional_json_exec(context_scope)),
        member("skill_names", array(names)),
        member("final_text", optional_json_exec(&record.final_text)),
        member("raw_event_log_path", text(record.raw_event_log_path.as_str())),
    ];
    let v = object(members);
    proof {
        if let JsonView::Object(ms) = run_tool_reply(
            *record,
            opt_view(*context_scope),
            strs(skill_names@),
        ) {
            assert(ms =~= members_view(members@));
        }
    }
    v
}

} // verus!
