//! The command line: which command the arguments name, and what their options say.

use vstd::prelude::*;
use vstd::string::*;

use crate::message::opt_view;
use crate::registry::{
    first_space_match, servers_without, CrustSpace, LangGraphRegistry, LangGraphServer,
    SpaceStatus, SpacesRegistry,
};
use crate::skills::{render_skill_prompt, skill_prompt, MarkdownSkill};
use crate::text::{
    int_error_message, int_error_text, is_blank, is_blank_spec, parse_u64, starts_with, str_eq,
    trim, trim_spec, u64_from_str, IntErrorKind,
};
use crate::words::{join, join_strings_from, strs, trim_end_char};

verus! {

/// The help of the command line.
pub open spec fn cli_help() -> Seq<char> {
    "crust\n\nUsage:\n  crust                 Open the interactive TUI\n  crust help            Show this help\n  crust skills list\n  crust skills show <name>\n  crust skill <name> [args]\n  crust spaces list\n  crust spaces create <id> [--cwd <path>] [--task <task>]\n  crust spaces spawn <id> [--cwd <path>] <task>\n  crust spaces attach <id>\n  crust spaces stop <id>\n  crust langgraph add <id> --url <base_url> [--name <name>] [--assistant-id <id>] [--default-graph <graph>] [--auth-env <var>] [--auth-header <header>] [--auth-scheme <scheme>] [--timeout-secs <secs>]\n  crust langgraph list\n  crust langgraph remove <id>\n  crust langgraph ping <id>"@
}

/// The help of the command line.
pub fn cli_help_text() -> (s: String)
    ensures
        s@ == cli_help(),
{
    "crust\n\nUsage:\n  crust                 Open the interactive TUI\n  crust help            Show this help\n  crust skills list\n  crust skills show <name>\n  crust skill <name> [args]\n  crust spaces list\n  crust spaces create <id> [--cwd <path>] [--task <task>]\n  crust spaces spawn <id> [--cwd <path>] <task>\n  crust spaces attach <id>\n  crust spaces stop <id>\n  crust langgraph add <id> --url <base_url> [--name <name>] [--assistant-id <id>] [--default-graph <graph>] [--auth-env <var>] [--auth-header <header>] [--auth-scheme <scheme>] [--timeout-secs <secs>]\n  crust langgraph list\n  crust langgraph remove <id>\n  crust langgraph ping <id>".to_owned()
}

/// The command the first argument names.
#[derive(Clone, Copy, Debug, PartialEq, Eq, Structural)]
pub enum CliCommand {
    /// No argument: nothing to do.
    Nothing,
    Help,
    LangGraph,
    Skills,
    Skill,
    Spaces,
}

/// Which command the arguments name; an unknown one is an error that points to the help.
pub open spec fn cli_route(args: Seq<Seq<char>>) -> Result<CliCommand, Seq<char>> {
    if args.len() == 0 {
        Ok(CliCommand::Nothing)
    } else {
        let a = args[0];
        if a == "help"@ || a == "--help"@ || a == "-h"@ {
            Ok(CliCommand::Help)
        } else if a == "langgraph"@ {
            Ok(CliCommand::LangGraph)
        } else if a == "skills"@ {
            Ok(CliCommand::Skills)
        } else if a == "skill"@ {
            Ok(CliCommand::Skill)
        } else if a == "spaces"@ {
            Ok(CliCommand::Spaces)
        } else {
            Err("unknown command `"@ + a + "`. Run `crust help` for available commands."@)
        }
    }
}

/// Finds the command that the arguments name.
pub fn route_cli(args: &Vec<String>) -> (r: Result<CliCommand, String>)
    ensures
        match r {
            Ok(c) => cli_route(strs(args@)) == Ok::<CliCommand, Seq<char>>(c),
            Err(e) => cli_route(strs(args@)) == Err::<CliCommand, Seq<char>>(e@),
        },
{
    if args.len() == 0 {
        return Ok(CliCommand::Nothing);
    }
    let a = args[0].as_str();
    if str_eq(a, "help") || str_eq(a, "--help") || str_eq(a, "-h") {
        Ok(CliCommand::Help)
    } else if str_eq(a, "langgraph") {
        Ok(CliCommand::LangGraph)
    } else if str_eq(a, "skills") {
        Ok(CliCommand::Skills)
    } else if str_eq(a, "skill") {
        Ok(CliCommand::Skill)
    } else if str_eq(a, "spaces") {
        Ok(CliCommand::Spaces)
    } else {
        let mut e = "unknown command `".to_owned();
        e.append(a);
        e.append("`. Run `crust help` for available commands.");
        Err(e)
    }
}

/// A space or server id on the command line: not blank and not an option.
pub open spec fn is_plain_id(id: Seq<char>) -> bool {
    !"-"@.is_prefix_of(id) && !is_blank_spec(id)
}

fn plain_id(id: &str) -> (b: bool)
    ensures
        b == is_plain_id(id@),
{
    !starts_with(id, "-") && !is_blank(id)
}

// ---------------------------------------------------------------------------
// `crust langgraph add`
// ---------------------------------------------------------------------------

/// The options of `crust langgraph add` read so far.
pub ghost struct AddOptions {
    pub name: Option<Seq<char>>,
    pub base_url: Option<Seq<char>>,
    pub assistant_id: Option<Seq<char>>,
    pub default_graph: Option<Seq<char>>,
    pub auth_env: Option<Seq<char>>,
    pub auth_header: Option<Seq<char>>,
    pub auth_scheme: Option<Seq<char>>,
    pub timeout_secs: Option<nat>,
}

/// Reads the options of `crust langgraph add`, each a flag and its value; the URL is
/// normalized (trimmed, without trailing slashes). The first missing value, bad number or
/// unknown flag is an error.
pub open spec fn add_options(o: AddOptions, rest: Seq<Seq<char>>) -> Result<AddOptions, Seq<char>>
    decreases rest.len(),
{
    if rest.len() == 0 {
        Ok(o)
    } else if rest.len() < 2 {
        Err("missing value for `"@ + rest[0] + "`"@)
    } else {
        let flag = rest[0];
        let value = rest[1];
        let next = rest.skip(2);
        if flag == "--name"@ {
            add_options(AddOptions { name: Some(value), ..o }, next)
        } else if flag == "--url"@ {
            add_options(AddOptions { base_url: Some(trim_end_char(trim_spec(value), '/')), ..o }, next)
        } else if flag == "--assistant-id"@ {
            add_options(AddOptions { assistant_id: Some(value), ..o }, next)
        } else if flag == "--default-graph"@ {
            add_options(AddOptions { default_graph: Some(value), ..o }, next)
        } else if flag == "--auth-env"@ {
            add_options(AddOptions { auth_env: Some(value), ..o }, next)
        } else if flag == "--auth-header"@ {
            add_options(AddOptions { auth_header: Some(value), ..o }, next)
        } else if flag == "--auth-scheme"@ {
            add_options(AddOptions { auth_scheme: Some(value), ..o }, next)
        } else if flag == "--timeout-secs"@ {
            match u64_from_str(value) {
                Ok(n) => add_options(AddOptions { timeout_secs: Some(n), ..o }, next),
                Err(k) => Err(
                    "invalid --timeout-secs value `"@ + value + "`: "@ + int_error_message(k),
                ),
            }
        } else {
            Err("unknown flag `"@ + flag + "` for langgraph add"@)
        }
    }
}

/// No option read yet.
pub open spec fn no_add_options() -> AddOptions {
    AddOptions {
        name: None,
        base_url: None,
        assistant_id: None,
        default_graph: None,
        auth_env: None,
        auth_header: None,
        auth_scheme: None,
        timeout_secs: None,
    }
}

/// The server `crust langgraph add <id> <options>` registers, or why it cannot: the id must
/// be plain, the options well formed, and the URL given, starting with `http://` or
/// `https://`. The name defaults to the id.
pub open spec fn langgraph_add_spec(args: Seq<Seq<char>>) -> Result<(Seq<char>, AddOptions), Seq<char>> {
    if args.len() == 0 {
        Err("usage: crust langgraph add <id> --url <base_url>"@)
    } else if !is_plain_id(args[0]) {
        Err("LangGraph server id cannot be empty or start with `-`"@)
    } else {
        match add_options(no_add_options(), args.drop_first()) {
            Err(e) => Err(e),
            Ok(o) => match o.base_url {
                None => Err("missing required `--url <base_url>`"@),
                Some(u) => if "http://"@.is_prefix_of(u) || "https://"@.is_prefix_of(u) {
                    Ok((args[0], o))
                } else {
                    Err("LangGraph --url must start with http:// or https://"@)
                },
            },
        }
    }
}

/// Whether a server is the one that `id` and the options describe.
pub open spec fn server_from_options(s: LangGraphServer, id: Seq<char>, o: AddOptions) -> bool {
    &&& s.id@ == id
    &&& s.name@ == match o.name {
        Some(n) => n,
        None => id,
    }
    &&& Some(s.base_url@) == o.base_url
    &&& opt_view(s.assistant_id) == o.assistant_id
    &&& opt_view(s.default_graph) == o.default_graph
    &&& opt_view(s.auth_env) == o.auth_env
    &&& opt_view(s.auth_header) == o.auth_header
    &&& opt_view(s.auth_scheme) == o.auth_scheme
    &&& match s.timeout_secs {
        Some(t) => o.timeout_secs == Some(t as nat),
        None => o.timeout_secs is None,
    }
}

/// Reads the arguments of `crust langgraph add`.
pub fn parse_langgraph_add_args(args: &Vec<String>) -> (r: Result<LangGraphServer, String>)
    ensures
        match r {
            Ok(s) => langgraph_add_spec(strs(args@)) matches Ok((id, o)) && server_from_options(s, id, o),
            Err(e) => langgraph_add_spec(strs(args@)) == Err::<(Seq<char>, AddOptions), Seq<char>>(e@),
        },
{
    let ghost av = strs(args@);
    if args.len() == 0 {
        return Err("usage: crust langgraph add <id> --url <base_url>".to_owned());
    }
    let id = args[0].as_str();
    if !plain_id(id) {
        return Err("LangGraph server id cannot be empty or start with `-`".to_owned());
    }
    let mut name: Option<String> = None;
    let mut base_url: Option<String> = None;
    let mut assistant_id: Option<String> = None;
    let mut default_graph: Option<String> = None;
    let mut auth_env: Option<String> = None;
    let mut auth_header: Option<String> = None;
    let mut auth_scheme: Option<String> = None;
    let mut timeout_secs: Option<u64> = None;
    let mut i: usize = 1;
    proof {
        assert(av.skip(1) =~= av.drop_first());
    }
    while i < args.len()
        invariant
            1 <= i <= args@.len(),
            av == strs(args@),
            av.len() > 0,
            av[0] == id@,
            is_plain_id(id@),
            add_options(no_add_options(), av.drop_first()) == add_options(
                AddOptions {
                    name: opt_view(name),
                    base_url: opt_view(base_url),
                    assistant_id: opt_view(assistant_id),
                    default_graph: opt_view(default_graph),
                    auth_env: opt_view(auth_env),
                    auth_header: opt_view(auth_header),
                    auth_scheme: opt_view(auth_scheme),
                    timeout_secs: match timeout_secs {
                        Some(t) => Some(t as nat),
                        None => None,
                    },
                },
                av.skip(i as int),
            ),
        decreases args@.len() - i,
    {
        let ghost rest = av.skip(i as int);
        proof {
            assert(rest[0] == args@[i as int]@);
        }
        let flag = args[i].as_str();
        if i + 1 >= args.len() {
            let mut e = "missing value for `".to_owned();
            e.append(flag);
            e.append("`");
            return Err(e);
        }
        proof {
            assert(rest[1] == args@[i + 1]@);
            assert(rest.skip(2) =~= av.skip(i + 2));
        }
        let value = &args[i + 1];
        if str_eq(flag, "--name") {
            name = Some(value.clone());
        } else if str_eq(flag, "--url") {
            base_url = Some(crate::langgraph::normalize_base_url(value.as_str()));
        } else if str_eq(flag, "--assistant-id") {
            assistant_id = Some(value.clone());
        } else if str_eq(flag, "--default-graph") {
            default_graph = Some(value.clone());
        } else if str_eq(flag, "--auth-env") {
            auth_env = Some(value.clone());
        } else if str_eq(flag, "--auth-header") {
            auth_header = Some(value.clone());
        } else if str_eq(flag, "--auth-scheme") {
            auth_scheme = Some(value.clone());
        } else if str_eq(flag, "--timeout-secs") {
            match parse_u64(value.as_str()) {
                Ok(n) => {
                    timeout_secs = Some(n);
                },
                Err(k) => {
                    let mut e = "invalid --timeout-secs value `".to_owned();
                    e.append(value.as_str());
                    e.append("`: ");
                    e.append(int_error_text(k).as_str());
                    return Err(e);
                },
            }
        } else {
            let mut e = "unknown flag `".to_owned();
            e.append(flag);
            e.append("` for langgraph add");
            return Err(e);
        }
        i = i + 2;
    }
    proof {
        assert(av.skip(i as int) =~= Seq::<Seq<char>>::empty());
    }
    let url = match base_url {
        Some(u) => u,
        None => {
            return Err("missing required `--url <base_url>`".to_owned());
        },
    };
    if !(starts_with(url.as_str(), "http://") || starts_with(url.as_str(), "https://")) {
        return Err("LangGraph --url must start with http:// or https://".to_owned());
    }
    let server_name = match name {
        Some(n) => n,
        None => id.to_owned(),
    };
    Ok(
        LangGraphServer {
            id: id.to_owned(),
            name: server_name,
            base_url: url,
            assistant_id,
            default_graph,
            auth_env,
            auth_header,
            auth_scheme,
            timeout_secs,
        },
    )
}

// ---------------------------------------------------------------------------
// `crust spaces create` and `crust spaces spawn`
// ---------------------------------------------------------------------------

/// Reads the options of `crust spaces create`: `--cwd` and `--task`, each with a value.
pub open spec fn create_options(
    cwd: Seq<char>,
    task: Option<Seq<char>>,
    rest: Seq<Seq<char>>,
) -> Result<(Seq<char>, Option<Seq<char>>), Seq<char>>
    decreases rest.len(),
{
    if rest.len() == 0 {
        Ok((cwd, task))
    } else if rest.len() < 2 {
        Err("missing value for `"@ + rest[0] + "`"@)
    } else if rest[0] == "--cwd"@ {
        create_options(rest[1], task, rest.skip(2))
    } else if rest[0] == "--task"@ {
        create_options(cwd, Some(rest[1]), rest.skip(2))
    } else {
        Err("unknown flag `"@ + rest[0] + "` for spaces create"@)
    }
}

/// `crust spaces create <id> [--cwd <path>] [--task <task>]`: the id, the directory (by
/// default `default_cwd`) and the task.
pub open spec fn space_create_spec(args: Seq<Seq<char>>, default_cwd: Seq<char>) -> Result<
    (Seq<char>, Seq<char>, Option<Seq<char>>),
    Seq<char>,
> {
    if args.len() == 0 {
        Err("usage: crust spaces create <id> [--cwd <path>] [--task <task>]"@)
    } else if !is_plain_id(args[0]) {
        Err("space id cannot be empty or start with `-`"@)
    } else {
        match create_options(default_cwd, None, args.drop_first()) {
            Ok((cwd, task)) => Ok((args[0], cwd, task)),
            Err(e) => Err(e),
        }
    }
}

/// Reads the arguments of `crust spaces create`.
pub fn parse_space_create_args(args: &Vec<String>, default_cwd: &str) -> (r: Result<
    (String, String, Option<String>),
    String,
>)
    ensures
        match r {
            Ok((id, cwd, task)) => space_create_spec(strs(args@), default_cwd@) == Ok::<
                (Seq<char>, Seq<char>, Option<Seq<char>>),
                Seq<char>,
            >((id@, cwd@, opt_view(task))),
            Err(e) => space_create_spec(strs(args@), default_cwd@) == Err::<
                (Seq<char>, Seq<char>, Option<Seq<char>>),
                Seq<char>,
            >(e@),
        },
{
    let ghost av = strs(args@);
    if args.len() == 0 {
        return Err("usage: crust spaces create <id> [--cwd <path>] [--task <task>]".to_owned());
    }
    let id = args[0].as_str();
    if !plain_id(id) {
        return Err("space id cannot be empty or start with `-`".to_owned());
    }
    let mut cwd = default_cwd.to_owned();
    let mut task: Option<String> = None;
    let mut i: usize = 1;
    proof {
        assert(av.skip(1) =~= av.drop_first());
    }
    while i < args.len()
        invariant
            1 <= i <= args@.len(),
            av == strs(args@),
            av.len() > 0,
            av[0] == id@,
            is_plain_id(id@),
            create_options(default_cwd@, None, av.drop_first()) == create_options(
                cwd@,
                opt_view(task),
                av.skip(i as int),
            ),
        decreases args@.len() - i,
    {
        let ghost rest = av.skip(i as int);
        proof {
            assert(rest[0] == args@[i as int]@);
        }
        let flag = args[i].as_str();
        if i + 1 >= args.len() {
            let mut e = "missing value for `".to_owned();
            e.append(flag);
            e.append("`");
            return Err(e);
        }
        proof {
            assert(rest[1] == args@[i + 1]@);
            assert(rest.skip(2) =~= av.skip(i + 2));
        }
        if str_eq(flag, "--cwd") {
            cwd = args[i + 1].clone();
        } else if str_eq(flag, "--task") {
            task = Some(args[i + 1].clone());
        } else {
            let mut e = "unknown flag `".to_owned();
            e.append(flag);
            e.append("` for spaces create");
            return Err(e);
        }
        i = i + 2;
    }
    proof {
        assert(av.skip(i as int) =~= Seq::<Seq<char>>::empty());
    }
    Ok((id.to_owned(), cwd, task))
}

/// Reads the `--cwd <path>` options at the start of `rest`; the rest is the task.
pub open spec fn spawn_options(cwd: Seq<char>, rest: Seq<Seq<char>>) -> Result<(Seq<char>, Seq<Seq<char>>), Seq<char>>
    decreases rest.len(),
{
    if rest.len() > 0 && rest[0] == "--cwd"@ {
        if rest.len() < 2 {
            Err("missing value for `--cwd`"@)
        } else {
            spawn_options(rest[1], rest.skip(2))
        }
    } else {
        Ok((cwd, rest))
    }
}

/// `crust spaces spawn <id> [--cwd <path>] <task>`: the id, the directory (by default
/// `default_cwd`) and the task, which is the remaining words joined by spaces and not blank.
pub open spec fn space_spawn_spec(args: Seq<Seq<char>>, default_cwd: Seq<char>) -> Result<
    (Seq<char>, Seq<char>, Seq<char>),
    Seq<char>,
> {
    if args.len() == 0 {
        Err("usage: crust spaces spawn <id> [--cwd <path>] <task>"@)
    } else if !is_plain_id(args[0]) {
        Err("space id cannot be empty or start with `-`"@)
    } else {
        match spawn_options(default_cwd, args.drop_first()) {
            Err(e) => Err(e),
            Ok((cwd, words)) => if is_blank_spec(join(words, " "@)) {
                Err("usage: crust spaces spawn <id> [--cwd <path>] <task>"@)
            } else {
                Ok((args[0], cwd, join(words, " "@)))
            },
        }
    }
}

/// Reads the arguments of `crust spaces spawn`.
pub fn parse_space_spawn_args(args: &Vec<String>, default_cwd: &str) -> (r: Result<
    (String, String, String),
    String,
>)
    ensures
        match r {
            Ok((id, cwd, task)) => space_spawn_spec(strs(args@), default_cwd@) == Ok::<
                (Seq<char>, Seq<char>, Seq<char>),
                Seq<char>,
            >((id@, cwd@, task@)),
            Err(e) => space_spawn_spec(strs(args@), default_cwd@) == Err::<
                (Seq<char>, Seq<char>, Seq<char>),
                Seq<char>,
            >(e@),
        },
{
    let ghost av = strs(args@);
    if args.len() == 0 {
        return Err("usage: crust spaces spawn <id> [--cwd <path>] <task>".to_owned());
    }
    let id = args[0].as_str();
    if !plain_id(id) {
        return Err("space id cannot be empty or start with `-`".to_owned());
    }
    let mut cwd = default_cwd.to_owned();
    let mut i: usize = 1;
    proof {
        assert(av.skip(1) =~= av.drop_first());
    }
    while i < args.len() && str_eq(args[i].as_str(), "--cwd")
        invariant
            1 <= i <= args@.len(),
            av == strs(args@),
            av.len() > 0,
            av[0] == id@,
            is_plain_id(id@),
            spawn_options(default_cwd@, av.drop_first()) == spawn_options(cwd@, av.skip(i as int)),
        decreases args@.len() - i,
    {
        let ghost rest = av.skip(i as int);
        proof {
            assert(rest[0] == args@[i as int]@);
        }
        if i + 1 >= args.len() {
            return Err("missing value for `--cwd`".to_owned());
        }
        proof {
            assert(rest[1] == args@[i + 1]@);
            assert(rest.skip(2) =~= av.skip(i + 2));
        }
        cwd = args[i + 1].clone();
        i = i + 2;
    }
    proof {
        let rest = av.skip(i as int);
        if rest.len() > 0 {
            assert(rest[0] == args@[i as int]@);
        }
        assert(spawn_options(cwd@, rest) == Ok::<(Seq<char>, Seq<Seq<char>>), Seq<char>>((cwd@, rest)));
    }
    let task = join_strings_from(args.as_slice(), i, " ");
    if is_blank(task.as_str()) {
        return Err("usage: crust spaces spawn <id> [--cwd <path>] <task>".to_owned());
    }
    Ok((id.to_owned(), cwd, task))
}

/// A space as `crust spaces spawn` leaves it: the registered one, if any, or a new one named
/// after its id with a fresh session; either way running in `cwd` on `task` under
/// `task_id`, updated now.
pub open spec fn is_spawned_space(
    s: CrustSpace,
    existing: Option<CrustSpace>,
    id: Seq<char>,
    cwd: Seq<char>,
    task: Seq<char>,
    task_id: Seq<char>,
    session_id: Seq<char>,
    now: Seq<char>,
) -> bool {
    &&& s.cwd@ == cwd
    &&& s.status == SpaceStatus::Running
    &&& opt_view(s.task_id) == Some(task_id)
    &&& opt_view(s.task) == Some(task)
    &&& s.updated_at@ == now
    &&& match existing {
        Some(e) => s.id == e.id && s.name == e.name && s.session_id == e.session_id
            && s.process_id == e.process_id && s.created_at == e.created_at,
        None => s.id@ == id && s.name@ == id && s.session_id@ == session_id && s.process_id is None
            && s.created_at@ == now,
    }
}

/// The space `crust spaces spawn` runs the task in.
pub fn spawned_space(
    existing: Option<&CrustSpace>,
    id: &str,
    cwd: String,
    task: &str,
    task_id: String,
    session_id: String,
    now: String,
) -> (s: CrustSpace)
    ensures
        is_spawned_space(
            s,
            match existing {
                Some(e) => Some(*e),
                None => None,
            },
            id@,
            cwd@,
            task@,
            task_id@,
            session_id@,
            now@,
        ),
{
    match existing {
        Some(e) => {
            let mut s = e.duplicate();
            s.cwd = cwd;
            s.status = SpaceStatus::Running;
            s.task_id = Some(task_id);
            s.task = Some(task.to_owned());
            s.updated_at = now;
            s
        },
        None => CrustSpace {
            id: id.to_owned(),
            name: id.to_owned(),
            session_id,
            cwd,
            status: SpaceStatus::Running,
            process_id: None,
            task_id: Some(task_id),
            task: Some(task.to_owned()),
            created_at: now.clone(),
            updated_at: now,
        },
    }
}

/// A new idle space named after its id, with its own session, created now; it has a task
/// id exactly when it has a task.
pub fn new_space(
    id: &str,
    cwd: String,
    task: Option<String>,
    session_id: String,
    task_id: String,
    now: String,
) -> (s: CrustSpace)
    ensures
        s.id@ == id@,
        s.name@ == id@,
        s.session_id == session_id,
        s.cwd == cwd,
        s.status == SpaceStatus::Idle,
        s.process_id is None,
        opt_view(s.task_id) == match task {
            Some(_) => Some(task_id@),
            None => None,
        },
        s.task == task,
        s.created_at == now,
        s.updated_at == now,
{
    let tid = match &task {
        Some(_) => Some(task_id),
        None => None,
    };
    CrustSpace {
        id: id.to_owned(),
        name: id.to_owned(),
        session_id,
        cwd,
        status: SpaceStatus::Idle,
        process_id: None,
        task_id: tid,
        task,
        created_at: now.clone(),
        updated_at: now,
    }
}

/// The report of `crust spaces attach`, given where the space's inbox and outbox are.
pub open spec fn attach_report(s: CrustSpace, inbox: Seq<char>, outbox: Seq<char>) -> Seq<char> {
    "Space `"@ + s.id@ + "`: status="@ + crate::registry::space_status_name(s.status) + " cwd="@
        + s.cwd@ + " session="@ + s.session_id@ + " task="@ + crate::words::text_or(s.task, "none"@)
        + "\ninbox: "@ + inbox + "\noutbox: "@ + outbox
}

/// Describes a space for `crust spaces attach`.
pub fn format_space_attach(s: &CrustSpace, inbox: &str, outbox: &str) -> (r: String)
    ensures
        r@ == attach_report(*s, inbox@, outbox@),
{
    let mut r = "Space `".to_owned();
    r.append(s.id.as_str());
    r.append("`: status=");
    r.append(s.status.label().as_str());
    r.append(" cwd=");
    r.append(s.cwd.as_str());
    r.append(" session=");
    r.append(s.session_id.as_str());
    r.append(" task=");
    r.append(crate::words::text_or_default(&s.task, "none").as_str());
    r.append("\ninbox: ");
    r.append(inbox);
    r.append("\noutbox: ");
    r.append(outbox);
    r
}

// ---------------------------------------------------------------------------
// Sub-commands
// ---------------------------------------------------------------------------

/// The sub-commands of `crust spaces`.
#[derive(Clone, Copy, Debug, PartialEq, Eq, Structural)]
pub enum SpacesCommand {
    List,
    Create,
    Spawn,
    Attach,
    Stop,
}

/// Which `crust spaces` sub-command the arguments name: `list` when there is none.
pub open spec fn spaces_route(args: Seq<Seq<char>>) -> Result<SpacesCommand, Seq<char>> {
    if args.len() == 0 || args[0] == "list"@ {
        Ok(SpacesCommand::List)
    } else if args[0] == "create"@ {
        Ok(SpacesCommand::Create)
    } else if args[0] == "spawn"@ {
        Ok(SpacesCommand::Spawn)
    } else if args[0] == "attach"@ {
        Ok(SpacesCommand::Attach)
    } else if args[0] == "stop"@ {
        Ok(SpacesCommand::Stop)
    } else {
        Err("unknown spaces command `"@ + args[0] + "`. Use list, create, attach, or stop."@)
    }
}

/// Finds the `crust spaces` sub-command.
pub fn route_spaces_cli(args: &Vec<String>) -> (r: Result<SpacesCommand, String>)
    ensures
        match r {
            Ok(c) => spaces_route(strs(args@)) == Ok::<SpacesCommand, Seq<char>>(c),
            Err(e) => spaces_route(strs(args@)) == Err::<SpacesCommand, Seq<char>>(e@),
        },
{
    if args.len() == 0 {
        return Ok(SpacesCommand::List);
    }
    let a = args[0].as_str();
    if str_eq(a, "list") {
        Ok(SpacesCommand::List)
    } else if str_eq(a, "create") {
        Ok(SpacesCommand::Create)
    } else if str_eq(a, "spawn") {
        Ok(SpacesCommand::Spawn)
    } else if str_eq(a, "attach") {
        Ok(SpacesCommand::Attach)
    } else if str_eq(a, "stop") {
        Ok(SpacesCommand::Stop)
    } else {
        let mut e = "unknown spaces command `".to_owned();
        e.append(a);
        e.append("`. Use list, create, attach, or stop.");
        Err(e)
    }
}

/// The sub-commands of `crust langgraph`.
#[derive(Clone, Copy, Debug, PartialEq, Eq, Structural)]
pub enum LangGraphCommand {
    Add,
    List,
    Remove,
    Ping,
    Help,
}

/// Which `crust langgraph` sub-command the arguments name: the help when there is none.
pub open spec fn langgraph_route(args: Seq<Seq<char>>) -> Result<LangGraphCommand, Seq<char>> {
    if args.len() == 0 || args[0] == "help"@ || args[0] == "--help"@ || args[0] == "-h"@ {
        Ok(LangGraphCommand::Help)
    } else if args[0] == "add"@ {
        Ok(LangGraphCommand::Add)
    } else if args[0] == "list"@ {
        Ok(LangGraphCommand::List)
    } else if args[0] == "remove"@ {
        Ok(LangGraphCommand::Remove)
    } else if args[0] == "ping"@ {
        Ok(LangGraphCommand::Ping)
    } else {
        Err("unknown langgraph command `"@ + args[0] + "`. Run `crust help` for available commands."@)
    }
}

/// Finds the `crust langgraph` sub-command.
pub fn route_langgraph_cli(args: &Vec<String>) -> (r: Result<LangGraphCommand, String>)
    ensures
        match r {
            Ok(c) => langgraph_route(strs(args@)) == Ok::<LangGraphCommand, Seq<char>>(c),
            Err(e) => langgraph_route(strs(args@)) == Err::<LangGraphCommand, Seq<char>>(e@),
        },
{
    if args.len() == 0 {
        return Ok(LangGraphCommand::Help);
    }
    let a = args[0].as_str();
    if str_eq(a, "help") || str_eq(a, "--help") || str_eq(a, "-h") {
        Ok(LangGraphCommand::Help)
    } else if str_eq(a, "add") {
        Ok(LangGraphCommand::Add)
    } else if str_eq(a, "list") {
        Ok(LangGraphCommand::List)
    } else if str_eq(a, "remove") {
        Ok(LangGraphCommand::Remove)
    } else if str_eq(a, "ping") {
        Ok(LangGraphCommand::Ping)
    } else {
        let mut e = "unknown langgraph command `".to_owned();
        e.append(a);
        e.append("`. Run `crust help` for available commands.");
        Err(e)
    }
}

/// What `crust skills` asks for: the listing, or the detail of the named skill.
pub open spec fn skills_route(args: Seq<Seq<char>>) -> Result<Option<Seq<char>>, Seq<char>> {
    if args.len() == 0 || args[0] == "list"@ {
        Ok(None)
    } else if args[0] == "show"@ {
        if args.len() < 2 {
            Err("usage: crust skills show <name>"@)
        } else {
            Ok(Some(args[1]))
        }
    } else {
        Err("unknown skills command `"@ + args[0]
            + "`. Use `crust skills list` or `crust skills show <name>`."@)
    }
}

/// Reads the arguments of `crust skills`: `None` for the listing, else the skill to show.
pub fn route_skills_cli(args: &Vec<String>) -> (r: Result<Option<String>, String>)
    ensures
        match r {
            Ok(None) => skills_route(strs(args@)) == Ok::<Option<Seq<char>>, Seq<char>>(None),
            Ok(Some(n)) => skills_route(strs(args@)) == Ok::<Option<Seq<char>>, Seq<char>>(Some(n@)),
            Err(e) => skills_route(strs(args@)) == Err::<Option<Seq<char>>, Seq<char>>(e@),
        },
{
    if args.len() == 0 || str_eq(args[0].as_str(), "list") {
        return Ok(None);
    }
    if str_eq(args[0].as_str(), "show") {
        if args.len() < 2 {
            Err("usage: crust skills show <name>".to_owned())
        } else {
            Ok(Some(args[1].clone()))
        }
    } else {
        let mut e = "unknown skills command `".to_owned();
        e.append(args[0].as_str());
        e.append("`. Use `crust skills list` or `crust skills show <name>`.");
        Err(e)
    }
}

/// The first argument of a command that needs one, or the command's usage as the error.
pub fn required_arg(args: &Vec<String>, usage: &str) -> (r: Result<String, String>)
    ensures
        match r {
            Ok(a) => args@.len() > 0 && a@ == args@[0]@,
            Err(e) => args@.len() == 0 && e@ == usage@,
        },
{
    if args.len() == 0 {
        Err(usage.to_owned())
    } else {
        Ok(args[0].clone())
    }
}

/// The prompt `crust skill <name> [args]` prints: the skill rendered with the remaining
/// arguments joined by spaces; an error for a skill that users may not invoke.
pub fn skill_cli_prompt(skill: &MarkdownSkill, args: &Vec<String>) -> (r: Result<String, String>)
    requires
        args@.len() > 0,
    ensures
        match r {
            Ok(p) => skill.user_invocable && p@ == skill_prompt(skill@, join(strs(args@).skip(1), " "@)),
            Err(e) => !skill.user_invocable && e@ == "skill `"@ + skill.name@ + "` is not user-invocable"@,
        },
{
    if !skill.user_invocable {
        let mut e = "skill `".to_owned();
        e.append(skill.name.as_str());
        e.append("` is not user-invocable");
        return Err(e);
    }
    let rest = join_strings_from(args.as_slice(), 1, " ");
    Ok(render_skill_prompt(skill, rest.as_str()))
}

// ---------------------------------------------------------------------------
// Changes the commands make to the registries
// ---------------------------------------------------------------------------

/// Checks that no space answers to `id` before one is created under it.
pub fn check_space_absent(registry: &SpacesRegistry, id: &str) -> (r: Result<(), String>)
    ensures
        match r {
            Ok(()) => first_space_match(registry.spaces@, trim_spec(id@)) is None,
            Err(e) => first_space_match(registry.spaces@, trim_spec(id@)) is Some
                && e@ == "space `"@ + id@ + "` already exists"@,
        },
{
    if registry.find(id).is_some() {
        let mut e = "space `".to_owned();
        e.append(id);
        e.append("` already exists");
        Err(e)
    } else {
        Ok(())
    }
}

/// Marks the space that answers to `id` as stopped, now; an error when there is none.
pub fn stop_space(registry: &mut SpacesRegistry, id: &str, now: String) -> (r: Result<(), String>)
    ensures
        match first_space_match(old(registry).spaces@, trim_spec(id@)) {
            Some(i) => r is Ok && final(registry).spaces@ == old(registry).spaces@.update(
                i,
                CrustSpace {
                    status: SpaceStatus::Stopped,
                    updated_at: now,
                    ..old(registry).spaces@[i]
                },
            ),
            None => r matches Err(e) && e@ == "space `"@ + id@ + "` not found"@
                && final(registry).spaces@ == old(registry).spaces@,
        },
{
    match registry.find_mut(id) {
        Some(space) => {
            space.status = SpaceStatus::Stopped;
            space.updated_at = now;
            Ok(())
        },
        None => {
            let mut e = "space `".to_owned();
            e.append(id);
            e.append("` not found");
            Err(e)
        },
    }
}

/// Removes the servers that answer to `id`; an error when there is none.
pub fn remove_server(registry: &mut LangGraphRegistry, id: &str) -> (r: Result<(), String>)
    ensures
        final(registry).servers@ == servers_without(old(registry).servers@, trim_spec(id@)),
        match r {
            Ok(()) => final(registry).servers@.len() != old(registry).servers@.len(),
            Err(e) => final(registry).servers@.len() == old(registry).servers@.len()
                && e@ == "LangGraph server `"@ + id@ + "` not found"@,
        },
{
    if registry.remove(id) {
        Ok(())
    } else {
        let mut e = "LangGraph server `".to_owned();
        e.append(id);
        e.append("` not found");
        Err(e)
    }
}

} // verus!
