//! The slash commands and their completion.

use vstd::prelude::*;
use vstd::string::*;

use crate::text::{chars_of, chars_starts_with, str_eq, trim, trim_spec};
use crate::words::strs;

verus! {

/// The slash commands with their descriptions, in the order they are offered.
pub open spec fn command_table() -> Seq<(Seq<char>, Seq<char>)> {
    seq![
        ("/exit"@, "Exit the application"@),
        ("/new <session_name>"@, "Create a new session"@),
        ("/clear"@, "Clear current session history"@),
        ("/context"@, "Show context status"@),
        ("/compact"@, "Compact session history"@),
        ("/agent <name> <task>"@, "Run a scoped child agent"@),
        ("/agents"@, "List scoped agents"@),
        ("/agent-cancel <name>"@, "Cancel a scoped agent"@),
        ("/agent-result <name>"@, "Show scoped agent result"@),
        ("/skills"@, "List loaded markdown skills"@),
        ("/skill <name> [args]"@, "Invoke a markdown skill explicitly"@),
        ("/langgraph list"@, "List registered LangGraph dev servers"@),
        ("/langgraph add <id> <url>"@, "Register a LangGraph dev server"@),
        ("/langgraph run <id> <input>"@, "Run a LangGraph dev-server workflow"@),
        ("/langgraph runs"@, "List persisted LangGraph runs"@),
        ("/langgraph result <run_id>"@, "Show a LangGraph run result"@),
        ("/langgraph cancel <run_id>"@, "Cancel a LangGraph run"@),
        ("/spaces"@, "List Crust spaces"@),
        ("/space-create <id>"@, "Create a Crust space"@),
        ("/space-attach <id>"@, "Show Crust space details"@),
        ("/space-stop <id>"@, "Stop a Crust space"@),
        ("/delete <session_name>"@, "Delete a session"@),
        ("/switch <session_name>"@, "Switch to a session"@),
    ]
}

/// The contents of a list of command entries.
pub open spec fn entries_view(v: Seq<(&'static str, &'static str)>) -> Seq<(Seq<char>, Seq<char>)> {
    v.map_values(|e: (&'static str, &'static str)| (e.0@, e.1@))
}

/// The slash commands with their descriptions.
pub fn slash_commands() -> (v: Vec<(&'static str, &'static str)>)
    ensures
        entries_view(v@) == command_table(),
{
    let v = vec![
        ("/exit", "Exit the application"),
        ("/new <session_name>", "Create a new session"),
        ("/clear", "Clear current session history"),
        ("/context", "Show context status"),
        ("/compact", "Compact session history"),
        ("/agent <name> <task>", "Run a scoped child agent"),
        ("/agents", "List scoped agents"),
        ("/agent-cancel <name>", "Cancel a scoped agent"),
        ("/agent-result <name>", "Show scoped agent result"),
        ("/skills", "List loaded markdown skills"),
        ("/skill <name> [args]", "Invoke a markdown skill explicitly"),
        ("/langgraph list", "List registered LangGraph dev servers"),
        ("/langgraph add <id> <url>", "Register a LangGraph dev server"),
        ("/langgraph run <id> <input>", "Run a LangGraph dev-server workflow"),
        ("/langgraph runs", "List persisted LangGraph runs"),
        ("/langgraph result <run_id>", "Show a LangGraph run result"),
        ("/langgraph cancel <run_id>", "Cancel a LangGraph run"),
        ("/spaces", "List Crust spaces"),
        ("/space-create <id>", "Create a Crust space"),
        ("/space-attach <id>", "Show Crust space details"),
        ("/space-stop <id>", "Stop a Crust space"),
        ("/delete <session_name>", "Delete a session"),
        ("/switch <session_name>", "Switch to a session"),
    ];
    assert(entries_view(v@) =~= command_table());
    v
}

/// The Unicode lowercase form of a text, as `str::to_lowercase` gives it.
pub uninterp spec fn unicode_lower(s: Seq<char>) -> Seq<char>;

/// `str::to_lowercase` of std: each character mapped to its lowercase form according to
/// the Unicode `Lowercase` property (a character may map to several). The result is
/// determined by the text alone; the mapping itself is not stated here.
#[verifier::external_body]
fn to_lowercase(s: &str) -> (r: String)
    ensures
        r@ == unicode_lower(s@),
{
    s.to_lowercase()
}

/// The commands that complete `filter`: all of them for an empty filter or a bare `/`,
/// else those whose lowercase form starts with the lowercase, trimmed filter; in table order.
pub open spec fn filtered_commands(filter: Seq<char>) -> Seq<(Seq<char>, Seq<char>)> {
    let f = unicode_lower(trim_spec(filter));
    if f.len() == 0 || f == "/"@ {
        command_table()
    } else {
        commands_matching(command_table(), f)
    }
}

/// The entries of `table` whose lowercase command starts with `f`, in order.
pub open spec fn commands_matching(table: Seq<(Seq<char>, Seq<char>)>, f: Seq<char>) -> Seq<
    (Seq<char>, Seq<char>),
>
    decreases table.len(),
{
    if table.len() == 0 {
        seq![]
    } else if f.is_prefix_of(unicode_lower(table.last().0)) {
        commands_matching(table.drop_last(), f).push(table.last())
    } else {
        commands_matching(table.drop_last(), f)
    }
}

/// The first `n` entries of `table` whose lowered command (`lowered` lists them in the same
/// order) starts with `f`, in order.
pub open spec fn matching_lowered(
    table: Seq<(Seq<char>, Seq<char>)>,
    lowered: Seq<Seq<char>>,
    f: Seq<char>,
    n: int,
) -> Seq<(Seq<char>, Seq<char>)>
    decreases n,
{
    if n <= 0 {
        seq![]
    } else if f.is_prefix_of(lowered[n - 1]) {
        matching_lowered(table, lowered, f, n - 1).push(table[n - 1])
    } else {
        matching_lowered(table, lowered, f, n - 1)
    }
}

/// The commands a lowered filter selects, given each command's lowered form: all of them
/// for an empty filter or a bare `/`, else those whose lowered form starts with the filter.
pub open spec fn selected_commands(
    table: Seq<(Seq<char>, Seq<char>)>,
    lowered: Seq<Seq<char>>,
    f: Seq<char>,
) -> Seq<(Seq<char>, Seq<char>)> {
    if f.len() == 0 || f == "/"@ {
        table
    } else {
        matching_lowered(table, lowered, f, table.len() as int)
    }
}

/// Where each command's lowered form is its Unicode lowercase form, selecting by lowered
/// forms is selecting by lowercase commands.
proof fn lemma_matching_lowered(table: Seq<(Seq<char>, Seq<char>)>, lowered: Seq<Seq<char>>, f: Seq<char>, n: int)
    requires
        0 <= n <= table.len(),
        lowered.len() == table.len(),
        forall|i: int| 0 <= i < table.len() ==> #[trigger] lowered[i] == unicode_lower(table[i].0),
    ensures
        matching_lowered(table, lowered, f, n) == commands_matching(table.take(n), f),
    decreases n,
{
    if n > 0 {
        lemma_matching_lowered(table, lowered, f, n - 1);
        assert(table.take(n).drop_last() =~= table.take(n - 1));
        assert(table.take(n).last() == table[n - 1]);
        assert(lowered[n - 1] == unicode_lower(table[n - 1].0));
    } else {
        assert(table.take(n) =~= Seq::<(Seq<char>, Seq<char>)>::empty());
    }
}

/// Selects the commands that a lowered filter completes, given each command's lowered form
/// in the same order.
pub fn select_commands(
    filter_lower: &str,
    commands: &Vec<(&'static str, &'static str)>,
    lowered: &Vec<String>,
) -> (r: Vec<(&'static str, &'static str)>)
    requires
        lowered@.len() == commands@.len(),
    ensures
        entries_view(r@) == selected_commands(entries_view(commands@), strs(lowered@), filter_lower@),
{
    if filter_lower.unicode_len() == 0 || str_eq(filter_lower, "/") {
        let mut all: Vec<(&'static str, &'static str)> = Vec::new();
        let mut k: usize = 0;
        while k < commands.len()
            invariant
                k <= commands@.len(),
                all@ == commands@.take(k as int),
            decreases commands@.len() - k,
        {
            all.push(commands[k]);
            proof {
                assert(commands@.take(k + 1) =~= commands@.take(k as int).push(commands@[k as int]));
            }
            k = k + 1;
        }
        proof {
            assert(commands@.take(commands@.len() as int) =~= commands@);
        }
        return all;
    }
    let fv = chars_of(filter_lower);
    let ghost table = entries_view(commands@);
    let ghost lows = strs(lowered@);
    let mut out: Vec<(&'static str, &'static str)> = Vec::new();
    let mut i: usize = 0;
    while i < commands.len()
        invariant
            i <= commands@.len() == lowered@.len(),
            table == entries_view(commands@),
            lows == strs(lowered@),
            fv@ == filter_lower@,
            entries_view(out@) == matching_lowered(table, lows, fv@, i as int),
        decreases commands@.len() - i,
    {
        let entry = commands[i];
        let lv = chars_of(lowered[i].as_str());
        let ghost before = entries_view(out@);
        proof {
            assert(lows[i as int] == lowered@[i as int]@);
            assert(table[i as int] == (entry.0@, entry.1@));
        }
        if chars_starts_with(&lv, &fv) {
            out.push(entry);
            proof {
                assert(entries_view(out@) =~= before.push((entry.0@, entry.1@)));
            }
        }
        i = i + 1;
    }
    out
}

/// The slash commands that complete what the user typed so far.
pub fn get_filtered_commands(filter: &str) -> (r: Vec<(&'static str, &'static str)>)
    ensures
        entries_view(r@) == filtered_commands(filter@),
{
    let t = trim(filter);
    let f = to_lowercase(t.as_str());
    let all = slash_commands();
    let ghost table = command_table();
    let mut lowered: Vec<String> = Vec::new();
    let mut i: usize = 0;
    while i < all.len()
        invariant
            i <= all@.len(),
            entries_view(all@) == table,
            lowered@.len() == i,
            forall|k: int| 0 <= k < i ==> #[trigger] lowered@[k]@ == unicode_lower(table[k].0),
        decreases all@.len() - i,
    {
        let lower = to_lowercase(all[i].0);
        proof {
            assert(table[i as int].0 == all@[i as int].0@);
        }
        lowered.push(lower);
        i = i + 1;
    }
    let r = select_commands(f.as_str(), &all, &lowered);
    proof {
        let lows = strs(lowered@);
        assert forall|k: int| 0 <= k < table.len() implies #[trigger] lows[k] == unicode_lower(table[k].0) by {
            assert(lows[k] == lowered@[k]@);
        }
        lemma_matching_lowered(table, lows, f@, table.len() as int);
        assert(table.take(table.len() as int) =~= table);
    }
    r
}

} // verus!
