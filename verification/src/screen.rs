//! What the terminal interface draws: log entries wrapped to the width of their pane, and
//! the part of the log that is scrolled into view.

use vstd::prelude::*;
use vstd::string::*;

use crate::commands::{entries_view, filtered_commands, get_filtered_commands};
use crate::console::{EntryView, LogEntry};
use crate::events::{agent_views, scoped_status_name, AgentState, ScopedAgent, ScopedView};
use crate::cores::core_display_name;
use crate::message::opt_view;
use crate::session::CoreKind;
use crate::settings::CrustSettings;
use crate::text::{
    byte_len, chars_of, decimal, str_eq, string_of, truncate_middle, truncate_middle_spec, u64_to_decimal,
};
use crate::util::{compact_tool_call_text, compact_tool_result_text, tool_call_line, tool_result_line};
use crate::words::{join, join_strings, lines, split_lines, strs, text_or, text_or_default};
use crate::registry::{space_status_name, CrustSpace};
use crate::langgraph::LangGraphRunRecord;

verus! {

/// The colour a line is drawn in.
#[derive(Clone, Copy, Debug, PartialEq, Eq, Structural)]
pub enum LineStyle {
    Plain,
    Blue,
    Cyan,
    White,
    DarkGray,
    Yellow,
    Green,
    LightBlue,
    Red,
}

/// A line to draw.
pub struct StyledLine {
    pub style: LineStyle,
    pub text: String,
}

/// The contents of drawn lines.
pub open spec fn styled_views(v: Seq<StyledLine>) -> Seq<(LineStyle, Seq<char>)> {
    v.map_values(|l: StyledLine| (l.style, l.text@))
}

// ---------------------------------------------------------------------------
// Wrapping
// ---------------------------------------------------------------------------

/// Columns a character takes: four for a tab, one for any other.
pub open spec fn char_cols(c: char) -> nat {
    if c == '\t' {
        4
    } else {
        1
    }
}

/// The pieces of `cs` that fit in `width` columns, continuing the piece `cur` that already
/// takes `cur_w` columns; a character that fits in no piece starts one of its own.
pub open spec fn wrap_chars(cs: Seq<char>, width: nat, cur: Seq<char>, cur_w: nat) -> Seq<Seq<char>>
    decreases cs.len(),
{
    if cs.len() == 0 {
        seq![cur]
    } else {
        let w = char_cols(cs[0]);
        if cur_w > 0 && cur_w + w > width {
            seq![cur] + wrap_chars(cs.drop_first(), width, seq![cs[0]], w)
        } else {
            wrap_chars(cs.drop_first(), width, cur.push(cs[0]), cur_w + w)
        }
    }
}

/// The rows of one line of text: an empty line is one empty row.
pub open spec fn wrap_line(l: Seq<char>, width: nat) -> Seq<Seq<char>> {
    if l.len() == 0 {
        seq![seq![]]
    } else {
        wrap_chars(l, width, seq![], 0)
    }
}

/// The rows of several lines of text.
pub open spec fn wrap_all(ls: Seq<Seq<char>>, width: nat) -> Seq<Seq<char>>
    decreases ls.len(),
{
    if ls.len() == 0 {
        seq![]
    } else {
        wrap_all(ls.drop_last(), width) + wrap_line(ls.last(), width)
    }
}

fn char_cols_exec(c: char) -> (n: usize)
    ensures
        n == char_cols(c),
{
    if c == '\t' {
        4
    } else {
        1
    }
}

/// Wraps one line of text to `width` columns.
fn wrap_line_exec(l: &str, width: usize) -> (r: Vec<String>)
    requires
        1 <= width < usize::MAX - 8,
    ensures
        strs(r@) == wrap_line(l@, width as nat),
{
    let cs = chars_of(l);
    let mut out: Vec<String> = Vec::new();
    if cs.len() == 0 {
        out.push(String::new());
        assert(strs(out@) =~= seq![Seq::<char>::empty()]);
        return out;
    }
    let mut cur: Vec<char> = Vec::new();
    let mut cur_w: usize = 0;
    let mut i: usize = 0;
    proof {
        assert(cs@.skip(0) =~= cs@);
        assert(strs(out@) + wrap_chars(cs@, width as nat, seq![], 0) =~= wrap_chars(
            cs@,
            width as nat,
            seq![],
            0,
        ));
    }
    while i < cs.len()
        invariant
            i <= cs@.len(),
            cs@ == l@,
            cs@.len() > 0,
            1 <= width < usize::MAX - 8,
            cur_w <= width || cur_w <= 4,
            strs(out@) + wrap_chars(cs@.skip(i as int), width as nat, cur@, cur_w as nat)
                == wrap_chars(l@, width as nat, seq![], 0),
        decreases cs@.len() - i,
    {
        let ghost rest = cs@.skip(i as int);
        proof {
            assert(rest[0] == cs@[i as int]);
            assert(rest.drop_first() =~= cs@.skip(i + 1));
        }
        let c = cs[i];
        let w = char_cols_exec(c);
        if cur_w > 0 && cur_w + w > width {
            let piece = string_of(&cur);
            let ghost before = strs(out@);
            out.push(piece);
            proof {
                assert(strs(out@) =~= before.push(cur@));
                assert(strs(out@) + wrap_chars(cs@.skip(i + 1), width as nat, seq![c], w as nat)
                    =~= before + (seq![cur@] + wrap_chars(cs@.skip(i + 1), width as nat, seq![c], w as nat)));
            }
            cur = Vec::new();
            cur.push(c);
            assert(cur@ =~= seq![c]);
            cur_w = w;
        } else {
            cur.push(c);
            cur_w = cur_w + w;
        }
        i = i + 1;
    }
    let piece = string_of(&cur);
    let ghost before = strs(out@);
    out.push(piece);
    proof {
        assert(cs@.skip(i as int) =~= Seq::<char>::empty());
        assert(strs(out@) =~= before + seq![cur@]);
    }
    out
}

/// The rows of a text in a pane `width` columns wide (at least one): each of its lines
/// wrapped, then one empty row.
pub open spec fn wrapped_rows(text: Seq<char>, width: nat) -> Seq<Seq<char>> {
    wrap_all(lines(text), if width < 1 {
        1
    } else {
        width
    }).push(seq![])
}

/// Wraps a text to `width` columns, and ends it with an empty row.
pub fn wrap_text(text: &str, width: usize) -> (r: Vec<String>)
    requires
        width < usize::MAX - 8,
    ensures
        strs(r@) == wrapped_rows(text@, width as nat),
{
    let w: usize = if width < 1 {
        1
    } else {
        width
    };
    let ls = split_lines(text);
    let ghost lv = strs(ls@);
    let mut out: Vec<String> = Vec::new();
    let mut i: usize = 0;
    while i < ls.len()
        invariant
            i <= ls@.len(),
            lv == strs(ls@),
            lv == lines(text@),
            1 <= w < usize::MAX - 8,
            strs(out@) == wrap_all(lv.take(i as int), w as nat),
        decreases ls@.len() - i,
    {
        let rows = wrap_line_exec(ls[i].as_str(), w);
        let ghost before = strs(out@);
        let mut j: usize = 0;
        while j < rows.len()
            invariant
                j <= rows@.len(),
                strs(out@) == before + strs(rows@).take(j as int),
            decreases rows@.len() - j,
        {
            let ghost prev = strs(out@);
            out.push(rows[j].clone());
            proof {
                assert(strs(out@) =~= prev.push(rows@[j as int]@));
                assert(strs(rows@).take(j + 1) =~= strs(rows@).take(j as int).push(rows@[j as int]@));
                assert(strs(out@) =~= before + strs(rows@).take(j + 1));
            }
            j = j + 1;
        }
        proof {
            assert(strs(rows@).take(rows@.len() as int) =~= strs(rows@));
            assert(lv.take(i + 1).drop_last() =~= lv.take(i as int));
            assert(lv.take(i + 1).last() == ls@[i as int]@);
        }
        i = i + 1;
    }
    proof {
        assert(lv.take(ls@.len() as int) =~= lv);
    }
    let ghost before = strs(out@);
    out.push(String::new());
    assert(strs(out@) =~= before.push(Seq::<char>::empty()));
    out
}

// ---------------------------------------------------------------------------
// Log entries as drawn
// ---------------------------------------------------------------------------

/// `count` copies of the character `c`.
pub open spec fn repeated(c: char, count: nat) -> Seq<char> {
    Seq::new(count, |i: int| c)
}

fn repeat_char(c: char, count: usize) -> (s: String)
    ensures
        s@ == repeated(c, count as nat),
{
    let mut s = String::new();
    let mut i: usize = 0;
    while i < count
        invariant
            i <= count,
            s@ == repeated(c, i as nat),
        decreases count - i,
    {
        s.push(c);
        i = i + 1;
        assert(s@ =~= repeated(c, i as nat));
    }
    s
}

/// The text of a log entry in a pane `width` columns wide, and its colour.
pub open spec fn entry_text(e: EntryView, width: nat) -> (LineStyle, Seq<char>) {
    match e {
        EntryView::User(t) => (LineStyle::Cyan, "User: "@ + t),
        EntryView::Assistant(t) => (LineStyle::White, t),
        EntryView::AssistantFinal(t) => (
            LineStyle::White,
            repeated('▶', 20) + " FINAL RESPONSE "@ + repeated('◀', 20) + "\n"@ + t + "\n"@
                + repeated('─', if width < 80 {
                width
            } else {
                80
            }),
        ),
        EntryView::Thinking { kind, text } => (
            LineStyle::DarkGray,
            "Thinking block ["@ + kind + "]:\n"@ + text,
        ),
        EntryView::ToolCall { name, args } => (LineStyle::Yellow, tool_call_line(name, args)),
        EntryView::ToolResult { name, result } => (LineStyle::Green, tool_result_line(name, result)),
        EntryView::System(t) => (LineStyle::LightBlue, t),
        EntryView::Error(t) => (LineStyle::Red, t),
    }
}

fn entry_text_exec(e: &LogEntry, width: usize) -> (r: (LineStyle, String))
    ensures
        (r.0, r.1@) == entry_text(e@, width as nat),
{
    match e {
        LogEntry::User(t) => {
            let mut s = "User: ".to_owned();
            s.append(t.as_str());
            (LineStyle::Cyan, s)
        },
        LogEntry::Assistant(t) => (LineStyle::White, t.clone()),
        LogEntry::AssistantFinal(t) => {
            let mut s = repeat_char('▶', 20);
            s.append(" FINAL RESPONSE ");
            s.append(repeat_char('◀', 20).as_str());
            s.append("\n");
            s.append(t.as_str());
            s.append("\n");
            let n: usize = if width < 80 {
                width
            } else {
                80
            };
            s.append(repeat_char('─', n).as_str());
            (LineStyle::White, s)
        },
        LogEntry::Thinking { kind, text } => {
            let mut s = "Thinking block [".to_owned();
            s.append(kind.as_str());
            s.append("]:\n");
            s.append(text.as_str());
            (LineStyle::DarkGray, s)
        },
        LogEntry::ToolCall { name, args } => (
            LineStyle::Yellow,
            compact_tool_call_text(name.as_str(), args.as_str()),
        ),
        LogEntry::ToolResult { name, result } => (
            LineStyle::Green,
            compact_tool_result_text(name.as_str(), result.as_str()),
        ),
        LogEntry::System(t) => (LineStyle::LightBlue, t.clone()),
        LogEntry::Error(t) => (LineStyle::Red, t.clone()),
    }
}

/// The lines a log entry is drawn as: the rows of its text in its colour, then an empty
/// plain row.
pub open spec fn entry_lines(e: EntryView, width: nat) -> Seq<(LineStyle, Seq<char>)> {
    let (style, text) = entry_text(e, width);
    let rows = wrapped_rows(text, width);
    rows.drop_last().map_values(|r: Seq<char>| (style, r)).push((LineStyle::Plain, seq![]))
}

/// Draws a log entry in a pane `width` columns wide.
pub fn log_entry_to_wrapped_lines(entry: &LogEntry, width: usize) -> (r: Vec<StyledLine>)
    requires
        width < usize::MAX - 8,
    ensures
        styled_views(r@) == entry_lines(entry@, width as nat),
{
    let (style, text) = entry_text_exec(entry, width);
    let rows = wrap_text(text.as_str(), width);
    let ghost rv = strs(rows@);
    assert(rv.len() >= 1);
    let n = rows.len() - 1;
    let mut out: Vec<StyledLine> = Vec::new();
    let mut i: usize = 0;
    while i < n
        invariant
            i <= n,
            n + 1 == rows@.len(),
            rv == strs(rows@),
            styled_views(out@) == rv.drop_last().take(i as int).map_values(
                |r: Seq<char>| (style, r),
            ),
        decreases n - i,
    {
        let line = StyledLine { style, text: rows[i].clone() };
        let ghost before = styled_views(out@);
        out.push(line);
        proof {
            assert(styled_views(out@) =~= before.push((style, rows@[i as int]@)));
            assert(rv.drop_last().take(i + 1).map_values(|r: Seq<char>| (style, r)) =~= rv.drop_last().take(
                i as int,
            ).map_values(|r: Seq<char>| (style, r)).push((style, rv[i as int])));
        }
        i = i + 1;
    }
    proof {
        assert(rv.drop_last().take(n as int) =~= rv.drop_last());
    }
    let ghost before = styled_views(out@);
    out.push(StyledLine { style: LineStyle::Plain, text: String::new() });
    proof {
        assert(styled_views(out@) =~= before.push((LineStyle::Plain, Seq::<char>::empty())));
    }
    out
}

// ---------------------------------------------------------------------------
// Scrolling
// ---------------------------------------------------------------------------

/// The furthest the log can scroll, and where it is scrolled to: to the end when following,
/// else where it was, but not past the end.
pub open spec fn scroll_position(rendered: nat, view_height: nat, follow: bool, scroll: nat) -> (nat, nat) {
    let max = if rendered > view_height {
        (rendered - view_height) as nat
    } else {
        0
    };
    (
        if follow {
            max
        } else if scroll < max {
            scroll
        } else {
            max
        },
        max,
    )
}

/// Where the log is scrolled to, and the furthest it can scroll.
pub fn scroll_window(rendered: usize, view_height: usize, follow: bool, scroll: usize) -> (r: (usize, usize))
    ensures
        (r.0 as nat, r.1 as nat) == scroll_position(rendered as nat, view_height as nat, follow, scroll as nat),
{
    let max = if rendered > view_height {
        rendered - view_height
    } else {
        0
    };
    let s = if follow {
        max
    } else if scroll < max {
        scroll
    } else {
        max
    };
    (s, max)
}

// ---------------------------------------------------------------------------
// The sidebar and the panes beside the log
// ---------------------------------------------------------------------------

/// A line of a list with a selection: `> ` before the selected line, two spaces before the
/// others.
pub open spec fn marked(text: Seq<char>, i: int, selected: int) -> Seq<char> {
    (if i == selected {
        "> "@
    } else {
        "  "@
    }) + text
}

/// The sidebar of slash commands that complete `input`, with the `selected` one marked.
pub open spec fn commands_sidebar(input: Seq<char>, selected: nat) -> Seq<char> {
    let entries = filtered_commands(input);
    if entries.len() == 0 {
        "No matching commands"@
    } else {
        join(Seq::new(entries.len(), |i: int| marked(entries[i].0, i, selected as int)), "\n"@)
    }
}

/// Draws the sidebar of slash commands.
pub fn commands_sidebar_text(input: &str, selected: usize) -> (s: String)
    ensures
        s@ == commands_sidebar(input@, selected as nat),
{
    let entries = get_filtered_commands(input);
    let ghost ev = entries_view(entries@);
    if entries.len() == 0 {
        return "No matching commands".to_owned();
    }
    let ghost wanted = Seq::new(ev.len(), |i: int| marked(ev[i].0, i, selected as int));
    let mut lines: Vec<String> = Vec::new();
    let mut i: usize = 0;
    while i < entries.len()
        invariant
            i <= entries@.len(),
            ev == entries_view(entries@),
            wanted == Seq::new(ev.len(), |i: int| marked(ev[i].0, i, selected as int)),
            strs(lines@) == wanted.take(i as int),
        decreases entries@.len() - i,
    {
        let mut line = if i == selected {
            "> ".to_owned()
        } else {
            "  ".to_owned()
        };
        line.append(entries[i].0);
        let ghost before = strs(lines@);
        lines.push(line);
        proof {
            assert(strs(lines@) =~= before.push(line@));
            assert(wanted.take(i + 1) =~= wanted.take(i as int).push(wanted[i as int]));
        }
        i = i + 1;
    }
    proof {
        assert(wanted.take(entries@.len() as int) =~= wanted);
    }
    join_strings(lines.as_slice(), "\n")
}

/// The sidebar of sessions: each name, the current one followed by ` ●`.
pub open spec fn sessions_sidebar(names: Seq<Seq<char>>, current: Seq<char>) -> Seq<char> {
    if names.len() == 0 {
        "No sessions"@
    } else {
        join(
            Seq::new(
                names.len(),
                |i: int|
                    names[i] + if names[i] == current {
                        " ●"@
                    } else {
                        ""@
                    },
            ),
            "\n"@,
        )
    }
}

/// Draws the sidebar of sessions.
pub fn sessions_sidebar_text(names: &Vec<String>, current: &str) -> (s: String)
    ensures
        s@ == sessions_sidebar(strs(names@), current@),
{
    let ghost nv = strs(names@);
    if names.len() == 0 {
        return "No sessions".to_owned();
    }
    let ghost wanted = Seq::new(
        nv.len(),
        |i: int|
            nv[i] + if nv[i] == current@ {
                " ●"@
            } else {
                ""@
            },
    );
    let mut lines: Vec<String> = Vec::new();
    let mut i: usize = 0;
    while i < names.len()
        invariant
            i <= names@.len(),
            nv == strs(names@),
            wanted == Seq::new(
                nv.len(),
                |i: int|
                    nv[i] + if nv[i] == current@ {
                        " ●"@
                    } else {
                        ""@
                    },
            ),
            strs(lines@) == wanted.take(i as int),
        decreases names@.len() - i,
    {
        let mut line = names[i].clone();
        if str_eq(names[i].as_str(), current) {
            line.append(" ●");
        } else {
            proof {
                reveal_strlit("");
            }
            line.append("");
        }
        let ghost before = strs(lines@);
        lines.push(line);
        proof {
            assert(strs(lines@) =~= before.push(line@));
            assert(wanted.take(i + 1) =~= wanted.take(i as int).push(wanted[i as int]));
        }
        i = i + 1;
    }
    proof {
        assert(wanted.take(names@.len() as int) =~= wanted);
    }
    join_strings(lines.as_slice(), "\n")
}

/// The colour of the log's border in each state of the agent.
pub open spec fn state_colour(s: AgentState) -> LineStyle {
    match s {
        AgentState::Thinking | AgentState::Tool => LineStyle::Yellow,
        AgentState::Done => LineStyle::Green,
        AgentState::Error => LineStyle::Red,
        AgentState::Idle => LineStyle::Blue,
    }
}

/// The colour of the log's border.
pub fn event_border_colour(s: AgentState) -> (c: LineStyle)
    ensures
        c == state_colour(s),
{
    match s {
        AgentState::Thinking | AgentState::Tool => LineStyle::Yellow,
        AgentState::Done => LineStyle::Green,
        AgentState::Error => LineStyle::Red,
        AgentState::Idle => LineStyle::Blue,
    }
}

/// The line of a scoped agent in its pane: its status, its steps and its latest event
/// (cut to 120 bytes).
pub open spec fn agent_pane_line(a: ScopedView) -> Seq<char> {
    a.name + " ["@ + scoped_status_name(a.status) + "] "@ + decimal(a.current_step as nat) + "/"@
        + decimal(a.max_steps as nat) + " - "@ + truncate_middle_spec(
        if a.events.len() > 0 {
            a.events.last()
        } else {
            "no events"@
        },
        120,
    )
}

/// The pane of scoped agents: the last four started, latest first.
pub open spec fn agents_pane(agents: Seq<ScopedView>) -> Seq<char> {
    let n = if agents.len() < 4 {
        agents.len()
    } else {
        4
    };
    join(Seq::new(n, |i: int| agent_pane_line(agents[agents.len() - 1 - i])), "\n"@)
}

/// Draws the pane of scoped agents.
pub fn scoped_agents_pane_text(agents: &Vec<ScopedAgent>) -> (s: String)
    ensures
        s@ == agents_pane(agent_views(agents@)),
{
    let ghost av = agent_views(agents@);
    let n: usize = if agents.len() < 4 {
        agents.len()
    } else {
        4
    };
    let ghost wanted = Seq::new(n as nat, |i: int| agent_pane_line(av[av.len() - 1 - i]));
    let mut lines: Vec<String> = Vec::new();
    let mut i: usize = 0;
    while i < n
        invariant
            i <= n <= agents@.len(),
            av == agent_views(agents@),
            wanted == Seq::new(n as nat, |i: int| agent_pane_line(av[av.len() - 1 - i])),
            strs(lines@) == wanted.take(i as int),
        decreases n - i,
    {
        let a = &agents[agents.len() - 1 - i];
        let latest = if a.events.len() > 0 {
            a.events[a.events.len() - 1].clone()
        } else {
            "no events".to_owned()
        };
        let mut line = a.name.clone();
        line.append(" [");
        line.append(a.status.label().as_str());
        line.append("] ");
        line.append(u64_to_decimal(a.current_step as u64).as_str());
        line.append("/");
        line.append(u64_to_decimal(a.max_steps as u64).as_str());
        line.append(" - ");
        line.append(truncate_middle(latest.as_str(), 120).as_str());
        let ghost before = strs(lines@);
        lines.push(line);
        proof {
            let k = av.len() - 1 - i;
            assert(av[k] == a@);
            if a.events@.len() > 0 {
                assert(a@.events.last() == a.events@[a.events@.len() - 1]@);
            }
            assert(strs(lines@) =~= before.push(line@));
            assert(wanted.take(i + 1) =~= wanted.take(i as int).push(wanted[i as int]));
        }
        i = i + 1;
    }
    proof {
        assert(wanted.take(n as int) =~= wanted);
    }
    join_strings(lines.as_slice(), "\n")
}

// ---------------------------------------------------------------------------
// The settings overlay
// ---------------------------------------------------------------------------

/// `a - b`, or zero where `b` is larger.
pub open spec fn sat_sub(a: nat, b: nat) -> nat {
    if a >= b {
        (a - b) as nat
    } else {
        0
    }
}

/// The smaller of two numbers.
pub open spec fn min_nat(a: nat, b: nat) -> nat {
    if a <= b {
        a
    } else {
        b
    }
}

/// Where the settings overlay is drawn (left, top, width, height) in the area at
/// (`x`, `y`) of `width` by `height` cells: at most 52 by 9 cells, four columns and two
/// rows narrower than the area, centred; nothing where that leaves fewer than 20 columns
/// or 5 rows.
pub open spec fn overlay_area(x: nat, y: nat, width: nat, height: nat) -> Option<(nat, nat, nat, nat)> {
    let w = min_nat(52, sat_sub(width, 4));
    let h = min_nat(9, sat_sub(height, 2));
    if w < 20 || h < 5 {
        None
    } else {
        Some((x + sat_sub(width, w) / 2, y + sat_sub(height, h) / 2, w, h))
    }
}

/// The cells of the settings overlay in an area of the screen.
pub fn settings_overlay_area(x: u16, y: u16, width: u16, height: u16) -> (r: Option<(u16, u16, u16, u16)>)
    requires
        x + width <= u16::MAX,
        y + height <= u16::MAX,
    ensures
        r matches Some((a, b, c, d)) ==> overlay_area(x as nat, y as nat, width as nat, height as nat)
            == Some((a as nat, b as nat, c as nat, d as nat)),
        r is None <==> overlay_area(x as nat, y as nat, width as nat, height as nat) is None,
{
    let w: u16 = if width >= 4 { width - 4 } else { 0 };
    let w: u16 = if 52 <= w { 52 } else { w };
    let h: u16 = if height >= 2 { height - 2 } else { 0 };
    let h: u16 = if 9 <= h { 9 } else { h };
    if w < 20 || h < 5 {
        return None;
    }
    let left: u16 = x + (width - w) / 2;
    let top: u16 = y + (height - h) / 2;
    Some((left, top, w, h))
}

/// The name under which a core is shown.
pub fn core_name(kind: CoreKind) -> (s: &'static str)
    ensures
        s@ == core_display_name(kind),
{
    match kind {
        CoreKind::General => "General",
        CoreKind::Learning => "Learning",
        CoreKind::PairProgramming => "Pair Programming",
    }
}

/// What the field being edited shows: the text typed so far and a cursor, or `(none)`.
pub open spec fn edited_value(buffer: Seq<char>) -> Seq<char> {
    if buffer.len() == 0 {
        "(none)"@
    } else {
        buffer + seq!['\u{2588}']
    }
}

/// The value a settings field shows.
pub open spec fn settings_value(
    field: nat,
    selected: bool,
    core: CoreKind,
    model: Option<Seq<char>>,
    steps: Option<u32>,
    buffer: Seq<char>,
) -> Seq<char> {
    if field == 0 {
        core_display_name(core)
    } else if selected {
        edited_value(buffer)
    } else if field == 1 {
        match model {
            Some(m) => m,
            None => "(none)"@,
        }
    } else {
        match steps {
            Some(n) => decimal(n as nat),
            None => "(none)"@,
        }
    }
}

/// The label of each settings field.
pub open spec fn settings_label(field: nat) -> Seq<char> {
    if field == 0 {
        "Default Core"@
    } else if field == 1 {
        "Default Model"@
    } else {
        "Max Agent Steps"@
    }
}

/// A line of the settings overlay: the selected field in yellow behind ` > `, the others
/// in white.
pub open spec fn settings_line(
    field: nat,
    selected_field: nat,
    core: CoreKind,
    model: Option<Seq<char>>,
    steps: Option<u32>,
    buffer: Seq<char>,
) -> (LineStyle, Seq<char>) {
    let selected = field == selected_field;
    (
        if selected { LineStyle::Yellow } else { LineStyle::White },
        (if selected { " > "@ } else { "   "@ }) + settings_label(field) + ": "@
            + settings_value(field, selected, core, model, steps, buffer),
    )
}

/// The three lines of the settings overlay.
pub fn settings_overlay_lines(settings: &CrustSettings, selected_field: usize, input_buffer: &str) -> (r: Vec<StyledLine>)
    ensures
        styled_views(r@) == Seq::new(
            3,
            |i: int|
                settings_line(
                    i as nat,
                    selected_field as nat,
                    settings.default_core,
                    opt_view(settings.default_model),
                    settings.max_agent_steps,
                    input_buffer@,
                ),
        ),
{
    let ghost model = opt_view(settings.default_model);
    let mut r: Vec<StyledLine> = Vec::new();
    let mut i: usize = 0;
    while i < 3
        invariant
            i <= 3,
            model == opt_view(settings.default_model),
            styled_views(r@) == Seq::new(
                i as nat,
                |j: int|
                    settings_line(
                        j as nat,
                        selected_field as nat,
                        settings.default_core,
                        model,
                        settings.max_agent_steps,
                        input_buffer@,
                    ),
            ),
        decreases 3 - i,
    {
        let selected = i == selected_field;
        let mut text = if selected { " > ".to_owned() } else { "   ".to_owned() };
        let label = if i == 0 {
            "Default Core"
        } else if i == 1 {
            "Default Model"
        } else {
            "Max Agent Steps"
        };
        text.append(label);
        text.append(": ");
        let value: String = if i == 0 {
            core_name(settings.default_core).to_owned()
        } else if selected {
            if byte_len(input_buffer) == 0 {
                "(none)".to_owned()
            } else {
                let mut v = input_buffer.to_owned();
                v.push('\u{2588}');
                v
            }
        } else if i == 1 {
            match &settings.default_model {
                Some(m) => m.clone(),
                None => "(none)".to_owned(),
            }
        } else {
            match settings.max_agent_steps {
                Some(n) => u64_to_decimal(n as u64),
                None => "(none)".to_owned(),
            }
        };
        let style = if selected { LineStyle::Yellow } else { LineStyle::White };
        proof {
            reveal_strlit(" > ");
            reveal_strlit("   ");
            reveal_strlit("Default Core");
            reveal_strlit("Default Model");
            reveal_strlit("Max Agent Steps");
            reveal_strlit(": ");
            reveal_strlit("(none)");
            reveal_strlit("General");
            reveal_strlit("Learning");
            reveal_strlit("Pair Programming");
            assert(value@ == settings_value(
                i as nat,
                selected,
                settings.default_core,
                model,
                settings.max_agent_steps,
                input_buffer@,
            ));
        }
        text.append(value.as_str());
        assert(text@ == settings_line(
            i as nat,
            selected_field as nat,
            settings.default_core,
            model,
            settings.max_agent_steps,
            input_buffer@,
        ).1);
        let ghost prev = styled_views(r@);
        let ghost line = (style, text@);
        r.push(StyledLine { style, text });
        assert(styled_views(r@) =~= prev.push(line));
        i = i + 1;
        assert(styled_views(r@) =~= Seq::new(
            i as nat,
            |j: int|
                settings_line(
                    j as nat,
                    selected_field as nat,
                    settings.default_core,
                    model,
                    settings.max_agent_steps,
                    input_buffer@,
                ),
        ));
    }
    r
}

// ---------------------------------------------------------------------------
// The pane of runs and spaces
// ---------------------------------------------------------------------------

/// The line of a space: its id, its status and its task (or `idle`) cut to 36 bytes.
pub open spec fn space_pane_line(s: CrustSpace) -> Seq<char> {
    "  "@ + s.id@ + " ["@ + space_status_name(s.status) + "] "@ + truncate_middle_spec(
        text_or(s.task, "idle"@),
        36,
    )
}

/// The line of a LangGraph run: its id cut to 8 bytes, its status and its input cut to 32.
pub open spec fn run_pane_line(r: LangGraphRunRecord) -> Seq<char> {
    "  "@ + truncate_middle_spec(r.id@, 8) + " ["@ + r.status@ + "] "@ + truncate_middle_spec(
        r.input@,
        32,
    )
}

/// The line of a scoped agent: its name, its status and its steps.
pub open spec fn agent_steps_line(a: ScopedView) -> Seq<char> {
    "  "@ + a.name + " ["@ + scoped_status_name(a.status) + "] "@ + decimal(a.current_step as nat)
        + "/"@ + decimal(a.max_steps as nat)
}

/// The smaller of `n` and a length.
pub open spec fn at_most(n: nat, len: nat) -> nat {
    if len < n {
        len
    } else {
        n
    }
}

/// The spaces section: the first six spaces, `none` when there are none, `unavailable`
/// when the registry could not be read.
pub open spec fn spaces_section(spaces: Option<Seq<CrustSpace>>) -> Seq<Seq<char>> {
    match spaces {
        None => seq!["  unavailable"@],
        Some(s) => if s.len() == 0 {
            seq!["  none"@]
        } else {
            Seq::new(at_most(6, s.len()), |i: int| space_pane_line(s[i]))
        },
    }
}

/// The LangGraph section: the first four runs, `no runs` when there are none,
/// `unavailable` when they could not be read.
pub open spec fn runs_section(runs: Option<Seq<LangGraphRunRecord>>) -> Seq<Seq<char>> {
    match runs {
        None => seq!["  unavailable"@],
        Some(r) => if r.len() == 0 {
            seq!["  no runs"@]
        } else {
            Seq::new(at_most(4, r.len()), |i: int| run_pane_line(r[i]))
        },
    }
}

/// The scoped agents section: the last four started, latest first, or `none`.
pub open spec fn agents_section(agents: Seq<ScopedView>) -> Seq<Seq<char>> {
    if agents.len() == 0 {
        seq!["  none"@]
    } else {
        Seq::new(at_most(4, agents.len()), |i: int| agent_steps_line(agents[agents.len() - 1 - i]))
    }
}

/// The pane beside the log: the core, then the spaces, the LangGraph runs and the scoped
/// agents, each under its heading and after an empty line.
pub open spec fn runs_pane(
    core: CoreKind,
    spaces: Option<Seq<CrustSpace>>,
    runs: Option<Seq<LangGraphRunRecord>>,
    agents: Seq<ScopedView>,
) -> Seq<char> {
    join(
        seq![core_display_name(core), ""@, "Spaces"@] + spaces_section(spaces) + seq![
            ""@,
            "LangGraph"@,
        ] + runs_section(runs) + seq![""@, "Scoped Agents"@] + agents_section(agents),
        "\n"@,
    )
}

/// Adds a line to a list of lines.
fn push_line(lines: &mut Vec<String>, line: String)
    ensures
        strs(final(lines)@) == strs(old(lines)@).push(line@),
{
    lines.push(line);
    assert(strs(lines@) =~= strs(old(lines)@).push(line@));
}

/// The lines of the spaces section.
fn spaces_section_lines(spaces: Option<&Vec<CrustSpace>>) -> (r: Vec<String>)
    ensures
        strs(r@) == spaces_section(
            match spaces {
                Some(v) => Some(v@),
                None => None,
            },
        ),
{
    let mut lines: Vec<String> = Vec::new();
    match spaces {
        None => {
            push_line(&mut lines, "  unavailable".to_owned());
        },
        Some(v) => {
            if v.len() == 0 {
                push_line(&mut lines, "  none".to_owned());
            } else {
                let n: usize = if v.len() < 6 {
                    v.len()
                } else {
                    6
                };
                let ghost wanted = Seq::new(n as nat, |i: int| space_pane_line(v@[i]));
                let mut i: usize = 0;
                while i < n
                    invariant
                        i <= n <= v@.len(),
                        wanted == Seq::new(n as nat, |i: int| space_pane_line(v@[i])),
                        strs(lines@) == wanted.take(i as int),
                    decreases n - i,
                {
                    let s = &v[i];
                    let mut line = "  ".to_owned();
                    line.append(s.id.as_str());
                    line.append(" [");
                    line.append(s.status.label().as_str());
                    line.append("] ");
                    line.append(truncate_middle(text_or_default(&s.task, "idle").as_str(), 36).as_str());
                    push_line(&mut lines, line);
                    proof {
                        assert(wanted.take(i + 1) =~= wanted.take(i as int).push(wanted[i as int]));
                    }
                    i = i + 1;
                }
                proof {
                    assert(wanted.take(n as int) =~= wanted);
                }
            }
        },
    }
    lines
}

/// The lines of the LangGraph section.
fn runs_section_lines(runs: Option<&Vec<LangGraphRunRecord>>) -> (r: Vec<String>)
    ensures
        strs(r@) == runs_section(
            match runs {
                Some(v) => Some(v@),
                None => None,
            },
        ),
{
    let mut lines: Vec<String> = Vec::new();
    match runs {
        None => {
            push_line(&mut lines, "  unavailable".to_owned());
        },
        Some(v) => {
            if v.len() == 0 {
                push_line(&mut lines, "  no runs".to_owned());
            } else {
                let n: usize = if v.len() < 4 {
                    v.len()
                } else {
                    4
                };
                let ghost wanted = Seq::new(n as nat, |i: int| run_pane_line(v@[i]));
                let mut i: usize = 0;
                while i < n
                    invariant
                        i <= n <= v@.len(),
                        wanted == Seq::new(n as nat, |i: int| run_pane_line(v@[i])),
                        strs(lines@) == wanted.take(i as int),
                    decreases n - i,
                {
                    let r = &v[i];
                    let mut line = "  ".to_owned();
                    line.append(truncate_middle(r.id.as_str(), 8).as_str());
                    line.append(" [");
                    line.append(r.status.as_str());
                    line.append("] ");
                    line.append(truncate_middle(r.input.as_str(), 32).as_str());
                    push_line(&mut lines, line);
                    proof {
                        assert(wanted.take(i + 1) =~= wanted.take(i as int).push(wanted[i as int]));
                    }
                    i = i + 1;
                }
                proof {
                    assert(wanted.take(n as int) =~= wanted);
                }
            }
        },
    }
    lines
}

/// The lines of the scoped agents section.
fn agents_section_lines(agents: &Vec<ScopedAgent>) -> (r: Vec<String>)
    ensures
        strs(r@) == agents_section(agent_views(agents@)),
{
    let ghost av = agent_views(agents@);
    let mut lines: Vec<String> = Vec::new();
    if agents.len() == 0 {
        push_line(&mut lines, "  none".to_owned());
        return lines;
    }
    let n: usize = if agents.len() < 4 {
        agents.len()
    } else {
        4
    };
    let ghost wanted = Seq::new(n as nat, |i: int| agent_steps_line(av[av.len() - 1 - i]));
    let mut i: usize = 0;
    while i < n
        invariant
            i <= n <= agents@.len(),
            av == agent_views(agents@),
            wanted == Seq::new(n as nat, |i: int| agent_steps_line(av[av.len() - 1 - i])),
            strs(lines@) == wanted.take(i as int),
        decreases n - i,
    {
        let a = &agents[agents.len() - 1 - i];
        let mut line = "  ".to_owned();
        line.append(a.name.as_str());
        line.append(" [");
        line.append(a.status.label().as_str());
        line.append("] ");
        line.append(u64_to_decimal(a.current_step as u64).as_str());
        line.append("/");
        line.append(u64_to_decimal(a.max_steps as u64).as_str());
        push_line(&mut lines, line);
        proof {
            assert(av[av.len() - 1 - i] == a@);
            assert(wanted.take(i + 1) =~= wanted.take(i as int).push(wanted[i as int]));
        }
        i = i + 1;
    }
    proof {
        assert(wanted.take(n as int) =~= wanted);
    }
    lines
}

/// Adds the lines `more` after `lines`.
fn push_lines(lines: &mut Vec<String>, more: Vec<String>)
    ensures
        strs(final(lines)@) == strs(old(lines)@) + strs(more@),
{
    let ghost start = strs(lines@);
    let mut i: usize = 0;
    while i < more.len()
        invariant
            i <= more@.len(),
            strs(lines@) == start + strs(more@).take(i as int),
        decreases more@.len() - i,
    {
        push_line(lines, more[i].clone());
        proof {
            assert(strs(more@).take(i + 1) =~= strs(more@).take(i as int).push(more@[i as int]@));
        }
        i = i + 1;
    }
    proof {
        assert(strs(more@).take(more@.len() as int) =~= strs(more@));
    }
}

/// Draws the pane beside the log. `spaces` and `runs` are `None` where they could not be
/// read.
pub fn runs_pane_text(
    core: CoreKind,
    spaces: Option<&Vec<CrustSpace>>,
    runs: Option<&Vec<LangGraphRunRecord>>,
    agents: &Vec<ScopedAgent>,
) -> (s: String)
    ensures
        s@ == runs_pane(
            core,
            match spaces {
                Some(v) => Some(v@),
                None => None,
            },
            match runs {
                Some(v) => Some(v@),
                None => None,
            },
            agent_views(agents@),
        ),
{
    let mut lines: Vec<String> = Vec::new();
    push_line(&mut lines, core_name(core).to_owned());
    push_line(&mut lines, "".to_owned());
    push_line(&mut lines, "Spaces".to_owned());
    push_lines(&mut lines, spaces_section_lines(spaces));
    push_line(&mut lines, "".to_owned());
    push_line(&mut lines, "LangGraph".to_owned());
    push_lines(&mut lines, runs_section_lines(runs));
    push_line(&mut lines, "".to_owned());
    push_line(&mut lines, "Scoped Agents".to_owned());
    push_lines(&mut lines, agents_section_lines(agents));
    proof {
        let sp = match spaces {
            Some(v) => Some(v@),
            None => None,
        };
        let rn = match runs {
            Some(v) => Some(v@),
            None => None,
        };
        assert(strs(lines@) =~= seq![core_display_name(core), ""@, "Spaces"@] + spaces_section(sp)
            + seq![""@, "LangGraph"@] + runs_section(rn) + seq![""@, "Scoped Agents"@]
            + agents_section(agent_views(agents@)));
    }
    join_strings(lines.as_slice(), "\n")
}

} // verus!
