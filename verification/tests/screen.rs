use crust::console::LogEntry;
use crust::events::{AgentState, ScopedAgent, ScopedAgentStatus};
use crust::screen::{
    commands_sidebar_text, core_name, event_border_colour, log_entry_to_wrapped_lines,
    runs_pane_text, scoped_agents_pane_text, scroll_window, sessions_sidebar_text, settings_overlay_area,
    settings_overlay_lines, wrap_text, LineStyle,
};
use crust::langgraph::LangGraphRunRecord;
use crust::registry::{CrustSpace, SpaceStatus};
use crust::session::CoreKind;
use crust::text::truncate_middle;
use crust::settings::CrustSettings;

#[test]
fn wrap_text_splits_long_lines() {
    assert_eq!(wrap_text("abcdefg", 3), vec!["abc", "def", "g", ""]);
    assert_eq!(wrap_text("ab\n\ncd", 5), vec!["ab", "", "cd", ""]);
    assert_eq!(wrap_text("", 5), vec![""]);
}

#[test]
fn wrap_text_counts_tabs_as_four_columns() {
    assert_eq!(wrap_text("a\tb", 4), vec!["a", "\t", "b", ""]);
    assert_eq!(wrap_text("\t\t", 2), vec!["\t", "\t", ""]);
}

#[test]
fn wrap_text_zero_width_is_one_column() {
    assert_eq!(wrap_text("xy", 0), vec!["x", "y", ""]);
}

#[test]
fn entries_are_drawn_in_colour() {
    let lines = log_entry_to_wrapped_lines(&LogEntry::User("hello".to_string()), 20);
    assert_eq!(lines.len(), 2);
    assert_eq!(lines[0].style, LineStyle::Cyan);
    assert_eq!(lines[0].text, "User: hello");
    assert_eq!(lines[1].style, LineStyle::Plain);
    assert_eq!(lines[1].text, "");
    let err = log_entry_to_wrapped_lines(&LogEntry::Error("bad thing".to_string()), 4);
    let texts: Vec<&str> = err.iter().map(|l| l.text.as_str()).collect();
    assert_eq!(texts, vec!["bad ", "thin", "g", ""]);
    assert!(err[..3].iter().all(|l| l.style == LineStyle::Red));
}

#[test]
fn final_answer_is_framed() {
    let lines = log_entry_to_wrapped_lines(&LogEntry::AssistantFinal("ok".to_string()), 100);
    let texts: Vec<&str> = lines.iter().map(|l| l.text.as_str()).collect();
    let banner = format!("{} FINAL RESPONSE {}", "▶".repeat(20), "◀".repeat(20));
    let rule = "─".repeat(80);
    assert_eq!(texts, vec![banner.as_str(), "ok", rule.as_str(), ""]);
}

#[test]
fn tool_entries_are_compacted() {
    let lines = log_entry_to_wrapped_lines(
        &LogEntry::ToolCall { name: "t".to_string(), args: "{ \"a\" : 1 }".to_string() },
        200,
    );
    assert_eq!(lines[0].style, LineStyle::Yellow);
    assert_eq!(lines[0].text, "tool call: t args={\"a\":1}");
}

#[test]
fn scrolling() {
    assert_eq!(scroll_window(100, 30, true, 0), (70, 70));
    assert_eq!(scroll_window(100, 30, false, 10), (10, 70));
    assert_eq!(scroll_window(100, 30, false, 90), (70, 70));
    assert_eq!(scroll_window(10, 30, false, 5), (0, 0));
}

#[test]
fn sidebars() {
    assert_eq!(
        commands_sidebar_text("/sw", 0),
        "> /switch <session_name>"
    );
    assert_eq!(
        commands_sidebar_text("/space", 1),
        "  /spaces\n> /space-create <id>\n  /space-attach <id>\n  /space-stop <id>"
    );
    assert_eq!(commands_sidebar_text("/zzz", 0), "No matching commands");
    let names = vec!["one".to_string(), "two".to_string()];
    assert_eq!(sessions_sidebar_text(&names, "two"), "one\ntwo ●");
    assert_eq!(sessions_sidebar_text(&Vec::new(), "x"), "No sessions");
}

fn agent(name: &str, events: &[&str]) -> ScopedAgent {
    ScopedAgent {
        id: name.to_lowercase(),
        name: name.to_string(),
        task: "task".to_string(),
        status: ScopedAgentStatus::Running,
        current_step: 1,
        max_steps: 4,
        events: events.iter().map(|e| e.to_string()).collect(),
        result: None,
    }
}

#[test]
fn scoped_agent_pane_shows_latest_four_first() {
    let agents = vec![
        agent("A", &[]),
        agent("B", &["x"]),
        agent("C", &["y"]),
        agent("D", &["z"]),
        agent("E", &["w", "last"]),
    ];
    assert_eq!(
        scoped_agents_pane_text(&agents),
        "E [Running] 1/4 - last\nD [Running] 1/4 - z\nC [Running] 1/4 - y\nB [Running] 1/4 - x"
    );
    assert_eq!(
        scoped_agents_pane_text(&vec![agent("A", &[])]),
        "A [Running] 1/4 - no events"
    );
}

#[test]
fn border_colours() {
    assert_eq!(event_border_colour(AgentState::Thinking), LineStyle::Yellow);
    assert_eq!(event_border_colour(AgentState::Tool), LineStyle::Yellow);
    assert_eq!(event_border_colour(AgentState::Done), LineStyle::Green);
    assert_eq!(event_border_colour(AgentState::Error), LineStyle::Red);
    assert_eq!(event_border_colour(AgentState::Idle), LineStyle::Blue);
}

#[test]
fn settings_overlay_geometry() {
    assert_eq!(settings_overlay_area(0, 0, 100, 40), Some((24, 15, 52, 9)));
    assert_eq!(settings_overlay_area(10, 5, 30, 10), Some((12, 6, 26, 8)));
    assert_eq!(settings_overlay_area(0, 0, 23, 40), None);
    assert_eq!(settings_overlay_area(0, 0, 100, 6), None);
}

#[test]
fn settings_overlay_text() {
    let settings = CrustSettings {
        default_core: CoreKind::PairProgramming,
        default_model: Some("m1".to_string()),
        max_agent_steps: None,
    };
    let lines = settings_overlay_lines(&settings, 0, "");
    let texts: Vec<&str> = lines.iter().map(|l| l.text.as_str()).collect();
    assert_eq!(
        texts,
        vec![
            " > Default Core: Pair Programming",
            "   Default Model: m1",
            "   Max Agent Steps: (none)"
        ]
    );
    assert_eq!(lines[0].style, LineStyle::Yellow);
    assert_eq!(lines[1].style, LineStyle::White);
    let editing = settings_overlay_lines(&settings, 2, "12");
    assert_eq!(editing[2].text, " > Max Agent Steps: 12█");
    let cleared = settings_overlay_lines(&settings, 1, "");
    assert_eq!(cleared[1].text, " > Default Model: (none)");
    let with_steps = CrustSettings { max_agent_steps: Some(7), ..CrustSettings::default() };
    assert_eq!(settings_overlay_lines(&with_steps, 0, "")[2].text, "   Max Agent Steps: 7");
    assert_eq!(core_name(CoreKind::General), "General");
}

fn pane_space(id: &str, task: Option<&str>) -> CrustSpace {
    CrustSpace {
        id: id.to_string(),
        name: id.to_string(),
        session_id: "sess".to_string(),
        cwd: "/w".to_string(),
        status: SpaceStatus::Running,
        process_id: None,
        task_id: None,
        task: task.map(str::to_string),
        created_at: "c".to_string(),
        updated_at: "u".to_string(),
    }
}

fn pane_run(id: &str, input: &str) -> LangGraphRunRecord {
    LangGraphRunRecord {
        id: id.to_string(),
        server_id: "dev".to_string(),
        thread_id: "t1".to_string(),
        run_id: None,
        status: "completed".to_string(),
        input: input.to_string(),
        final_text: None,
        error: None,
        created_at: "c".to_string(),
        updated_at: "u".to_string(),
        raw_event_log_path: "/runs/r.jsonl".to_string(),
        events: Vec::new(),
    }
}

#[test]
fn runs_pane_lists_spaces_runs_and_agents() {
    let spaces = vec![pane_space("alpha", Some("fix tests")), pane_space("beta", None)];
    let long_id = "0123456789abcdef";
    let runs = vec![pane_run("r1", "summarize"), pane_run(long_id, "go")];
    let agents = vec![agent("A", &[]), agent("B", &[])];
    let text = runs_pane_text(CoreKind::Learning, Some(&spaces), Some(&runs), &agents);
    let expected = format!(
        "Learning\n\nSpaces\n  alpha [running] fix tests\n  beta [running] idle\n\nLangGraph\n  r1 [completed] summarize\n  {} [completed] go\n\nScoped Agents\n  B [Running] 1/4\n  A [Running] 1/4",
        truncate_middle(long_id, 8)
    );
    assert_eq!(text, expected);
}

#[test]
fn runs_pane_says_when_nothing_is_there() {
    let text = runs_pane_text(CoreKind::General, Some(&Vec::new()), None, &Vec::new());
    assert_eq!(
        text,
        "General\n\nSpaces\n  none\n\nLangGraph\n  unavailable\n\nScoped Agents\n  none"
    );
    let text = runs_pane_text(CoreKind::PairProgramming, None, Some(&Vec::new()), &Vec::new());
    assert!(text.starts_with("Pair Programming\n\nSpaces\n  unavailable\n\nLangGraph\n  no runs\n"));
}
