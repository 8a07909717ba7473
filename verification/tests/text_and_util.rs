use crust::commands::{get_filtered_commands, select_commands, slash_commands};
use crust::text::{parse_u64, str_less, trim, truncate_middle, u64_to_decimal, IntErrorKind};
use crust::util::{append_delta, compact_tool_call_text, compact_tool_result_text, secs_or_default};
use crust::words::{replace_all, split_char, split_lines, split_once_char, split_whitespace};

#[test]
fn truncate_middle_keeps_short_text() {
    assert_eq!(truncate_middle("hello", 10), "hello");
    assert_eq!(truncate_middle("hello", 5), "hello");
}

#[test]
fn truncate_middle_small_limit_keeps_prefix() {
    assert_eq!(truncate_middle("abcdefghij", 4), "abcd");
}

#[test]
fn truncate_middle_cuts_out_the_middle() {
    let text = "0123456789".repeat(10);
    let out = truncate_middle(&text, 65);
    assert_eq!(
        out,
        "0123456789012345678901\n... [truncated] ...\n8901234567890123456789"
    );
    assert_eq!(out.chars().count(), 65);
}

#[test]
fn truncate_middle_never_exceeds_limit() {
    let text = "x".repeat(500);
    for max in [0usize, 1, 30, 64, 65, 100, 499] {
        assert!(truncate_middle(&text, max).chars().count() <= max);
    }
}

#[test]
fn append_delta_merges_overlap() {
    let mut s = "hello wor".to_string();
    append_delta(&mut s, "world");
    assert_eq!(s, "hello world");
}

#[test]
fn append_delta_takes_cumulative_text() {
    let mut s = "abc".to_string();
    append_delta(&mut s, "abcdef");
    assert_eq!(s, "abcdef");
}

#[test]
fn append_delta_ignores_repeated_and_empty_chunks() {
    let mut s = "abc".to_string();
    append_delta(&mut s, "c");
    assert_eq!(s, "abc");
    append_delta(&mut s, "");
    assert_eq!(s, "abc");
}

#[test]
fn append_delta_appends_fresh_text() {
    let mut s = "abc".to_string();
    append_delta(&mut s, "xyz");
    assert_eq!(s, "abcxyz");
    let mut empty = String::new();
    append_delta(&mut empty, "first");
    assert_eq!(empty, "first");
}

#[test]
fn compact_tool_call_reserializes_json() {
    assert_eq!(
        compact_tool_call_text("t", "{ \"a\": 1 }"),
        "tool call: t args={\"a\":1}"
    );
}

#[test]
fn compact_tool_call_flattens_plain_text() {
    assert_eq!(
        compact_tool_call_text("t", "  not json\nline  "),
        "tool call: t args=not json line"
    );
}

#[test]
fn compact_tool_result_reserializes_json() {
    assert_eq!(compact_tool_result_text("t", "[1, 2]"), "tool result: t -> [1,2]");
}

#[test]
fn compact_tool_result_truncates_long_payload() {
    let payload = "x".repeat(1200);
    let out = compact_tool_result_text("big", &payload);
    let expected = format!(
        "tool result: big -> {}\n... [truncated] ...\n{} [shown 1000/1200 chars]",
        "x".repeat(489),
        "x".repeat(490)
    );
    assert_eq!(out, expected);
}

#[test]
fn filtered_commands_empty_filter_lists_all() {
    assert_eq!(get_filtered_commands("").len(), slash_commands().len());
    assert_eq!(get_filtered_commands(" / ").len(), 23);
}

#[test]
fn filtered_commands_match_case_insensitively() {
    let found = get_filtered_commands("/LANG");
    let names: Vec<&str> = found.iter().map(|(n, _)| *n).collect();
    assert_eq!(
        names,
        vec![
            "/langgraph list",
            "/langgraph add <id> <url>",
            "/langgraph run <id> <input>",
            "/langgraph runs",
            "/langgraph result <run_id>",
            "/langgraph cancel <run_id>",
        ]
    );
}

#[test]
fn filtered_commands_prefix_only() {
    let found = get_filtered_commands("/agent");
    let names: Vec<&str> = found.iter().map(|(n, _)| *n).collect();
    assert_eq!(
        names,
        vec!["/agent <name> <task>", "/agents", "/agent-cancel <name>", "/agent-result <name>"]
    );
    assert!(get_filtered_commands("/nothing").is_empty());
}

#[test]
fn parse_u64_reads_decimal() {
    assert_eq!(parse_u64("42"), Ok(42));
    assert_eq!(parse_u64("+7"), Ok(7));
    assert_eq!(parse_u64("18446744073709551615"), Ok(u64::MAX));
}

#[test]
fn parse_u64_errors() {
    assert_eq!(parse_u64(""), Err(IntErrorKind::Empty));
    assert_eq!(parse_u64("+"), Err(IntErrorKind::InvalidDigit));
    assert_eq!(parse_u64("12a"), Err(IntErrorKind::InvalidDigit));
    assert_eq!(parse_u64("-1"), Err(IntErrorKind::InvalidDigit));
    assert_eq!(parse_u64("18446744073709551616"), Err(IntErrorKind::PosOverflow));
}

#[test]
fn decimal_text() {
    assert_eq!(u64_to_decimal(0), "0");
    assert_eq!(u64_to_decimal(1203), "1203");
}

#[test]
fn string_order_is_lexicographic() {
    assert!(str_less("abc", "abd"));
    assert!(str_less("ab", "abc"));
    assert!(!str_less("abc", "abc"));
    assert!(!str_less("b", "abc"));
}

#[test]
fn trimming_and_splitting() {
    assert_eq!(trim("  a b \n"), "a b");
    assert_eq!(split_whitespace("  a  b\tc "), vec!["a", "b", "c"]);
    assert_eq!(split_char("a,,b", ','), vec!["a", "", "b"]);
    assert_eq!(
        split_once_char("key: value", ':'),
        Some(("key".to_string(), " value".to_string()))
    );
    assert_eq!(split_once_char("novalue", ':'), None);
    assert_eq!(split_lines("one\r\ntwo\n"), vec!["one", "two"]);
    assert_eq!(replace_all("a-b-c", "-", "+"), "a+b+c");
}

#[test]
fn seconds_setting_falls_back_to_the_default() {
    assert_eq!(secs_or_default(Some("30"), 180), 30);
    assert_eq!(secs_or_default(Some("+7"), 180), 7);
    assert_eq!(secs_or_default(Some("soon"), 180), 180);
    assert_eq!(secs_or_default(Some(" 30"), 180), 180);
    assert_eq!(secs_or_default(Some("18446744073709551616"), 5), 5);
    assert_eq!(secs_or_default(None, 180), 180);
}

#[test]
fn commands_are_selected_by_their_lowered_forms() {
    let commands = vec![("/Exit", "leave"), ("/agent", "run"), ("/AGENTS", "list")];
    let lowered: Vec<String> = vec!["/exit".to_string(), "/agent".to_string(), "/agents".to_string()];
    let names = |r: Vec<(&'static str, &'static str)>| r.into_iter().map(|e| e.0).collect::<Vec<_>>();
    assert_eq!(names(select_commands("/ag", &commands, &lowered)), vec!["/agent", "/AGENTS"]);
    assert_eq!(names(select_commands("/agents", &commands, &lowered)), vec!["/AGENTS"]);
    assert_eq!(names(select_commands("/", &commands, &lowered)), vec!["/Exit", "/agent", "/AGENTS"]);
    assert_eq!(names(select_commands("", &commands, &lowered)).len(), 3);
    assert!(select_commands("/x", &commands, &lowered).is_empty());
}
