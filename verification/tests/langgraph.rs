use crust::json::{array, member, object, text, JsonValue};
use crust::langgraph::{
    completed_run_record, extract_langgraph_run_id, extract_langgraph_text,
    format_langgraph_registry, format_langgraph_run_result, format_langgraph_runs,
    langgraph_result_injection_summary, langgraph_timeout_secs, langgraph_url,
    normalize_base_url, parse_langgraph_add_command, parse_langgraph_result_command,
    parse_langgraph_run_command, parse_langgraph_single_arg_command, read_sse_line,
    scope_inclusions, validate_langgraph_context_scope, LangGraphRunRecord,
    LangGraphStreamEvent, SseLineBuffer,
};
use crust::registry::{LangGraphRegistry, LangGraphServer};

fn server(id: &str, url: &str) -> LangGraphServer {
    LangGraphServer {
        id: id.to_string(),
        name: format!("{id} server"),
        base_url: url.to_string(),
        assistant_id: None,
        default_graph: None,
        auth_env: None,
        auth_header: None,
        auth_scheme: None,
        timeout_secs: None,
    }
}

fn record(id: &str) -> LangGraphRunRecord {
    LangGraphRunRecord {
        id: id.to_string(),
        server_id: "dev".to_string(),
        thread_id: "t1".to_string(),
        run_id: None,
        status: "completed".to_string(),
        input: "summarize the repo".to_string(),
        final_text: None,
        error: None,
        created_at: "2025-01-01T00:00:00Z".to_string(),
        updated_at: "2025-01-01T00:00:00Z".to_string(),
        raw_event_log_path: "/runs/r1.events.jsonl".to_string(),
        events: Vec::new(),
    }
}

fn event(data: JsonValue) -> LangGraphStreamEvent {
    LangGraphStreamEvent { event: "values".to_string(), data }
}

#[test]
fn add_command_parses_id_and_url() {
    assert_eq!(
        parse_langgraph_add_command("/langgraph add dev http://localhost:2024"),
        Some(("dev".to_string(), "http://localhost:2024".to_string()))
    );
    assert_eq!(parse_langgraph_add_command("/langgraph add dev"), None);
    assert_eq!(parse_langgraph_add_command("/langgraph list"), None);
}

#[test]
fn single_arg_command() {
    assert_eq!(
        parse_langgraph_single_arg_command("/langgraph cancel  run-7 ", "/langgraph cancel"),
        Some("run-7".to_string())
    );
    assert_eq!(parse_langgraph_single_arg_command("/langgraph cancel", "/langgraph cancel"), None);
}

#[test]
fn result_command_with_and_without_inject() {
    assert_eq!(
        parse_langgraph_result_command("/langgraph result r1"),
        Some(("r1".to_string(), false))
    );
    assert_eq!(
        parse_langgraph_result_command("/langgraph result r1 --inject"),
        Some(("r1".to_string(), true))
    );
    assert_eq!(
        parse_langgraph_result_command("/langgraph result --inject r1"),
        Some(("r1".to_string(), true))
    );
    assert_eq!(parse_langgraph_result_command("/langgraph result r1 r2"), None);
    assert_eq!(parse_langgraph_result_command("/langgraph result"), None);
    assert_eq!(parse_langgraph_result_command("/langgraph result --inject"), None);
}

#[test]
fn run_command_with_options() {
    let cmd = parse_langgraph_run_command(
        "/langgraph run dev --context-scope none --file a.rs --skill review --file b.rs fix  the bug",
    )
    .unwrap();
    assert_eq!(cmd.server_id, "dev");
    assert_eq!(cmd.input, "fix the bug");
    assert_eq!(cmd.context_scope.as_deref(), Some("none"));
    assert_eq!(cmd.files, vec!["a.rs".to_string(), "b.rs".to_string()]);
    assert_eq!(cmd.skill_names, vec!["review".to_string()]);
}

#[test]
fn run_command_needs_input_and_option_values() {
    assert!(parse_langgraph_run_command("/langgraph run dev").is_none());
    assert!(parse_langgraph_run_command("/langgraph run dev --file").is_none());
    assert!(parse_langgraph_run_command("/langgraph run dev --file a.rs").is_none());
    let plain = parse_langgraph_run_command("/langgraph run dev hello").unwrap();
    assert_eq!(plain.input, "hello");
    assert!(plain.context_scope.is_none());
    assert!(plain.files.is_empty());
}

#[test]
fn urls_and_timeouts() {
    assert_eq!(normalize_base_url("  http://host:2024// "), "http://host:2024");
    let mut s = server("dev", "http://host/");
    assert_eq!(langgraph_url(&s, "/threads"), "http://host/threads");
    assert_eq!(langgraph_timeout_secs(&s), 30);
    s.timeout_secs = Some(5);
    assert_eq!(langgraph_timeout_secs(&s), 5);
}

#[test]
fn registry_listing() {
    let empty = LangGraphRegistry { servers: Vec::new() };
    assert_eq!(
        format_langgraph_registry(&empty, "/w/.crust_langgraph/registry.json"),
        "No LangGraph servers registered. Add one with `crust langgraph add <id> --url <base_url>`. Registry: /w/.crust_langgraph/registry.json"
    );
    let mut dev = server("dev", "http://localhost:2024");
    dev.assistant_id = Some("agent".to_string());
    let reg = LangGraphRegistry { servers: vec![dev] };
    assert_eq!(
        format_langgraph_registry(&reg, "ignored"),
        "Registered 1 LangGraph server(s):\n- dev server (dev) -> http://localhost:2024\n  assistant_id: agent | default_graph: none | auth_env: none"
    );
}

#[test]
fn context_scopes() {
    assert_eq!(validate_langgraph_context_scope(None), Ok("summary+recent".to_string()));
    assert_eq!(validate_langgraph_context_scope(Some(" files ")), Ok("files".to_string()));
    assert_eq!(
        validate_langgraph_context_scope(Some("everything")),
        Err("invalid context scope `everything`. Use one of: none, summary, recent, files, summary+recent, summary+files, full-allowed".to_string())
    );
    assert_eq!(scope_inclusions("summary+recent"), (true, true, false));
    assert_eq!(scope_inclusions("full-allowed"), (true, true, true));
    assert_eq!(scope_inclusions("none"), (false, false, false));
    assert_eq!(scope_inclusions("files"), (false, false, true));
}

#[test]
fn run_listing_and_result() {
    assert_eq!(
        format_langgraph_runs(&[], "/runs"),
        "No LangGraph runs found. Run records are stored in `/runs`."
    );
    let mut r = record("r1");
    r.run_id = Some("abc".to_string());
    assert_eq!(
        format_langgraph_runs(std::slice::from_ref(&r), "/runs"),
        "r1 [completed] server=dev thread=t1 run=abc - summarize the repo"
    );
    r.final_text = Some("done".to_string());
    assert_eq!(
        format_langgraph_run_result(&r),
        "LangGraph run r1 [completed]\nserver: dev\nthread: t1\nrun: abc\nraw events: /runs/r1.events.jsonl\n\ndone"
    );
    assert_eq!(
        langgraph_result_injection_summary(&r),
        "LangGraph run `r1` result summary:\nstatus: completed\nserver: dev\nthread: t1\nrun: abc\n\ndone"
    );
}

#[test]
fn run_result_without_text() {
    let mut r = record("r2");
    assert!(format_langgraph_run_result(&r).ends_with("\n\nNo final text recorded."));
    r.error = Some("boom".to_string());
    assert!(format_langgraph_run_result(&r).ends_with("\n\nboom"));
}

#[test]
fn runs_listing_shows_at_most_twenty() {
    let records: Vec<LangGraphRunRecord> = (0..25).map(|i| record(&format!("r{i}"))).collect();
    assert_eq!(format_langgraph_runs(&records, "/runs").lines().count(), 20);
}

#[test]
fn run_id_lookup_order() {
    let v = object(vec![member("id", text("x")), member("run_id", text("y"))]);
    assert_eq!(extract_langgraph_run_id(&v), Some("y".to_string()));
    let v = object(vec![member("id", text("x"))]);
    assert_eq!(extract_langgraph_run_id(&v), Some("x".to_string()));
    let v = object(vec![member("metadata", object(vec![member("run_id", text("m"))]))]);
    assert_eq!(extract_langgraph_run_id(&v), Some("m".to_string()));
    assert_eq!(extract_langgraph_run_id(&JsonValue::Null), None);
}

#[test]
fn text_lookup_order() {
    assert_eq!(extract_langgraph_text(&text("plain")), Some("plain".to_string()));
    let v = object(vec![member("output", text("o")), member("final", text("f"))]);
    assert_eq!(extract_langgraph_text(&v), Some("f".to_string()));
    let msgs = array(vec![
        object(vec![member("content", text("first"))]),
        object(vec![member("content", text("last"))]),
        object(vec![member("role", text("tool"))]),
    ]);
    let v = object(vec![member("messages", msgs)]);
    assert_eq!(extract_langgraph_text(&v), Some("last".to_string()));
    assert_eq!(extract_langgraph_text(&JsonValue::Bool(true)), None);
}

#[test]
fn completed_record_from_events() {
    let events = vec![
        event(object(vec![member("status", text("started"))])),
        event(object(vec![member("run_id", text("run-1")), member("output", text("partial"))])),
        event(object(vec![member("run_id", text("run-2")), member("final", text("answer"))])),
        event(JsonValue::Null),
    ];
    let r = completed_run_record(
        "rec".to_string(),
        "dev".to_string(),
        "thread".to_string(),
        "input".to_string(),
        "c".to_string(),
        "u".to_string(),
        "/log".to_string(),
        events,
    );
    assert_eq!(r.status, "completed");
    assert_eq!(r.run_id.as_deref(), Some("run-1"));
    assert_eq!(r.final_text.as_deref(), Some("answer"));
    assert!(r.error.is_none());
    assert_eq!(r.events.len(), 4);
}

#[test]
fn sse_lines() {
    let mut current: Option<String> = None;
    assert_eq!(read_sse_line(&mut current, ": comment"), None);
    assert_eq!(
        read_sse_line(&mut current, "data: {\"a\":1}\r"),
        Some(("message".to_string(), "{\"a\":1}".to_string()))
    );
    assert_eq!(read_sse_line(&mut current, "event: values"), None);
    assert_eq!(current.as_deref(), Some("values"));
    assert_eq!(read_sse_line(&mut current, "data: [DONE]"), None);
    assert_eq!(read_sse_line(&mut current, "data:   "), None);
    assert_eq!(
        read_sse_line(&mut current, "data: x"),
        Some(("values".to_string(), "x".to_string()))
    );
    assert_eq!(read_sse_line(&mut current, "event:  "), None);
    assert_eq!(current.as_deref(), Some("values"));
}

#[test]
fn sse_buffer_keeps_partial_lines() {
    let mut b = SseLineBuffer::new();
    assert_eq!(b.feed("event: a\nda"), vec!["event: a".to_string()]);
    assert_eq!(b.feed("ta: 1\n\n"), vec!["data: 1".to_string(), String::new()]);
    assert_eq!(b.feed("tail"), Vec::<String>::new());
    assert_eq!(b.finish(), Some("tail".to_string()));
    assert_eq!(SseLineBuffer::new().finish(), None);
}
