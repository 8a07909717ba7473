use crust::json::{member, object, text, JsonValue};
use crust::langgraph::LangGraphRunRecord;
use crust::registry::{LangGraphRegistry, LangGraphServer};
use crust::remote::{
    cancel_reply, cancel_target, langgraph_auth, ping_reply, sort_runs_newest_first,
    thread_id_from_reply,
};

fn server(id: &str) -> LangGraphServer {
    LangGraphServer {
        id: id.to_string(),
        name: id.to_string(),
        base_url: "http://host:2024/".to_string(),
        assistant_id: None,
        default_graph: None,
        auth_env: None,
        auth_header: None,
        auth_scheme: None,
        timeout_secs: None,
    }
}

fn record(id: &str, updated_at: &str) -> LangGraphRunRecord {
    LangGraphRunRecord {
        id: id.to_string(),
        server_id: "dev".to_string(),
        thread_id: "th".to_string(),
        run_id: Some("run-9".to_string()),
        status: "completed".to_string(),
        input: "x".to_string(),
        final_text: None,
        error: None,
        created_at: updated_at.to_string(),
        updated_at: updated_at.to_string(),
        raw_event_log_path: "/raw".to_string(),
        events: Vec::new(),
    }
}

#[test]
fn auth_headers() {
    let plain = server("dev");
    assert_eq!(langgraph_auth(&plain, Some("t".to_string())), Ok(None));

    let mut bearer = server("dev");
    bearer.auth_env = Some("LG_TOKEN".to_string());
    assert_eq!(
        langgraph_auth(&bearer, None),
        Err("LangGraph auth env var `LG_TOKEN` is not set for `dev`".to_string())
    );
    assert_eq!(
        langgraph_auth(&bearer, Some("secret".to_string())),
        Ok(Some(("authorization".to_string(), "Bearer secret".to_string())))
    );

    let mut custom = bearer;
    custom.auth_header = Some("x-api-key".to_string());
    custom.auth_scheme = Some("Token".to_string());
    assert_eq!(
        langgraph_auth(&custom, Some("k".to_string())),
        Ok(Some(("x-api-key".to_string(), "k".to_string())))
    );
    custom.auth_header = Some("Authorization".to_string());
    assert_eq!(
        langgraph_auth(&custom, Some("k".to_string())),
        Ok(Some(("Authorization".to_string(), "Token k".to_string())))
    );
}

#[test]
fn ping_replies() {
    let s = server("dev");
    assert_eq!(
        ping_reply(&s, 200, "200 OK"),
        Ok("LangGraph server `dev` reachable at http://host:2024/ (200 OK)".to_string())
    );
    assert_eq!(
        ping_reply(&s, 503, "503 Service Unavailable"),
        Err("LangGraph server `dev` responded with HTTP 503 Service Unavailable".to_string())
    );
}

#[test]
fn thread_ids() {
    let v = object(vec![member("thread_id", text("t1")), member("id", text("x"))]);
    assert_eq!(thread_id_from_reply(&v, "{}"), Ok("t1".to_string()));
    let v = object(vec![member("id", text("t2"))]);
    assert_eq!(thread_id_from_reply(&v, "{}"), Ok("t2".to_string()));
    assert_eq!(
        thread_id_from_reply(&JsonValue::Null, "null"),
        Err("LangGraph thread create response did not include thread_id: null".to_string())
    );
}

#[test]
fn cancellation() {
    let registry = LangGraphRegistry { servers: vec![server("dev")] };
    let r = record("rec-1", "t");
    match cancel_target(&r, &registry) {
        Ok((s, url)) => {
            assert_eq!(s.id, "dev");
            assert_eq!(url, "http://host:2024/threads/th/runs/run-9/cancel");
        }
        Err(e) => panic!("unexpected error {e}"),
    }
    let mut no_run = record("rec-2", "t");
    no_run.run_id = None;
    assert_eq!(
        cancel_target(&no_run, &registry).err(),
        Some("LangGraph run has no provider run_id to cancel".to_string())
    );
    let mut elsewhere = record("rec-3", "t");
    elsewhere.server_id = "other".to_string();
    assert_eq!(
        cancel_target(&elsewhere, &registry).err(),
        Some("LangGraph server `other` not found".to_string())
    );
    assert_eq!(cancel_reply(&r, 202, "202 Accepted"), Ok("Cancel requested for LangGraph run `rec-1`".to_string()));
    assert_eq!(cancel_reply(&r, 404, "404 Not Found"), Err("LangGraph cancel failed with HTTP 404 Not Found".to_string()));
}

#[test]
fn runs_are_listed_newest_first() {
    let runs = vec![
        record("a", "2025-01-02"),
        record("b", "2025-03-01"),
        record("c", "2025-01-02"),
        record("d", "2024-12-31"),
    ];
    let ids: Vec<String> = sort_runs_newest_first(runs).into_iter().map(|r| r.id).collect();
    assert_eq!(ids, vec!["b", "a", "c", "d"]);
    assert!(sort_runs_newest_first(Vec::new()).is_empty());
}
