use crust::registry::{
    CrustSpace, LangGraphRegistry, LangGraphServer, SpaceStatus, SpacesRegistry,
};

fn space(id: &str) -> CrustSpace {
    CrustSpace {
        id: id.to_string(),
        name: format!("{id} space"),
        session_id: format!("session-{id}"),
        cwd: "/work".to_string(),
        status: SpaceStatus::Idle,
        process_id: None,
        task_id: None,
        task: None,
        created_at: "2025-01-01T00:00:00Z".to_string(),
        updated_at: "2025-01-01T00:00:00Z".to_string(),
    }
}

fn server(id: &str, url: &str) -> LangGraphServer {
    LangGraphServer {
        id: id.to_string(),
        name: id.to_string(),
        base_url: url.to_string(),
        assistant_id: None,
        default_graph: None,
        auth_env: None,
        auth_header: None,
        auth_scheme: None,
        timeout_secs: None,
    }
}

fn space_ids(r: &SpacesRegistry) -> Vec<String> {
    r.spaces.iter().map(|s| s.id.clone()).collect()
}

fn server_ids(r: &LangGraphRegistry) -> Vec<String> {
    r.servers.iter().map(|s| s.id.clone()).collect()
}

#[test]
fn space_status_labels() {
    assert_eq!(SpaceStatus::Idle.label(), "idle");
    assert_eq!(SpaceStatus::Running.label(), "running");
    assert_eq!(SpaceStatus::Stopped.label(), "stopped");
    assert_eq!(SpaceStatus::Failed.label(), "failed");
}

#[test]
fn spaces_upsert_sorts_by_id_ignoring_case() {
    let mut r = SpacesRegistry { spaces: Vec::new() };
    r.upsert(space("beta"));
    r.upsert(space("Alpha"));
    r.upsert(space("gamma"));
    assert_eq!(space_ids(&r), vec!["Alpha", "beta", "gamma"]);
}

#[test]
fn spaces_upsert_replaces_matching_id() {
    let mut r = SpacesRegistry { spaces: vec![space("alpha"), space("beta")] };
    let mut changed = space("ALPHA");
    changed.status = SpaceStatus::Running;
    r.upsert(changed);
    assert_eq!(space_ids(&r), vec!["ALPHA", "beta"]);
    assert_eq!(r.spaces[0].status, SpaceStatus::Running);
}

#[test]
fn spaces_find_after_upsert() {
    let mut r = SpacesRegistry { spaces: Vec::new() };
    r.upsert(space("one"));
    r.upsert(space("two"));
    assert_eq!(r.find("two").unwrap().name, "two space");
    assert_eq!(r.find("  TWO ").unwrap().id, "two");
    assert!(r.find("three").is_none());
}

#[test]
fn spaces_find_mut_changes_in_place() {
    let mut r = SpacesRegistry { spaces: vec![space("one")] };
    if let Some(s) = r.find_mut("one") {
        s.task = Some("build".to_string());
    }
    assert_eq!(r.spaces[0].task.as_deref(), Some("build"));
    assert!(r.find_mut("none").is_none());
}

#[test]
fn spaces_validation_errors() {
    assert_eq!(SpacesRegistry { spaces: vec![space("a"), space("b")] }.validate(), Ok(()));
    let blank = SpacesRegistry { spaces: vec![space("  ")] };
    assert_eq!(blank.validate(), Err("space id cannot be empty".to_string()));
    let mut no_name = space("a");
    no_name.name = String::new();
    assert_eq!(
        SpacesRegistry { spaces: vec![no_name] }.validate(),
        Err("space `a` name cannot be empty".to_string())
    );
    let mut no_cwd = space("a");
    no_cwd.cwd = " ".to_string();
    assert_eq!(
        SpacesRegistry { spaces: vec![no_cwd] }.validate(),
        Err("space `a` cwd cannot be empty".to_string())
    );
    assert_eq!(
        SpacesRegistry { spaces: vec![space("a"), space("A")] }.validate(),
        Err("duplicate space id `A`".to_string())
    );
}

#[test]
fn servers_upsert_sorts_and_replaces() {
    let mut r = LangGraphRegistry { servers: Vec::new() };
    r.upsert(server("zeta", "http://z"));
    r.upsert(server("alpha", "http://a"));
    assert_eq!(server_ids(&r), vec!["alpha", "zeta"]);
    r.upsert(server("Zeta", "http://z2"));
    assert_eq!(server_ids(&r), vec!["alpha", "Zeta"]);
    assert_eq!(r.find("zeta").unwrap().base_url, "http://z2");
}

#[test]
fn servers_remove_then_not_found() {
    let mut r = LangGraphRegistry {
        servers: vec![server("a", "http://a"), server("b", "http://b")],
    };
    assert!(r.remove(" A "));
    assert!(r.find("a").is_none());
    assert_eq!(server_ids(&r), vec!["b"]);
    assert!(!r.remove("a"));
}

#[test]
fn servers_validation_errors() {
    assert_eq!(LangGraphRegistry { servers: vec![server("a", "http://a")] }.validate(), Ok(()));
    assert_eq!(
        LangGraphRegistry { servers: vec![server("", "http://a")] }.validate(),
        Err("LangGraph server id cannot be empty".to_string())
    );
    let mut unnamed = server("a", "http://a");
    unnamed.name = " ".to_string();
    assert_eq!(
        LangGraphRegistry { servers: vec![unnamed] }.validate(),
        Err("LangGraph server `a` name cannot be empty".to_string())
    );
    assert_eq!(
        LangGraphRegistry { servers: vec![server("a", "")] }.validate(),
        Err("LangGraph server `a` base_url cannot be empty".to_string())
    );
    assert_eq!(
        LangGraphRegistry { servers: vec![server("a", "http://a"), server("A", "http://b")] }
            .validate(),
        Err("duplicate LangGraph server id `A`".to_string())
    );
}

#[test]
fn upsert_keeps_a_valid_registry_valid_and_sorted() {
    let mut r = SpacesRegistry { spaces: vec![space("alpha"), space("Delta"), space("kappa")] };
    assert!(r.validate().is_ok());
    r.upsert(space("charlie"));
    assert_eq!(space_ids(&r), vec!["alpha", "charlie", "Delta", "kappa"]);
    assert!(r.validate().is_ok());
    let mut replacement = space("DELTA");
    replacement.cwd = "/elsewhere".to_string();
    r.upsert(replacement);
    assert_eq!(space_ids(&r), vec!["alpha", "charlie", "DELTA", "kappa"]);
    assert_eq!(r.find("delta").unwrap().cwd, "/elsewhere");
    assert!(r.validate().is_ok());
}
