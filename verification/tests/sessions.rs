use crust::manager::SessionManager;
use crust::message::{ChatMessage, ChatRole, MessageContent};
use crust::session::{Config, CoreKind, Session};

fn config() -> Config {
    Config::from_env_values(None, None)
}

fn text_of(m: &ChatMessage) -> String {
    match &m.content {
        MessageContent::Text(t) => t.clone(),
        _ => panic!("expected text content"),
    }
}

#[test]
fn config_defaults() {
    let c = Config::from_env_values(None, None);
    assert_eq!(c.max_agent_steps, 10);
    assert_eq!(c.modelname, "moonshotai/kimi-latest");
}

#[test]
fn config_reads_values() {
    let c = Config::from_env_values(Some("25".to_string()), Some("openai/gpt-4o".to_string()));
    assert_eq!(c.max_agent_steps, 25);
    assert_eq!(c.modelname, "openai/gpt-4o");
    let plus = Config::from_env_values(Some("+3".to_string()), None);
    assert_eq!(plus.max_agent_steps, 3);
}

#[test]
fn config_bad_step_count_falls_back() {
    assert_eq!(Config::from_env_values(Some("many".to_string()), None).max_agent_steps, 10);
    assert_eq!(Config::from_env_values(Some("-1".to_string()), None).max_agent_steps, 10);
    assert_eq!(
        Config::from_env_values(Some("4294967296".to_string()), None).max_agent_steps,
        10
    );
}

#[test]
fn new_session_holds_the_system_prompt() {
    let s = Session::new("work".to_string(), "be helpful", config());
    assert_eq!(s.name, "work");
    assert_eq!(s.id.len(), 36);
    assert_eq!(s.messages.len(), 1);
    assert!(s.messages[0].role.is_system());
    assert_eq!(text_of(&s.messages[0]), "be helpful");
    assert_eq!(s.created_at, s.edited_at);
    assert!(matches!(s.core_profile, CoreKind::General));
    assert!(s.summary.is_none());
    assert_eq!(s.compacted_until, 0);
}

#[test]
fn two_sessions_get_different_ids() {
    let a = Session::new("a".to_string(), "p", config());
    let b = Session::new("b".to_string(), "p", config());
    assert_ne!(a.id, b.id);
}

#[test]
fn usage_accumulates() {
    let mut s = Session::new("u".to_string(), "p", config());
    s.record_usage(10, 5, 15);
    s.record_usage(20, 1, 21);
    assert_eq!(s.latest_prompt_tokens, 20);
    assert_eq!(s.latest_completion_tokens, 1);
    assert_eq!(s.latest_total_tokens, 21);
    assert_eq!(s.cumulative_prompt_tokens, 30);
    assert_eq!(s.cumulative_completion_tokens, 6);
    assert_eq!(s.cumulative_total_tokens, 36);
}

#[test]
fn clear_keeps_only_the_system_prompt() {
    let mut s = Session::new("c".to_string(), "sys", config());
    s.add_message(ChatMessage::new(ChatRole::User, "hi".to_string()));
    s.summary = Some("old".to_string());
    s.compacted_until = 1;
    s.clear_messages();
    assert_eq!(s.messages.len(), 1);
    assert_eq!(text_of(&s.messages[0]), "sys");
    assert!(s.summary.is_none());
    assert_eq!(s.compacted_until, 0);
}

fn session_with_history() -> Session {
    let mut s = Session::new("h".to_string(), "sys", config());
    s.add_message(ChatMessage::new(ChatRole::User, "a".to_string()));
    s.add_message(ChatMessage::new(ChatRole::Assistant, "b".to_string()));
    s.add_message(ChatMessage::new(ChatRole::User, "c".to_string()));
    s.add_message(ChatMessage::new(ChatRole::Assistant, "d".to_string()));
    s
}

#[test]
fn compaction_summarizes_older_messages() {
    let mut s = session_with_history();
    assert_eq!(s.compact_to_recent(2), Ok(3));
    assert_eq!(s.compacted_until, 3);
    assert_eq!(
        s.summary.as_deref(),
        Some("Compacted transcript notes:\n\n[1] user: a\n[2] assistant: b")
    );
    assert_eq!(s.messages.len(), 5);
}

#[test]
fn compaction_needs_new_history() {
    let mut s = session_with_history();
    assert_eq!(s.compact_to_recent(2), Ok(3));
    assert_eq!(
        s.compact_to_recent(2),
        Err("Not enough uncompacted history to compact.".to_string())
    );
    let mut short = Session::new("s".to_string(), "sys", config());
    assert_eq!(
        short.compact_to_recent(10),
        Err("Not enough uncompacted history to compact.".to_string())
    );
}

#[test]
fn compaction_carries_over_an_earlier_summary() {
    let mut s = session_with_history();
    s.summary = Some("  earlier  ".to_string());
    assert_eq!(s.compact_to_recent(3), Ok(2));
    assert_eq!(
        s.summary.as_deref(),
        Some("Previous compacted summary:\nearlier\n\nNewly compacted transcript notes:\n\n[1] user: a")
    );
}

#[test]
fn manager_create_makes_session_current() {
    let mut m = SessionManager::new("/tmp/sessions".to_string());
    assert!(m.get_current_session().is_none());
    let id = m.create_session("first".to_string(), "sys", config()).id.clone();
    let current = m.get_current_session().unwrap();
    assert_eq!(current.id, id);
    assert_eq!(current.name, "first");
    assert_eq!(m.get_session(&id).unwrap().name, "first");
    assert_eq!(m.storage_path(), "/tmp/sessions");
}

#[test]
fn manager_finds_by_name_and_switches() {
    let mut m = SessionManager::new("s".to_string());
    let a = m.create_session("alpha".to_string(), "sys", config()).id.clone();
    let b = m.create_session("beta".to_string(), "sys", config()).id.clone();
    assert_eq!(m.get_current_session().unwrap().id, b);
    assert_eq!(m.find_session_id_by_name("alpha"), Some(a.clone()));
    assert_eq!(m.find_session_id_by_name("gamma"), None);
    assert!(m.session_name_exists("beta"));
    assert!(!m.session_name_exists("Beta"));
    assert_eq!(m.switch_session(&a).unwrap().name, "alpha");
    assert_eq!(m.get_current_session().unwrap().id, a);
    let mut names = m.list_session_names();
    names.sort();
    assert_eq!(names, vec!["alpha".to_string(), "beta".to_string()]);
}

#[test]
fn manager_switch_to_unknown_session_fails() {
    let mut m = SessionManager::new("s".to_string());
    let a = m.create_session("alpha".to_string(), "sys", config()).id.clone();
    match m.switch_session("nope") {
        Err(e) => assert_eq!(e, "Session 'nope' not found"),
        Ok(_) => panic!("switching to an unknown session must fail"),
    }
    assert_eq!(m.get_current_session().unwrap().id, a);
}

#[test]
fn manager_delete_removes_session() {
    let mut m = SessionManager::new("s".to_string());
    let a = m.create_session("alpha".to_string(), "sys", config()).id.clone();
    let b = m.create_session("beta".to_string(), "sys", config()).id.clone();
    assert_eq!(m.delete_session(&b), Ok(()));
    assert!(m.get_session(&b).is_none());
    assert_eq!(m.get_current_session().unwrap().id, a);
    assert_eq!(m.delete_session(&b), Err(format!("Session '{}' not found", b)));
    assert_eq!(m.delete_session(&a), Ok(()));
    assert!(m.get_current_session().is_none());
}

#[test]
fn manager_messages_go_to_the_current_session() {
    let mut m = SessionManager::new("s".to_string());
    let a = m.create_session("alpha".to_string(), "sys", config()).id.clone();
    m.add_message_to_current(ChatMessage::new(ChatRole::User, "hello".to_string()));
    let s = m.get_session(&a).unwrap();
    assert_eq!(s.messages.len(), 2);
    assert_eq!(text_of(&s.messages[1]), "hello");
    assert!(m.add_message_to_session(&a, ChatMessage::new(ChatRole::Assistant, "hey".to_string())));
    assert!(!m.add_message_to_session("missing", ChatMessage::new(ChatRole::User, "x".to_string())));
    assert_eq!(m.get_session(&a).unwrap().messages.len(), 3);
}

#[test]
fn manager_compacts_current_session() {
    let mut m = SessionManager::new("s".to_string());
    assert_eq!(
        m.compact_current_session_to_recent(2),
        Err("No current session.".to_string())
    );
    m.create_session("alpha".to_string(), "sys", config());
    for text in ["a", "b", "c", "d"] {
        m.add_message_to_current(ChatMessage::new(ChatRole::User, text.to_string()));
    }
    assert_eq!(m.compact_current_session_to_recent(2), Ok(3));
    assert_eq!(m.get_current_session().unwrap().compacted_until, 3);
    m.clear_current_session();
    assert_eq!(m.get_current_session().unwrap().messages.len(), 1);
}

#[test]
fn manager_restores_sessions() {
    let mut m = SessionManager::new("s".to_string());
    assert!(!m.restore_sessions(Vec::new()));
    let mut old = Session::new("old".to_string(), "sys", config());
    old.edited_at = "2024-01-01T00:00:00+00:00".to_string();
    let mut newer = Session::new("newer".to_string(), "sys", config());
    newer.edited_at = "2025-01-01T00:00:00+00:00".to_string();
    let newer_id = newer.id.clone();
    assert!(m.restore_sessions(vec![old, newer]));
    assert_eq!(m.get_current_session().unwrap().id, newer_id);
    assert_eq!(m.list_sessions().len(), 2);
}

#[test]
fn sessions_can_be_changed_in_place() {
    let mut m = SessionManager::new("s".to_string());
    let a = m.create_session("alpha".to_string(), "sys", config()).id.clone();
    let b = m.create_session("beta".to_string(), "sys", config()).id.clone();
    m.get_session_mut(&a).unwrap().name = "renamed".to_string();
    assert_eq!(m.get_session(&a).unwrap().name, "renamed");
    assert_eq!(m.get_session(&b).unwrap().name, "beta");
    assert!(m.get_session_mut("missing").is_none());
    m.get_current_session_mut().unwrap().latest_prompt_tokens = 42;
    assert_eq!(m.get_current_session().unwrap().id, b);
    assert_eq!(m.get_session(&b).unwrap().latest_prompt_tokens, 42);
    assert_eq!(m.get_session(&a).unwrap().latest_prompt_tokens, 0);
}

#[test]
fn touching_stamps_the_current_utc_time() {
    let mut s = Session::new("a".to_string(), "sys", config());
    s.edited_at = "long ago".to_string();
    s.touch();
    assert!(s.edited_at.len() >= 25);
    assert!(s.edited_at.ends_with("+00:00"));
    assert!(s.edited_at.contains('T'));
    assert_eq!(s.name, "a");
}
