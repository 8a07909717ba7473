use crust::cli::{
    check_space_absent, cli_help_text, format_space_attach, new_space, parse_langgraph_add_args,
    parse_space_create_args, parse_space_spawn_args, remove_server, required_arg, route_cli,
    route_langgraph_cli, route_skills_cli, route_spaces_cli, skill_cli_prompt, spawned_space,
    stop_space, CliCommand, LangGraphCommand, SpacesCommand,
};
use crust::registry::{LangGraphRegistry, LangGraphServer, SpaceStatus, SpacesRegistry};
use crust::skills::parse_markdown_skill;

fn args(a: &[&str]) -> Vec<String> {
    a.iter().map(|s| s.to_string()).collect()
}

#[test]
fn routing() {
    assert_eq!(route_cli(&args(&[])), Ok(CliCommand::Nothing));
    assert_eq!(route_cli(&args(&["help"])), Ok(CliCommand::Help));
    assert_eq!(route_cli(&args(&["-h"])), Ok(CliCommand::Help));
    assert_eq!(route_cli(&args(&["--help"])), Ok(CliCommand::Help));
    assert_eq!(route_cli(&args(&["langgraph", "list"])), Ok(CliCommand::LangGraph));
    assert_eq!(route_cli(&args(&["skills"])), Ok(CliCommand::Skills));
    assert_eq!(route_cli(&args(&["skill", "x"])), Ok(CliCommand::Skill));
    assert_eq!(route_cli(&args(&["spaces"])), Ok(CliCommand::Spaces));
    assert_eq!(
        route_cli(&args(&["bogus"])),
        Err("unknown command `bogus`. Run `crust help` for available commands.".to_string())
    );
}

#[test]
fn help_mentions_every_command() {
    let help = cli_help_text();
    assert!(help.starts_with("crust\n\nUsage:\n"));
    for c in ["skills list", "spaces spawn", "langgraph add", "langgraph ping"] {
        assert!(help.contains(c));
    }
}

#[test]
fn langgraph_add_full() {
    let s = parse_langgraph_add_args(&args(&[
        "dev",
        "--url",
        " http://localhost:2024/ ",
        "--name",
        "Local",
        "--assistant-id",
        "agent",
        "--default-graph",
        "g",
        "--auth-env",
        "KEY",
        "--auth-header",
        "x-api-key",
        "--auth-scheme",
        "Bearer",
        "--timeout-secs",
        "12",
    ]))
    .unwrap();
    assert_eq!(s.id, "dev");
    assert_eq!(s.name, "Local");
    assert_eq!(s.base_url, "http://localhost:2024");
    assert_eq!(s.assistant_id.as_deref(), Some("agent"));
    assert_eq!(s.default_graph.as_deref(), Some("g"));
    assert_eq!(s.auth_env.as_deref(), Some("KEY"));
    assert_eq!(s.auth_header.as_deref(), Some("x-api-key"));
    assert_eq!(s.auth_scheme.as_deref(), Some("Bearer"));
    assert_eq!(s.timeout_secs, Some(12));
}

#[test]
fn langgraph_add_defaults_name_to_id() {
    let s = parse_langgraph_add_args(&args(&["dev", "--url", "https://h"])).unwrap();
    assert_eq!(s.name, "dev");
    assert!(s.timeout_secs.is_none());
    assert!(s.assistant_id.is_none());
}

fn add_error(a: &[&str]) -> String {
    match parse_langgraph_add_args(&args(a)) {
        Err(e) => e,
        Ok(_) => panic!("expected an error"),
    }
}

#[test]
fn langgraph_add_errors() {
    assert_eq!(add_error(&[]), "usage: crust langgraph add <id> --url <base_url>");
    assert_eq!(add_error(&["--url"]), "LangGraph server id cannot be empty or start with `-`");
    assert_eq!(add_error(&["dev"]), "missing required `--url <base_url>`");
    assert_eq!(add_error(&["dev", "--url"]), "missing value for `--url`");
    assert_eq!(add_error(&["dev", "--url", "ftp://h"]), "LangGraph --url must start with http:// or https://");
    assert_eq!(add_error(&["dev", "--port", "1"]), "unknown flag `--port` for langgraph add");
    assert_eq!(
        add_error(&["dev", "--url", "http://h", "--timeout-secs", "soon"]),
        "invalid --timeout-secs value `soon`: invalid digit found in string"
    );
    assert_eq!(
        add_error(&["dev", "--url", "http://h", "--timeout-secs", ""]),
        "invalid --timeout-secs value ``: cannot parse integer from empty string"
    );
}

#[test]
fn space_create_args() {
    assert_eq!(
        parse_space_create_args(&args(&["s1"]), "/here"),
        Ok(("s1".to_string(), "/here".to_string(), None))
    );
    assert_eq!(
        parse_space_create_args(&args(&["s1", "--task", "fix", "--cwd", "/w"]), "/here"),
        Ok(("s1".to_string(), "/w".to_string(), Some("fix".to_string())))
    );
    assert_eq!(
        parse_space_create_args(&args(&[]), "/here"),
        Err("usage: crust spaces create <id> [--cwd <path>] [--task <task>]".to_string())
    );
    assert_eq!(
        parse_space_create_args(&args(&["-x"]), "/here"),
        Err("space id cannot be empty or start with `-`".to_string())
    );
    assert_eq!(
        parse_space_create_args(&args(&["s1", "--cwd"]), "/here"),
        Err("missing value for `--cwd`".to_string())
    );
    assert_eq!(
        parse_space_create_args(&args(&["s1", "--what", "x"]), "/here"),
        Err("unknown flag `--what` for spaces create".to_string())
    );
}

#[test]
fn space_spawn_args() {
    assert_eq!(
        parse_space_spawn_args(&args(&["s1", "write", "the", "tests"]), "/here"),
        Ok(("s1".to_string(), "/here".to_string(), "write the tests".to_string()))
    );
    assert_eq!(
        parse_space_spawn_args(&args(&["s1", "--cwd", "/w", "go"]), "/here"),
        Ok(("s1".to_string(), "/w".to_string(), "go".to_string()))
    );
    assert_eq!(
        parse_space_spawn_args(&args(&["s1"]), "/here"),
        Err("usage: crust spaces spawn <id> [--cwd <path>] <task>".to_string())
    );
    assert_eq!(
        parse_space_spawn_args(&args(&["s1", "--cwd"]), "/here"),
        Err("missing value for `--cwd`".to_string())
    );
}

#[test]
fn spaces_made_by_the_cli() {
    let fresh = new_space("s1", "/w".to_string(), Some("t".to_string()), "sess".to_string(), "task-1".to_string(), "now".to_string());
    assert_eq!(fresh.name, "s1");
    assert_eq!(fresh.status, SpaceStatus::Idle);
    assert_eq!(fresh.task_id.as_deref(), Some("task-1"));
    let no_task = new_space("s2", "/w".to_string(), None, "sess".to_string(), "task-2".to_string(), "now".to_string());
    assert!(no_task.task_id.is_none());

    let spawned = spawned_space(Some(&fresh), "s1", "/other".to_string(), "new task", "task-3".to_string(), "ignored".to_string(), "later".to_string());
    assert_eq!(spawned.session_id, "sess");
    assert_eq!(spawned.created_at, "now");
    assert_eq!(spawned.updated_at, "later");
    assert_eq!(spawned.status, SpaceStatus::Running);
    assert_eq!(spawned.cwd, "/other");
    assert_eq!(spawned.task.as_deref(), Some("new task"));

    let first = spawned_space(None, "s9", "/w".to_string(), "go", "task-4".to_string(), "sess-9".to_string(), "t0".to_string());
    assert_eq!(first.id, "s9");
    assert_eq!(first.session_id, "sess-9");
    assert_eq!(first.created_at, "t0");

    assert_eq!(
        format_space_attach(&first, "/in.jsonl", "/out.jsonl"),
        "Space `s9`: status=running cwd=/w session=sess-9 task=go\ninbox: /in.jsonl\noutbox: /out.jsonl"
    );
}

#[test]
fn sub_commands() {
    assert_eq!(route_spaces_cli(&args(&[])), Ok(SpacesCommand::List));
    assert_eq!(route_spaces_cli(&args(&["spawn", "x"])), Ok(SpacesCommand::Spawn));
    assert_eq!(route_spaces_cli(&args(&["stop"])), Ok(SpacesCommand::Stop));
    assert_eq!(
        route_spaces_cli(&args(&["delete"])),
        Err("unknown spaces command `delete`. Use list, create, attach, or stop.".to_string())
    );
    assert_eq!(route_langgraph_cli(&args(&[])), Ok(LangGraphCommand::Help));
    assert_eq!(route_langgraph_cli(&args(&["ping", "dev"])), Ok(LangGraphCommand::Ping));
    assert_eq!(route_langgraph_cli(&args(&["remove"])), Ok(LangGraphCommand::Remove));
    assert_eq!(
        route_langgraph_cli(&args(&["runs"])),
        Err("unknown langgraph command `runs`. Run `crust help` for available commands.".to_string())
    );
    assert_eq!(route_skills_cli(&args(&[])), Ok(None));
    assert_eq!(route_skills_cli(&args(&["show", "review"])), Ok(Some("review".to_string())));
    assert_eq!(route_skills_cli(&args(&["show"])), Err("usage: crust skills show <name>".to_string()));
    assert_eq!(
        route_skills_cli(&args(&["edit"])),
        Err("unknown skills command `edit`. Use `crust skills list` or `crust skills show <name>`.".to_string())
    );
    assert_eq!(required_arg(&args(&[]), "usage: crust spaces stop <id>"), Err("usage: crust spaces stop <id>".to_string()));
    assert_eq!(required_arg(&args(&["s1", "x"]), "u"), Ok("s1".to_string()));
}

#[test]
fn skill_invocation_from_the_command_line() {
    let skill = parse_markdown_skill("/s/SKILL.md".to_string(), None, "# Fix\nFix $ARGUMENTS".to_string(), true);
    assert_eq!(
        skill_cli_prompt(&skill, &args(&["fix", "the", "bug"])),
        Ok("Run skill `Fix` with args:\nthe bug\n\nAllowed tools for this skill: default tool policy\n\n# Fix\nFix the bug".to_string())
    );
    let hidden = parse_markdown_skill(
        "/s/SKILL.md".to_string(),
        None,
        "---\nname: secret\nuser-invocable: false\n---\nbody".to_string(),
        true,
    );
    assert_eq!(skill_cli_prompt(&hidden, &args(&["secret"])), Err("skill `secret` is not user-invocable".to_string()));
}

#[test]
fn registry_changes_from_the_command_line() {
    let mut spaces = SpacesRegistry { spaces: vec![new_space("s1", "/w".to_string(), None, "sess".to_string(), "t".to_string(), "then".to_string())] };
    assert_eq!(check_space_absent(&spaces, "S1"), Err("space `S1` already exists".to_string()));
    assert_eq!(check_space_absent(&spaces, "s2"), Ok(()));
    assert_eq!(stop_space(&mut spaces, "s1", "now".to_string()), Ok(()));
    assert_eq!(spaces.spaces[0].status, SpaceStatus::Stopped);
    assert_eq!(spaces.spaces[0].updated_at, "now");
    assert_eq!(spaces.spaces[0].created_at, "then");
    assert_eq!(stop_space(&mut spaces, "zz", "now".to_string()), Err("space `zz` not found".to_string()));

    let server = LangGraphServer {
        id: "dev".to_string(),
        name: "dev".to_string(),
        base_url: "http://h".to_string(),
        assistant_id: None,
        default_graph: None,
        auth_env: None,
        auth_header: None,
        auth_scheme: None,
        timeout_secs: None,
    };
    let mut servers = LangGraphRegistry { servers: vec![server] };
    assert_eq!(remove_server(&mut servers, "dev"), Ok(()));
    assert!(servers.servers.is_empty());
    assert_eq!(remove_server(&mut servers, "dev"), Err("LangGraph server `dev` not found".to_string()));
}
