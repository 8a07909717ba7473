use crust::workspace::{resolve_parts, resolve_tool_path, workspace_root, PathPart};
use crust::json::JsonValue;
use crust::tools::{
    convert_windows_unix_style_path, edit_file_reply, edit_file_text, read_file_reply,
    shell_command_reply, timed_out_shell_result, tool_kind, unhandled_tool_reply,
    validate_edit_request, web_search_reply, write_file_reply, SearchHit, ShellResult, ToolKind,
};
use serde_json::Value;

fn to_value(v: &JsonValue) -> Value {
    match v {
        JsonValue::Null => Value::Null,
        JsonValue::Bool(b) => Value::Bool(*b),
        JsonValue::Number(n) => serde_json::from_str(n).expect("a number"),
        JsonValue::Str(s) => Value::String(s.clone()),
        JsonValue::Array(items) => Value::Array(items.iter().map(to_value).collect()),
        JsonValue::Object(members) => {
            let mut map = serde_json::Map::new();
            for (k, v) in members {
                map.insert(k.clone(), to_value(v));
            }
            Value::Object(map)
        }
    }
}

fn expect(v: &JsonValue, expected: &str) {
    let parsed: Value = serde_json::from_str(expected).expect("expected JSON");
    assert_eq!(to_value(v), parsed);
}

#[test]
fn read_whole_file() {
    let v = read_file_reply("notes.txt", None, None, "a\nb\nc\n");
    expect(
        &v,
        r#"{"filename":"notes.txt","offset":1,"limit":2000,"lines_read":3,"total_lines":3,
            "file_size":6,"bytes_read":6,"truncated":false,"next_offset":null,"content":"a\nb\nc"}"#,
    );
}

#[test]
fn read_window_with_continuation() {
    let v = read_file_reply("f", Some(2), Some(2), "one\ntwo\nthree\nfour\nfive");
    expect(
        &v,
        r#"{"filename":"f","offset":2,"limit":2,"lines_read":2,"total_lines":5,"file_size":23,
            "bytes_read":10,"truncated":true,"next_offset":4,
            "content":"two\nthree\n\n[2 more lines in file. Use offset=4 to continue.]"}"#,
    );
}

#[test]
fn read_clamps_offset_and_limit() {
    let v = read_file_reply("f", Some(0), Some(0), "x\ny");
    expect(
        &v,
        r#"{"filename":"f","offset":1,"limit":1,"lines_read":1,"total_lines":2,"file_size":3,
            "bytes_read":2,"truncated":true,"next_offset":2,
            "content":"x\n\n[1 more lines in file. Use offset=2 to continue.]"}"#,
    );
}

#[test]
fn read_beyond_end() {
    let v = read_file_reply("f", Some(9), None, "x\ny\n");
    expect(
        &v,
        r#"{"filename":"f","offset":9,"limit":2000,"total_lines":2,"file_size":4,"bytes_read":0,
            "truncated":false,"next_offset":null,"content":"",
            "message":"Offset 9 is beyond end of file (2 lines total)"}"#,
    );
    let empty = read_file_reply("e", None, None, "");
    expect(
        &empty,
        r#"{"filename":"e","offset":1,"limit":2000,"total_lines":0,"file_size":0,"bytes_read":0,
            "truncated":false,"next_offset":null,"content":"",
            "message":"Offset 1 is beyond end of file (0 lines total)"}"#,
    );
}

#[test]
fn read_stops_at_byte_budget_unless_limited() {
    let line = "y".repeat(1023);
    let raw = vec![line.as_str(); 60].join("\n");
    let v = read_file_reply("big", None, None, &raw);
    let value = to_value(&v);
    assert_eq!(value["lines_read"], 50);
    assert_eq!(value["bytes_read"], 51200);
    assert_eq!(value["next_offset"], 51);
    let limited = to_value(&read_file_reply("big", None, Some(60), &raw));
    assert_eq!(limited["lines_read"], 60);
    assert_eq!(limited["truncated"], false);
}

#[test]
fn edits() {
    assert_eq!(validate_edit_request(""), Err("edit_file_tool oldcontent cannot be empty".to_string()));
    assert_eq!(validate_edit_request("x"), Ok(()));
    assert_eq!(edit_file_text("a b a", "a", "c"), Some("c b a".to_string()));
    assert_eq!(edit_file_text("hello", "zz", "c"), None);
    expect(&edit_file_reply(true), r#"{"err":"false","content":"edit file activated"}"#);
    expect(&edit_file_reply(false), r#"{"err":"true","content":"Oldcontent not found"}"#);
    expect(&write_file_reply("out.rs"), r#"{"filename":"out.rs"}"#);
}

#[test]
fn shell_replies() {
    let r = ShellResult { exitcode: -2, output: "out".to_string(), error: "err".to_string() };
    expect(&shell_command_reply(&r), r#"{"exitcode":-2,"output":"out","error":"err"}"#);
    let t = timed_out_shell_result(1500);
    assert_eq!(t.exitcode, -1);
    assert_eq!(t.output, "");
    assert_eq!(t.error, "Command timed out after 1500 ms.");
}

fn hit(n: u32) -> SearchHit {
    SearchHit {
        title: format!("t{n}"),
        url: format!("https://e/{n}"),
        content: format!("c{n}"),
    }
}

#[test]
fn web_search_replies() {
    let hits = vec![hit(1), hit(2), hit(3)];
    let v = web_search_reply(Some("42".to_string()), Some(vec!["why?".to_string()]), &hits, 2);
    expect(
        &v,
        r#"{"answer":"42","follow_up_questions":["why?"],"results_titles":["t1","t2"],
            "results_urls":["https://e/1","https://e/2"],"results_contents":["c1","c2"]}"#,
    );
    let none = web_search_reply(None, None, &Vec::new(), 5);
    expect(
        &none,
        r#"{"answer":"no answers","follow_up_questions":["no follow ups"],"results_titles":[],
            "results_urls":[],"results_contents":[]}"#,
    );
}

#[test]
fn tool_names() {
    assert_eq!(tool_kind("web_search_tool"), Some(ToolKind::WebSearch));
    assert_eq!(tool_kind("shell_calling_tool"), Some(ToolKind::Shell));
    assert_eq!(tool_kind("read_file_tool"), Some(ToolKind::ReadFile));
    assert_eq!(tool_kind("write_file_tool"), Some(ToolKind::WriteFile));
    assert_eq!(tool_kind("edit_file_tool"), Some(ToolKind::EditFile));
    assert_eq!(tool_kind("langgraph_run_tool"), Some(ToolKind::LangGraphRun));
    assert_eq!(tool_kind("other"), None);
    assert_eq!(unhandled_tool_reply(), "unhandled tool:{tc.name()}");
}

#[test]
fn windows_paths() {
    assert_eq!(convert_windows_unix_style_path("/mnt/c/src/x", false), "/mnt/c/src/x");
    assert_eq!(convert_windows_unix_style_path("/mnt/c/src/x", true), "C:/src/x");
    assert_eq!(convert_windows_unix_style_path("/MNT/d/", true), "D:/");
    assert_eq!(convert_windows_unix_style_path("/e/work", true), "E:/work");
    assert_eq!(convert_windows_unix_style_path("\\c\\dir\\f", true), "C:/dir/f");
    assert_eq!(convert_windows_unix_style_path("dir\\f.txt", true), "dir\\f.txt");
    assert_eq!(convert_windows_unix_style_path("/c/", true), "/c/");
}

fn shown(parts: &[PathPart]) -> Vec<String> {
    parts
        .iter()
        .map(|p| match p {
            PathPart::Prefix(t) => format!("prefix {t}"),
            PathPart::Root(t) => format!("root {t}"),
            PathPart::Here => ".".to_string(),
            PathPart::Up => "..".to_string(),
            PathPart::Name(t) => t.clone(),
        })
        .collect()
}

#[test]
fn tool_paths_resolve_inside_the_workspace() {
    let ws = workspace_root("/home/u/proj");
    let ok = |name: &str| shown(&resolve_tool_path(name, &ws, false).unwrap());
    assert_eq!(ok("src/main.rs"), vec!["root /", "home", "u", "proj", "src", "main.rs"]);
    assert_eq!(ok("./a/./b"), vec!["root /", "home", "u", "proj", "a", "b"]);
    assert_eq!(ok("."), vec!["root /", "home", "u", "proj"]);
    assert_eq!(shown(&workspace_root("/home/u/../v/./w")), vec!["root /", "home", "v", "w"]);
    assert_eq!(ok("/home/u/proj/notes.md"), vec!["root /", "home", "u", "proj", "notes.md"]);
    assert_eq!(
        shown(&resolve_tool_path("a", &workspace_root("/home/u/./proj/"), false).unwrap()),
        vec!["root /", "home", "u", "proj", "a"]
    );
    let refused = |name: &str| resolve_tool_path(name, &ws, false).err().unwrap();
    assert_eq!(refused(""), "tool filename cannot be empty");
    assert_eq!(refused("../x"), "tool path `../x` cannot contain parent directory segments");
    assert_eq!(refused("a/../../x"), "tool path `a/../../x` cannot contain parent directory segments");
    assert_eq!(refused("/etc/passwd"), "tool path `/etc/passwd` resolves outside the workspace");
    assert_eq!(refused("/home/u/projects/x"), "tool path `/home/u/projects/x` resolves outside the workspace");
}

#[test]
fn windows_paths_join_by_prefix_and_root() {
    let name = |t: &str| PathPart::Name(t.to_string());
    let prefix = || PathPart::Prefix("C:".to_string());
    let root = || PathPart::Root("\\".to_string());
    let ws = vec![prefix(), root(), name("w")];
    let absolute = vec![prefix(), root(), name("w"), name("f")];
    let r = resolve_parts("C:\\w\\f", &absolute, true, &absolute, true, &ws).unwrap();
    assert_eq!(shown(&r), vec!["prefix C:", "root \\", "w", "f"]);
    let rooted = vec![root(), name("w"), name("g")];
    let r = resolve_parts("\\w\\g", &rooted, false, &rooted, false, &ws).unwrap();
    assert_eq!(shown(&r), vec!["prefix C:", "root \\", "w", "g"]);
    let other_drive = vec![PathPart::Prefix("D:".to_string()), name("x")];
    assert_eq!(
        resolve_parts("D:x", &other_drive, false, &other_drive, false, &ws).err().unwrap(),
        "tool path `D:x` resolves outside the workspace"
    );
    let only_here = vec![PathPart::Here];
    let r = resolve_parts(".", &only_here, false, &only_here, false, &ws).unwrap();
    assert_eq!(shown(&r), vec!["prefix C:", "root \\", "w"]);
}
