use crust::skills::{
    check_unique_skill_names, find_markdown_skill, format_markdown_skill_detail,
    format_markdown_skills, frontmatter_get, parse_frontmatter_bool, parse_frontmatter_list,
    parse_markdown_skill, parse_skill_command, render_skill_prompt, split_markdown_frontmatter,
};

const REVIEW: &str = "---\nname: review\ndescription: Reviews a change\nallowed-tools: [shell_tool, \"read_file_tool\"]\nwhen-to-use: before merging\nmodel: fast\nuser-invocable: no\n---\n# Review\n\nCheck {{args}} carefully.\n";

fn skill(content: &str, folder: &str, keep_content: bool) -> crust::skills::MarkdownSkill {
    parse_markdown_skill(
        format!("/skills/{folder}/SKILL.md"),
        Some(folder.to_string()),
        content.to_string(),
        keep_content,
    )
}

#[test]
fn frontmatter_is_split_from_the_body() {
    let (entries, body) = split_markdown_frontmatter("---\nName: x\nbad line\nkey : v : w\n---\nbody\n");
    assert_eq!(
        entries,
        vec![("name".to_string(), "x".to_string()), ("key".to_string(), "v : w".to_string())]
    );
    assert_eq!(body, "body\n");
}

#[test]
fn frontmatter_needs_both_markers() {
    let (entries, body) = split_markdown_frontmatter("---\nname: x\nno end");
    assert!(entries.is_empty());
    assert_eq!(body, "---\nname: x\nno end");
    let (entries, body) = split_markdown_frontmatter("plain text");
    assert!(entries.is_empty());
    assert_eq!(body, "plain text");
}

#[test]
fn frontmatter_last_value_wins() {
    let (entries, _) = split_markdown_frontmatter("---\nmodel: a\nmodel: b\n---\n");
    assert_eq!(frontmatter_get(&entries, "model"), Some("b".to_string()));
    assert_eq!(frontmatter_get(&entries, "effort"), None);
}

#[test]
fn frontmatter_lists_and_flags() {
    let v = "[a, \"b\", 'c', ,]".to_string();
    assert_eq!(parse_frontmatter_list(Some(&v)), vec!["a", "b", "c"]);
    assert!(parse_frontmatter_list(None).is_empty());
    assert!(parse_frontmatter_bool(Some(&" YES ".to_string()), false));
    assert!(parse_frontmatter_bool(Some(&"1".to_string()), false));
    assert!(!parse_frontmatter_bool(Some(&"nope".to_string()), true));
    assert!(parse_frontmatter_bool(None, true));
    assert!(!parse_frontmatter_bool(None, false));
}

#[test]
fn skill_from_frontmatter() {
    let s = skill(REVIEW, "review-dir", false);
    assert_eq!(s.name, "review");
    assert_eq!(s.description, "Reviews a change");
    assert_eq!(s.allowed_tools, vec!["shell_tool", "read_file_tool"]);
    assert_eq!(s.when_to_use.as_deref(), Some("before merging"));
    assert_eq!(s.model.as_deref(), Some("fast"));
    assert!(s.effort.is_none());
    assert!(!s.user_invocable);
    assert!(s.content.is_none());
    assert_eq!(s.path, "/skills/review-dir/SKILL.md");
}

#[test]
fn skill_from_body_and_folder() {
    let s = skill("# Deploy helper\n\n- a list\n```\nDeploys things.\n", "deploy", true);
    assert_eq!(s.name, "Deploy helper");
    assert_eq!(s.description, "Deploys things.");
    assert!(s.allowed_tools.is_empty());
    assert!(s.user_invocable);
    assert_eq!(s.content.as_deref(), Some("# Deploy helper\n\n- a list\n```\nDeploys things.\n"));
    let bare = skill("", "folder-name", false);
    assert_eq!(bare.name, "folder-name");
    assert_eq!(bare.description, "No description");
    let nameless = parse_markdown_skill("SKILL.md".to_string(), None, String::new(), false);
    assert_eq!(nameless.name, "skill");
}

#[test]
fn skills_are_found_by_name_or_folder() {
    let skills = vec![skill(REVIEW, "review-dir", false), skill("# Other\n", "other", false)];
    assert_eq!(find_markdown_skill(&skills, "REVIEW"), Ok(0));
    assert_eq!(find_markdown_skill(&skills, "review-dir"), Ok(0));
    assert_eq!(find_markdown_skill(&skills, "other"), Ok(1));
    assert_eq!(find_markdown_skill(&skills, "nope"), Err("skill `nope` not found".to_string()));
    assert!(skills[1].matches("OTHER"));
}

#[test]
fn duplicate_skill_names_are_refused() {
    let ok = vec![skill(REVIEW, "a", false), skill("# Other\n", "b", false)];
    assert_eq!(check_unique_skill_names(&ok), Ok(()));
    let dup = vec![skill("# Same\n", "a", false), skill("# SAME\n", "b", false)];
    assert_eq!(
        check_unique_skill_names(&dup),
        Err("duplicate markdown skill `SAME`".to_string())
    );
}

#[test]
fn skills_listing() {
    assert_eq!(
        format_markdown_skills(&Vec::new(), "/w/skills"),
        "No markdown skills found in `/w/skills`. Set CRUST_SKILLS_DIR to override."
    );
    let skills = vec![skill(REVIEW, "review-dir", false), skill("# Other\n", "other", false)];
    assert_eq!(
        format_markdown_skills(&skills, "/w/skills"),
        "Loaded 2 markdown skill(s):\n- review -> /skills/review-dir/SKILL.md\n  Reviews a change\n  tools: shell_tool, read_file_tool\n- Other -> /skills/other/SKILL.md\n  No description\n  tools: default"
    );
}

#[test]
fn skill_detail() {
    let s = skill(REVIEW, "review-dir", true);
    let expected = format!(
        "review\npath: /skills/review-dir/SKILL.md\ndescription: Reviews a change\nallowed-tools: shell_tool, read_file_tool\nwhen_to_use: before merging\nmodel: fast\neffort: default\nuser-invocable: false\n\n{}",
        REVIEW
    );
    assert_eq!(format_markdown_skill_detail(&s), expected);
}

#[test]
fn skill_prompt_substitutes_arguments() {
    let s = skill("# T\nUse {{args}} and $ARGUMENTS and {{ARGUMENTS}}.", "t", true);
    assert_eq!(
        render_skill_prompt(&s, " x "),
        "Run skill `T` with args:\nx\n\nAllowed tools for this skill: default tool policy\n\n# T\nUse  x  and  x  and  x ."
    );
    let r = skill(REVIEW, "review-dir", true);
    assert!(render_skill_prompt(&r, "main")
        .starts_with("Run skill `review` with args:\nmain\n\nAllowed tools for this skill: shell_tool, read_file_tool\n\n"));
}

#[test]
fn skill_command() {
    assert_eq!(
        parse_skill_command("/skill review  the diff "),
        Some(("review".to_string(), "the diff".to_string()))
    );
    assert_eq!(parse_skill_command("/skill review"), Some(("review".to_string(), String::new())));
    assert_eq!(parse_skill_command("/skill   "), None);
    assert_eq!(parse_skill_command("/skills"), None);
}
