//! Markdown skills: their front matter, listings, prompts and the `/skill` command.

use vstd::prelude::*;
use vstd::string::*;

use crate::json::{array, items_view, member, members_view, object, text, JsonValue, JsonView};
use crate::message::{clone_opt_string, opt_view};
use crate::text::{
    ascii_lower, chars_of, chars_starts_with, decimal, eq_ignore_ascii_case, eq_ignore_case_spec,
    find_chars, find_spec, is_blank, is_blank_spec, str_eq, strip_prefix_spec, to_ascii_lowercase,
    trim, trim_spec, u64_to_decimal,
};
use crate::words::{
    after_first_word, first_word, join, join_strings, lines, replace_all, replace_spec,
    split_char, split_first_word, split_lines, split_on, split_once_char, split_once_spec,
    strip_prefix, strs, text_or, text_or_default, trim_char, trim_end_char, trim_end_matches,
    trim_matches, trim_start_char, trim_start_matches,
};

verus! {

/// A skill written in markdown, with what its front matter declares.
pub struct MarkdownSkill {
    pub name: String,
    pub description: String,
    pub allowed_tools: Vec<String>,
    pub when_to_use: Option<String>,
    pub model: Option<String>,
    pub effort: Option<String>,
    pub user_invocable: bool,
    /// Where the skill's file is, as displayed.
    pub path: String,
    /// The name of the folder that holds the skill's file, when it has one.
    pub folder: Option<String>,
    pub content: Option<String>,
}

// ---------------------------------------------------------------------------
// Front matter
// ---------------------------------------------------------------------------

/// The entries of front-matter lines: each line with a `:` gives its key (trimmed, in ASCII
/// lowercase) and its value (trimmed); other lines give nothing.
pub open spec fn frontmatter_entries(ls: Seq<Seq<char>>) -> Seq<(Seq<char>, Seq<char>)>
    decreases ls.len(),
{
    if ls.len() == 0 {
        seq![]
    } else {
        let rest = frontmatter_entries(ls.drop_last());
        match split_once_spec(ls.last(), ':') {
            Some((k, v)) => rest.push((ascii_lower(trim_spec(k)), trim_spec(v))),
            None => rest,
        }
    }
}

/// The value of `key` in the entries: the last one given for it.
pub open spec fn lookup(entries: Seq<(Seq<char>, Seq<char>)>, key: Seq<char>) -> Option<Seq<char>>
    decreases entries.len(),
{
    if entries.len() == 0 {
        None
    } else if entries.last().0 == key {
        Some(entries.last().1)
    } else {
        lookup(entries.drop_last(), key)
    }
}

/// A document split into its front matter and its body: front matter stands between a
/// first line `---` and the next line `---`; without both, there is none and the body is
/// the whole document.
pub open spec fn split_frontmatter(content: Seq<char>) -> (Seq<(Seq<char>, Seq<char>)>, Seq<char>) {
    match strip_prefix_spec(content, "---\n"@) {
        None => (seq![], content),
        Some(rest) => match find_spec(rest, "\n---\n"@) {
            None => (seq![], content),
            Some(end) => (frontmatter_entries(lines(rest.take(end))), rest.skip(end + 5)),
        },
    }
}

/// The front matter entries and the body of a document.
pub fn split_markdown_frontmatter(content: &str) -> (r: (Vec<(String, String)>, String))
    ensures
        split_frontmatter(content@) == (entries_view(r.0@), r.1@),
{
    let none: Vec<(String, String)> = Vec::new();
    proof {
        assert(entries_view(none@) =~= Seq::<(Seq<char>, Seq<char>)>::empty());
    }
    let rest = match strip_prefix(content, "---\n") {
        Some(r) => r,
        None => {
            return (none, content.to_owned());
        },
    };
    let rv = chars_of(rest.as_str());
    let marker = chars_of("\n---\n");
    proof {
        reveal_strlit("\n---\n");
    }
    let found = find_chars(&rv, &marker);
    if found.is_none() {
        return (none, content.to_owned());
    }
    let end = found.unwrap();
    assert(crate::text::occurs_at(rv@, marker@, end as int));
    assert(marker@.len() == 5);
    let n = rv.len();
    assert(end + 5 <= n);
    let head = crate::text::string_of_range(&rv, 0, end);
    let body = crate::text::string_of_range(&rv, end + 5, n);
    proof {
        assert(rv@.subrange(0, end as int) =~= rv@.take(end as int));
        assert(rv@.subrange(end + 5, rv@.len() as int) =~= rv@.skip(end + 5));
    }
    let ls = split_lines(head.as_str());
    let ghost lv = strs(ls@);
    let mut entries: Vec<(String, String)> = Vec::new();
    let mut i: usize = 0;
    while i < ls.len()
        invariant
            i <= ls@.len(),
            lv == strs(ls@),
            entries_view(entries@) == frontmatter_entries(lv.take(i as int)),
        decreases ls@.len() - i,
    {
        proof {
            assert(lv.take(i + 1).drop_last() =~= lv.take(i as int));
            assert(lv.take(i + 1).last() == ls@[i as int]@);
        }
        let ghost before = entries_view(entries@);
        match split_once_char(ls[i].as_str(), ':') {
            Some((k, v)) => {
                let key = to_ascii_lowercase(trim(k.as_str()).as_str());
                let value = trim(v.as_str());
                entries.push((key, value));
                proof {
                    assert(entries_view(entries@) =~= before.push((key@, value@)));
                }
            },
            None => {},
        }
        i = i + 1;
    }
    proof {
        assert(lv.take(ls@.len() as int) =~= lv);
    }
    (entries, body)
}

/// The contents of a list of entries.
pub open spec fn entries_view(e: Seq<(String, String)>) -> Seq<(Seq<char>, Seq<char>)> {
    e.map_values(|p: (String, String)| (p.0@, p.1@))
}

/// The value of `key` in front matter entries.
pub fn frontmatter_get(entries: &Vec<(String, String)>, key: &str) -> (r: Option<String>)
    ensures
        opt_view(r) == lookup(entries_view(entries@), key@),
{
    let ghost ev = entries_view(entries@);
    let mut i: usize = entries.len();
    proof {
        assert(ev.take(ev.len() as int) =~= ev);
    }
    while i > 0
        invariant
            i <= entries@.len(),
            ev == entries_view(entries@),
            lookup(ev, key@) == lookup(ev.take(i as int), key@),
        decreases i,
    {
        proof {
            assert(ev.take(i as int).last() == (entries@[i - 1].0@, entries@[i - 1].1@));
            assert(ev.take(i as int).drop_last() =~= ev.take(i - 1));
        }
        if str_eq(entries[i - 1].0.as_str(), key) {
            return Some(entries[i - 1].1.clone());
        }
        i = i - 1;
    }
    None
}

/// The items of a front-matter list such as `[a, "b", 'c']`: the text without its brackets,
/// split at commas, each item trimmed of whitespace and quotes; empty items are left out.
pub open spec fn list_items(value: Seq<char>) -> Seq<Seq<char>> {
    nonempty_items(
        split_on(trim_end_char(trim_start_char(trim_spec(value), '['), ']'), ',').map_values(
            |x: Seq<char>| clean_item(x),
        ),
    )
}

/// An item of a list without surrounding whitespace and quotes.
pub open spec fn clean_item(x: Seq<char>) -> Seq<char> {
    trim_char(trim_char(trim_spec(x), '"'), '\'')
}

/// The items that are not empty, in order.
pub open spec fn nonempty_items(s: Seq<Seq<char>>) -> Seq<Seq<char>>
    decreases s.len(),
{
    if s.len() == 0 {
        seq![]
    } else if s.last().len() == 0 {
        nonempty_items(s.drop_last())
    } else {
        nonempty_items(s.drop_last()).push(s.last())
    }
}

/// The items of a front-matter list value, or none without a value.
pub fn parse_frontmatter_list(value: Option<&String>) -> (r: Vec<String>)
    ensures
        strs(r@) == match value {
            Some(v) => list_items(v@),
            None => seq![],
        },
{
    let mut out: Vec<String> = Vec::new();
    let v = match value {
        Some(v) => v,
        None => {
            assert(strs(out@) =~= Seq::<Seq<char>>::empty());
            return out;
        },
    };
    let inner = trim_end_matches(trim_start_matches(trim(v.as_str()).as_str(), '[').as_str(), ']');
    let pieces = split_char(inner.as_str(), ',');
    let ghost cleaned = strs(pieces@).map_values(|x: Seq<char>| clean_item(x));
    let mut i: usize = 0;
    while i < pieces.len()
        invariant
            i <= pieces@.len(),
            cleaned == strs(pieces@).map_values(|x: Seq<char>| clean_item(x)),
            strs(out@) == nonempty_items(cleaned.take(i as int)),
        decreases pieces@.len() - i,
    {
        let item = trim_matches(trim_matches(trim(pieces[i].as_str()).as_str(), '"').as_str(), '\'');
        let ghost before = strs(out@);
        proof {
            assert(cleaned.take(i + 1).drop_last() =~= cleaned.take(i as int));
            assert(cleaned.take(i + 1).last() == item@);
        }
        if item.unicode_len() > 0 {
            out.push(item);
            proof {
                assert(strs(out@) =~= before.push(item@));
            }
        }
        i = i + 1;
    }
    proof {
        assert(cleaned.take(pieces@.len() as int) =~= cleaned);
    }
    out
}

/// A front-matter flag: `true`, `yes` or `1` (in any ASCII case, trimmed) for true, any
/// other value for false, and `default` without a value.
pub open spec fn flag_value(value: Option<Seq<char>>, default: bool) -> bool {
    match value {
        Some(v) => {
            let l = ascii_lower(trim_spec(v));
            l == "true"@ || l == "yes"@ || l == "1"@
        },
        None => default,
    }
}

/// Reads a front-matter flag.
pub fn parse_frontmatter_bool(value: Option<&String>, default: bool) -> (r: bool)
    ensures
        r == flag_value(
            match value {
                Some(v) => Some(v@),
                None => None,
            },
            default,
        ),
{
    match value {
        Some(v) => {
            let l = to_ascii_lowercase(trim(v.as_str()).as_str());
            str_eq(l.as_str(), "true") || str_eq(l.as_str(), "yes") || str_eq(l.as_str(), "1")
        },
        None => default,
    }
}

// ---------------------------------------------------------------------------
// Skills
// ---------------------------------------------------------------------------

/// The contents of a skill.
pub ghost struct SkillView {
    pub name: Seq<char>,
    pub description: Seq<char>,
    pub allowed_tools: Seq<Seq<char>>,
    pub when_to_use: Option<Seq<char>>,
    pub model: Option<Seq<char>>,
    pub effort: Option<Seq<char>>,
    pub user_invocable: bool,
    pub path: Seq<char>,
    pub folder: Option<Seq<char>>,
    pub content: Option<Seq<char>>,
}

impl View for MarkdownSkill {
    type V = SkillView;

    open spec fn view(&self) -> SkillView {
        SkillView {
            name: self.name@,
            description: self.description@,
            allowed_tools: strs(self.allowed_tools@),
            when_to_use: opt_view(self.when_to_use),
            model: opt_view(self.model),
            effort: opt_view(self.effort),
            user_invocable: self.user_invocable,
            path: self.path@,
            folder: opt_view(self.folder),
            content: opt_view(self.content),
        }
    }
}

/// The text of the first line that is a level-one heading (`# ` after trimming), trimmed.
pub open spec fn first_heading(ls: Seq<Seq<char>>) -> Option<Seq<char>>
    decreases ls.len(),
{
    if ls.len() == 0 {
        None
    } else {
        match strip_prefix_spec(trim_spec(ls[0]), "# "@) {
            Some(r) => Some(trim_spec(r)),
            None => first_heading(ls.drop_first()),
        }
    }
}

/// A line of prose: not empty, and not a heading, a code fence or a list item.
pub open spec fn is_prose(t: Seq<char>) -> bool {
    t.len() > 0 && !"#"@.is_prefix_of(t) && !"```"@.is_prefix_of(t) && !"-"@.is_prefix_of(t)
}

/// The first line of prose, trimmed.
pub open spec fn first_prose(ls: Seq<Seq<char>>) -> Option<Seq<char>>
    decreases ls.len(),
{
    if ls.len() == 0 {
        None
    } else if is_prose(trim_spec(ls[0])) {
        Some(trim_spec(ls[0]))
    } else {
        first_prose(ls.drop_first())
    }
}

/// A front-matter value that is not blank.
pub open spec fn present(v: Option<Seq<char>>) -> Option<Seq<char>> {
    match v {
        Some(t) => if is_blank_spec(t) {
            None
        } else {
            Some(t)
        },
        None => None,
    }
}

/// The name of a skill: its front matter `name`, else the text of its first heading when
/// not empty, else the name of its folder, else `skill`.
pub open spec fn skill_name(
    fm: Seq<(Seq<char>, Seq<char>)>,
    body: Seq<char>,
    folder: Option<Seq<char>>,
) -> Seq<char> {
    match present(lookup(fm, "name"@)) {
        Some(n) => n,
        None => match first_heading(lines(body)) {
            Some(h) => if h.len() > 0 {
                h
            } else {
                match folder {
                    Some(f) => f,
                    None => "skill"@,
                }
            },
            None => match folder {
                Some(f) => f,
                None => "skill"@,
            },
        },
    }
}

/// The description of a skill: its front matter `description`, else the first line of
/// prose of its body, else `No description`.
pub open spec fn skill_description(fm: Seq<(Seq<char>, Seq<char>)>, body: Seq<char>) -> Seq<char> {
    match present(lookup(fm, "description"@)) {
        Some(d) => d,
        None => match first_prose(lines(body)) {
            Some(p) => p,
            None => "No description"@,
        },
    }
}

/// A skill read from its file at `path`, in `folder`, with the given content (kept only
/// when asked for).
pub open spec fn parsed_skill(
    path: Seq<char>,
    folder: Option<Seq<char>>,
    content: Seq<char>,
    include_content: bool,
) -> SkillView {
    let (fm, body) = split_frontmatter(content);
    SkillView {
        name: skill_name(fm, body, folder),
        description: skill_description(fm, body),
        allowed_tools: match lookup(fm, "allowed-tools"@) {
            Some(v) => list_items(v),
            None => seq![],
        },
        when_to_use: match lookup(fm, "when_to_use"@) {
            Some(w) => Some(w),
            None => lookup(fm, "when-to-use"@),
        },
        model: lookup(fm, "model"@),
        effort: lookup(fm, "effort"@),
        user_invocable: flag_value(lookup(fm, "user-invocable"@), true),
        path,
        folder,
        content: if include_content {
            Some(content)
        } else {
            None
        },
    }
}

fn first_heading_exec(ls: &Vec<String>) -> (r: Option<String>)
    ensures
        opt_view(r) == first_heading(strs(ls@)),
{
    let ghost lv = strs(ls@);
    let mut i: usize = 0;
    proof {
        assert(lv.skip(0) =~= lv);
    }
    while i < ls.len()
        invariant
            i <= ls@.len(),
            lv == strs(ls@),
            first_heading(lv) == first_heading(lv.skip(i as int)),
        decreases ls@.len() - i,
    {
        proof {
            assert(lv.skip(i as int)[0] == ls@[i as int]@);
            assert(lv.skip(i as int).drop_first() =~= lv.skip(i + 1));
        }
        let t = trim(ls[i].as_str());
        match strip_prefix(t.as_str(), "# ") {
            Some(r) => {
                return Some(trim(r.as_str()));
            },
            None => {},
        }
        i = i + 1;
    }
    None
}

fn first_prose_exec(ls: &Vec<String>) -> (r: Option<String>)
    ensures
        opt_view(r) == first_prose(strs(ls@)),
{
    let ghost lv = strs(ls@);
    let mut i: usize = 0;
    proof {
        assert(lv.skip(0) =~= lv);
    }
    while i < ls.len()
        invariant
            i <= ls@.len(),
            lv == strs(ls@),
            first_prose(lv) == first_prose(lv.skip(i as int)),
        decreases ls@.len() - i,
    {
        proof {
            assert(lv.skip(i as int)[0] == ls@[i as int]@);
            assert(lv.skip(i as int).drop_first() =~= lv.skip(i + 1));
        }
        let t = trim(ls[i].as_str());
        if t.unicode_len() > 0 && !crate::text::starts_with(t.as_str(), "#")
            && !crate::text::starts_with(t.as_str(), "```") && !crate::text::starts_with(
            t.as_str(),
            "-",
        ) {
            return Some(t);
        }
        i = i + 1;
    }
    None
}

fn present_exec(v: Option<String>) -> (r: Option<String>)
    ensures
        opt_view(r) == present(opt_view(v)),
{
    match v {
        Some(t) => if is_blank(t.as_str()) {
            None
        } else {
            Some(t)
        },
        None => None,
    }
}

/// Reads a skill from its file.
pub fn parse_markdown_skill(
    path: String,
    folder: Option<String>,
    content: String,
    include_content: bool,
) -> (r: MarkdownSkill)
    ensures
        r@ == parsed_skill(path@, opt_view(folder), content@, include_content),
{
    let (fm, body) = split_markdown_frontmatter(content.as_str());
    let ghost fmv = entries_view(fm@);
    let body_lines = split_lines(body.as_str());
    let name = match present_exec(frontmatter_get(&fm, "name")) {
        Some(n) => n,
        None => {
            let fallback = match &folder {
                Some(f) => f.clone(),
                None => "skill".to_owned(),
            };
            match first_heading_exec(&body_lines) {
                Some(h) => if h.unicode_len() > 0 {
                    h
                } else {
                    fallback
                },
                None => fallback,
            }
        },
    };
    let description = match present_exec(frontmatter_get(&fm, "description")) {
        Some(d) => d,
        None => match first_prose_exec(&body_lines) {
            Some(p) => p,
            None => "No description".to_owned(),
        },
    };
    let tools_value = frontmatter_get(&fm, "allowed-tools");
    let allowed_tools = parse_frontmatter_list(tools_value.as_ref());
    let when_to_use = match frontmatter_get(&fm, "when_to_use") {
        Some(w) => Some(w),
        None => frontmatter_get(&fm, "when-to-use"),
    };
    let model = frontmatter_get(&fm, "model");
    let effort = frontmatter_get(&fm, "effort");
    let invocable_value = frontmatter_get(&fm, "user-invocable");
    let user_invocable = parse_frontmatter_bool(invocable_value.as_ref(), true);
    let content = if include_content {
        Some(content)
    } else {
        None
    };
    MarkdownSkill {
        name,
        description,
        allowed_tools,
        when_to_use,
        model,
        effort,
        user_invocable,
        path,
        folder,
        content,
    }
}

impl MarkdownSkill {
    /// A skill answers to its name and to the name of its folder, in any ASCII case.
    pub open spec fn answers_to(self, requested: Seq<char>) -> bool {
        eq_ignore_case_spec(self.name@, requested) || match self.folder {
            Some(f) => eq_ignore_case_spec(f@, requested),
            None => false,
        }
    }

    /// Whether the skill answers to `requested`.
    pub fn matches(&self, requested: &str) -> (b: bool)
        ensures
            b == self.answers_to(requested@),
    {
        eq_ignore_ascii_case(self.name.as_str(), requested) || match &self.folder {
            Some(f) => eq_ignore_ascii_case(f.as_str(), requested),
            None => false,
        }
    }
}

/// Finds the skill that answers to `requested`: the first such.
pub fn find_markdown_skill(skills: &Vec<MarkdownSkill>, requested: &str) -> (r: Result<usize, String>)
    ensures
        match r {
            Ok(i) => i < skills@.len() && skills@[i as int].answers_to(requested@) && forall|j: int|
                0 <= j < i ==> !skills@[j].answers_to(requested@),
            Err(e) => e@ == "skill `"@ + requested@ + "` not found"@ && forall|j: int|
                0 <= j < skills@.len() ==> !skills@[j].answers_to(requested@),
        },
{
    let mut i: usize = 0;
    while i < skills.len()
        invariant
            i <= skills@.len(),
            forall|j: int| 0 <= j < i ==> !skills@[j].answers_to(requested@),
        decreases skills@.len() - i,
    {
        if skills[i].matches(requested) {
            return Ok(i);
        }
        i = i + 1;
    }
    let mut e = "skill `".to_owned();
    e.append(requested);
    e.append("` not found");
    Err(e)
}

/// Two skills whose names are equal up to ASCII case.
pub open spec fn same_name(a: MarkdownSkill, b: MarkdownSkill) -> bool {
    eq_ignore_case_spec(a.name@, b.name@)
}

fn earlier_same_name(skills: &Vec<MarkdownSkill>, i: usize) -> (r: bool)
    requires
        i < skills@.len(),
    ensures
        r == exists|j: int| 0 <= j < i && #[trigger] same_name(skills@[j], skills@[i as int]),
{
    let mut j: usize = 0;
    while j < i
        invariant
            j <= i < skills@.len(),
            forall|m: int| 0 <= m < j ==> !#[trigger] same_name(skills@[m], skills@[i as int]),
        decreases i - j,
    {
        if eq_ignore_ascii_case(skills[j].name.as_str(), skills[i].name.as_str()) {
            assert(same_name(skills@[j as int], skills@[i as int]));
            return true;
        }
        j = j + 1;
    }
    false
}

/// Checks that no two skills share a name up to ASCII case; the error names the first
/// skill that repeats an earlier name.
pub fn check_unique_skill_names(skills: &Vec<MarkdownSkill>) -> (r: Result<(), String>)
    ensures
        match r {
            Ok(()) => forall|i: int, j: int|
                0 <= j < i < skills@.len() ==> !#[trigger] same_name(skills@[j], skills@[i]),
            Err(e) => exists|i: int|
                0 <= i < skills@.len() && e@ == "duplicate markdown skill `"@ + skills@[i].name@
                    + "`"@ && (exists|j: int| 0 <= j < i && #[trigger] same_name(skills@[j], skills@[i]))
                    && forall|k: int, j: int|
                    0 <= j < k < i ==> !#[trigger] same_name(skills@[j], skills@[k]),
        },
{
    let mut i: usize = 0;
    while i < skills.len()
        invariant
            i <= skills@.len(),
            forall|k: int, j: int| 0 <= j < k < i ==> !#[trigger] same_name(skills@[j], skills@[k]),
        decreases skills@.len() - i,
    {
        if earlier_same_name(skills, i) {
            let mut e = "duplicate markdown skill `".to_owned();
            e.append(skills[i].name.as_str());
            e.append("`");
            return Err(e);
        }
        i = i + 1;
    }
    Ok(())
}

// ---------------------------------------------------------------------------
// Listings, prompts and the `/skill` command
// ---------------------------------------------------------------------------

/// The tools of a skill as listed: `default` without any, else the names joined by `, `.
pub open spec fn tools_text(tools: Seq<Seq<char>>, none: Seq<char>) -> Seq<char> {
    if tools.len() == 0 {
        none
    } else {
        join(tools, ", "@)
    }
}

fn tools_text_exec(tools: &Vec<String>, none: &str) -> (r: String)
    ensures
        r@ == tools_text(strs(tools@), none@),
{
    if tools.len() == 0 {
        none.to_owned()
    } else {
        join_strings(tools.as_slice(), ", ")
    }
}

/// The entry of one skill in the listing.
pub open spec fn skill_listing(s: SkillView) -> Seq<char> {
    "- "@ + s.name + " -> "@ + s.path + "\n  "@ + s.description + "\n  "@ + if s.allowed_tools.len()
        == 0 {
        "tools: default"@
    } else {
        "tools: "@ + join(s.allowed_tools, ", "@)
    }
}

/// The listing of skills, found in the directory `skills_dir`.
pub open spec fn skills_listing(skills: Seq<SkillView>, skills_dir: Seq<char>) -> Seq<char> {
    if skills.len() == 0 {
        "No markdown skills found in `"@ + skills_dir + "`. Set CRUST_SKILLS_DIR to override."@
    } else {
        join(
            seq!["Loaded "@ + decimal(skills.len()) + " markdown skill(s):"@] + skills.map_values(
                |s: SkillView| skill_listing(s),
            ),
            "\n"@,
        )
    }
}

/// The contents of a list of skills.
pub open spec fn skill_views(skills: Seq<MarkdownSkill>) -> Seq<SkillView> {
    skills.map_values(|s: MarkdownSkill| s@)
}

fn skill_listing_exec(s: &MarkdownSkill) -> (r: String)
    ensures
        r@ == skill_listing(s@),
{
    let mut r = "- ".to_owned();
    r.append(s.name.as_str());
    r.append(" -> ");
    r.append(s.path.as_str());
    r.append("\n  ");
    r.append(s.description.as_str());
    r.append("\n  ");
    if s.allowed_tools.len() == 0 {
        r.append("tools: default");
    } else {
        r.append("tools: ");
        r.append(join_strings(s.allowed_tools.as_slice(), ", ").as_str());
    }
    r
}

/// Lists skills; `skills_dir` names the directory they are looked for in.
pub fn format_markdown_skills(skills: &Vec<MarkdownSkill>, skills_dir: &str) -> (r: String)
    ensures
        r@ == skills_listing(skill_views(skills@), skills_dir@),
{
    if skills.len() == 0 {
        let mut r = "No markdown skills found in `".to_owned();
        r.append(skills_dir);
        r.append("`. Set CRUST_SKILLS_DIR to override.");
        return r;
    }
    let ghost sv = skill_views(skills@);
    let mut lines: Vec<String> = Vec::new();
    let mut head = "Loaded ".to_owned();
    head.append(u64_to_decimal(skills.len() as u64).as_str());
    head.append(" markdown skill(s):");
    lines.push(head);
    let ghost head_v = head@;
    let mut i: usize = 0;
    while i < skills.len()
        invariant
            i <= skills@.len(),
            sv == skill_views(skills@),
            head_v == "Loaded "@ + decimal(skills@.len()) + " markdown skill(s):"@,
            strs(lines@) == seq![head_v] + sv.take(i as int).map_values(
                |s: SkillView| skill_listing(s),
            ),
        decreases skills@.len() - i,
    {
        let line = skill_listing_exec(&skills[i]);
        let ghost before = strs(lines@);
        lines.push(line);
        proof {
            assert(strs(lines@) =~= before.push(line@));
            assert(sv.take(i + 1).map_values(|s: SkillView| skill_listing(s)) =~= sv.take(
                i as int,
            ).map_values(|s: SkillView| skill_listing(s)).push(skill_listing(sv[i as int])));
        }
        i = i + 1;
    }
    proof {
        assert(sv.take(skills@.len() as int) =~= sv);
    }
    join_strings(lines.as_slice(), "\n")
}

/// The detail of a skill, as `/skills <name>` shows it.
pub open spec fn skill_detail(s: SkillView) -> Seq<char> {
    s.name + "\npath: "@ + s.path + "\ndescription: "@ + s.description + "\nallowed-tools: "@
        + tools_text(s.allowed_tools, "default"@) + "\nwhen_to_use: "@ + match s.when_to_use {
        Some(w) => w,
        None => "none"@,
    } + "\nmodel: "@ + match s.model {
        Some(m) => m,
        None => "default"@,
    } + "\neffort: "@ + match s.effort {
        Some(e) => e,
        None => "default"@,
    } + "\nuser-invocable: "@ + if s.user_invocable {
        "true"@
    } else {
        "false"@
    } + "\n\n"@ + match s.content {
        Some(c) => c,
        None => seq![],
    }
}

/// Shows the detail of a skill.
pub fn format_markdown_skill_detail(skill: &MarkdownSkill) -> (r: String)
    ensures
        r@ == skill_detail(skill@),
{
    let mut r = skill.name.clone();
    r.append("\npath: ");
    r.append(skill.path.as_str());
    r.append("\ndescription: ");
    r.append(skill.description.as_str());
    r.append("\nallowed-tools: ");
    r.append(tools_text_exec(&skill.allowed_tools, "default").as_str());
    r.append("\nwhen_to_use: ");
    r.append(text_or_default(&skill.when_to_use, "none").as_str());
    r.append("\nmodel: ");
    r.append(text_or_default(&skill.model, "default").as_str());
    r.append("\neffort: ");
    r.append(text_or_default(&skill.effort, "default").as_str());
    r.append("\nuser-invocable: ");
    if skill.user_invocable {
        r.append("true");
    } else {
        r.append("false");
    }
    r.append("\n\n");
    r.append(text_or_default(&skill.content, "").as_str());
    proof {
        reveal_strlit("");
    }
    r
}

/// The prompt that runs a skill with `args`: the skill's content with `{{args}}`,
/// `$ARGUMENTS` and `{{ARGUMENTS}}` replaced by the arguments, after a header that names
/// the skill, the trimmed arguments and the allowed tools.
pub open spec fn skill_prompt(s: SkillView, args: Seq<char>) -> Seq<char> {
    let content = match s.content {
        Some(c) => c,
        None => seq![],
    };
    let rendered = replace_spec(
        replace_spec(replace_spec(content, "{{args}}"@, args), "$ARGUMENTS"@, args),
        "{{ARGUMENTS}}"@,
        args,
    );
    "Run skill `"@ + s.name + "` with args:\n"@ + trim_spec(args)
        + "\n\nAllowed tools for this skill: "@ + tools_text(s.allowed_tools, "default tool policy"@)
        + "\n\n"@ + rendered
}

/// Builds the prompt that runs a skill.
pub fn render_skill_prompt(skill: &MarkdownSkill, args: &str) -> (r: String)
    ensures
        r@ == skill_prompt(skill@, args@),
{
    let content = text_or_default(&skill.content, "");
    proof {
        reveal_strlit("");
        reveal_strlit("{{args}}");
        reveal_strlit("$ARGUMENTS");
        reveal_strlit("{{ARGUMENTS}}");
    }
    let a = replace_all(content.as_str(), "{{args}}", args);
    let b = replace_all(a.as_str(), "$ARGUMENTS", args);
    let rendered = replace_all(b.as_str(), "{{ARGUMENTS}}", args);
    let mut r = "Run skill `".to_owned();
    r.append(skill.name.as_str());
    r.append("` with args:\n");
    r.append(trim(args).as_str());
    r.append("\n\nAllowed tools for this skill: ");
    r.append(tools_text_exec(&skill.allowed_tools, "default tool policy").as_str());
    r.append("\n\n");
    r.append(rendered.as_str());
    r
}

/// `/skill <name> [args]`: the name (not empty) and the trimmed arguments, which may be empty.
pub open spec fn skill_command_spec(prompt: Seq<char>) -> Option<(Seq<char>, Seq<char>)> {
    match strip_prefix_spec(prompt, "/skill "@) {
        None => None,
        Some(rest) => {
            let args = trim_spec(rest);
            let name = trim_spec(first_word(args));
            let skill_args = trim_spec(
                match after_first_word(args) {
                    Some(a) => a,
                    None => seq![],
                },
            );
            if name.len() == 0 {
                None
            } else {
                Some((name, skill_args))
            }
        },
    }
}

/// Parses `/skill <name> [args]`.
pub fn parse_skill_command(prompt: &str) -> (r: Option<(String, String)>)
    ensures
        match r {
            Some((name, args)) => skill_command_spec(prompt@) == Some((name@, args@)),
            None => skill_command_spec(prompt@) is None,
        },
{
    let rest = strip_prefix(prompt, "/skill ")?;
    let args = trim(rest.as_str());
    let (first, after) = split_first_word(args.as_str());
    let name = trim(first.as_str());
    let skill_args = match after {
        Some(a) => trim(a.as_str()),
        None => {
            proof {
                reveal_strlit("");
            }
            trim("")
        },
    };
    if name.unicode_len() == 0 {
        None
    } else {
        Some((name, skill_args))
    }
}

/// A skill as a handoff carries it.
pub open spec fn handoff_skill(s: SkillView) -> JsonView {
    JsonView::Object(
        seq![
            ("name"@, JsonView::Str(s.name)),
            ("description"@, JsonView::Str(s.description)),
            ("allowed_tools"@, JsonView::Array(s.allowed_tools.map_values(|t: Seq<char>| JsonView::Str(t)))),
            (
                "when_to_use"@,
                match s.when_to_use {
                    Some(w) => JsonView::Str(w),
                    None => JsonView::Null,
                },
            ),
            (
                "model"@,
                match s.model {
                    Some(m) => JsonView::Str(m),
                    None => JsonView::Null,
                },
            ),
            (
                "effort"@,
                match s.effort {
                    Some(e) => JsonView::Str(e),
                    None => JsonView::Null,
                },
            ),
            ("path"@, JsonView::Str(s.path)),
            (
                "content"@,
                JsonView::Str(
                    match s.content {
                        Some(c) => c,
                        None => seq![],
                    },
                ),
            ),
        ],
    )
}

fn optional_text(o: &Option<String>) -> (v: JsonValue)
    ensures
        v@ == match o {
            Some(t) => JsonView::Str(t@),
            None => JsonView::Null,
        },
{
    match o {
        Some(t) => text(t.as_str()),
        None => JsonValue::Null,
    }
}

/// The JSON of a skill in a handoff.
pub fn handoff_skill_json(skill: &MarkdownSkill) -> (v: JsonValue)
    ensures
        v@ == handoff_skill(skill@),
{
    let mut tools: Vec<JsonValue> = Vec::new();
    let mut i: usize = 0;
    while i < skill.allowed_tools.len()
        invariant
            i <= skill.allowed_tools@.len(),
            items_view(tools@) == strs(skill.allowed_tools@).take(i as int).map_values(
                |t: Seq<char>| JsonView::Str(t),
            ),
        decreases skill.allowed_tools@.len() - i,
    {
        let t = text(skill.allowed_tools[i].as_str());
        let ghost before = items_view(tools@);
        tools.push(t);
        proof {
            assert(items_view(tools@) =~= before.push(t@));
            assert(strs(skill.allowed_tools@).take(i + 1).map_values(|t: Seq<char>| JsonView::Str(t))
                =~= strs(skill.allowed_tools@).take(i as int).map_values(
                |t: Seq<char>| JsonView::Str(t),
            ).push(JsonView::Str(skill.allowed_tools@[i as int]@)));
        }
        i = i + 1;
    }
    proof {
        assert(strs(skill.allowed_tools@).take(skill.allowed_tools@.len() as int) =~= strs(
            skill.allowed_tools@,
        ));
    }
    let ghost tv = items_view(tools@);
    let content = match &skill.content {
        Some(c) => text(c.as_str()),
        None => JsonValue::Str(String::new()),
    };
    let members = vec![
        member("name", text(skill.name.as_str())),
        member("description", text(skill.description.as_str())),
        member("allowed_tools", array(tools)),
        member("when_to_use", optional_text(&skill.when_to_use)),
        member("model", optional_text(&skill.model)),
        member("effort", optional_text(&skill.effort)),
        member("path", text(skill.path.as_str())),
        member("content", content),
    ];
    let v = object(members);
    proof {
        if let JsonView::Object(ms) = handoff_skill(skill@) {
            assert(ms =~= members_view(members@));
        }
    }
    v
}

} // verus!
