//! The tools the agent calls: what they answer, given what the workspace gave them.
//!
//! Reading and writing files, running commands and searching the web are done by the
//! caller; the replies the model receives, and the edits, are decided here.

use vstd::prelude::*;
use vstd::string::*;

use crate::json::{array, items_view, member, members_view, object, text, JsonValue, JsonView};
use crate::text::{
    byte_len, chars_of, lemma_find_spec, eq_ignore_ascii_case_chars, eq_ignore_case_spec, push_range, string_of, decimal, find_chars, find_spec, is_blank, lemma_utf8_len_concat, min_int,
    occurs_at, string_of_range, u64_to_decimal, utf8_len,
};
use crate::words::{char_pos, join, join_strings_from, lemma_char_pos, lines, split_lines, strip_cr, strs};

verus! {

// ---------------------------------------------------------------------------
// Numbers in replies
// ---------------------------------------------------------------------------

/// The decimal text of an integer, with a `-` for a negative one.
pub open spec fn int_decimal(i: int) -> Seq<char> {
    if i < 0 {
        "-"@ + decimal((-i) as nat)
    } else {
        decimal(i as nat)
    }
}

/// `i32::to_string`.
pub fn i32_to_decimal(i: i32) -> (s: String)
    ensures
        s@ == int_decimal(i as int),
{
    if i < 0 {
        let magnitude: u64 = (-(i as i64)) as u64;
        let mut s = "-".to_owned();
        s.append(u64_to_decimal(magnitude).as_str());
        s
    } else {
        u64_to_decimal(i as u64)
    }
}

/// A JSON number.
pub fn number(n: usize) -> (v: JsonValue)
    ensures
        v@ == JsonView::Number(decimal(n as nat)),
{
    JsonValue::Number(u64_to_decimal(n as u64))
}

// ---------------------------------------------------------------------------
// Reading a file
// ---------------------------------------------------------------------------

/// Bytes a reply counts for a line: its UTF-8 bytes and its line break.
pub open spec fn lines_cost(ls: Seq<Seq<char>>) -> nat
    decreases ls.len(),
{
    if ls.len() == 0 {
        0
    } else {
        utf8_len(ls[0]) + 1 + lines_cost(ls.drop_first())
    }
}

pub proof fn lemma_lines_cost_split(ls: Seq<Seq<char>>, k: int)
    requires
        0 <= k <= ls.len(),
    ensures
        lines_cost(ls) == lines_cost(ls.take(k)) + lines_cost(ls.skip(k)),
    decreases k,
{
    if k > 0 {
        lemma_lines_cost_split(ls.drop_first(), k - 1);
        assert(ls.take(k).drop_first() =~= ls.drop_first().take(k - 1));
        assert(ls.drop_first().skip(k - 1) =~= ls.skip(k));
        assert(ls.take(k)[0] == ls[0]);
    } else {
        assert(ls.skip(0) =~= ls);
    }
}

/// The lines of a text cost at most one byte more than the text.
pub proof fn lemma_lines_cost_bound(s: Seq<char>)
    ensures
        lines_cost(lines(s)) <= utf8_len(s) + 1,
    decreases s.len(),
{
    if s.len() > 0 {
        lemma_char_pos(s, '\n');
        let p = char_pos(s, '\n');
        if p < s.len() {
            let head = s.take(p as int);
            let rest = s.skip(p + 1int);
            lemma_lines_cost_bound(rest);
            let ls = lines(s);
            assert(ls.drop_first() =~= lines(rest));
            let h = strip_cr(head);
            assert(ls[0] == h);
            if head.len() > 0 && head.last() == '\r' {
                assert(head =~= h + seq![head.last()]);
                lemma_utf8_len_concat(h, seq![head.last()]);
            }
            assert(utf8_len(h) <= utf8_len(head));
            assert(lines_cost(ls) == utf8_len(h) + 1 + lines_cost(lines(rest)));
            assert(s =~= head + (seq!['\n'] + rest));
            lemma_utf8_len_concat(head, seq!['\n'] + rest);
            lemma_utf8_len_concat(seq!['\n'], rest);
            assert(utf8_len(seq!['\n']) == 1) by {
                reveal_with_fuel(utf8_len, 2);
            }
        } else {
            let ls = lines(s);
            assert(ls =~= seq![s]);
            assert(ls.drop_first() =~= Seq::<Seq<char>>::empty());
            assert(lines_cost(ls.drop_first()) == 0);
            assert(lines_cost(ls) == utf8_len(s) + 1);
        }
    }
}

/// How many lines, from the first of `ls`, a read returns: at most `max_lines`; and, unless
/// the caller set the limit, no line beyond the first that would bring the bytes past 50 KiB.
pub open spec fn window_len(
    ls: Seq<Seq<char>>,
    limited: bool,
    max_lines: nat,
    bytes: nat,
    taken: nat,
) -> nat
    decreases ls.len(),
{
    if ls.len() == 0 || taken >= max_lines {
        taken
    } else {
        let cost = utf8_len(ls[0]) + 1;
        if !limited && taken > 0 && bytes + cost > 51200 {
            taken
        } else {
            window_len(ls.drop_first(), limited, max_lines, bytes + cost, taken + 1)
        }
    }
}

/// The first line a read returns (from one, at least one): the requested offset, or the first.
pub open spec fn read_start(offset: Option<usize>) -> nat {
    match offset {
        Some(o) => if o < 1 {
            1
        } else {
            o as nat
        },
        None => 1,
    }
}

/// How many lines a read may return: the requested limit (else 2000), between 1 and 20000.
pub open spec fn read_limit(limit: Option<usize>) -> nat {
    let l = match limit {
        Some(l) => l as nat,
        None => 2000,
    };
    if l < 1 {
        1
    } else if l > 20000 {
        20000
    } else {
        l
    }
}

/// The reply to a read that starts past the last line.
pub open spec fn beyond_end_reply(
    filename: Seq<char>,
    start: nat,
    max_lines: nat,
    total: nat,
    size: nat,
) -> JsonView {
    JsonView::Object(
        seq![
            ("filename"@, JsonView::Str(filename)),
            ("offset"@, JsonView::Number(decimal(start))),
            ("limit"@, JsonView::Number(decimal(max_lines))),
            ("total_lines"@, JsonView::Number(decimal(total))),
            ("file_size"@, JsonView::Number(decimal(size))),
            ("bytes_read"@, JsonView::Number(decimal(0))),
            ("truncated"@, JsonView::Bool(false)),
            ("next_offset"@, JsonView::Null),
            ("content"@, JsonView::Str(seq![])),
            (
                "message"@,
                JsonView::Str(
                    "Offset "@ + decimal(start) + " is beyond end of file ("@ + decimal(total)
                        + " lines total)"@,
                ),
            ),
        ],
    )
}

/// The text a read returns: the chosen lines joined by line breaks, and a note of where to
/// continue when lines remain after them.
pub open spec fn window_text(selected: Seq<Seq<char>>, total: nat, end: nat) -> Seq<char> {
    join(selected, "\n"@) + if end < total {
        "\n\n["@ + decimal((total - end) as nat) + " more lines in file. Use offset="@ + decimal(
            end + 1,
        ) + " to continue.]"@
    } else {
        seq![]
    }
}

/// The reply to a read that returns the lines `selected`, which end before line `end + 1`.
pub open spec fn window_reply(
    filename: Seq<char>,
    start: nat,
    max_lines: nat,
    total: nat,
    size: nat,
    selected: Seq<Seq<char>>,
    end: nat,
) -> JsonView {
    JsonView::Object(
        seq![
            ("filename"@, JsonView::Str(filename)),
            ("offset"@, JsonView::Number(decimal(start))),
            ("limit"@, JsonView::Number(decimal(max_lines))),
            ("lines_read"@, JsonView::Number(decimal(selected.len()))),
            ("total_lines"@, JsonView::Number(decimal(total))),
            ("file_size"@, JsonView::Number(decimal(size))),
            ("bytes_read"@, JsonView::Number(decimal(lines_cost(selected)))),
            ("truncated"@, JsonView::Bool(end < total)),
            (
                "next_offset"@,
                if end < total {
                    JsonView::Number(decimal(end + 1))
                } else {
                    JsonView::Null
                },
            ),
            ("content"@, JsonView::Str(window_text(selected, total, end))),
        ],
    )
}

/// The reply to a read of `filename`, whose content is `raw`, from line `offset` for `limit`
/// lines.
pub open spec fn read_reply(
    filename: Seq<char>,
    offset: Option<usize>,
    limit: Option<usize>,
    raw: Seq<char>,
) -> JsonView {
    let all = lines(raw);
    let start = read_start(offset);
    let max_lines = read_limit(limit);
    let total = all.len();
    if start - 1 >= total {
        beyond_end_reply(filename, start, max_lines, total, utf8_len(raw))
    } else {
        let s = (start - 1) as nat;
        let k = window_len(all.skip(s as int), limit is Some, max_lines, 0, 0);
        window_reply(
            filename,
            start,
            max_lines,
            total,
            utf8_len(raw),
            all.subrange(s as int, (s + k) as int),
            s + k,
        )
    }
}

/// Chooses the lines of a read: returns how many, from `start`, are read and their cost.
fn select_window(all: &Vec<String>, start: usize, limited: bool, max_lines: usize) -> (r: (usize, usize))
    requires
        start < all@.len(),
        lines_cost(strs(all@)) < usize::MAX,
    ensures
        r.0 == window_len(strs(all@).skip(start as int), limited, max_lines as nat, 0, 0),
        start + r.0 <= all@.len(),
        r.1 == lines_cost(strs(all@).subrange(start as int, start + r.0)),
{
    let ghost ls = strs(all@);
    let mut idx: usize = start;
    let mut taken: usize = 0;
    let mut bytes: usize = 0;
    proof {
        assert(ls.subrange(start as int, start as int) =~= Seq::<Seq<char>>::empty());
    }
    loop
        invariant_except_break
            ls == strs(all@),
            start <= idx <= all@.len(),
            taken == idx - start,
            bytes == lines_cost(ls.subrange(start as int, idx as int)),
            lines_cost(ls) < usize::MAX,
            window_len(ls.skip(start as int), limited, max_lines as nat, 0, 0) == window_len(
                ls.skip(idx as int),
                limited,
                max_lines as nat,
                bytes as nat,
                taken as nat,
            ),
        ensures
            start <= idx <= all@.len(),
            taken == idx - start,
            bytes == lines_cost(ls.subrange(start as int, idx as int)),
            window_len(ls.skip(start as int), limited, max_lines as nat, 0, 0) == taken,
        decreases all@.len() - idx,
    {
        if idx >= all.len() || taken >= max_lines {
            break;
        }
        let cost_line = byte_len(all[idx].as_str());
        let ghost rest = ls.skip(idx as int);
        let ghost sub = ls.subrange(start as int, idx as int);
        let ghost sub1 = ls.subrange(start as int, idx + 1);
        let ghost one = seq![all@[idx as int]@];
        proof {
            assert(rest[0] == all@[idx as int]@);
            assert(rest.drop_first() =~= ls.skip(idx + 1));
            lemma_lines_cost_split(sub1, sub.len() as int);
            assert(sub1.take(sub.len() as int) =~= sub);
            assert(sub1.skip(sub.len() as int) =~= one);
            assert(one.drop_first() =~= Seq::<Seq<char>>::empty());
            assert(lines_cost(one.drop_first()) == 0);
            assert(lines_cost(one) == utf8_len(all@[idx as int]@) + 1);
            lemma_lines_cost_split(ls, idx + 1);
            lemma_lines_cost_split(ls.take(idx + 1), start as int);
            assert(ls.take(idx + 1).skip(start as int) =~= sub1);
        }
        if !limited && taken > 0 && bytes + cost_line + 1 > 51200 {
            break;
        }
        bytes = bytes + cost_line + 1;
        taken = taken + 1;
        idx = idx + 1;
    }
    (taken, bytes)
}

fn beyond_end_json(filename: &str, start: usize, max_lines: usize, total: usize, size: usize) -> (v:
    JsonValue)
    ensures
        v@ == beyond_end_reply(filename@, start as nat, max_lines as nat, total as nat, size as nat),
{
    let mut message = "Offset ".to_owned();
    message.append(u64_to_decimal(start as u64).as_str());
    message.append(" is beyond end of file (");
    message.append(u64_to_decimal(total as u64).as_str());
    message.append(" lines total)");
    let members = vec![
        member("filename", text(filename)),
        member("offset", number(start)),
        member("limit", number(max_lines)),
        member("total_lines", number(total)),
        member("file_size", number(size)),
        member("bytes_read", number(0)),
        member("truncated", JsonValue::Bool(false)),
        member("next_offset", JsonValue::Null),
        member("content", JsonValue::Str(String::new())),
        member("message", JsonValue::Str(message)),
    ];
    let v = object(members);
    proof {
        if let JsonView::Object(ms) = beyond_end_reply(
            filename@,
            start as nat,
            max_lines as nat,
            total as nat,
            size as nat,
        ) {
            assert(ms =~= members_view(members@));
        }
    }
    v
}

fn window_json(
    filename: &str,
    start: usize,
    max_lines: usize,
    total: usize,
    size: usize,
    all: &Vec<String>,
    from: usize,
    end: usize,
    bytes_read: usize,
) -> (v: JsonValue)
    requires
        from <= end <= all@.len() == total,
        bytes_read == lines_cost(strs(all@).subrange(from as int, end as int)),
    ensures
        v@ == window_reply(
            filename@,
            start as nat,
            max_lines as nat,
            total as nat,
            size as nat,
            strs(all@).subrange(from as int, end as int),
            end as nat,
        ),
{
    let ghost selected = strs(all@).subrange(from as int, end as int);
    let truncated = end < total;
    let mut content = join_strings_from_to(all, from, end, "\n");
    if truncated {
        content.append("\n\n[");
        content.append(u64_to_decimal((total - end) as u64).as_str());
        content.append(" more lines in file. Use offset=");
        content.append(u64_to_decimal((end + 1) as u64).as_str());
        content.append(" to continue.]");
    }
    assert(content@ == window_text(selected, total as nat, end as nat));
    let next = if truncated {
        number(end + 1)
    } else {
        JsonValue::Null
    };
    let count = end - from;
    let members = vec![
        member("filename", text(filename)),
        member("offset", number(start)),
        member("limit", number(max_lines)),
        member("lines_read", number(count)),
        member("total_lines", number(total)),
        member("file_size", number(size)),
        member("bytes_read", number(bytes_read)),
        member("truncated", JsonValue::Bool(truncated)),
        member("next_offset", next),
        member("content", JsonValue::Str(content)),
    ];
    let v = object(members);
    proof {
        if let JsonView::Object(ms) = window_reply(
            filename@,
            start as nat,
            max_lines as nat,
            total as nat,
            size as nat,
            selected,
            end as nat,
        ) {
            assert(ms =~= members_view(members@));
        }
    }
    v
}

/// The reply to a read of a file: the chosen lines joined by line breaks, with a note of
/// where to continue when lines remain, and the counts the model needs to continue.
pub fn read_file_reply(filename: &str, offset: Option<usize>, limit: Option<usize>, raw: &str) -> (v:
    JsonValue)
    requires
        utf8_len(raw@) + 1 < usize::MAX,
    ensures
        v@ == read_reply(filename@, offset, limit, raw@),
{
    let all = split_lines(raw);
    let start_line: usize = match offset {
        Some(o) => if o < 1 {
            1
        } else {
            o
        },
        None => 1,
    };
    let max_lines: usize = match limit {
        Some(l) => if l < 1 {
            1
        } else if l > 20000 {
            20000
        } else {
            l
        },
        None => 2000,
    };
    let total = all.len();
    let file_size = byte_len(raw);
    let start_index = start_line - 1;
    if start_index >= total {
        return beyond_end_json(filename, start_line, max_lines, total, file_size);
    }
    proof {
        lemma_lines_cost_bound(raw@);
    }
    let (k, bytes_read) = select_window(&all, start_index, limit.is_some(), max_lines);
    window_json(
        filename,
        start_line,
        max_lines,
        total,
        file_size,
        &all,
        start_index,
        start_index + k,
        bytes_read,
    )
}

/// `list[lo..hi].join(sep)`.
fn join_strings_from_to(list: &Vec<String>, lo: usize, hi: usize, sep: &str) -> (r: String)
    requires
        lo <= hi <= list@.len(),
    ensures
        r@ == join(strs(list@).subrange(lo as int, hi as int), sep@),
{
    let ghost texts = strs(list@).subrange(lo as int, hi as int);
    let mut out = String::new();
    let mut i: usize = lo;
    while i < hi
        invariant
            lo <= i <= hi <= list@.len(),
            texts == strs(list@).subrange(lo as int, hi as int),
            out@ == join(texts.take(i - lo), sep@),
        decreases hi - i,
    {
        proof {
            assert(texts.take(i - lo + 1).drop_last() =~= texts.take(i - lo));
            assert(texts.take(i - lo + 1).last() == list@[i as int]@);
        }
        if i > lo {
            out.append(sep);
        }
        out.append(list[i].as_str());
        proof {
            if i == lo {
                assert(out@ =~= join(texts.take(1), sep@));
            }
        }
        i = i + 1;
    }
    assert(texts.take(hi - lo) =~= texts);
    out
}

// ---------------------------------------------------------------------------
// Editing, writing, shell commands and web search
// ---------------------------------------------------------------------------

/// An edit needs a text to look for.
pub fn validate_edit_request(old_content: &str) -> (r: Result<(), String>)
    ensures
        match r {
            Ok(()) => old_content@.len() > 0,
            Err(e) => old_content@.len() == 0 && e@ == "edit_file_tool oldcontent cannot be empty"@,
        },
{
    if old_content.unicode_len() == 0 {
        Err("edit_file_tool oldcontent cannot be empty".to_owned())
    } else {
        Ok(())
    }
}

/// The file after an edit: its first occurrence of `old` replaced by `new`; `None` when
/// `old` does not occur.
pub open spec fn edited(buf: Seq<char>, old: Seq<char>, new: Seq<char>) -> Option<Seq<char>> {
    match find_spec(buf, old) {
        Some(i) => Some(buf.take(i) + new + buf.skip(i + old.len())),
        None => None,
    }
}

/// An edit changes nothing when `old` does not occur in the text. Otherwise, at the first
/// place `i` where `old` occurs, the text before it is kept, `new` takes the place of `old`,
/// and the text after the occurrence is kept: the result is `|new| - |old|` characters
/// longer than the text.
pub proof fn lemma_edit_replaces_first_occurrence(buf: Seq<char>, old: Seq<char>, new: Seq<char>)
    ensures
        edited(buf, old, new) is None <==> forall|i: int| !occurs_at(buf, old, i),
        edited(buf, old, new) matches Some(t) ==> exists|i: int|
            #![trigger occurs_at(buf, old, i)]
            occurs_at(buf, old, i) && (forall|j: int| 0 <= j < i ==> !occurs_at(buf, old, j))
                && t.len() == buf.len() - old.len() + new.len() && t.take(i) == buf.take(i)
                && t.subrange(i, i + new.len()) == new && t.skip(i + new.len()) == buf.skip(
                i + old.len(),
            ),
{
    lemma_find_spec(buf, old);
    if let Some(i) = find_spec(buf, old) {
        let t = buf.take(i) + new + buf.skip(i + old.len());
        assert(t.take(i) =~= buf.take(i));
        assert(t.subrange(i, i + new.len()) =~= new);
        assert(t.skip(i + new.len()) =~= buf.skip(i + old.len()));
    }
}

/// Applies an edit to the text of a file.
pub fn edit_file_text(buf: &str, old: &str, new: &str) -> (r: Option<String>)
    ensures
        match r {
            Some(t) => edited(buf@, old@, new@) == Some(t@),
            None => edited(buf@, old@, new@) is None,
        },
{
    let b = chars_of(buf);
    let o = chars_of(old);
    let found = find_chars(&b, &o);
    if found.is_none() {
        return None;
    }
    let i = found.unwrap();
    assert(occurs_at(b@, o@, i as int));
    let mut t = string_of_range(&b, 0, i);
    t.append(new);
    let n = b.len();
    crate::text::push_range(&mut t, &b, i + o.len(), n);
    proof {
        assert(b@.subrange(0, i as int) =~= b@.take(i as int));
        assert(b@.subrange(i + o@.len(), n as int) =~= b@.skip(i + o@.len()));
    }
    Some(t)
}

/// The reply to an edit: whether it failed, and what happened.
pub open spec fn edit_reply(applied: bool) -> JsonView {
    if applied {
        JsonView::Object(
            seq![("err"@, JsonView::Str("false"@)), ("content"@, JsonView::Str("edit file activated"@))],
        )
    } else {
        JsonView::Object(
            seq![("err"@, JsonView::Str("true"@)), ("content"@, JsonView::Str("Oldcontent not found"@))],
        )
    }
}

/// Builds the reply to an edit.
pub fn edit_file_reply(applied: bool) -> (v: JsonValue)
    ensures
        v@ == edit_reply(applied),
{
    let members = if applied {
        vec![member("err", text("false")), member("content", text("edit file activated"))]
    } else {
        vec![member("err", text("true")), member("content", text("Oldcontent not found"))]
    };
    let v = object(members);
    proof {
        if let JsonView::Object(ms) = edit_reply(applied) {
            assert(ms =~= members_view(members@));
        }
    }
    v
}

/// The reply to a write: the name of the file written.
pub fn write_file_reply(filename: &str) -> (v: JsonValue)
    ensures
        v@ == JsonView::Object(seq![("filename"@, JsonView::Str(filename@))]),
{
    let members = vec![member("filename", text(filename))];
    let v = object(members);
    assert(members_view(members@) =~= seq![("filename"@, JsonView::Str(filename@))]);
    v
}

/// What a shell command gave.
pub struct ShellResult {
    pub exitcode: i32,
    pub output: String,
    pub error: String,
}

/// The reply to a shell command: its exit code and its two outputs.
pub open spec fn shell_reply(r: ShellResult) -> JsonView {
    JsonView::Object(
        seq![
            ("exitcode"@, JsonView::Number(int_decimal(r.exitcode as int))),
            ("output"@, JsonView::Str(r.output@)),
            ("error"@, JsonView::Str(r.error@)),
        ],
    )
}

/// Builds the reply to a shell command.
pub fn shell_command_reply(result: &ShellResult) -> (v: JsonValue)
    ensures
        v@ == shell_reply(*result),
{
    let members = vec![
        member("exitcode", JsonValue::Number(i32_to_decimal(result.exitcode))),
        member("output", text(result.output.as_str())),
        member("error", text(result.error.as_str())),
    ];
    let v = object(members);
    proof {
        if let JsonView::Object(ms) = shell_reply(*result) {
            assert(ms =~= members_view(members@));
        }
    }
    v
}

/// The result of a command that did not finish in time.
pub fn timed_out_shell_result(timeout_ms: u64) -> (r: ShellResult)
    ensures
        r.exitcode == -1,
        r.output@ == Seq::<char>::empty(),
        r.error@ == "Command timed out after "@ + decimal(timeout_ms as nat) + " ms."@,
{
    let mut error = "Command timed out after ".to_owned();
    error.append(u64_to_decimal(timeout_ms).as_str());
    error.append(" ms.");
    ShellResult { exitcode: -1, output: String::new(), error }
}

/// One result of a web search.
pub struct SearchHit {
    pub title: String,
    pub url: String,
    pub content: String,
}

/// A list of texts as a JSON array.
pub open spec fn text_array(ts: Seq<Seq<char>>) -> JsonView {
    JsonView::Array(ts.map_values(|t: Seq<char>| JsonView::Str(t)))
}

/// The reply to a web search: the answer (else `no answers`), the follow-up questions (else
/// the single `no follow ups`), and the titles, addresses and contents of the first
/// `max_results` results.
pub open spec fn search_reply(
    answer: Option<Seq<char>>,
    follow_ups: Option<Seq<Seq<char>>>,
    hits: Seq<SearchHit>,
    max_results: nat,
) -> JsonView {
    let kept = hits.take(min_int(max_results as int, hits.len() as int));
    JsonView::Object(
        seq![
            (
                "answer"@,
                JsonView::Str(
                    match answer {
                        Some(a) => a,
                        None => "no answers"@,
                    },
                ),
            ),
            (
                "follow_up_questions"@,
                text_array(
                    match follow_ups {
                        Some(f) => f,
                        None => seq!["no follow ups"@],
                    },
                ),
            ),
            ("results_titles"@, text_array(kept.map_values(|h: SearchHit| h.title@))),
            ("results_urls"@, text_array(kept.map_values(|h: SearchHit| h.url@))),
            ("results_contents"@, text_array(kept.map_values(|h: SearchHit| h.content@))),
        ],
    )
}

fn texts_json(ts: &Vec<String>) -> (v: JsonValue)
    ensures
        v@ == text_array(strs(ts@)),
{
    let mut items: Vec<JsonValue> = Vec::new();
    let mut i: usize = 0;
    while i < ts.len()
        invariant
            i <= ts@.len(),
            items_view(items@) == strs(ts@).take(i as int).map_values(|t: Seq<char>| JsonView::Str(t)),
        decreases ts@.len() - i,
    {
        let t = text(ts[i].as_str());
        let ghost before = items_view(items@);
        items.push(t);
        proof {
            assert(items_view(items@) =~= before.push(t@));
            assert(strs(ts@).take(i + 1).map_values(|t: Seq<char>| JsonView::Str(t)) =~= strs(
                ts@,
            ).take(i as int).map_values(|t: Seq<char>| JsonView::Str(t)).push(JsonView::Str(ts@[i as int]@)));
        }
        i = i + 1;
    }
    proof {
        assert(strs(ts@).take(ts@.len() as int) =~= strs(ts@));
    }
    array(items)
}

/// Builds the reply to a web search.
pub fn web_search_reply(
    answer: Option<String>,
    follow_ups: Option<Vec<String>>,
    hits: &Vec<SearchHit>,
    max_results: usize,
) -> (v: JsonValue)
    ensures
        v@ == search_reply(
            crate::message::opt_view(answer),
            match follow_ups {
                Some(f) => Some(strs(f@)),
                None => None,
            },
            hits@,
            max_results as nat,
        ),
{
    let n: usize = if max_results < hits.len() {
        max_results
    } else {
        hits.len()
    };
    let ghost kept = hits@.take(n as int);
    let mut titles: Vec<String> = Vec::new();
    let mut urls: Vec<String> = Vec::new();
    let mut contents: Vec<String> = Vec::new();
    let mut i: usize = 0;
    while i < n
        invariant
            i <= n <= hits@.len(),
            kept == hits@.take(n as int),
            strs(titles@) == kept.take(i as int).map_values(|h: SearchHit| h.title@),
            strs(urls@) == kept.take(i as int).map_values(|h: SearchHit| h.url@),
            strs(contents@) == kept.take(i as int).map_values(|h: SearchHit| h.content@),
        decreases n - i,
    {
        let h = &hits[i];
        let ghost (t0, u0, c0) = (strs(titles@), strs(urls@), strs(contents@));
        titles.push(h.title.clone());
        urls.push(h.url.clone());
        contents.push(h.content.clone());
        proof {
            assert(kept[i as int] == *h);
            assert(strs(titles@) =~= t0.push(h.title@));
            assert(strs(urls@) =~= u0.push(h.url@));
            assert(strs(contents@) =~= c0.push(h.content@));
            assert(kept.take(i + 1).map_values(|h: SearchHit| h.title@) =~= kept.take(i as int).map_values(
                |h: SearchHit| h.title@,
            ).push(h.title@));
            assert(kept.take(i + 1).map_values(|h: SearchHit| h.url@) =~= kept.take(i as int).map_values(
                |h: SearchHit| h.url@,
            ).push(h.url@));
            assert(kept.take(i + 1).map_values(|h: SearchHit| h.content@) =~= kept.take(
                i as int,
            ).map_values(|h: SearchHit| h.content@).push(h.content@));
        }
        i = i + 1;
    }
    proof {
        assert(kept.take(n as int) =~= kept);
    }
    let ghost fv = match &follow_ups {
        Some(f) => Some(strs(f@)),
        None => None,
    };
    let answer_text = match answer {
        Some(a) => a,
        None => "no answers".to_owned(),
    };
    let questions = match follow_ups {
        Some(f) => f,
        None => vec!["no follow ups".to_owned()],
    };
    proof {
        match fv {
            Some(f) => {},
            None => {
                assert(strs(questions@) =~= seq!["no follow ups"@]);
            },
        }
    }
    let members = vec![
        member("answer", JsonValue::Str(answer_text)),
        member("follow_up_questions", texts_json(&questions)),
        member("results_titles", texts_json(&titles)),
        member("results_urls", texts_json(&urls)),
        member("results_contents", texts_json(&contents)),
    ];
    let v = object(members);
    proof {
        if let JsonView::Object(ms) = search_reply(
            crate::message::opt_view(answer),
            fv,
            hits@,
            max_results as nat,
        ) {
            assert(ms =~= members_view(members@));
        }
    }
    v
}

// ---------------------------------------------------------------------------
// Which tool a call names
// ---------------------------------------------------------------------------

/// The tools the agent offers, by the names the model calls them.
#[derive(Clone, Copy, Debug, PartialEq, Eq, Structural)]
pub enum ToolKind {
    WebSearch,
    Shell,
    ReadFile,
    WriteFile,
    EditFile,
    LangGraphRun,
}

/// The name the model uses for a tool.
pub open spec fn tool_name(k: ToolKind) -> Seq<char> {
    match k {
        ToolKind::WebSearch => "web_search_tool"@,
        ToolKind::Shell => "shell_calling_tool"@,
        ToolKind::ReadFile => "read_file_tool"@,
        ToolKind::WriteFile => "write_file_tool"@,
        ToolKind::EditFile => "edit_file_tool"@,
        ToolKind::LangGraphRun => "langgraph_run_tool"@,
    }
}

/// The tool a call names, if it is one the agent offers.
pub fn tool_kind(name: &str) -> (r: Option<ToolKind>)
    ensures
        match r {
            Some(k) => tool_name(k) == name@,
            None => forall|k: ToolKind| tool_name(k) != name@,
        },
{
    if crate::text::str_eq(name, "web_search_tool") {
        Some(ToolKind::WebSearch)
    } else if crate::text::str_eq(name, "shell_calling_tool") {
        Some(ToolKind::Shell)
    } else if crate::text::str_eq(name, "read_file_tool") {
        Some(ToolKind::ReadFile)
    } else if crate::text::str_eq(name, "write_file_tool") {
        Some(ToolKind::WriteFile)
    } else if crate::text::str_eq(name, "edit_file_tool") {
        Some(ToolKind::EditFile)
    } else if crate::text::str_eq(name, "langgraph_run_tool") {
        Some(ToolKind::LangGraphRun)
    } else {
        proof {
            assert forall|k: ToolKind| tool_name(k) != name@ by {
                match k {
                    ToolKind::WebSearch => {},
                    ToolKind::Shell => {},
                    ToolKind::ReadFile => {},
                    ToolKind::WriteFile => {},
                    ToolKind::EditFile => {},
                    ToolKind::LangGraphRun => {},
                }
            }
        }
        None
    }
}

/// What the agent answers to a call of a tool it does not offer.
pub fn unhandled_tool_reply() -> (s: String)
    ensures
        s@ == "unhandled tool:{tc.name()}"@,
{
    "unhandled tool:{tc.name()}".to_owned()
}

// ---------------------------------------------------------------------------
// Paths that the model writes in Unix style on Windows
// ---------------------------------------------------------------------------

/// An ASCII letter.
pub open spec fn is_ascii_letter(c: char) -> bool {
    ('a' <= c && c <= 'z') || ('A' <= c && c <= 'Z')
}

/// The upper-case form of an ASCII lower-case letter; any other character as it is.
pub open spec fn ascii_upper_char(c: char) -> char {
    if 'a' <= c && c <= 'z' {
        ((c as u32) - 32) as char
    } else {
        c
    }
}

/// `s` with each backslash turned into a slash.
pub open spec fn forward_slashes(s: Seq<char>) -> Seq<char> {
    s.map_values(|c: char| if c == '\\' { '/' } else { c })
}

/// Some prefix of `s` takes exactly `b` bytes in UTF-8.
pub open spec fn is_char_boundary(s: Seq<char>, b: nat) -> bool {
    exists|k: int| 0 <= k <= s.len() && #[trigger] utf8_len(s.take(k)) == b
}

/// The drive-letter form of `/mnt/c/...` and `/c/...` paths on Windows (with backslashes
/// turned into slashes first); any other path, and every path elsewhere, as it is.
pub open spec fn windows_path_spec(s: Seq<char>, is_windows: bool) -> Seq<char> {
    let n = forward_slashes(s);
    if !is_windows {
        s
    } else if n.len() >= 7 && eq_ignore_case_spec(n.take(5), "/mnt/"@) && is_ascii_letter(n[5])
        && n[6] == '/' {
        seq![ascii_upper_char(n[5]), ':'] + n.subrange(6, n.len() as int)
    } else if n.len() >= 4 && n[0] == '/' && is_ascii_letter(n[1]) && n[2] == '/' {
        seq![ascii_upper_char(n[1]), ':'] + n.subrange(2, n.len() as int)
    } else {
        s
    }
}

/// Turns a path that the model wrote in Unix style (`/mnt/c/src`, `/c/src`) into its
/// Windows form (`C:/src`) when `is_windows`; leaves every other path as it is.
pub fn convert_windows_unix_style_path(filename: &str, is_windows: bool) -> (r: String)
    requires
        !is_windows || utf8_len(filename@) < 7 || is_char_boundary(filename@, 5),
    ensures
        r@ == windows_path_spec(filename@, is_windows),
{
    let v = chars_of(filename);
    if !is_windows {
        return string_of(&v);
    }
    let mut n: Vec<char> = Vec::new();
    let mut i: usize = 0;
    while i < v.len()
        invariant
            i <= v@.len(),
            v@ == filename@,
            n@ == forward_slashes(v@).take(i as int),
        decreases v@.len() - i,
    {
        let c = v[i];
        if c == '\\' {
            n.push('/');
        } else {
            n.push(c);
        }
        i = i + 1;
        assert(n@ =~= forward_slashes(v@).take(i as int));
    }
    assert(n@ =~= forward_slashes(filename@));
    let len = n.len();
    if len >= 7 {
        let prefix = string_of_range(&n, 0, 5);
        let head = chars_of(prefix.as_str());
        let mnt = chars_of("/mnt/");
        proof {
            reveal_strlit("/mnt/");
            assert(n@.subrange(0, 5) =~= n@.take(5));
        }
        if eq_ignore_ascii_case_chars(&head, &mnt) && is_letter(n[5]) && n[6] == '/' {
            let mut r = String::new();
            r.push(to_ascii_upper_char(n[5]));
            r.push(':');
            push_range(&mut r, &n, 6, len);
            assert(r@ =~= seq![ascii_upper_char(n@[5]), ':'] + n@.subrange(6, len as int));
            return r;
        }
    }
    if len >= 4 && n[0] == '/' && is_letter(n[1]) && n[2] == '/' {
        let mut r = String::new();
        r.push(to_ascii_upper_char(n[1]));
        r.push(':');
        push_range(&mut r, &n, 2, len);
        assert(r@ =~= seq![ascii_upper_char(n@[1]), ':'] + n@.subrange(2, len as int));
        return r;
    }
    string_of(&v)
}

/// Whether `c` is an ASCII letter.
fn is_letter(c: char) -> (b: bool)
    ensures
        b == is_ascii_letter(c),
{
    ('a' <= c && c <= 'z') || ('A' <= c && c <= 'Z')
}

/// The upper-case form of an ASCII lower-case letter.
fn to_ascii_upper_char(c: char) -> (r: char)
    ensures
        r == ascii_upper_char(c),
{
    if 'a' <= c && c <= 'z' {
        let u = ((c as u32) - 32) as u8;
        u as char
    } else {
        c
    }
}

} // verus!
