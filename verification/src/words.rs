//! Splitting and joining text: words, separators, lines and replacements.
//!
//! Each operation is stated over character sequences with the meaning that the
//! corresponding `str` method of std documents.

use vstd::prelude::*;
use vstd::string::*;

use crate::text::{
    chars_of, find_chars, find_spec, is_whitespace_char, is_ws, occurs_at, push_range,
    string_of_range, trim_bounds, trim_spec,
};

verus! {

/// The character views of a list of strings.
pub open spec fn strs(v: Seq<String>) -> Seq<Seq<char>> {
    v.map_values(|s: String| s@)
}

/// The elements of `list` joined by `sep`.
pub open spec fn join(list: Seq<Seq<char>>, sep: Seq<char>) -> Seq<char>
    decreases list.len(),
{
    if list.len() == 0 {
        seq![]
    } else if list.len() == 1 {
        list[0]
    } else {
        join(list.drop_last(), sep) + sep + list.last()
    }
}

/// `list[lo..].join(sep)` for a list of strings.
pub fn join_strings_from(list: &[String], lo: usize, sep: &str) -> (r: String)
    requires
        lo <= list@.len(),
    ensures
        r@ == join(strs(list@).skip(lo as int), sep@),
{
    let ghost texts = strs(list@).skip(lo as int);
    let mut out = String::new();
    let mut i: usize = lo;
    while i < list.len()
        invariant
            lo <= i <= list@.len(),
            texts == strs(list@).skip(lo as int),
            out@ == join(texts.take(i - lo), sep@),
        decreases list@.len() - i,
    {
        proof {
            assert(texts.take(i - lo + 1).drop_last() =~= texts.take(i - lo));
            assert(texts.take(i - lo + 1).last() == list@[i as int]@);
        }
        if i > lo {
            out.append(sep);
        }
        out.append(list[i].as_str());
        proof {
            if i == lo {
                assert(out@ =~= join(texts.take(1), sep@));
            }
        }
        i = i + 1;
    }
    assert(texts.take(list@.len() - lo) =~= texts);
    out
}

/// `list.join(sep)` for a list of strings.
pub fn join_strings(list: &[String], sep: &str) -> (r: String)
    ensures
        r@ == join(strs(list@), sep@),
{
    let r = join_strings_from(list, 0, sep);
    assert(strs(list@).skip(0) =~= strs(list@));
    r
}

// ---------------------------------------------------------------------------
// Words separated by whitespace
// ---------------------------------------------------------------------------

/// Number of leading characters of `s` that are not whitespace.
pub open spec fn word_len(s: Seq<char>) -> nat
    decreases s.len(),
{
    if s.len() == 0 || is_ws(s[0]) {
        0
    } else {
        1 + word_len(s.drop_first())
    }
}

/// Number of leading whitespace characters of `s`.
pub open spec fn space_len(s: Seq<char>) -> nat
    decreases s.len(),
{
    if s.len() == 0 || !is_ws(s[0]) {
        0
    } else {
        1 + space_len(s.drop_first())
    }
}

/// `str::split_whitespace`: the maximal runs of non-whitespace characters, in order.
pub open spec fn words(s: Seq<char>) -> Seq<Seq<char>>
    decreases s.len(),
{
    if s.len() == 0 {
        seq![]
    } else if is_ws(s[0]) {
        words(s.drop_first())
    } else {
        let w = word_len(s);
        proof {
            lemma_word_len(s);
        }
        seq![s.take(w as int)] + words(s.skip(w as int))
    }
}

pub proof fn lemma_word_len(s: Seq<char>)
    ensures
        word_len(s) <= s.len(),
        forall|j: int| 0 <= j < word_len(s) ==> !is_ws(#[trigger] s[j]),
        word_len(s) < s.len() ==> is_ws(s[word_len(s) as int]),
    decreases s.len(),
{
    if s.len() > 0 && !is_ws(s[0]) {
        lemma_word_len(s.drop_first());
        assert forall|j: int| 0 <= j < word_len(s) implies !is_ws(#[trigger] s[j]) by {
            if j > 0 {
                assert(s[j] == s.drop_first()[j - 1]);
            }
        }
    }
}

/// The word length is found by scanning up to the first whitespace character.
proof fn lemma_word_len_at(s: Seq<char>, i: int)
    requires
        0 <= i <= s.len(),
        forall|j: int| 0 <= j < i ==> !is_ws(#[trigger] s[j]),
        i == s.len() || is_ws(s[i]),
    ensures
        word_len(s) == i,
    decreases i,
{
    if i > 0 {
        assert forall|j: int| 0 <= j < i - 1 implies !is_ws(#[trigger] s.drop_first()[j]) by {
            assert(s.drop_first()[j] == s[j + 1]);
        }
        if i < s.len() {
            assert(s.drop_first()[i - 1] == s[i]);
        }
        lemma_word_len_at(s.drop_first(), i - 1);
    }
}

/// Whitespace in front of the words does not change them.
proof fn lemma_words_skip_space(s: Seq<char>, i: int)
    requires
        0 <= i <= s.len(),
        forall|j: int| 0 <= j < i ==> is_ws(#[trigger] s[j]),
    ensures
        words(s) == words(s.skip(i)),
    decreases i,
{
    if i > 0 {
        assert(s.drop_first().skip(i - 1) =~= s.skip(i));
        assert forall|j: int| 0 <= j < i - 1 implies is_ws(#[trigger] s.drop_first()[j]) by {
            assert(s.drop_first()[j] == s[j + 1]);
        }
        lemma_words_skip_space(s.drop_first(), i - 1);
    } else {
        assert(s.skip(0) =~= s);
    }
}

/// The words of `v[i..]`, taken from `v`, which is `v[lo..hi]` of the caller.
fn word_end(v: &[char], i: usize) -> (e: usize)
    requires
        i <= v@.len(),
    ensures
        i <= e <= v@.len(),
        word_len(v@.skip(i as int)) == e - i,
{
    let mut e = i;
    while e < v.len() && !is_whitespace_char(v[e])
        invariant
            i <= e <= v@.len(),
            forall|j: int| i <= j < e ==> !is_ws(#[trigger] v@[j]),
        decreases v@.len() - e,
    {
        e = e + 1;
    }
    proof {
        let s = v@.skip(i as int);
        assert forall|j: int| 0 <= j < e - i implies !is_ws(#[trigger] s[j]) by {
            assert(s[j] == v@[i + j]);
        }
        if e < v@.len() {
            assert(s[e - i] == v@[e as int]);
        }
        lemma_word_len_at(s, e - i);
    }
    e
}

/// `s.split_whitespace()`, collected.
pub fn split_whitespace(s: &str) -> (r: Vec<String>)
    ensures
        strs(r@) == words(s@),
{
    let v = chars_of(s);
    let mut out: Vec<String> = Vec::new();
    let mut i: usize = 0;
    proof {
        assert(v@.skip(0) =~= v@);
        assert(strs(out@) + words(v@) =~= words(v@));
    }
    while i < v.len()
        invariant
            i <= v@.len(),
            v@ == s@,
            strs(out@) + words(v@.skip(i as int)) == words(s@),
        decreases v@.len() - i,
    {
        let ghost rest = v@.skip(i as int);
        if is_whitespace_char(v[i]) {
            proof {
                assert(rest[0] == v@[i as int]);
                assert(rest.drop_first() =~= v@.skip(i + 1));
            }
            i = i + 1;
        } else {
            let e = word_end(&v, i);
            let w = string_of_range(&v, i, e);
            let ghost before = strs(out@);
            proof {
                assert(rest[0] == v@[i as int]);
                assert(rest.take(e - i) =~= v@.subrange(i as int, e as int));
                assert(rest.skip(e - i) =~= v@.skip(e as int));
                assert(words(rest) == seq![w@] + words(v@.skip(e as int)));
            }
            out.push(w);
            proof {
                assert(strs(out@) =~= before.push(w@));
                assert(strs(out@) + words(v@.skip(e as int)) =~= before + (seq![w@] + words(
                    v@.skip(e as int),
                )));
            }
            i = e;
        }
    }
    proof {
        assert(v@.skip(v@.len() as int) =~= Seq::<char>::empty());
        assert(strs(out@) + Seq::<Seq<char>>::empty() =~= strs(out@));
    }
    out
}

/// The first word of `s` (up to its first whitespace character).
pub open spec fn first_word(s: Seq<char>) -> Seq<char> {
    s.take(word_len(s) as int)
}

/// What follows the first whitespace character of `s`, if there is one.
pub open spec fn after_first_word(s: Seq<char>) -> Option<Seq<char>> {
    if word_len(s) < s.len() {
        Some(s.skip(word_len(s) + 1int))
    } else {
        None
    }
}

/// `s.splitn(2, char::is_whitespace)`: the text before the first whitespace character,
/// and the text after it when there is one.
pub fn split_first_word(s: &str) -> (r: (String, Option<String>))
    ensures
        r.0@ == first_word(s@),
        match r.1 {
            Some(t) => after_first_word(s@) == Some(t@),
            None => after_first_word(s@) is None,
        },
{
    let v = chars_of(s);
    let e = word_end(&v, 0);
    proof {
        assert(v@.skip(0) =~= v@);
    }
    let first = string_of_range(&v, 0, e);
    if e < v.len() {
        let rest = string_of_range(&v, e + 1, v.len());
        proof {
            assert(v@.subrange(e + 1, v@.len() as int) =~= v@.skip(e + 1));
            assert(v@.subrange(0, e as int) =~= v@.take(e as int));
        }
        (first, Some(rest))
    } else {
        proof {
            assert(v@.subrange(0, e as int) =~= v@.take(e as int));
        }
        (first, None)
    }
}

// ---------------------------------------------------------------------------
// Splitting at a character
// ---------------------------------------------------------------------------

/// Position of the first `c` in `s`, or `s.len()` when there is none.
pub open spec fn char_pos(s: Seq<char>, c: char) -> nat
    decreases s.len(),
{
    if s.len() == 0 || s[0] == c {
        0
    } else {
        1 + char_pos(s.drop_first(), c)
    }
}

pub proof fn lemma_char_pos(s: Seq<char>, c: char)
    ensures
        char_pos(s, c) <= s.len(),
        forall|j: int| 0 <= j < char_pos(s, c) ==> #[trigger] s[j] != c,
        char_pos(s, c) < s.len() ==> s[char_pos(s, c) as int] == c,
    decreases s.len(),
{
    if s.len() > 0 && s[0] != c {
        lemma_char_pos(s.drop_first(), c);
        assert forall|j: int| 0 <= j < char_pos(s, c) implies #[trigger] s[j] != c by {
            if j > 0 {
                assert(s[j] == s.drop_first()[j - 1]);
            }
        }
    }
}

proof fn lemma_char_pos_at(s: Seq<char>, c: char, i: int)
    requires
        0 <= i <= s.len(),
        forall|j: int| 0 <= j < i ==> #[trigger] s[j] != c,
        i == s.len() || s[i] == c,
    ensures
        char_pos(s, c) == i,
    decreases i,
{
    if i > 0 {
        assert forall|j: int| 0 <= j < i - 1 implies #[trigger] s.drop_first()[j] != c by {
            assert(s.drop_first()[j] == s[j + 1]);
        }
        if i < s.len() {
            assert(s.drop_first()[i - 1] == s[i]);
        }
        lemma_char_pos_at(s.drop_first(), c, i - 1);
    }
}

/// Position in `v` of the first `c` at or after `i`, or `v.len()`.
fn char_pos_from(v: &[char], c: char, i: usize) -> (e: usize)
    requires
        i <= v@.len(),
    ensures
        i <= e <= v@.len(),
        char_pos(v@.skip(i as int), c) == e - i,
{
    let mut e = i;
    while e < v.len() && v[e] != c
        invariant
            i <= e <= v@.len(),
            forall|j: int| i <= j < e ==> #[trigger] v@[j] != c,
        decreases v@.len() - e,
    {
        e = e + 1;
    }
    proof {
        let s = v@.skip(i as int);
        assert forall|j: int| 0 <= j < e - i implies #[trigger] s[j] != c by {
            assert(s[j] == v@[i + j]);
        }
        if e < v@.len() {
            assert(s[e - i] == v@[e as int]);
        }
        lemma_char_pos_at(s, c, e - i);
    }
    e
}

/// `str::split` at a character: the pieces between the occurrences of `c`.
pub open spec fn split_on(s: Seq<char>, c: char) -> Seq<Seq<char>>
    decreases s.len(),
{
    let p = char_pos(s, c);
    if p < s.len() {
        seq![s.take(p as int)] + split_on(s.skip(p + 1int), c)
    } else {
        seq![s]
    }
}

/// `s.split(c)`, collected.
pub fn split_char(s: &str, c: char) -> (r: Vec<String>)
    ensures
        strs(r@) == split_on(s@, c),
{
    let v = chars_of(s);
    let mut out: Vec<String> = Vec::new();
    let mut i: usize = 0;
    proof {
        assert(v@.skip(0) =~= v@);
        assert(strs(out@) + split_on(v@, c) =~= split_on(v@, c));
    }
    loop
        invariant
            i <= v@.len(),
            v@ == s@,
            strs(out@) + split_on(v@.skip(i as int), c) == split_on(s@, c),
        decreases v@.len() - i,
    {
        let ghost rest = v@.skip(i as int);
        let e = char_pos_from(&v, c, i);
        let piece = string_of_range(&v, i, e);
        let ghost before = strs(out@);
        proof {
            assert(rest.take(e - i) =~= v@.subrange(i as int, e as int));
        }
        if e < v.len() {
            proof {
                assert(rest.skip(e - i + 1) =~= v@.skip(e + 1));
            }
            out.push(piece);
            proof {
                assert(strs(out@) =~= before.push(piece@));
                assert(strs(out@) + split_on(v@.skip(e + 1), c) =~= before + (seq![piece@]
                    + split_on(v@.skip(e + 1), c)));
            }
            i = e + 1;
        } else {
            proof {
                assert(rest =~= v@.subrange(i as int, e as int));
            }
            out.push(piece);
            proof {
                assert(strs(out@) =~= before.push(piece@));
                assert(strs(out@) =~= before + seq![piece@]);
            }
            return out;
        }
    }
}

/// `str::split_once` at a character.
pub open spec fn split_once_spec(s: Seq<char>, c: char) -> Option<(Seq<char>, Seq<char>)> {
    let p = char_pos(s, c);
    if p < s.len() {
        Some((s.take(p as int), s.skip(p + 1int)))
    } else {
        None
    }
}

/// `s.split_once(c)`.
pub fn split_once_char(s: &str, c: char) -> (r: Option<(String, String)>)
    ensures
        match r {
            Some((a, b)) => split_once_spec(s@, c) == Some((a@, b@)),
            None => split_once_spec(s@, c) is None,
        },
{
    let v = chars_of(s);
    let e = char_pos_from(&v, c, 0);
    proof {
        assert(v@.skip(0) =~= v@);
    }
    if e < v.len() {
        let a = string_of_range(&v, 0, e);
        let b = string_of_range(&v, e + 1, v.len());
        proof {
            assert(v@.subrange(0, e as int) =~= v@.take(e as int));
            assert(v@.subrange(e + 1, v@.len() as int) =~= v@.skip(e + 1));
        }
        Some((a, b))
    } else {
        None
    }
}

// ---------------------------------------------------------------------------
// Lines
// ---------------------------------------------------------------------------

/// A line without the carriage return of a `\r\n` ending.
pub open spec fn strip_cr(s: Seq<char>) -> Seq<char> {
    if s.len() > 0 && s.last() == '\r' {
        s.drop_last()
    } else {
        s
    }
}

/// `str::lines`: the text split at `\n` or `\r\n`; a final line ending adds no empty line,
/// and a `\r` that ends the text without a `\n` stays in the last line.
pub open spec fn lines(s: Seq<char>) -> Seq<Seq<char>>
    decreases s.len(),
{
    if s.len() == 0 {
        seq![]
    } else {
        let p = char_pos(s, '\n');
        if p < s.len() {
            seq![strip_cr(s.take(p as int))] + lines(s.skip(p + 1int))
        } else {
            seq![s]
        }
    }
}

/// The line ending at `v[hi]` (exclusive), without a trailing carriage return.
fn line_of(v: &[char], lo: usize, hi: usize) -> (r: String)
    requires
        lo <= hi <= v@.len(),
    ensures
        r@ == strip_cr(v@.subrange(lo as int, hi as int)),
{
    if hi > lo && v[hi - 1] == '\r' {
        let r = string_of_range(v, lo, hi - 1);
        assert(v@.subrange(lo as int, hi - 1) =~= v@.subrange(lo as int, hi as int).drop_last());
        r
    } else {
        string_of_range(v, lo, hi)
    }
}

/// `s.lines()`, collected.
pub fn split_lines(s: &str) -> (r: Vec<String>)
    ensures
        strs(r@) == lines(s@),
{
    let v = chars_of(s);
    let mut out: Vec<String> = Vec::new();
    let mut i: usize = 0;
    proof {
        assert(v@.skip(0) =~= v@);
        assert(strs(out@) + lines(v@) =~= lines(v@));
    }
    while i < v.len()
        invariant
            i <= v@.len(),
            v@ == s@,
            strs(out@) + lines(v@.skip(i as int)) == lines(s@),
        decreases v@.len() - i,
    {
        let ghost rest = v@.skip(i as int);
        let e = char_pos_from(&v, '\n', i);
        let ghost before = strs(out@);
        proof {
            assert(rest.take(e - i) =~= v@.subrange(i as int, e as int));
        }
        if e < v.len() {
            let line = line_of(&v, i, e);
            proof {
                assert(rest.skip(e - i + 1) =~= v@.skip(e + 1));
            }
            out.push(line);
            proof {
                assert(strs(out@) =~= before.push(line@));
                assert(strs(out@) + lines(v@.skip(e + 1)) =~= before + (seq![line@] + lines(
                    v@.skip(e + 1),
                )));
            }
            i = e + 1;
        } else {
            let line = string_of_range(&v, i, e);
            proof {
                assert(rest =~= v@.subrange(i as int, e as int));
                assert(v@.skip(e as int) =~= Seq::<char>::empty());
            }
            out.push(line);
            proof {
                assert(strs(out@) =~= before.push(line@));
                assert(strs(out@) + lines(v@.skip(e as int)) =~= before + seq![line@]);
            }
            i = e;
        }
    }
    proof {
        assert(v@.skip(i as int) =~= Seq::<char>::empty());
        assert(strs(out@) + Seq::<Seq<char>>::empty() =~= strs(out@));
    }
    out
}

// ---------------------------------------------------------------------------
// Trimming a given character
// ---------------------------------------------------------------------------

/// `str::trim_start_matches` with a character.
pub open spec fn trim_start_char(s: Seq<char>, c: char) -> Seq<char>
    decreases s.len(),
{
    if s.len() > 0 && s[0] == c {
        trim_start_char(s.drop_first(), c)
    } else {
        s
    }
}

/// `str::trim_end_matches` with a character.
pub open spec fn trim_end_char(s: Seq<char>, c: char) -> Seq<char>
    decreases s.len(),
{
    if s.len() > 0 && s.last() == c {
        trim_end_char(s.drop_last(), c)
    } else {
        s
    }
}

/// `str::trim_matches` with a character.
pub open spec fn trim_char(s: Seq<char>, c: char) -> Seq<char> {
    trim_end_char(trim_start_char(s, c), c)
}

/// `s.trim_start_matches(c)`.
pub fn trim_start_matches(s: &str, c: char) -> (r: String)
    ensures
        r@ == trim_start_char(s@, c),
{
    let v = chars_of(s);
    let mut i: usize = 0;
    proof {
        assert(v@.skip(0) =~= v@);
    }
    while i < v.len() && v[i] == c
        invariant
            i <= v@.len(),
            v@ == s@,
            trim_start_char(v@.skip(i as int), c) == trim_start_char(s@, c),
        decreases v@.len() - i,
    {
        proof {
            assert(v@.skip(i as int).drop_first() =~= v@.skip(i + 1));
        }
        i = i + 1;
    }
    let r = string_of_range(&v, i, v.len());
    proof {
        assert(v@.subrange(i as int, v@.len() as int) =~= v@.skip(i as int));
    }
    r
}

/// `s.trim_end_matches(c)`.
pub fn trim_end_matches(s: &str, c: char) -> (r: String)
    ensures
        r@ == trim_end_char(s@, c),
{
    let v = chars_of(s);
    let mut j: usize = v.len();
    proof {
        assert(v@.take(v@.len() as int) =~= v@);
    }
    while j > 0 && v[j - 1] == c
        invariant
            j <= v@.len(),
            v@ == s@,
            trim_end_char(v@.take(j as int), c) == trim_end_char(s@, c),
        decreases j,
    {
        proof {
            assert(v@.take(j as int).drop_last() =~= v@.take(j - 1));
        }
        j = j - 1;
    }
    let r = string_of_range(&v, 0, j);
    proof {
        assert(v@.subrange(0, j as int) =~= v@.take(j as int));
    }
    r
}

/// `s.trim_matches(c)`.
pub fn trim_matches(s: &str, c: char) -> (r: String)
    ensures
        r@ == trim_char(s@, c),
{
    let t = trim_start_matches(s, c);
    trim_end_matches(t.as_str(), c)
}

// ---------------------------------------------------------------------------
// Prefixes and replacement
// ---------------------------------------------------------------------------

/// `s.strip_prefix(p)`.
pub fn strip_prefix(s: &str, p: &str) -> (r: Option<String>)
    ensures
        match r {
            Some(t) => p@.is_prefix_of(s@) && t@ == s@.skip(p@.len() as int),
            None => !p@.is_prefix_of(s@),
        },
{
    let v = chars_of(s);
    let w = chars_of(p);
    if crate::text::chars_starts_with(&v, &w) {
        let t = string_of_range(&v, w.len(), v.len());
        proof {
            assert(v@.subrange(w@.len() as int, v@.len() as int) =~= v@.skip(w@.len() as int));
        }
        Some(t)
    } else {
        None
    }
}

/// `str::replace`: every occurrence of `pat`, found from the left without overlaps,
/// replaced by `with`.
pub open spec fn replace_spec(s: Seq<char>, pat: Seq<char>, with: Seq<char>) -> Seq<char>
    decreases s.len(),
{
    if s.len() == 0 {
        seq![]
    } else if pat.len() > 0 && pat.is_prefix_of(s) {
        with + replace_spec(s.skip(pat.len() as int), pat, with)
    } else {
        seq![s[0]] + replace_spec(s.drop_first(), pat, with)
    }
}

/// `s.replace(pat, with)` for a non-empty pattern.
pub fn replace_all(s: &str, pat: &str, with: &str) -> (r: String)
    requires
        pat@.len() > 0,
    ensures
        r@ == replace_spec(s@, pat@, with@),
{
    let v = chars_of(s);
    let w = chars_of(pat);
    let mut out = String::new();
    let mut i: usize = 0;
    proof {
        assert(v@.skip(0) =~= v@);
        assert(out@ + replace_spec(v@, pat@, with@) =~= replace_spec(v@, pat@, with@));
    }
    while i < v.len()
        invariant
            i <= v@.len(),
            v@ == s@,
            w@ == pat@,
            w@.len() > 0,
            out@ + replace_spec(v@.skip(i as int), pat@, with@) == replace_spec(s@, pat@, with@),
        decreases v@.len() - i,
    {
        let ghost rest = v@.skip(i as int);
        let ghost before = out@;
        if crate::text::occurs_at_exec(&v, &w, i) {
            proof {
                assert(rest.subrange(0, w@.len() as int) =~= v@.subrange(i as int, i + w@.len()));
                assert(w@.is_prefix_of(rest));
                assert(rest.skip(w@.len() as int) =~= v@.skip(i + w@.len()));
            }
            out.append(with);
            proof {
                assert(out@ + replace_spec(v@.skip(i + w@.len()), pat@, with@) =~= before + (
                with@ + replace_spec(v@.skip(i + w@.len()), pat@, with@)));
            }
            i = i + w.len();
        } else {
            proof {
                if w@.is_prefix_of(rest) {
                    assert(v@.subrange(i as int, i + w@.len()) =~= rest.subrange(
                        0,
                        w@.len() as int,
                    ));
                    assert(occurs_at(v@, w@, i as int));
                }
                assert(rest[0] == v@[i as int]);
                assert(rest.drop_first() =~= v@.skip(i + 1));
            }
            out.push(v[i]);
            proof {
                assert(out@ + replace_spec(v@.skip(i + 1), pat@, with@) =~= before + (seq![
                    v@[i as int],
                ] + replace_spec(v@.skip(i + 1), pat@, with@)));
            }
            i = i + 1;
        }
    }
    proof {
        assert(v@.skip(i as int) =~= Seq::<char>::empty());
        assert(out@ + Seq::<char>::empty() =~= out@);
    }
    out
}

// ---------------------------------------------------------------------------
// Optional texts
// ---------------------------------------------------------------------------

/// The text of `o`, or `default` when there is none.
pub open spec fn text_or(o: Option<String>, default: Seq<char>) -> Seq<char> {
    match o {
        Some(s) => s@,
        None => default,
    }
}

/// `o.as_deref().unwrap_or(default)`, owned.
pub fn text_or_default(o: &Option<String>, default: &str) -> (r: String)
    ensures
        r@ == text_or(*o, default@),
{
    match o {
        Some(s) => s.clone(),
        None => default.to_owned(),
    }
}

} // verus!
