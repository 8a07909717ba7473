//! Streaming text and compact log lines.

use vstd::prelude::*;
use vstd::string::*;

use crate::message::opt_view;
use crate::text::{
    parse_unsigned, parse_unsigned_spec, byte_len, chars_ends_with, chars_of, chars_starts_with, decimal, push_range, trim, trim_spec,
    truncate_middle, truncate_middle_spec, u64_to_decimal, utf8_len,
};
use crate::words::{replace_all, replace_spec};

verus! {

// ---------------------------------------------------------------------------
// Streamed deltas
// ---------------------------------------------------------------------------

/// The largest `j` in `1..=k` such that the first `j` characters of `d` end `e`, or 0.
pub open spec fn overlap(e: Seq<char>, d: Seq<char>, k: nat) -> nat
    decreases k,
{
    if k == 0 {
        0
    } else if k <= d.len() && d.take(k as int).is_suffix_of(e) {
        k
    } else {
        overlap(e, d, (k - 1) as nat)
    }
}

/// `existing` after a streamed chunk `delta`: a chunk that is empty or already ends the
/// text changes nothing; a chunk that repeats the whole text and goes on (a cumulative
/// chunk) replaces it; otherwise the part of the chunk that overlaps the end of the text
/// is not repeated.
pub open spec fn append_delta_spec(existing: Seq<char>, delta: Seq<char>) -> Seq<char> {
    if delta.len() == 0 || delta.is_suffix_of(existing) {
        existing
    } else if existing.is_prefix_of(delta) {
        delta
    } else {
        existing + delta.skip(overlap(existing, delta, delta.len()) as int)
    }
}

proof fn lemma_overlap(e: Seq<char>, d: Seq<char>, k: nat)
    requires
        k <= d.len(),
    ensures
        overlap(e, d, k) <= k,
        overlap(e, d, k) > 0 ==> d.take(overlap(e, d, k) as int).is_suffix_of(e),
    decreases k,
{
    if k > 0 && !d.take(k as int).is_suffix_of(e) {
        lemma_overlap(e, d, (k - 1) as nat);
    }
}

/// Adds a streamed chunk to the text received so far.
pub fn append_delta(existing: &mut String, delta: &str)
    ensures
        final(existing)@ == append_delta_spec(old(existing)@, delta@),
{
    let e = chars_of(existing.as_str());
    let d = chars_of(delta);
    if d.len() == 0 || chars_ends_with(&e, &d) {
        return;
    }
    if chars_starts_with(&d, &e) {
        push_range(existing, &d, e.len(), d.len());
        proof {
            assert(old(existing)@ + d@.subrange(e@.len() as int, d@.len() as int) =~= d@);
        }
        return;
    }
    let mut k: usize = d.len();
    while k > 0
        invariant
            k <= d@.len(),
            d@ == delta@,
            e@ == old(existing)@,
            *existing == *old(existing),
            d@.len() > 0,
            !d@.is_suffix_of(e@),
            !e@.is_prefix_of(d@),
            overlap(e@, d@, d@.len()) == overlap(e@, d@, k as nat),
        decreases k,
    {
        let prefix = crate::text::string_of_range(&d, 0, k);
        let pv = chars_of(prefix.as_str());
        proof {
            assert(d@.subrange(0, k as int) =~= d@.take(k as int));
        }
        if chars_ends_with(&e, &pv) {
            push_range(existing, &d, k, d.len());
            proof {
                assert(d@.subrange(k as int, d@.len() as int) =~= d@.skip(k as int));
            }
            return;
        }
        k = k - 1;
    }
    push_range(existing, &d, 0, d.len());
    proof {
        assert(d@.subrange(0, d@.len() as int) =~= d@);
        assert(d@.skip(0) =~= d@);
    }
}

/// Whatever the chunk, the text it produces starts with the text received so far and ends
/// with the chunk.
pub proof fn lemma_append_delta_keeps_both(existing: Seq<char>, delta: Seq<char>)
    ensures
        existing.is_prefix_of(append_delta_spec(existing, delta)),
        delta.is_suffix_of(append_delta_spec(existing, delta)),
{
    let r = append_delta_spec(existing, delta);
    if delta.len() == 0 || delta.is_suffix_of(existing) {
        assert(existing.subrange(0, existing.len() as int) =~= existing);
        if delta.len() == 0 {
            assert(existing.subrange(existing.len() as int, existing.len() as int) =~= delta);
        }
    } else if existing.is_prefix_of(delta) {
        assert(delta.subrange(0, delta.len() as int) =~= delta);
    } else {
        let k = overlap(existing, delta, delta.len());
        lemma_overlap(existing, delta, delta.len());
        assert(r.subrange(0, existing.len() as int) =~= existing);
        let start = r.len() - delta.len();
        if k > 0 {
            let ek = existing.len() - k;
            assert(existing.subrange(ek, existing.len() as int) == delta.take(k as int));
            assert forall|i: int| 0 <= i < delta.len() implies r.subrange(
                start,
                r.len() as int,
            )[i] == delta[i] by {
                if i < k {
                    assert(r[start + i] == existing[ek + i]);
                    assert(existing.subrange(ek, existing.len() as int)[i] == delta.take(
                        k as int,
                    )[i]);
                } else {
                    assert(r[start + i] == delta.skip(k as int)[i - k]);
                }
            }
        } else {
            assert forall|i: int| 0 <= i < delta.len() implies r.subrange(
                start,
                r.len() as int,
            )[i] == delta[i] by {
                assert(r[start + i] == delta.skip(0)[i]);
            }
        }
        assert(r.subrange(start, r.len() as int) =~= delta);
    }
}

// ---------------------------------------------------------------------------
// Compact log lines
// ---------------------------------------------------------------------------

/// What `serde_json` makes of a text: the compact serialization of the JSON value that the
/// text holds, or nothing when the text is not JSON.
pub uninterp spec fn json_reserialized(text: Seq<char>) -> Option<Seq<char>>;

/// `serde_json::from_str::<serde_json::Value>` followed by `serde_json::to_string`: the text
/// of a JSON document without insignificant whitespace (and with object keys in order), or
/// `None` when the text is not JSON. The result depends on the text alone; nothing more
/// is stated of it.
#[verifier::external_body]
fn reserialize_json(text: &str) -> (r: Option<String>)
    ensures
        opt_view(r) == json_reserialized(text@),
{
    serde_json::from_str::<serde_json::Value>(text).ok().and_then(|v| serde_json::to_string(&v).ok())
}

/// A payload on one line: its compact JSON form, or else its trimmed text with line breaks
/// replaced by spaces; cut in the middle to `max` bytes with a note of the full length.
pub open spec fn compact_payload(value: Seq<char>, reserialized: Option<Seq<char>>, max: nat) -> Seq<
    char,
> {
    let compact = match reserialized {
        Some(c) => c,
        None => replace_spec(trim_spec(value), "\n"@, " "@),
    };
    if utf8_len(compact) <= max {
        compact
    } else {
        truncate_middle_spec(compact, max as int) + " [shown "@ + decimal(max) + "/"@ + decimal(
            utf8_len(compact),
        ) + " chars]"@
    }
}

/// Shortens a payload for a log line, given what `serde_json` made of it.
pub fn compact_payload_text(value: &str, reserialized: Option<String>, max_chars: usize) -> (r:
    String)
    ensures
        r@ == compact_payload(value@, opt_view(reserialized), max_chars as nat),
{
    let compact = match reserialized {
        Some(c) => c,
        None => {
            let t = trim(value);
            proof {
                reveal_strlit("\n");
            }
            replace_all(t.as_str(), "\n", " ")
        },
    };
    let len = byte_len(compact.as_str());
    if len <= max_chars {
        compact
    } else {
        let mut r = truncate_middle(compact.as_str(), max_chars);
        r.append(" [shown ");
        r.append(u64_to_decimal(max_chars as u64).as_str());
        r.append("/");
        r.append(u64_to_decimal(len as u64).as_str());
        r.append(" chars]");
        r
    }
}

fn compact_log_payload(value: &str, max_chars: usize) -> (r: String)
    ensures
        r@ == compact_payload(value@, json_reserialized(value@), max_chars as nat),
{
    let reserialized = reserialize_json(value);
    compact_payload_text(value, reserialized, max_chars)
}

/// The log line of a tool call.
pub open spec fn tool_call_line(name: Seq<char>, args: Seq<char>) -> Seq<char> {
    "tool call: "@ + name + " args="@ + compact_payload(args, json_reserialized(args), 600)
}

/// The log line of a tool result.
pub open spec fn tool_result_line(name: Seq<char>, result: Seq<char>) -> Seq<char> {
    "tool result: "@ + name + " -> "@ + compact_payload(result, json_reserialized(result), 1000)
}

/// `tool call: <name> args=<compact args>`, the arguments cut to 600 bytes.
pub fn compact_tool_call_text(name: &str, args: &str) -> (r: String)
    ensures
        r@ == tool_call_line(name@, args@),
{
    let mut r = "tool call: ".to_owned();
    r.append(name);
    r.append(" args=");
    r.append(compact_log_payload(args, 600).as_str());
    r
}

/// `tool result: <name> -> <compact result>`, the result cut to 1000 bytes.
pub fn compact_tool_result_text(name: &str, result: &str) -> (r: String)
    ensures
        r@ == tool_result_line(name@, result@),
{
    let mut r = "tool result: ".to_owned();
    r.append(name);
    r.append(" -> ");
    r.append(compact_log_payload(result, 1000).as_str());
    r
}

/// The number of seconds a setting gives: the value read as an unsigned decimal number
/// that fits in a `u64`, or `default_secs` when the setting is absent or is no such number.
pub open spec fn secs_or_default_spec(value: Option<Seq<char>>, default_secs: u64) -> u64 {
    match value {
        Some(v) => match parse_unsigned_spec(v, u64::MAX as nat) {
            Some(n) => n as u64,
            None => default_secs,
        },
        None => default_secs,
    }
}

/// Reads a number of seconds from a setting's value, falling back to `default_secs`.
pub fn secs_or_default(value: Option<&str>, default_secs: u64) -> (r: u64)
    ensures
        r == secs_or_default_spec(
            match value {
                Some(v) => Some(v@),
                None => None,
            },
            default_secs,
        ),
{
    match value {
        Some(v) => match parse_unsigned(v, u64::MAX) {
            Some(n) => n,
            None => default_secs,
        },
        None => default_secs,
    }
}

} // verus!
