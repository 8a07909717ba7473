//! JSON values as the library reads and builds them.
//!
//! Numbers keep their literal text, so no value here needs floating point. An object lists
//! its members in order; a parsed object has distinct keys.

use vstd::prelude::*;
use vstd::string::*;

use crate::text::str_eq;

verus! {

/// A JSON value.
pub enum JsonValue {
    Null,
    Bool(bool),
    Number(String),
    Str(String),
    Array(Vec<JsonValue>),
    Object(Vec<(String, JsonValue)>),
}

/// The contents of a JSON value.
pub ghost enum JsonView {
    Null,
    Bool(bool),
    Number(Seq<char>),
    Str(Seq<char>),
    Array(Seq<JsonView>),
    Object(Seq<(Seq<char>, JsonView)>),
}

/// The contents of `v`.
pub open spec fn jv(v: JsonValue) -> JsonView
    decreases v,
{
    match v {
        JsonValue::Null => JsonView::Null,
        JsonValue::Bool(b) => JsonView::Bool(b),
        JsonValue::Number(n) => JsonView::Number(n@),
        JsonValue::Str(s) => JsonView::Str(s@),
        JsonValue::Array(a) => JsonView::Array(
            Seq::new(
                a@.len(),
                |i: int|
                    if 0 <= i < a@.len() {
                        jv(a@[i])
                    } else {
                        JsonView::Null
                    },
            ),
        ),
        JsonValue::Object(m) => JsonView::Object(
            Seq::new(
                m@.len(),
                |i: int|
                    if 0 <= i < m@.len() {
                        (m@[i].0@, jv(m@[i].1))
                    } else {
                        (Seq::empty(), JsonView::Null)
                    },
            ),
        ),
    }
}

impl View for JsonValue {
    type V = JsonView;

    open spec fn view(&self) -> JsonView {
        jv(*self)
    }
}

/// The contents of a list of values.
pub open spec fn items_view(a: Seq<JsonValue>) -> Seq<JsonView> {
    Seq::new(a.len(), |i: int| jv(a[i]))
}

/// The contents of a list of members.
pub open spec fn members_view(m: Seq<(String, JsonValue)>) -> Seq<(Seq<char>, JsonView)> {
    Seq::new(m.len(), |i: int| (m[i].0@, jv(m[i].1)))
}

pub proof fn lemma_jv_array(a: Vec<JsonValue>)
    ensures
        jv(JsonValue::Array(a)) == JsonView::Array(items_view(a@)),
{
    let v = jv(JsonValue::Array(a));
    if let JsonView::Array(s) = v {
        assert(s =~= items_view(a@));
    }
}

pub proof fn lemma_jv_object(m: Vec<(String, JsonValue)>)
    ensures
        jv(JsonValue::Object(m)) == JsonView::Object(members_view(m@)),
{
    let v = jv(JsonValue::Object(m));
    if let JsonView::Object(s) = v {
        assert(s =~= members_view(m@));
    }
}

/// A JSON array of the given items.
pub fn array(items: Vec<JsonValue>) -> (v: JsonValue)
    ensures
        v@ == JsonView::Array(items_view(items@)),
{
    proof {
        lemma_jv_array(items);
    }
    JsonValue::Array(items)
}

/// Index of the first member of `members` named `key`.
pub open spec fn member_index(members: Seq<(String, JsonValue)>, key: Seq<char>) -> Option<int>
    decreases members.len(),
{
    if members.len() == 0 {
        None
    } else if members[0].0@ == key {
        Some(0)
    } else {
        match member_index(members.drop_first(), key) {
            Some(i) => Some(i + 1),
            None => None,
        }
    }
}

pub proof fn lemma_member_index(members: Seq<(String, JsonValue)>, key: Seq<char>)
    ensures
        match member_index(members, key) {
            Some(i) => 0 <= i < members.len() && members[i].0@ == key && forall|j: int|
                0 <= j < i ==> #[trigger] members[j].0@ != key,
            None => forall|j: int| 0 <= j < members.len() ==> #[trigger] members[j].0@ != key,
        },
    decreases members.len(),
{
    if members.len() > 0 && members[0].0@ != key {
        lemma_member_index(members.drop_first(), key);
        assert forall|j: int| 1 <= j < members.len() implies #[trigger] members[j].0@
            == members.drop_first()[j - 1].0@ by {}
    }
}

/// `Value::get(key)`: the member named `key` of an object.
pub open spec fn json_get(v: JsonValue, key: Seq<char>) -> Option<JsonValue> {
    match v {
        JsonValue::Object(members) => match member_index(members@, key) {
            Some(i) => Some(members@[i].1),
            None => None,
        },
        _ => None,
    }
}

/// `Value::as_str`: the text of a string value.
pub open spec fn json_str(v: JsonValue) -> Option<Seq<char>> {
    match v {
        JsonValue::Str(s) => Some(s@),
        _ => None,
    }
}

/// The text of the member `key` when it is a string.
pub open spec fn string_field(v: JsonValue, key: Seq<char>) -> Option<Seq<char>> {
    match json_get(v, key) {
        Some(m) => json_str(m),
        None => None,
    }
}

/// `value.get(key)`.
pub fn get<'a>(v: &'a JsonValue, key: &str) -> (r: Option<&'a JsonValue>)
    ensures
        match r {
            Some(m) => json_get(*v, key@) == Some(*m),
            None => json_get(*v, key@) is None,
        },
{
    match v {
        JsonValue::Object(members) => {
            let mut i: usize = 0;
            while i < members.len()
                invariant
                    *v == JsonValue::Object(*members),
                    i <= members@.len(),
                    forall|j: int| 0 <= j < i ==> #[trigger] members@[j].0@ != key@,
                decreases members@.len() - i,
            {
                if str_eq(members[i].0.as_str(), key) {
                    proof {
                        lemma_member_index(members@, key@);
                        assert(members@[i as int].0@ == key@);
                        match member_index(members@, key@) {
                            Some(k) => {
                                if k < i {
                                    assert(members@[k].0@ != key@);
                                } else if k > i {
                                    assert(members@[i as int].0@ != key@);
                                }
                            },
                            None => {
                                assert(members@[i as int].0@ != key@);
                            },
                        }
                        assert(member_index(members@, key@) == Some(i as int));
                    }
                    return Some(&members[i].1);
                }
                i = i + 1;
            }
            proof {
                lemma_member_index(members@, key@);
            }
            None
        },
        _ => None,
    }
}

/// `extract_string_field`: the member `key` when it is a string, as an owned text.
pub fn get_string_field(v: &JsonValue, key: &str) -> (r: Option<String>)
    ensures
        match r {
            Some(s) => string_field(*v, key@) == Some(s@),
            None => string_field(*v, key@) is None,
        },
{
    match get(v, key) {
        Some(JsonValue::Str(s)) => Some(s.clone()),
        _ => None,
    }
}

/// A JSON string value.
pub open spec fn is_text(v: JsonValue, s: Seq<char>) -> bool {
    v matches JsonValue::Str(t) && t@ == s
}

/// A JSON object made of the given members, in order.
pub fn object(members: Vec<(String, JsonValue)>) -> (v: JsonValue)
    ensures
        v@ == JsonView::Object(members_view(members@)),
{
    proof {
        lemma_jv_object(members);
    }
    JsonValue::Object(members)
}

/// A JSON string made of `s`.
pub fn text(s: &str) -> (v: JsonValue)
    ensures
        v@ == JsonView::Str(s@),
{
    JsonValue::Str(s.to_owned())
}

/// The member `(key, value)`.
pub fn member(key: &str, value: JsonValue) -> (m: (String, JsonValue))
    ensures
        m.0@ == key@,
        m.1 == value,
{
    (key.to_owned(), value)
}

} // verus!
