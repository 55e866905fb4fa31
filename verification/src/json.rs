//! A plain JSON value, as exchanged with a Gradio server.
use vstd::prelude::*;

verus! {

/// A JSON value. Numbers keep their JSON text; objects keep their members in
/// order.
#[derive(Debug, PartialEq, Eq)]
pub enum JsonValue {
    Null,
    Bool(bool),
    Number(String),
    Str(String),
    Array(Vec<JsonValue>),
    Object(Vec<(String, JsonValue)>),
}

/// `v` is the string `s`.
pub open spec fn json_str(v: JsonValue, s: Seq<char>) -> bool {
    v matches JsonValue::Str(t) && t@ == s
}

/// `v` is the number written `digits`.
pub open spec fn json_number(v: JsonValue, digits: Seq<char>) -> bool {
    v matches JsonValue::Number(t) && t@ == digits
}

/// `v` is the object whose only member is `key` with the string `s`.
pub open spec fn json_single_str_member(v: JsonValue, key: Seq<char>, s: Seq<char>) -> bool {
    v matches JsonValue::Object(m) && m@.len() == 1 && m@[0].0@ == key && json_str(m@[0].1, s)
}

/// The members of the first object among `items`.
pub open spec fn first_object(items: Seq<JsonValue>) -> Option<Seq<(String, JsonValue)>>
    decreases items.len(),
{
    if items.len() == 0 {
        None
    } else if items[0] is Object {
        Some(items[0]->Object_0@)
    } else {
        first_object(items.drop_first())
    }
}

/// The string held by the first member named `key`; `None` when there is no
/// such member or it is not a string.
pub open spec fn member_str(members: Seq<(String, JsonValue)>, key: Seq<char>) -> Option<Seq<char>>
    decreases members.len(),
{
    if members.len() == 0 {
        None
    } else if members[0].0@ == key {
        match members[0].1 {
            JsonValue::Str(s) => Some(s@),
            _ => None,
        }
    } else {
        member_str(members.drop_first(), key)
    }
}

/// The string of a member, if it holds one.
pub open spec fn str_of(v: JsonValue) -> Option<Seq<char>> {
    match v {
        JsonValue::Str(s) => Some(s@),
        _ => None,
    }
}

/// Looking up a key sees only the members with that key: when `i` is the
/// first member named `key`, the lookup gives its string (or `None` when it is
/// not a string), whatever the members before it hold; with no member named
/// `key` it gives `None`.
pub proof fn lemma_member_str_first_with_key(members: Seq<(String, JsonValue)>, key: Seq<char>)
    ensures
        forall|i: int|
            0 <= i < members.len() && (#[trigger] members[i]).0@ == key && (forall|j: int|
                0 <= j < i ==> members[j].0@ != key) ==> member_str(members, key) == str_of(
                members[i].1,
            ),
        (forall|j: int| 0 <= j < members.len() ==> members[j].0@ != key) ==> member_str(members, key)
            is None,
    decreases members.len(),
{
    if members.len() > 0 {
        let rest = members.drop_first();
        lemma_member_str_first_with_key(rest, key);
        assert forall|i: int|
            0 <= i < members.len() && (#[trigger] members[i]).0@ == key && (forall|j: int|
                0 <= j < i ==> members[j].0@ != key) implies member_str(members, key) == str_of(
            members[i].1,
        ) by {
            if i > 0 {
                assert(rest[i - 1] == members[i]);
                assert(members[0].0@ != key);
                assert forall|j: int| 0 <= j < i - 1 implies rest[j].0@ != key by {
                    assert(rest[j] == members[j + 1]);
                }
            }
        }
        if forall|j: int| 0 <= j < members.len() ==> members[j].0@ != key {
            assert(members[0].0@ != key);
            assert forall|j: int| 0 <= j < rest.len() implies rest[j].0@ != key by {
                assert(rest[j] == members[j + 1]);
            }
        }
    }
}

/// Members with other keys in front do not change a lookup.
pub proof fn lemma_member_str_other_keys(pre: Seq<(String, JsonValue)>, members: Seq<(String, JsonValue)>, key: Seq<char>)
    requires
        forall|j: int| 0 <= j < pre.len() ==> pre[j].0@ != key,
    ensures
        member_str(pre + members, key) == member_str(members, key),
    decreases pre.len(),
{
    if pre.len() > 0 {
        assert((pre + members)[0] == pre[0]);
        assert((pre + members).drop_first() =~= pre.drop_first() + members);
        lemma_member_str_other_keys(pre.drop_first(), members, key);
    } else {
        assert(pre + members =~= members);
    }
}

fn same_text(a: &String, b: &str) -> (r: bool)
    ensures
        r == (a@ == b@),
{
    let owned = b.to_owned();
    *a == owned
}

/// The members of the first object among `items`, if any.
pub fn find_first_object(items: &Vec<JsonValue>) -> (r: Option<&Vec<(String, JsonValue)>>)
    ensures
        match r {
            Some(m) => first_object(items@) == Some(m@),
            None => first_object(items@) is None,
        },
{
    let mut i: usize = 0;
    assert(items@.subrange(0, items@.len() as int) =~= items@);
    while i < items.len()
        invariant
            i <= items@.len(),
            first_object(items@) == first_object(items@.subrange(i as int, items@.len() as int)),
        decreases items@.len() - i,
    {
        assert(items@.subrange(i as int, items@.len() as int).drop_first() =~= items@.subrange(
            i + 1,
            items@.len() as int,
        ));
        match &items[i] {
            JsonValue::Object(m) => {
                return Some(m);
            },
            _ => {},
        }
        i = i + 1;
    }
    None
}

/// The string held by the first member named `key`, if it is a string.
pub fn find_member_str<'a>(members: &'a Vec<(String, JsonValue)>, key: &str) -> (r: Option<&'a String>)
    ensures
        match r {
            Some(s) => member_str(members@, key@) == Some(s@),
            None => member_str(members@, key@) is None,
        },
{
    let mut i: usize = 0;
    assert(members@.subrange(0, members@.len() as int) =~= members@);
    while i < members.len()
        invariant
            i <= members@.len(),
            member_str(members@, key@) == member_str(
                members@.subrange(i as int, members@.len() as int),
                key@,
            ),
        decreases members@.len() - i,
    {
        assert(members@.subrange(i as int, members@.len() as int).drop_first()
            =~= members@.subrange(i + 1, members@.len() as int));
        if same_text(&members[i].0, key) {
            return match &members[i].1 {
                JsonValue::Str(s) => Some(s),
                _ => None,
            };
        }
        i = i + 1;
    }
    None
}

/// `serde_json::Value`, only passed from the parser to the converter below.
#[verifier::external_type_specification]
#[verifier::external_body]
pub struct ExJsonValue(serde_json::Value);

/// The JSON array in `text`, as serde_json reads it into `Vec<Value>` and each
/// value is carried over variant by variant; `None` where `text` is not a JSON
/// array.
pub uninterp spec fn json_array_values(text: Seq<char>) -> Option<Seq<JsonValue>>;

/// Converts a `serde_json::Value` into a [`JsonValue`], one variant for one:
/// a number keeps its JSON text, an object its members in serde_json's order.
#[verifier::external_body]
fn json_of(v: serde_json::Value) -> JsonValue {
    match v {
        serde_json::Value::Null => JsonValue::Null,
        serde_json::Value::Bool(b) => JsonValue::Bool(b),
        serde_json::Value::Number(n) => JsonValue::Number(n.to_string()),
        serde_json::Value::String(s) => JsonValue::Str(s),
        serde_json::Value::Array(a) => JsonValue::Array(a.into_iter().map(json_of).collect()),
        serde_json::Value::Object(m) => JsonValue::Object(m.into_iter().map(|(k, x)| (k, json_of(x))).collect()),
    }
}

/// Reads `text` as a JSON array with `serde_json::from_str::<Vec<Value>>`. The
/// values it gives are named [`json_array_values`]; the error is passed on.
#[verifier::external_body]
pub(crate) fn parse_json_array(text: &str) -> (r: Result<Vec<JsonValue>, serde_json::Error>)
    ensures
        match r {
            Ok(v) => json_array_values(text@) == Some(v@),
            Err(_) => json_array_values(text@) is None,
        },
{
    let values: Vec<serde_json::Value> = serde_json::from_str(text)?;
    Ok(values.into_iter().map(json_of).collect())
}

} // verus!
