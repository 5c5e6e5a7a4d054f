use vstd::prelude::*;
use crate::search::{first_in, is_first_in, lemma_first_in_absent, lemma_first_in_found, text_equals};

verus! {

/// A JSON document as the Basecamp API sends it.
///
/// Read by `parse_json`, an object holds each member name once, in the
/// order of the names (where a name is written twice, the later value is
/// kept); a number is kept as the text `serde_json` writes for it.
pub enum JsonValue {
    Null,
    Bool(bool),
    Number(String),
    Str(String),
    Array(Vec<JsonValue>),
    Object(Vec<(String, JsonValue)>),
}

#[verifier::external_type_specification]
#[verifier::external_body]
pub struct ExSerdeJsonValue(serde_json::Value);

/// What `serde_json::from_str` reads from a text as a `serde_json::Value`,
/// taken over into a `JsonValue` member for member; nothing when the text
/// is not JSON.
pub uninterp spec fn json_of_text(text: Seq<char>) -> Option<JsonValue>;

/// Takes a `serde_json::Value` over into a `JsonValue`, one for one.
#[verifier::external_body]
fn from_serde(value: serde_json::Value) -> JsonValue {
    match value {
        serde_json::Value::Null => JsonValue::Null,
        serde_json::Value::Bool(b) => JsonValue::Bool(b),
        serde_json::Value::Number(n) => JsonValue::Number(n.to_string()),
        serde_json::Value::String(s) => JsonValue::Str(s),
        serde_json::Value::Array(items) => JsonValue::Array(items.into_iter().map(from_serde).collect()),
        serde_json::Value::Object(members) => JsonValue::Object(
            members.into_iter().map(|(k, v)| (k, from_serde(v))).collect(),
        ),
    }
}

/// Calls `serde_json::from_str::<serde_json::Value>` on the text and takes
/// the value over with `from_serde`. Claimed: the result is
/// `json_of_text` of the text.
#[verifier::external_body]
pub fn parse_json(text: &str) -> (r: Option<JsonValue>)
    ensures
        r == json_of_text(text@),
{
    match serde_json::from_str::<serde_json::Value>(text) {
        Ok(value) => Some(from_serde(value)),
        Err(_) => None,
    }
}

/// Why a named item could not be picked out of a list.
#[derive(PartialEq, Eq, Structural, Clone, Copy, Debug)]
pub enum Miss {
    /// An item looked at before a match has no text under the field.
    NotText,
    /// No item carries the wanted text under the field.
    NotFound,
}

pub open spec fn key_at(entries: Seq<(String, JsonValue)>, key: Seq<char>) -> spec_fn(int) -> bool {
    |i: int| entries[i].0@ == key
}

/// `value[key]`: the first member of an object with the given name.
/// A value that is not an object has no members.
pub open spec fn member_of(value: JsonValue, key: Seq<char>) -> Option<JsonValue> {
    match value {
        JsonValue::Object(entries) => match first_in(0, entries@.len() as int, key_at(entries@, key)) {
            Some(i) => Some(entries@[i].1),
            None => None,
        },
        _ => None,
    }
}

/// `value[key].as_str()`: the text of a member, if it is a string.
pub open spec fn member_text(value: JsonValue, key: Seq<char>) -> Option<Seq<char>> {
    match member_of(value, key) {
        Some(JsonValue::Str(s)) => Some(s@),
        _ => None,
    }
}

/// `value[key].as_array()`: the items of a member, if it is an array.
pub open spec fn member_items(value: JsonValue, key: Seq<char>) -> Option<Seq<JsonValue>> {
    match member_of(value, key) {
        Some(JsonValue::Array(items)) => Some(items@),
        _ => None,
    }
}

/// `value.as_array()`.
pub open spec fn items_of(value: JsonValue) -> Option<Seq<JsonValue>> {
    match value {
        JsonValue::Array(items) => Some(items@),
        _ => None,
    }
}

/// The search for a named item stops at an item whose field is not text
/// or is the wanted text.
pub open spec fn stops_at(items: Seq<JsonValue>, field: Seq<char>, wanted: Seq<char>) -> spec_fn(
    int,
) -> bool {
    |i: int|
        match member_text(items[i], field) {
            Some(t) => t == wanted,
            None => true,
        }
}

/// `items.iter().find(|x| x[field].as_str().unwrap() == wanted).unwrap()`:
/// the index of the first item whose `field` is the text `wanted`; a miss
/// where an item looked at on the way has no text there, or where no item
/// matches.
pub open spec fn find_named(items: Seq<JsonValue>, field: Seq<char>, wanted: Seq<char>) -> Result<
    int,
    Miss,
> {
    match first_in(0, items.len() as int, stops_at(items, field, wanted)) {
        Some(i) => if member_text(items[i], field) == Some(wanted) {
            Ok(i)
        } else {
            Err(Miss::NotText)
        },
        None => Err(Miss::NotFound),
    }
}

/// Items before `i` whose `field` is text other than `wanted`.
pub open spec fn passed_over(items: Seq<JsonValue>, field: Seq<char>, wanted: Seq<char>, i: int) -> bool {
    forall|j: int|
        0 <= j < i ==> (#[trigger] member_text(items[j], field) is Some && member_text(
            items[j],
            field,
        )->0 != wanted)
}

/// The search picks the first item whose `field` is `wanted`: where item
/// `i` carries `wanted` and every item before it carries other text, the
/// search finds `i`, whatever follows.
pub proof fn lemma_find_named_first(items: Seq<JsonValue>, field: Seq<char>, wanted: Seq<char>, i: int)
    requires
        0 <= i < items.len(),
        member_text(items[i], field) == Some(wanted),
        passed_over(items, field, wanted, i),
    ensures
        find_named(items, field, wanted) == Ok::<int, Miss>(i),
{
    assert forall|j: int| 0 <= j < i implies !#[trigger] stops_at(items, field, wanted)(j) by {
        assert(member_text(items[j], field) is Some);
    }
    assert(stops_at(items, field, wanted)(i));
    lemma_first_in_found(0, items.len() as int, stops_at(items, field, wanted), i);
}

/// What the search finds is an item whose `field` is `wanted`, with every
/// item before it carrying other text.
pub proof fn lemma_find_named_sound(items: Seq<JsonValue>, field: Seq<char>, wanted: Seq<char>)
    ensures
        find_named(items, field, wanted) matches Ok(i) ==> {
            &&& 0 <= i < items.len()
            &&& member_text(items[i], field) == Some(wanted)
            &&& passed_over(items, field, wanted, i)
        },
{
    let p = stops_at(items, field, wanted);
    if exists|i: int| is_first_in(0, items.len() as int, p, i) {
        let i = choose|i: int| is_first_in(0, items.len() as int, p, i);
        assert(is_first_in(0, items.len() as int, p, i));
        assert forall|j: int| 0 <= j < i implies (#[trigger] member_text(items[j], field) is Some
            && member_text(items[j], field)->0 != wanted) by {
            assert(!p(j));
        }
    }
}

/// The member of `value` named `key`, if `value` is an object that has one.
#[verifier::loop_isolation(false)]
pub fn get_member<'a>(value: &'a JsonValue, key: &str) -> (r: Option<&'a JsonValue>)
    ensures
        r is None <==> member_of(*value, key@) is None,
        r matches Some(m) ==> member_of(*value, key@) == Some(*m),
{
    match value {
        JsonValue::Object(entries) => {
            let n = entries.len();
            let mut i: usize = 0;
            while i < n
                invariant
                    n == entries@.len(),
                    i <= n,
                    forall|j: int| 0 <= j < i ==> !#[trigger] key_at(entries@, key@)(j),
                decreases n - i,
            {
                if text_equals(entries[i].0.as_str(), key) {
                    proof {
                        lemma_first_in_found(0, n as int, key_at(entries@, key@), i as int);
                    }
                    return Some(&entries[i].1);
                }
                i = i + 1;
            }
            proof {
                lemma_first_in_absent(0, n as int, key_at(entries@, key@));
            }
            None
        },
        _ => None,
    }
}

/// `value[key].as_str()`.
pub fn get_member_text<'a>(value: &'a JsonValue, key: &str) -> (r: Option<&'a str>)
    ensures
        r is None <==> member_text(*value, key@) is None,
        r matches Some(t) ==> member_text(*value, key@) == Some(t@),
{
    match get_member(value, key) {
        Some(JsonValue::Str(s)) => Some(s.as_str()),
        _ => None,
    }
}

/// `value[key].as_array()`.
pub fn get_member_items<'a>(value: &'a JsonValue, key: &str) -> (r: Option<&'a Vec<JsonValue>>)
    ensures
        r is None <==> member_items(*value, key@) is None,
        r matches Some(items) ==> member_items(*value, key@) == Some(items@),
{
    match get_member(value, key) {
        Some(JsonValue::Array(items)) => Some(items),
        _ => None,
    }
}

/// `value.as_array()`.
pub fn get_items<'a>(value: &'a JsonValue) -> (r: Option<&'a Vec<JsonValue>>)
    ensures
        r is None <==> items_of(*value) is None,
        r matches Some(items) ==> items_of(*value) == Some(items@),
{
    match value {
        JsonValue::Array(items) => Some(items),
        _ => None,
    }
}

/// Picks the first item of `items` whose `field` is the text `wanted`,
/// looking at the items in order.
pub fn find_by_name(items: &Vec<JsonValue>, field: &str, wanted: &str) -> (r: Result<usize, Miss>)
    ensures
        r matches Ok(i) ==> find_named(items@, field@, wanted@) == Ok::<int, Miss>(i as int),
        r matches Err(m) ==> find_named(items@, field@, wanted@) == Err::<int, Miss>(m),
{
    let n = items.len();
    let mut i: usize = 0;
    while i < n
        invariant
            n == items@.len(),
            i <= n,
            forall|j: int| 0 <= j < i ==> !#[trigger] stops_at(items@, field@, wanted@)(j),
        decreases n - i,
    {
        match get_member_text(&items[i], field) {
            Some(t) => {
                if text_equals(t, wanted) {
                    proof {
                        lemma_first_in_found(0, n as int, stops_at(items@, field@, wanted@), i as int);
                    }
                    return Ok(i);
                }
            },
            None => {
                proof {
                    lemma_first_in_found(0, n as int, stops_at(items@, field@, wanted@), i as int);
                }
                return Err(Miss::NotText);
            },
        }
        i = i + 1;
    }
    proof {
        lemma_first_in_absent(0, n as int, stops_at(items@, field@, wanted@));
    }
    Err(Miss::NotFound)
}

} // verus!
