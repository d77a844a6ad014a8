//! What the settings file says about profiles saved before profiles had a
//! target-app filter.

use vstd::prelude::*;

use crate::text::str_equal;

verus! {

/// A JSON document as plain values. Object members are listed with unique
/// keys, in key order.
#[derive(Debug)]
pub enum JsonValue {
    Null,
    Bool(bool),
    Number(String),
    Text(String),
    Array(Vec<JsonValue>),
    Object(Vec<(String, JsonValue)>),
}

#[verifier::external_type_specification]
#[verifier::external_body]
pub struct ExSerdeJsonValue(serde_json::Value);

/// The document that `serde_json` reads from `text`, if `text` is JSON.
pub uninterp spec fn parsed_json(text: Seq<char>) -> Option<JsonValue>;

/// `serde_json::from_str::<serde_json::Value>`: the contract claims only that
/// the document read is a function of the text (`parsed_json`); what that
/// function is, the JSON grammar, is left unstated.
#[verifier::external_body]
fn parse_json(text: &str) -> (r: Option<JsonValue>)
    ensures
        r == parsed_json(text@),
{
    serde_json::from_str::<serde_json::Value>(text).ok().map(json_value_from)
}

/// Moves a `serde_json::Value` into `JsonValue`, variant by variant (numbers
/// by their JSON text).
#[verifier::external_body]
fn json_value_from(value: serde_json::Value) -> JsonValue {
    match value {
        serde_json::Value::Null => JsonValue::Null,
        serde_json::Value::Bool(b) => JsonValue::Bool(b),
        serde_json::Value::Number(n) => JsonValue::Number(n.to_string()),
        serde_json::Value::String(s) => JsonValue::Text(s),
        serde_json::Value::Array(a) => JsonValue::Array(a.into_iter().map(json_value_from).collect()),
        serde_json::Value::Object(m) => JsonValue::Object(
            m.into_iter().map(|(k, v)| (k, json_value_from(v))).collect(),
        ),
    }
}

/// The index of the first member at or after `start` named `key`, or -1.
pub open spec fn member_index_from(members: Seq<(String, JsonValue)>, key: Seq<char>, start: int) -> int
    decreases members.len() - start,
{
    if start < 0 || start >= members.len() {
        -1
    } else if members[start].0@ == key {
        start
    } else {
        member_index_from(members, key, start + 1)
    }
}

/// The index of the member named `key`, or -1.
pub open spec fn member_index(members: Seq<(String, JsonValue)>, key: Seq<char>) -> int {
    member_index_from(members, key, 0)
}

/// The id of a saved profile that has no `app_filter` member: the profile is
/// an object without that member and with a string `id`.
pub open spec fn legacy_profile_id(item: JsonValue) -> Option<String> {
    match item {
        JsonValue::Object(members) => if member_index(members@, "app_filter"@) >= 0 {
            None
        } else {
            let i = member_index(members@, "id"@);
            if i < 0 {
                None
            } else {
                match members@[i].1 {
                    JsonValue::Text(id) => Some(id),
                    _ => None,
                }
            }
        },
        _ => None,
    }
}

/// The ids of the first `n` saved profiles that have no `app_filter` member.
pub open spec fn legacy_ids_upto(items: Seq<JsonValue>, n: nat) -> Seq<String>
    decreases n,
{
    if n == 0 {
        seq![]
    } else {
        let prev = legacy_ids_upto(items, (n - 1) as nat);
        match legacy_profile_id(items[n - 1]) {
            Some(id) => prev.push(id),
            None => prev,
        }
    }
}

/// The ids of the saved profiles that have no `app_filter` member, in order:
/// none unless the document is an object whose `profiles` member is an array.
pub open spec fn missing_app_filter_ids(doc: Option<JsonValue>) -> Seq<String> {
    match doc {
        Some(JsonValue::Object(members)) => {
            let i = member_index(members@, "profiles"@);
            if i < 0 {
                seq![]
            } else {
                match members@[i].1 {
                    JsonValue::Array(items) => legacy_ids_upto(items@, items@.len()),
                    _ => seq![],
                }
            }
        },
        _ => seq![],
    }
}

/// The index of the member named `key`, if there is one.
fn find_member(members: &Vec<(String, JsonValue)>, key: &str) -> (r: Option<usize>)
    ensures
        match r {
            Some(i) => i < members@.len() && i as int == member_index(members@, key@),
            None => member_index(members@, key@) == -1,
        },
{
    let mut i: usize = 0;
    while i < members.len()
        invariant
            i <= members@.len(),
            member_index(members@, key@) == member_index_from(members@, key@, i as int),
        decreases members@.len() - i,
    {
        if str_equal(members[i].0.as_str(), key) {
            return Some(i);
        }
        i = i + 1;
    }
    None
}

/// The id of `item` when it is a saved profile without an `app_filter` member.
fn legacy_id(item: &JsonValue) -> (r: Option<String>)
    ensures
        r == legacy_profile_id(*item),
{
    match item {
        JsonValue::Object(members) => {
            if find_member(members, "app_filter").is_some() {
                return None;
            }
            match find_member(members, "id") {
                None => None,
                Some(i) => match &members[i].1 {
                    JsonValue::Text(id) => Some(id.clone()),
                    _ => None,
                },
            }
        },
        _ => None,
    }
}

/// The ids of the profiles in the settings text `contents` that were saved
/// without an `app_filter` member, in order; none when `contents` is not a
/// JSON object with a `profiles` array.
pub fn missing_app_filter_profile_ids(contents: &str) -> (r: Vec<String>)
    ensures
        r@ == missing_app_filter_ids(parsed_json(contents@)),
{
    let doc = parse_json(contents);
    let members = match &doc {
        Some(JsonValue::Object(members)) => members,
        _ => {
            return Vec::new();
        },
    };
    let items = match find_member(members, "profiles") {
        None => {
            return Vec::new();
        },
        Some(i) => match &members[i].1 {
            JsonValue::Array(items) => items,
            _ => {
                return Vec::new();
            },
        },
    };
    let mut r: Vec<String> = Vec::new();
    let mut j: usize = 0;
    while j < items.len()
        invariant
            j <= items@.len(),
            r@ == legacy_ids_upto(items@, j as nat),
        decreases items@.len() - j,
    {
        match legacy_id(&items[j]) {
            Some(id) => r.push(id),
            None => {},
        }
        j = j + 1;
    }
    r
}

/// A saved profile counts as predating the target-app filter only when it
/// is an object with no `app_filter` member and a string `id` member, and it
/// is reported by that id.
pub proof fn lemma_legacy_profile_shape(item: JsonValue)
    ensures
        legacy_profile_id(item) is Some ==> (item matches JsonValue::Object(members) && {
            &&& forall|k: int| 0 <= k < members@.len() ==> (#[trigger] members@[k]).0@ != "app_filter"@
            &&& exists|k: int|
                0 <= k < members@.len() && (#[trigger] members@[k]).0@ == "id"@ && members@[k].1
                    == JsonValue::Text(legacy_profile_id(item)->0)
        }),
        !(item is Object) ==> legacy_profile_id(item) is None,
{
    if let JsonValue::Object(members) = item {
        lemma_member_index_found(members@, "app_filter"@, 0);
        lemma_member_index_found(members@, "id"@, 0);
        if legacy_profile_id(item) is Some {
            let i = member_index(members@, "id"@);
            assert(0 <= i < members@.len() && members@[i].0@ == "id"@);
        }
    }
}

proof fn lemma_member_index_found(members: Seq<(String, JsonValue)>, key: Seq<char>, start: int)
    requires
        0 <= start,
    ensures
        member_index_from(members, key, start) == -1 ==> forall|k: int|
            start <= k < members.len() ==> (#[trigger] members[k]).0@ != key,
        member_index_from(members, key, start) != -1 ==> start <= member_index_from(
            members,
            key,
            start,
        ) < members.len() && members[member_index_from(members, key, start)].0@ == key,
    decreases members.len() - start,
{
    if start < members.len() && members[start].0@ != key {
        lemma_member_index_found(members, key, start + 1);
    }
}

proof fn lemma_legacy_ids_from_items(items: Seq<JsonValue>, n: nat)
    requires
        n <= items.len(),
    ensures
        legacy_ids_upto(items, n).len() <= n,
        forall|k: int|
            0 <= k < legacy_ids_upto(items, n).len() ==> exists|i: int|
                0 <= i < n && legacy_profile_id(#[trigger] items[i]) == Some(
                    #[trigger] legacy_ids_upto(items, n)[k],
                ),
    decreases n,
{
    if n > 0 {
        let m = (n - 1) as nat;
        lemma_legacy_ids_from_items(items, m);
        let prev = legacy_ids_upto(items, m);
        let cur = legacy_ids_upto(items, n);
        assert forall|k: int| 0 <= k < cur.len() implies exists|i: int|
            0 <= i < n && legacy_profile_id(#[trigger] items[i]) == Some(#[trigger] cur[k]) by {
            if k < prev.len() {
                assert(cur[k] == prev[k]);
                let i = choose|i: int|
                    0 <= i < m && legacy_profile_id(#[trigger] items[i]) == Some(
                        #[trigger] prev[k],
                    );
                assert(legacy_profile_id(items[i]) == Some(cur[k]));
            } else {
                assert(legacy_profile_id(items[m as int]) == Some(cur[k]));
            }
        }
    }
}

/// Settings text that is not a JSON object names no legacy profile; and every
/// id named is that of an item of the `profiles` array that is a legacy profile.
pub proof fn lemma_missing_ids_come_from_profiles(doc: Option<JsonValue>)
    ensures
        !(doc matches Some(JsonValue::Object(_))) ==> missing_app_filter_ids(doc).len() == 0,
        doc matches Some(JsonValue::Object(members)) ==> {
            let i = member_index(members@, "profiles"@);
            forall|k: int|
                0 <= k < missing_app_filter_ids(doc).len() ==> 0 <= i < members@.len() && (
                members@[i].1 matches JsonValue::Array(items) && exists|j: int|
                    0 <= j < items@.len() && legacy_profile_id(#[trigger] items@[j]) == Some(
                        #[trigger] missing_app_filter_ids(doc)[k],
                    ))
        },
{
    if let Some(JsonValue::Object(members)) = doc {
        lemma_member_index_found(members@, "profiles"@, 0);
        let i = member_index(members@, "profiles"@);
        if i >= 0 {
            if let JsonValue::Array(items) = members@[i].1 {
                lemma_legacy_ids_from_items(items@, items@.len());
            }
        }
    }
}

} // verus!
