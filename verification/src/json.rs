//! Semi-structured records.
//!
//! A record is a tree of nulls, booleans, numbers, strings, arrays and
//! objects. A number is kept as its decimal rendering, which is all that
//! this crate ever reads of it. An object keeps its members in order; a
//! lookup finds the first member with the given key.
//!
//! A record can be written as compact JSON, as indented JSON and in a
//! debugging notation. All three are written by serde_json; the library
//! only gives the texts their names.

use crate::text::same_text;
use vstd::prelude::*;

verus! {

/// A record, or any part of one.
#[derive(Debug, PartialEq)]
pub enum Json {
    Null,
    Bool(bool),
    /// A number, held as its decimal rendering.
    Number(String),
    String(String),
    Array(Vec<Json>),
    Object(Vec<(String, Json)>),
}

/// The mathematical value of a [`Json`].
pub enum JsonView {
    Null,
    Bool(bool),
    Number(Seq<char>),
    String(Seq<char>),
    Array(Seq<JsonView>),
    Object(Seq<MemberView>),
}

/// The mathematical value of one member of an object.
pub struct MemberView {
    pub key: Seq<char>,
    pub value: JsonView,
}

impl View for Json {
    type V = JsonView;

    open spec fn view(&self) -> JsonView
        decreases self,
    {
        match self {
            Json::Null => JsonView::Null,
            Json::Bool(b) => JsonView::Bool(*b),
            Json::Number(n) => JsonView::Number(n@),
            Json::String(s) => JsonView::String(s@),
            Json::Array(items) => JsonView::Array(
                Seq::new(
                    items@.len(),
                    |i: int|
                        if 0 <= i < items@.len() {
                            items@[i].view()
                        } else {
                            JsonView::Null
                        },
                ),
            ),
            Json::Object(members) => JsonView::Object(
                Seq::new(
                    members@.len(),
                    |i: int|
                        if 0 <= i < members@.len() {
                            MemberView { key: members@[i].0@, value: members@[i].1.view() }
                        } else {
                            MemberView { key: Seq::empty(), value: JsonView::Null }
                        },
                ),
            ),
        }
    }
}

/// The values of a sequence of records.
pub open spec fn views(items: Seq<Json>) -> Seq<JsonView> {
    items.map_values(|j: Json| j@)
}

/// The values of the members of an object.
pub open spec fn member_views(members: Seq<(String, Json)>) -> Seq<MemberView> {
    members.map_values(|m: (String, Json)| MemberView { key: m.0@, value: m.1@ })
}

/// The value of an array is the sequence of its items' values.
pub proof fn lemma_array_view(items: Vec<Json>)
    ensures
        Json::Array(items)@ == JsonView::Array(views(items@)),
{
    assert(Json::Array(items)@->Array_0 =~= views(items@));
}

/// The value of an object is the sequence of its members' keys and values.
pub proof fn lemma_object_view(members: Vec<(String, Json)>)
    ensures
        Json::Object(members)@ == JsonView::Object(member_views(members@)),
{
    assert(Json::Object(members)@->Object_0 =~= member_views(members@));
}

/// The value of the first member with key `key`, if there is one.
pub open spec fn find_member(members: Seq<MemberView>, key: Seq<char>) -> Option<
    JsonView,
>
    decreases members.len(),
{
    if members.len() == 0 {
        None
    } else if members[0].key == key {
        Some(members[0].value)
    } else {
        find_member(members.drop_first(), key)
    }
}

/// The position of the first member with key `key`, if there is one.
pub open spec fn find_position(members: Seq<MemberView>, key: Seq<char>) -> Option<int>
    decreases members.len(),
{
    if members.len() == 0 {
        None
    } else if members[0].key == key {
        Some(0)
    } else {
        match find_position(members.drop_first(), key) {
            Some(i) => Some(i + 1),
            None => None,
        }
    }
}

/// The position that `find_position` gives is that of the member that
/// `find_member` gives, and no earlier member has the key.
pub proof fn lemma_find_position(members: Seq<MemberView>, key: Seq<char>)
    ensures
        match find_position(members, key) {
            Some(i) => {
                &&& 0 <= i < members.len()
                &&& members[i].key == key
                &&& find_member(members, key) == Some(members[i].value)
                &&& forall|j: int| 0 <= j < i ==> members[j].key != key
            },
            None => {
                &&& find_member(members, key).is_none()
                &&& forall|j: int| 0 <= j < members.len() ==> members[j].key != key
            },
        },
    decreases members.len(),
{
    if members.len() > 0 && members[0].key != key {
        let rest = members.drop_first();
        lemma_find_position(rest, key);
        match find_position(rest, key) {
            Some(i) => {
                assert forall|j: int| 0 <= j < i + 1 implies members[j].key != key by {
                    if j > 0 {
                        assert(members[j] == rest[j - 1]);
                    }
                }
            },
            None => {
                assert forall|j: int| 0 <= j < members.len() implies members[j].key != key by {
                    if j > 0 {
                        assert(members[j] == rest[j - 1]);
                    }
                }
            },
        }
    }
}

/// Finds the position of the first member with key `key`.
pub fn position_of(members: &Vec<(String, Json)>, key: &str) -> (r: Option<usize>)
    ensures
        match r {
            Some(i) => find_position(member_views(members@), key@) == Some(i as int),
            None => find_position(member_views(members@), key@).is_none(),
        },
{
    let ghost all = member_views(members@);
    let mut i: usize = 0;
    let mut found: Option<usize> = None;
    while i < members.len() && found.is_none()
        invariant
            i <= members.len(),
            all == member_views(members@),
            match found {
                Some(k) => find_position(all, key@) == Some(k as int),
                None => forall|j: int| 0 <= j < i ==> all[j].key != key@,
            },
        decreases members.len() - i, found.is_none() as int,
    {
        if same_text(members[i].0.as_str(), key) {
            proof {
                lemma_find_position(all, key@);
                assert(all[i as int].key == key@);
            }
            found = Some(i);
        } else {
            assert(all[i as int].key != key@);
            i += 1;
        }
    }
    proof {
        lemma_find_position(all, key@);
    }
    found
}

/// Looks up the first member with key `key`.
pub fn get_member<'a>(members: &'a Vec<(String, Json)>, key: &str) -> (r: Option<&'a Json>)
    ensures
        match r {
            Some(j) => find_member(member_views(members@), key@) == Some(j@),
            None => find_member(member_views(members@), key@).is_none(),
        },
{
    proof {
        lemma_find_position(member_views(members@), key@);
    }
    match position_of(members, key) {
        Some(i) => Some(&members[i].1),
        None => None,
    }
}

/// A copy of `j` with the same value.
pub fn clone_json(j: &Json) -> (r: Json)
    ensures
        r@ == j@,
    decreases j,
{
    match j {
        Json::Null => Json::Null,
        Json::Bool(b) => Json::Bool(*b),
        Json::Number(n) => Json::Number(n.clone()),
        Json::String(s) => Json::String(s.clone()),
        Json::Array(items) => {
            let mut out: Vec<Json> = Vec::new();
            let mut i: usize = 0;
            while i < items.len()
                invariant
                    i <= items.len(),
                    out@.len() == i,
                    forall|k: int| 0 <= k < i ==> out@[k]@ == items@[k]@,
                    *j == Json::Array(*items),
                decreases items.len() - i,
            {
                proof {
                    assert(decreases_to!(*j => j->Array_0));
                    assert(decreases_to!(*items => items@));
                    assert(decreases_to!(items@ => items@[i as int]));
                }
                out.push(clone_json(&items[i]));
                i += 1;
            }
            proof {
                lemma_array_view(*items);
                lemma_array_view(out);
                assert(views(out@) =~= views(items@));
            }
            Json::Array(out)
        },
        Json::Object(members) => {
            let mut out: Vec<(String, Json)> = Vec::new();
            let mut i: usize = 0;
            while i < members.len()
                invariant
                    i <= members.len(),
                    out@.len() == i,
                    forall|k: int|
                        0 <= k < i ==> out@[k].0@ == members@[k].0@ && out@[k].1@
                            == members@[k].1@,
                    *j == Json::Object(*members),
                decreases members.len() - i,
            {
                proof {
                    assert(decreases_to!(*j => j->Object_0));
                    assert(decreases_to!(*members => members@));
                    assert(decreases_to!(members@ => members@[i as int]));
                    assert(decreases_to!(members@[i as int] => members@[i as int].1));
                }
                out.push((members[i].0.clone(), clone_json(&members[i].1)));
                i += 1;
            }
            proof {
                lemma_object_view(*members);
                lemma_object_view(out);
                assert(member_views(out@) =~= member_views(members@));
            }
            Json::Object(out)
        },
    }
}

impl Clone for Json {
    /// A copy with the same value.
    fn clone(&self) -> (r: Self)
        ensures
            r@ == self@,
    {
        clone_json(self)
    }
}

/// A copy of a sequence of records, item by item.
pub fn clone_items(items: &Vec<Json>) -> (out: Vec<Json>)
    ensures
        views(out@) == views(items@),
{
    let mut out: Vec<Json> = Vec::new();
    let mut i: usize = 0;
    while i < items.len()
        invariant
            i <= items.len(),
            out@.len() == i,
            forall|j: int| 0 <= j < i ==> out@[j]@ == items@[j]@,
        decreases items.len() - i,
    {
        out.push(items[i].clone());
        i += 1;
    }
    assert(views(out@) =~= views(items@));
    out
}

/// serde_json's value type. Records are handed to serde_json in this form.
#[verifier::external_type_specification]
#[verifier::external_body]
pub struct ExValue(serde_json::Value);

/// The compact JSON text that serde_json's `Display` for `Value` writes for
/// the `Value` that stands for a record. serde_json decides how strings are
/// escaped and in which order the members of an object come.
pub uninterp spec fn compact_text(record: JsonView) -> Seq<char>;

/// The indented JSON text that `serde_json::to_string_pretty` writes for
/// the `Value` that stands for a record.
pub uninterp spec fn pretty_text(record: JsonView) -> Seq<char>;

/// The text that serde_json's `Debug` for `Value` writes for the `Value`
/// that stands for a record.
pub uninterp spec fn debug_text(record: JsonView) -> Seq<char>;

/// Builds the `serde_json::Value` that stands for a record: variant by
/// variant, a number by reading its text as JSON, an object by collecting
/// its members into serde_json's map. Nothing is claimed of the result.
#[verifier::external_body]
fn to_value(j: &Json) -> serde_json::Value {
    match j {
        Json::Null => serde_json::Value::Null,
        Json::Bool(b) => serde_json::Value::Bool(*b),
        Json::Number(n) => n.parse().unwrap_or(serde_json::Value::Null),
        Json::String(s) => serde_json::Value::String(s.clone()),
        Json::Array(items) => items.iter().map(to_value).collect(),
        Json::Object(members) => members.iter().map(|m| (m.0.clone(), to_value(&m.1))).collect(),
    }
}

/// Formats a record with serde_json's `Display` for `Value`. The text
/// depends on the record's value alone; the contract only gives it its name.
#[verifier::external_body]
pub(crate) fn write_compact(j: &Json) -> (s: String)
    ensures
        s@ == compact_text(j@),
{
    to_value(j).to_string()
}

/// Formats a record with `serde_json::to_string_pretty`, which does not fail
/// on a `Value`. The text depends on the record's value alone; the contract
/// only gives it its name.
#[verifier::external_body]
pub(crate) fn write_pretty(j: &Json) -> (s: String)
    ensures
        s@ == pretty_text(j@),
{
    serde_json::to_string_pretty(&to_value(j)).unwrap_or_default()
}

/// Formats a record with serde_json's `Debug` for `Value`. The text depends
/// on the record's value alone; the contract only gives it its name.
#[verifier::external_body]
pub(crate) fn write_debug(j: &Json) -> (s: String)
    ensures
        s@ == debug_text(j@),
{
    format!("{:?}", to_value(j))
}

} // verus!
