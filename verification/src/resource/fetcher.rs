//! Field extraction and the preparation of fetches.
//!
//! A fetch has three steps. The catalog and the current filters give a
//! [`FetchRequest`]; the caller performs the remote operation that the
//! request names; [`extract_items`] projects the records out of the raw
//! response.

use crate::json::{
    clone_json, find_member, find_position, get_member, lemma_array_view, lemma_find_position,
    lemma_object_view, member_views, position_of, views, write_debug, Json, JsonView, MemberView,
};
use crate::resource::registry::{get_resource, ResourceConfig};
use crate::text::{
    concat, decimal, decimal_string, index_value, parse_index, same_text, split_on, split_seq,
    texts,
};
use vstd::prelude::*;

verus! {

/// A named filter on a fetch, used to restrict a sub-resource to its parent.
#[derive(Debug, Default)]
pub struct ResourceFilter {
    pub name: String,
    pub values: Vec<String>,
}

/// The mathematical value of a [`ResourceFilter`].
pub struct FilterView {
    pub name: Seq<char>,
    pub values: Seq<Seq<char>>,
}

impl View for ResourceFilter {
    type V = FilterView;

    open spec fn view(&self) -> FilterView {
        FilterView { name: self.name@, values: texts(self.values@) }
    }
}

/// The values of a sequence of filters.
pub open spec fn filter_views(filters: Seq<ResourceFilter>) -> Seq<FilterView> {
    filters.map_values(|f: ResourceFilter| f@)
}

/// The record that stands for a filter's values in the parameters of a
/// fetch: the array of the values as strings.
pub open spec fn filter_value(values: Seq<Seq<char>>) -> JsonView {
    JsonView::Array(values.map_values(|v: Seq<char>| JsonView::String(v)))
}

impl ResourceFilter {
    pub fn new(name: &str, values: Vec<String>) -> (r: Self)
        ensures
            r.name@ == name@,
            r.values == values,
    {
        ResourceFilter { name: name.to_owned(), values }
    }

    fn to_json(&self) -> (r: Json)
        ensures
            r@ == filter_value(self@.values),
    {
        let mut items: Vec<Json> = Vec::new();
        let mut i: usize = 0;
        while i < self.values.len()
            invariant
                i <= self.values.len(),
                items@.len() == i,
                forall|k: int| 0 <= k < i ==> items@[k]@ == JsonView::String(self.values@[k]@),
            decreases self.values.len() - i,
        {
            items.push(Json::String(self.values[i].clone()));
            i += 1;
        }
        proof {
            lemma_array_view(items);
            assert(views(items@) =~= texts(self.values@).map_values(
                |v: Seq<char>| JsonView::String(v),
            ));
        }
        Json::Array(items)
    }
}

/// What a value shows as at the end of a path: a string as it is, a number
/// in its decimal form, a boolean as `Yes` or `No`, anything else as `-`.
pub open spec fn shown(v: JsonView) -> Seq<char> {
    match v {
        JsonView::String(s) => s,
        JsonView::Number(n) => n,
        JsonView::Bool(b) => if b {
            "Yes"@
        } else {
            "No"@
        },
        _ => "-"@,
    }
}

/// The `Name` tag of an object: the string under `Name` in the object under
/// `Tags`, where the object has both.
pub open spec fn name_tag(members: Seq<MemberView>) -> Option<Seq<char>> {
    match find_member(members, "Tags"@) {
        Some(JsonView::Object(tags)) => match find_member(tags, "Name"@) {
            Some(JsonView::String(name)) => Some(name),
            _ => None,
        },
        _ => None,
    }
}

/// The member of an object under `key`, or null where there is none.
pub open spec fn member_or_null(members: Seq<MemberView>, key: Seq<char>) -> JsonView {
    match find_member(members, key) {
        Some(v) => v,
        None => JsonView::Null,
    }
}

/// The item of an array that the segment `part` names, or null where `part`
/// is no index or the index is past the end.
pub open spec fn item_or_null(items: Seq<JsonView>, part: Seq<char>) -> JsonView {
    match index_value(part) {
        Some(n) => if n < items.len() {
            items[n as int]
        } else {
            JsonView::Null
        },
        None => JsonView::Null,
    }
}

/// Follows the path segments `parts` from `current` and shows what is found.
///
/// In an object, the segment `Name` gives the object's `Name` tag where it
/// has one; any other segment, and `Name` without such a tag, goes to the
/// member of that name. In an array, the segment `length` gives the number
/// of items, and a numeric segment goes to the item at that index. A
/// segment that leads nowhere goes to null, and so does every segment
/// applied to a value that is neither object nor array.
pub open spec fn follow(current: JsonView, parts: Seq<Seq<char>>) -> Seq<char>
    decreases parts.len(),
{
    if parts.len() == 0 {
        shown(current)
    } else {
        let part = parts[0];
        let rest = parts.drop_first();
        match current {
            JsonView::Object(members) => {
                if part == "Name"@ && name_tag(members).is_some() {
                    name_tag(members).unwrap()
                } else {
                    follow(member_or_null(members, part), rest)
                }
            },
            JsonView::Array(items) => {
                if part == "length"@ {
                    decimal(items.len())
                } else {
                    follow(item_or_null(items, part), rest)
                }
            },
            _ => follow(JsonView::Null, rest),
        }
    }
}

/// The text that the dot-separated `path` extracts from `item`.
pub open spec fn extracted(item: JsonView, path: Seq<char>) -> Seq<char> {
    follow(item, split_seq(path, '.'))
}

fn tag_of(members: &Vec<(String, Json)>) -> (r: Option<String>)
    ensures
        match r {
            Some(name) => name_tag(member_views(members@)) == Some(name@),
            None => name_tag(member_views(members@)).is_none(),
        },
{
    match get_member(members, "Tags") {
        Some(Json::Object(tags)) => {
            proof {
                lemma_object_view(*tags);
            }
            match get_member(tags, "Name") {
                Some(Json::String(name)) => Some(name.clone()),
                _ => None,
            }
        },
        _ => None,
    }
}

/// Extracts the text at `path` from `item`. The function is total: a path
/// that leads nowhere, a value of the wrong kind and a null all give `-`.
pub fn extract_json_value(item: &Json, path: &str) -> (r: String)
    ensures
        r@ == extracted(item@, path@),
{
    let parts = split_on(path, '.');
    let null = Json::Null;
    let mut current: &Json = item;
    let mut i: usize = 0;
    proof {
        assert(texts(parts@).skip(0) == texts(parts@));
    }
    while i < parts.len()
        invariant
            i <= parts.len(),
            null@ == JsonView::Null,
            texts(parts@) == split_seq(path@, '.'),
            follow(item@, texts(parts@)) == follow(current@, texts(parts@).skip(i as int)),
        decreases parts.len() - i,
    {
        let part = parts[i].as_str();
        proof {
            let remaining = texts(parts@).skip(i as int);
            assert(remaining[0] == part@);
            assert(remaining.drop_first() == texts(parts@).skip(i + 1));
        }
        let ghost before = current@;
        let ghost remaining = texts(parts@).skip(i as int);
        match current {
            Json::Object(members) => {
                proof {
                    lemma_object_view(*members);
                }
                if same_text(part, "Name") {
                    match tag_of(members) {
                        Some(name) => {
                            return name;
                        },
                        None => {},
                    }
                }
                current = match get_member(members, part) {
                    Some(v) => v,
                    None => &null,
                };
                assert(current@ == member_or_null(member_views(members@), part@));
                assert(follow(before, remaining) == follow(current@, remaining.drop_first()));
            },
            Json::Array(items) => {
                proof {
                    lemma_array_view(*items);
                }
                if same_text(part, "length") {
                    return decimal_string(items.len());
                }
                current = match parse_index(part) {
                    Some(index) => if index < items.len() {
                        &items[index]
                    } else {
                        &null
                    },
                    None => &null,
                };
                proof {
                    assert(views(items@).len() == items.len());
                    match index_value(part@) {
                        Some(n) => {
                            if n < items.len() {
                                assert(views(items@)[n as int] == items@[n as int]@);
                            }
                        },
                        None => {},
                    }
                }
                assert(current@ == item_or_null(views(items@), part@));
                assert(follow(before, remaining) == follow(current@, remaining.drop_first()));
            },
            _ => {
                assert(!(before is Object) && !(before is Array));
                current = &null;
                assert(follow(before, remaining) == follow(current@, remaining.drop_first()));
            },
        }
        i += 1;
    }
    match current {
        Json::String(s) => s.clone(),
        Json::Number(n) => n.clone(),
        Json::Bool(b) => if *b {
            "Yes".to_owned()
        } else {
            "No".to_owned()
        },
        _ => "-".to_owned(),
    }
}


/// Why the records could not be projected out of a raw response.
#[derive(Debug)]
pub enum ExtractionError {
    /// The response path leads nowhere. Holds the path.
    PathNotFound(String),
    /// The response path leads to something that is no array. Holds the path
    /// and what was found, in serde_json's debugging notation.
    NotAnArray(String, String),
}

impl ExtractionError {
    /// The text of the error.
    pub open spec fn text(&self) -> Seq<char> {
        match self {
            ExtractionError::PathNotFound(path) => "Path '"@ + path@ + "' not found in response"@,
            ExtractionError::NotAnArray(path, found) => "Expected array at path '"@ + path@
                + "', got "@ + found@,
        }
    }

    /// The text of the error.
    pub fn message(&self) -> (r: String)
        ensures
            r@ == self.text(),
    {
        match self {
            ExtractionError::PathNotFound(path) => {
                let mut r = concat("Path '", path.as_str());
                r.append("' not found in response");
                r
            },
            ExtractionError::NotAnArray(path, found) => {
                let mut r = concat("Expected array at path '", path.as_str());
                r.append("', got ");
                r.append(found.as_str());
                r
            },
        }
    }
}

/// Where the member names `parts` lead from `current`, one object down per
/// name. They lead nowhere as soon as a name is missing or the value at hand
/// is no object.
pub open spec fn descend(current: JsonView, parts: Seq<Seq<char>>) -> Option<JsonView>
    decreases parts.len(),
{
    if parts.len() == 0 {
        Some(current)
    } else {
        match current {
            JsonView::Object(members) => match find_member(members, parts[0]) {
                Some(v) => descend(v, parts.drop_first()),
                None => None,
            },
            _ => None,
        }
    }
}

/// Projects the records out of a raw response: the items of the array that
/// the dot-separated `path` leads to. It is an error for the path to lead
/// nowhere or to anything but an array; no partial result is given.
pub fn extract_items(response: &Json, path: &str) -> (r: Result<Vec<Json>, ExtractionError>)
    ensures
        match r {
            Ok(items) => descend(response@, split_seq(path@, '.')) == Some(
                JsonView::Array(views(items@)),
            ),
            Err(ExtractionError::PathNotFound(p)) => {
                &&& descend(response@, split_seq(path@, '.')).is_none()
                &&& p@ == path@
            },
            Err(ExtractionError::NotAnArray(p, found)) => {
                &&& descend(response@, split_seq(path@, '.')) matches Some(v)
                &&& !(v is Array)
                &&& found@ == crate::json::debug_text(v)
                &&& p@ == path@
            },
        },
{
    let parts = split_on(path, '.');
    let mut current: &Json = response;
    let mut i: usize = 0;
    proof {
        assert(texts(parts@).skip(0) == texts(parts@));
    }
    while i < parts.len()
        invariant
            i <= parts.len(),
            texts(parts@) == split_seq(path@, '.'),
            descend(response@, texts(parts@)) == descend(current@, texts(parts@).skip(i as int)),
        decreases parts.len() - i,
    {
        let part = parts[i].as_str();
        proof {
            let remaining = texts(parts@).skip(i as int);
            assert(remaining[0] == part@);
            assert(remaining.drop_first() == texts(parts@).skip(i + 1));
        }
        match current {
            Json::Object(members) => {
                proof {
                    lemma_object_view(*members);
                }
                match get_member(members, part) {
                    Some(v) => {
                        current = v;
                    },
                    None => {
                        return Err(ExtractionError::PathNotFound(path.to_owned()));
                    },
                }
            },
            _ => {
                assert(!(current@ is Object));
                return Err(ExtractionError::PathNotFound(path.to_owned()));
            },
        }
        i += 1;
    }
    match current {
        Json::Array(items) => {
            proof {
                lemma_array_view(*items);
            }
            Ok(crate::json::clone_items(items))
        },
        other => {
            assert(!(other@ is Array));
            Err(ExtractionError::NotAnArray(path.to_owned(), write_debug(other)))
        },
    }
}

/// The members of an object after `key` has been set to `value`: the first
/// member of that key gets the value, or, where there is none, a new member
/// comes last.
pub open spec fn set_member(members: Seq<MemberView>, key: Seq<char>, value: JsonView) -> Seq<
    MemberView,
> {
    match find_position(members, key) {
        Some(i) => members.update(i, MemberView { key, value }),
        None => members.push(MemberView { key, value }),
    }
}

/// The members of an object after each filter, in order, has been set under
/// its name.
pub open spec fn merged_members(members: Seq<MemberView>, filters: Seq<FilterView>) -> Seq<
    MemberView,
>
    decreases filters.len(),
{
    if filters.len() == 0 {
        members
    } else {
        set_member(
            merged_members(members, filters.drop_last()),
            filters.last().name,
            filter_value(filters.last().values),
        )
    }
}

/// Setting a member makes a lookup of its key find the new value, and
/// leaves the lookup of every other key as it was.
pub proof fn lemma_set_member(
    members: Seq<MemberView>,
    key: Seq<char>,
    value: JsonView,
    other: Seq<char>,
)
    ensures
        find_member(set_member(members, key, value), key) == Some(value),
        other != key ==> find_member(set_member(members, key, value), other) == find_member(
            members,
            other,
        ),
    decreases members.len(),
{
    let after = set_member(members, key, value);
    let member = MemberView { key, value };
    if members.len() == 0 {
        assert(after =~= seq![member]);
        assert(after.drop_first() =~= Seq::empty());
        assert(find_member(after.drop_first(), other).is_none());
    } else if members[0].key == key {
        assert(after =~= members.update(0, member));
        assert(after.drop_first() =~= members.drop_first());
    } else {
        let rest = members.drop_first();
        lemma_set_member(rest, key, value, other);
        lemma_find_position(rest, key);
        match find_position(rest, key) {
            Some(i) => {
                assert(after =~= members.update(i + 1, member));
                assert(after.drop_first() =~= rest.update(i, member));
            },
            None => {
                assert(after =~= members.push(member));
                assert(after.drop_first() =~= rest.push(member));
            },
        }
        assert(after.drop_first() == set_member(rest, key, value));
        assert(after[0] == members[0]);
    }
}

/// The parameter that a fetch carries under `key`: the values of the last
/// filter of that name, or, where no filter has the name, the default of
/// that name.
pub open spec fn param_under(
    members: Seq<MemberView>,
    filters: Seq<FilterView>,
    key: Seq<char>,
) -> Option<JsonView>
    decreases filters.len(),
{
    if filters.len() == 0 {
        find_member(members, key)
    } else if filters.last().name == key {
        Some(filter_value(filters.last().values))
    } else {
        param_under(members, filters.drop_last(), key)
    }
}

/// Filters replace the defaults of their names and add to the others:
/// under every key, the merged members hold the values of the last filter
/// of that name, or the default where no filter has the name.
pub proof fn lemma_merged_members(
    members: Seq<MemberView>,
    filters: Seq<FilterView>,
    key: Seq<char>,
)
    ensures
        find_member(merged_members(members, filters), key) == param_under(members, filters, key),
    decreases filters.len(),
{
    if filters.len() > 0 {
        lemma_merged_members(members, filters.drop_last(), key);
        lemma_set_member(
            merged_members(members, filters.drop_last()),
            filters.last().name,
            filter_value(filters.last().values),
            key,
        );
    }
}

/// A fetch with filters carries every one of them, whatever the defaults
/// of the descriptor are: its parameters are an object that holds, under
/// the name of each filter, the values of the last filter of that name.
pub proof fn lemma_no_filter_is_lost(defaults: JsonView, filters: Seq<FilterView>, i: int)
    requires
        0 <= i < filters.len(),
    ensures
        merged_params(defaults, filters) matches JsonView::Object(members) && find_member(
            members,
            filters[i].name,
        ) == param_under(named_defaults(defaults), filters, filters[i].name)
            && param_under(named_defaults(defaults), filters, filters[i].name).is_some(),
{
    lemma_merged_members(named_defaults(defaults), filters, filters[i].name);
    lemma_named_filter_is_set(named_defaults(defaults), filters, i);
}

proof fn lemma_named_filter_is_set(members: Seq<MemberView>, filters: Seq<FilterView>, i: int)
    requires
        0 <= i < filters.len(),
    ensures
        param_under(members, filters, filters[i].name).is_some(),
    decreases filters.len(),
{
    if filters.last().name != filters[i].name {
        assert(filters.drop_last()[i] == filters[i]);
        lemma_named_filter_is_set(members, filters.drop_last(), i);
    }
}

/// The named parameters that the defaults of a descriptor hold: the members
/// of an object, and none for anything else, so that defaults left out
/// count as no defaults.
pub open spec fn named_defaults(defaults: JsonView) -> Seq<MemberView> {
    match defaults {
        JsonView::Object(members) => members,
        _ => Seq::empty(),
    }
}

/// The parameters of a fetch. Without filters they are the descriptor's
/// defaults as they stand. With filters they are an object: the named
/// defaults with every filter set under its name, so that a filter replaces
/// a default of the same name and adds to the others, and no filter is
/// lost whatever the defaults are.
pub open spec fn merged_params(defaults: JsonView, filters: Seq<FilterView>) -> JsonView {
    if filters.len() == 0 {
        defaults
    } else {
        JsonView::Object(merged_members(named_defaults(defaults), filters))
    }
}

fn copy_named_defaults(defaults: &Json) -> (members: Vec<(String, Json)>)
    ensures
        member_views(members@) == named_defaults(defaults@),
{
    let mut members: Vec<(String, Json)> = Vec::new();
    match defaults {
        Json::Object(default_members) => {
            let mut k: usize = 0;
            while k < default_members.len()
                invariant
                    k <= default_members.len(),
                    members@.len() == k,
                    forall|j: int|
                        0 <= j < k ==> members@[j].0@ == default_members@[j].0@ && members@[j].1@
                            == default_members@[j].1@,
                decreases default_members.len() - k,
            {
                members.push((default_members[k].0.clone(), clone_json(&default_members[k].1)));
                k += 1;
            }
            proof {
                lemma_object_view(*default_members);
                assert(member_views(members@) =~= member_views(default_members@));
            }
        },
        _ => {
            proof {
                assert(member_views(members@) =~= Seq::empty());
            }
        },
    }
    members
}

/// Merges the filters into the default parameters of a fetch.
pub fn merge_params(defaults: &Json, filters: &Vec<ResourceFilter>) -> (r: Json)
    ensures
        r@ == merged_params(defaults@, filter_views(filters@)),
{
    let ghost wanted = filter_views(filters@);
    if filters.len() == 0 {
        return clone_json(defaults);
    }
    let mut members = copy_named_defaults(defaults);
    let ghost named = named_defaults(defaults@);
    proof {
        assert(wanted.take(0).len() == 0);
    }
    let mut i: usize = 0;
    while i < filters.len()
        invariant
            i <= filters.len(),
            wanted == filter_views(filters@),
            member_views(members@) == merged_members(named, wanted.take(i as int)),
        decreases filters.len() - i,
    {
        let filter = &filters[i];
        let value = filter.to_json();
        let ghost before = member_views(members@);
        proof {
            assert(wanted.take(i + 1).drop_last() == wanted.take(i as int));
            assert(wanted.take(i + 1).last() == filters@[i as int]@);
            lemma_find_position(before, filter.name@);
        }
        match position_of(&members, filter.name.as_str()) {
            Some(at) => {
                members.set(at, (filter.name.clone(), value));
                proof {
                    assert(member_views(members@) =~= before.update(
                        at as int,
                        MemberView { key: filter.name@, value: filter_value(filter@.values) },
                    ));
                }
            },
            None => {
                members.push((filter.name.clone(), value));
                proof {
                    assert(member_views(members@) =~= before.push(
                        MemberView { key: filter.name@, value: filter_value(filter@.values) },
                    ));
                }
            },
        }
        i += 1;
    }
    proof {
        assert(wanted.take(i as int) == wanted);
        lemma_object_view(members);
    }
    Json::Object(members)
}

/// A fetch that is ready to be performed: the remote operation to invoke,
/// its parameters, and where the records stand in its response.
#[derive(Debug)]
pub struct FetchRequest {
    /// The resource that the fetch is for.
    pub resource_key: String,
    pub service: String,
    pub sdk_method: String,
    pub params: Json,
    pub response_path: String,
}

/// Why a fetch gave no records.
#[derive(Debug)]
pub enum FetchError {
    /// The resource key is not in the catalog. Holds the key.
    UnknownResource(String),
    /// The remote operation failed. Holds the error's text.
    Remote(String),
    /// The response did not hold the records where the descriptor says.
    Extraction(ExtractionError),
}

impl FetchError {
    /// The text of the error.
    pub open spec fn text(&self) -> Seq<char> {
        match self {
            FetchError::UnknownResource(key) => "Unknown resource: "@ + key@,
            FetchError::Remote(text) => text@,
            FetchError::Extraction(e) => e.text(),
        }
    }

    /// The text of the error.
    pub fn message(&self) -> (r: String)
        ensures
            r@ == self.text(),
    {
        match self {
            FetchError::UnknownResource(key) => concat("Unknown resource: ", key.as_str()),
            FetchError::Remote(text) => text.clone(),
            FetchError::Extraction(e) => e.message(),
        }
    }
}

impl FetchRequest {
    /// The request is the one that the descriptor `def` and the filters
    /// give for the resource `key`.
    pub open spec fn is_for(&self, key: Seq<char>, def: ResourceDefView, filters: Seq<
        FilterView,
    >) -> bool {
        &&& self.resource_key@ == key
        &&& self.service@ == def.service
        &&& self.sdk_method@ == def.sdk_method
        &&& self.params@ == merged_params(def.params, filters)
        &&& self.response_path@ == def.response_path
    }
}

/// What a fetch reads of a descriptor.
pub struct ResourceDefView {
    pub service: Seq<char>,
    pub sdk_method: Seq<char>,
    pub params: JsonView,
    pub response_path: Seq<char>,
}

/// What a fetch reads of the descriptor `def`.
pub open spec fn fetch_view(def: crate::resource::registry::ResourceDef) -> ResourceDefView {
    ResourceDefView {
        service: def.service@,
        sdk_method: def.sdk_method@,
        params: def.sdk_method_params@,
        response_path: def.response_path@,
    }
}

/// Prepares the fetch of a resource: looks the resource up, and merges the
/// filters into the default parameters of its operation. The only error is
/// that of a key that the catalog does not have.
pub fn fetch_resources(
    registry: &ResourceConfig,
    resource_key: &str,
    filters: &Vec<ResourceFilter>,
) -> (r: Result<FetchRequest, FetchError>)
    ensures
        match r {
            Ok(request) => {
                &&& registry.lookup(resource_key@) matches Some(def)
                &&& request.is_for(resource_key@, fetch_view(def), filter_views(filters@))
            },
            Err(FetchError::UnknownResource(key)) => {
                &&& registry.lookup(resource_key@).is_none()
                &&& key@ == resource_key@
            },
            Err(_) => false,
        },
{
    match get_resource(registry, resource_key) {
        None => Err(FetchError::UnknownResource(resource_key.to_owned())),
        Some(def) => Ok(
            FetchRequest {
                resource_key: resource_key.to_owned(),
                service: def.service.clone(),
                sdk_method: def.sdk_method.clone(),
                params: merge_params(&def.sdk_method_params, filters),
                response_path: def.response_path.clone(),
            },
        ),
    }
}

/// The value of what the remote operation answered: the raw response, or
/// the text of its error.
pub open spec fn response_view(response: Result<Json, String>) -> Result<JsonView, Seq<char>> {
    match response {
        Ok(raw) => Ok(raw@),
        Err(text) => Err(text@),
    }
}

/// What a fetch gives for an answer of the remote operation, where the
/// records stand at `path` in a response: the records, or the text of the
/// error. A failed operation gives its own error text; a response without
/// an array at `path` gives the text of the extraction error.
pub open spec fn fetch_outcome(path: Seq<char>, response: Result<JsonView, Seq<char>>) -> Result<
    Seq<JsonView>,
    Seq<char>,
> {
    match response {
        Ok(raw) => match descend(raw, split_seq(path, '.')) {
            Some(JsonView::Array(items)) => Ok(items),
            Some(other) => Err(
                "Expected array at path '"@ + path + "', got "@ + crate::json::debug_text(other),
            ),
            None => Err("Path '"@ + path + "' not found in response"@),
        },
        Err(text) => Err(text),
    }
}

/// The value of the result of a fetch: the records, or the text of the
/// error.
pub open spec fn outcome_view(r: Result<Vec<Json>, FetchError>) -> Result<Seq<JsonView>, Seq<char>> {
    match r {
        Ok(records) => Ok(views(records@)),
        Err(e) => Err(e.text()),
    }
}

/// What a fetch gives once the remote operation has answered: the records
/// of the response, or the error of the operation, or that of a response
/// without the records.
pub fn finish_fetch(request: &FetchRequest, response: Result<Json, String>) -> (r: Result<
    Vec<Json>,
    FetchError,
>)
    ensures
        match response {
            Ok(raw) => match descend(raw@, split_seq(request.response_path@, '.')) {
                Some(JsonView::Array(items)) => r matches Ok(records) && views(records@) == items,
                Some(other) => {
                    &&& r matches Err(FetchError::Extraction(ExtractionError::NotAnArray(p, found)))
                    &&& p@ == request.response_path@
                    &&& found@ == crate::json::debug_text(other)
                },
                None => {
                    &&& r matches Err(FetchError::Extraction(ExtractionError::PathNotFound(p)))
                    &&& p@ == request.response_path@
                },
            },
            Err(text) => r matches Err(FetchError::Remote(t)) && t@ == text@,
        },
        outcome_view(r) == fetch_outcome(request.response_path@, response_view(response)),
{
    match response {
        Ok(raw) => match extract_items(&raw, request.response_path.as_str()) {
            Ok(items) => Ok(items),
            Err(e) => Err(FetchError::Extraction(e)),
        },
        Err(text) => Err(FetchError::Remote(text)),
    }
}


/// The single text that the parameters hold under `key`: the string there,
/// or the first item of the array there where that is a string. It is empty
/// for parameters that are no object, for a missing key and for any other
/// value.
pub open spec fn param_text(params: JsonView, key: Seq<char>) -> Seq<char> {
    match params {
        JsonView::Object(members) => match find_member(members, key) {
            Some(JsonView::String(s)) => s,
            Some(JsonView::Array(items)) => if items.len() > 0 {
                match items[0] {
                    JsonView::String(s) => s,
                    _ => Seq::empty(),
                }
            } else {
                Seq::empty()
            },
            _ => Seq::empty(),
        },
        _ => Seq::empty(),
    }
}

/// Reads a single text parameter, whether it was given as a string or, as
/// filters are, as an array of strings.
pub fn extract_param(params: &Json, key: &str) -> (r: String)
    ensures
        r@ == param_text(params@, key@),
{
    match params {
        Json::Object(members) => {
            proof {
                lemma_object_view(*members);
            }
            match get_member(members, key) {
                Some(Json::String(s)) => s.clone(),
                Some(Json::Array(items)) => {
                    proof {
                        lemma_array_view(*items);
                    }
                    if items.len() > 0 {
                        proof {
                            assert(views(items@)[0] == items@[0]@);
                        }
                        match &items[0] {
                            Json::String(s) => s.clone(),
                            _ => String::new(),
                        }
                    } else {
                        String::new()
                    }
                },
                _ => String::new(),
            }
        },
        _ => String::new(),
    }
}

} // verus!
