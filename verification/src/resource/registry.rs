//! The resource catalog.
//!
//! A catalog maps resource keys to descriptors and names to color tables.
//! It is put together once, from one or more descriptor documents, and is
//! read-only afterwards.

use crate::json::Json;
use crate::text::{
    first_index, insert_sorted, last_index, lemma_first_index, lemma_first_index_is,
    lemma_last_index, same_text, sort_texts, sorted, texts,
};
use vstd::prelude::*;

verus! {

/// One rule of a color table: a value and the color it is shown in.
#[derive(Debug, Clone)]
pub struct ColorDef {
    pub value: String,
    pub color: [u8; 3],
}

/// One column of a resource's table.
#[derive(Debug, Clone)]
pub struct ColumnDef {
    pub header: String,
    pub json_path: String,
    pub width: u16,
    pub color_map: Option<String>,
}

/// A link from a resource to one of its sub-resources.
#[derive(Debug, Clone)]
pub struct SubResourceDef {
    pub resource_key: String,
    pub display_name: String,
    pub shortcut: String,
    pub parent_id_field: String,
    pub filter_param: String,
}

/// How an action asks for confirmation.
#[derive(Debug)]
pub struct ConfirmConfig {
    /// Message to show in the confirmation dialog.
    pub message: Option<String>,
    /// Whether the dialog starts on "yes".
    pub default_yes: bool,
    /// Whether the action destroys something.
    pub destructive: bool,
}

/// A state-changing action on a resource.
#[derive(Debug, Clone)]
pub struct ActionDef {
    pub key: String,
    pub display_name: String,
    pub shortcut: Option<String>,
    pub sdk_method: String,
    pub id_param: Option<String>,
    /// Older way to ask for confirmation, without a policy.
    pub needs_confirm: bool,
    pub confirm: Option<ConfirmConfig>,
}

/// The descriptor of one resource.
#[derive(Debug, Clone)]
pub struct ResourceDef {
    pub display_name: String,
    pub service: String,
    pub sdk_method: String,
    pub sdk_method_params: Json,
    pub response_path: String,
    pub id_field: String,
    pub name_field: String,
    pub is_global: bool,
    pub columns: Vec<ColumnDef>,
    pub sub_resources: Vec<SubResourceDef>,
    pub actions: Vec<ActionDef>,
}

/// A descriptor document, and also the catalog that documents merge into.
#[derive(Debug, Clone)]
pub struct ResourceConfig {
    pub color_maps: Vec<(String, Vec<ColorDef>)>,
    pub resources: Vec<(String, ResourceDef)>,
}

/// Why a set of documents does not make a catalog.
#[derive(Debug)]
pub enum CatalogError {
    /// A descriptor has an empty id field.
    MissingIdField(String),
    /// A descriptor has an empty name field.
    MissingNameField(String),
    /// A descriptor has no columns.
    NoColumns(String),
    /// A resource key occurs a second time.
    DuplicateResource(String),
}

/// What is wrong with an entry, without the key.
pub enum Fault {
    MissingIdField,
    MissingNameField,
    NoColumns,
    DuplicateResource,
}

impl CatalogError {
    /// The kind of fault that the error reports.
    pub open spec fn fault(&self) -> Fault {
        match self {
            CatalogError::MissingIdField(_) => Fault::MissingIdField,
            CatalogError::MissingNameField(_) => Fault::MissingNameField,
            CatalogError::NoColumns(_) => Fault::NoColumns,
            CatalogError::DuplicateResource(_) => Fault::DuplicateResource,
        }
    }

    /// The resource key that the error is about.
    pub open spec fn key(&self) -> Seq<char> {
        match self {
            CatalogError::MissingIdField(k) => k@,
            CatalogError::MissingNameField(k) => k@,
            CatalogError::NoColumns(k) => k@,
            CatalogError::DuplicateResource(k) => k@,
        }
    }
}

fn clone_opt(s: &Option<String>) -> (r: Option<String>)
    ensures
        opt_text(r) == opt_text(*s),
{
    match s {
        Some(t) => Some(t.clone()),
        None => None,
    }
}

/// The text of an optional string.
pub open spec fn opt_text(s: Option<String>) -> Option<Seq<char>> {
    match s {
        Some(t) => Some(t@),
        None => None,
    }
}

impl ConfirmConfig {
    /// Two policies say the same.
    pub open spec fn same_as(&self, other: &ConfirmConfig) -> bool {
        &&& opt_text(self.message) == opt_text(other.message)
        &&& self.default_yes == other.default_yes
        &&& self.destructive == other.destructive
    }
}

impl Clone for ConfirmConfig {
    fn clone(&self) -> (r: Self)
        ensures
            r.same_as(self),
    {
        ConfirmConfig {
            message: clone_opt(&self.message),
            default_yes: self.default_yes,
            destructive: self.destructive,
        }
    }
}

impl Default for ConfirmConfig {
    /// No message, "no" preselected, not destructive.
    fn default() -> (r: Self)
        ensures
            r.message.is_none(),
            !r.default_yes,
            !r.destructive,
    {
        ConfirmConfig { message: None, default_yes: false, destructive: false }
    }
}

impl ActionDef {
    /// Whether the action has to be confirmed before it runs.
    pub fn requires_confirm(&self) -> (r: bool)
        ensures
            r == (self.confirm.is_some() || self.needs_confirm),
    {
        self.confirm.is_some() || self.needs_confirm
    }

    /// The confirmation policy of the action: the declared one; or, where
    /// only the older flag is set, one that shows the action's display name,
    /// preselects "no" and is not destructive; or none.
    pub fn get_confirm_config(&self) -> (r: Option<ConfirmConfig>)
        ensures
            r.is_some() == (self.confirm.is_some() || self.needs_confirm),
            match (r, self.confirm) {
                (Some(c), Some(declared)) => c.same_as(&declared),
                (Some(c), None) => {
                    &&& opt_text(c.message) == Some(self.display_name@)
                    &&& !c.default_yes
                    &&& !c.destructive
                },
                _ => true,
            },
    {
        match &self.confirm {
            Some(config) => Some(config.clone()),
            None => {
                if self.needs_confirm {
                    Some(
                        ConfirmConfig {
                            message: Some(self.display_name.clone()),
                            default_yes: false,
                            destructive: false,
                        },
                    )
                } else {
                    None
                }
            },
        }
    }
}

impl ResourceDef {
    /// The descriptor names an id field and a name field and has at least
    /// one column.
    pub open spec fn valid(&self) -> bool {
        &&& self.id_field@.len() > 0
        &&& self.name_field@.len() > 0
        &&& self.columns@.len() > 0
    }

    /// The keys of the declared sub-resources, in order.
    pub open spec fn child_keys(&self) -> Seq<Seq<char>> {
        self.sub_resources@.map_values(|s: SubResourceDef| s.resource_key@)
    }

    /// The link to the sub-resource `child`, if the descriptor declares one:
    /// the first such link.
    pub open spec fn link_to(&self, child: Seq<char>) -> Option<SubResourceDef> {
        match first_index(self.child_keys(), child) {
            Some(i) => Some(self.sub_resources@[i]),
            None => None,
        }
    }

    /// The keys of the declared actions, in order.
    pub open spec fn action_keys(&self) -> Seq<Seq<char>> {
        self.actions@.map_values(|a: ActionDef| a.key@)
    }

    /// The action with key `key`, if the descriptor declares one: the first
    /// such action.
    pub open spec fn action_named(&self, key: Seq<char>) -> Option<ActionDef> {
        match first_index(self.action_keys(), key) {
            Some(i) => Some(self.actions@[i]),
            None => None,
        }
    }

    /// Finds the first action with key `key`.
    pub fn find_action(&self, key: &str) -> (r: Option<&ActionDef>)
        ensures
            match r {
                Some(action) => self.action_named(key@) == Some(*action),
                None => self.action_named(key@).is_none(),
            },
    {
        let mut i: usize = 0;
        while i < self.actions.len()
            invariant
                i <= self.actions.len(),
                forall|j: int| 0 <= j < i ==> self.action_keys()[j] != key@,
            decreases self.actions.len() - i,
        {
            if same_text(self.actions[i].key.as_str(), key) {
                proof {
                    lemma_first_index_is(self.action_keys(), key@, i as int);
                }
                return Some(&self.actions[i]);
            }
            i += 1;
        }
        proof {
            lemma_first_index(self.action_keys(), key@);
        }
        None
    }

    /// Finds the first link to the sub-resource `child`.
    pub fn find_sub_resource(&self, child: &str) -> (r: Option<&SubResourceDef>)
        ensures
            match r {
                Some(link) => self.link_to(child@) == Some(*link),
                None => self.link_to(child@).is_none(),
            },
    {
        let mut i: usize = 0;
        while i < self.sub_resources.len()
            invariant
                i <= self.sub_resources.len(),
                forall|j: int| 0 <= j < i ==> self.child_keys()[j] != child@,
            decreases self.sub_resources.len() - i,
        {
            if same_text(self.sub_resources[i].resource_key.as_str(), child) {
                proof {
                    lemma_first_index_is(self.child_keys(), child@, i as int);
                }
                return Some(&self.sub_resources[i]);
            }
            i += 1;
        }
        proof {
            lemma_first_index(self.child_keys(), child@);
        }
        None
    }
}

/// The keys of a sequence of catalog entries, in order.
pub open spec fn entry_keys(entries: Seq<(String, ResourceDef)>) -> Seq<Seq<char>> {
    entries.map_values(|e: (String, ResourceDef)| e.0@)
}

/// The names of a sequence of color tables, in order.
pub open spec fn table_names(tables: Seq<(String, Vec<ColorDef>)>) -> Seq<Seq<char>> {
    tables.map_values(|t: (String, Vec<ColorDef>)| t.0@)
}

/// What is wrong with entry `i` of `entries`, if anything: the first of an
/// empty id field, an empty name field, no columns, and a key that an
/// earlier entry has.
pub open spec fn fault_at(entries: Seq<(String, ResourceDef)>, i: int) -> Option<Fault> {
    let def = entries[i].1;
    if def.id_field@.len() == 0 {
        Some(Fault::MissingIdField)
    } else if def.name_field@.len() == 0 {
        Some(Fault::MissingNameField)
    } else if def.columns@.len() == 0 {
        Some(Fault::NoColumns)
    } else if exists|j: int| 0 <= j < i && entry_keys(entries)[j] == entry_keys(entries)[i] {
        Some(Fault::DuplicateResource)
    } else {
        None
    }
}

/// The resource entries of all documents, in document order.
pub open spec fn all_resources(documents: Seq<ResourceConfig>) -> Seq<(String, ResourceDef)>
    decreases documents.len(),
{
    if documents.len() == 0 {
        Seq::empty()
    } else {
        documents[0].resources@ + all_resources(documents.drop_first())
    }
}

/// The color tables of all documents, in document order.
pub open spec fn all_color_maps(documents: Seq<ResourceConfig>) -> Seq<(String, Vec<ColorDef>)>
    decreases documents.len(),
{
    if documents.len() == 0 {
        Seq::empty()
    } else {
        documents[0].color_maps@ + all_color_maps(documents.drop_first())
    }
}

impl ResourceConfig {
    /// The resource keys, in the order of the entries.
    pub open spec fn keys(&self) -> Seq<Seq<char>> {
        entry_keys(self.resources@)
    }

    /// The descriptor that `key` resolves to: that of the first entry with
    /// this key.
    pub open spec fn lookup(&self, key: Seq<char>) -> Option<ResourceDef> {
        match first_index(self.keys(), key) {
            Some(i) => Some(self.resources@[i].1),
            None => None,
        }
    }

    /// The color table that `name` resolves to: the last one of this name,
    /// so that a later document's table replaces an earlier one.
    pub open spec fn color_table(&self, name: Seq<char>) -> Option<Vec<ColorDef>> {
        match last_index(table_names(self.color_maps@), name) {
            Some(i) => Some(self.color_maps@[i].1),
            None => None,
        }
    }

    /// The catalog's invariant: no key occurs twice and every descriptor is
    /// valid.
    pub open spec fn wf(&self) -> bool {
        forall|i: int| 0 <= i < self.resources@.len() ==> fault_at(self.resources@, i).is_none()
    }
}

/// The values of a color table, in order.
pub open spec fn color_values(table: Seq<ColorDef>) -> Seq<Seq<char>> {
    table.map_values(|c: ColorDef| c.value@)
}

fn find_entry(entries: &Vec<(String, ResourceDef)>, key: &str) -> (r: Option<usize>)
    ensures
        match r {
            Some(i) => i < entries.len() && first_index(entry_keys(entries@), key@) == Some(
                i as int,
            ),
            None => first_index(entry_keys(entries@), key@).is_none(),
        },
{
    let mut i: usize = 0;
    while i < entries.len()
        invariant
            i <= entries.len(),
            forall|j: int| 0 <= j < i ==> entry_keys(entries@)[j] != key@,
        decreases entries.len() - i,
    {
        if same_text(entries[i].0.as_str(), key) {
            proof {
                lemma_first_index_is(entry_keys(entries@), key@, i as int);
            }
            return Some(i);
        }
        i += 1;
    }
    proof {
        lemma_first_index(entry_keys(entries@), key@);
    }
    None
}

/// Looks up the descriptor of a resource key.
pub fn get_resource<'a>(registry: &'a ResourceConfig, key: &str) -> (r: Option<&'a ResourceDef>)
    ensures
        match r {
            Some(def) => registry.lookup(key@) == Some(*def),
            None => registry.lookup(key@).is_none(),
        },
{
    match find_entry(&registry.resources, key) {
        Some(i) => Some(&registry.resources[i].1),
        None => None,
    }
}

/// All resource keys of the catalog, in dictionary order.
pub fn get_all_resource_keys(registry: &ResourceConfig) -> (keys: Vec<String>)
    ensures
        texts(keys@) == sort_texts(registry.keys()),
        sorted(texts(keys@)),
        texts(keys@).to_multiset() == registry.keys().to_multiset(),
        keys@.len() == registry.resources@.len(),
{
    let mut keys: Vec<String> = Vec::new();
    let mut i: usize = 0;
    proof {
        assert(texts(keys@) =~= registry.keys().take(0));
    }
    while i < registry.resources.len()
        invariant
            i <= registry.resources.len(),
            sorted(texts(keys@)),
            texts(keys@) == sort_texts(registry.keys().take(i as int)),
            texts(keys@).to_multiset() == registry.keys().take(i as int).to_multiset(),
            keys@.len() == i,
        decreases registry.resources.len() - i,
    {
        let key = registry.resources[i].0.clone();
        proof {
            let all = registry.keys();
            assert(all.take(i + 1) =~= all.take(i as int).push(all[i as int]));
            assert(all.take(i + 1).drop_last() =~= all.take(i as int));
            vstd::seq_lib::to_multiset_build(all.take(i as int), all[i as int]);
        }
        insert_sorted(&mut keys, key);
        i += 1;
    }
    proof {
        assert(registry.keys().take(i as int) =~= registry.keys());
    }
    keys
}

/// Looks up a color table by name.
pub fn get_color_map<'a>(registry: &'a ResourceConfig, name: &str) -> (r: Option<
    &'a Vec<ColorDef>,
>)
    ensures
        match r {
            Some(table) => registry.color_table(name@) == Some(*table),
            None => registry.color_table(name@).is_none(),
        },
{
    let ghost names = table_names(registry.color_maps@);
    let mut i: usize = registry.color_maps.len();
    while i > 0
        invariant
            i <= registry.color_maps.len(),
            names == table_names(registry.color_maps@),
            forall|j: int| i <= j < names.len() ==> names[j] != name@,
        decreases i,
    {
        i -= 1;
        if same_text(registry.color_maps[i].0.as_str(), name) {
            proof {
                assert(names[i as int] == name@);
                lemma_last_index(names, name@);
            }
            return Some(&registry.color_maps[i].1);
        }
    }
    proof {
        lemma_last_index(names, name@);
    }
    None
}

/// The color of `value` in the color table `color_map_name`: that of the
/// first rule of the table for this value. There is none where the table is
/// unknown or has no rule for the value.
pub fn get_color_for_value(registry: &ResourceConfig, color_map_name: &str, value: &str) -> (r:
    Option<[u8; 3]>)
    ensures
        r == match registry.color_table(color_map_name@) {
            Some(table) => match first_index(color_values(table@), value@) {
                Some(i) => Some(table@[i].color),
                None => None,
            },
            None => None,
        },
{
    match get_color_map(registry, color_map_name) {
        None => None,
        Some(table) => {
            let mut i: usize = 0;
            while i < table.len()
                invariant
                    i <= table.len(),
                    registry.color_table(color_map_name@) == Some(*table),
                    forall|j: int| 0 <= j < i ==> color_values(table@)[j] != value@,
                decreases table.len() - i,
            {
                if same_text(table[i].value.as_str(), value) {
                    proof {
                        lemma_first_index_is(color_values(table@), value@, i as int);
                    }
                    return Some(table[i].color);
                }
                i += 1;
            }
            proof {
                lemma_first_index(color_values(table@), value@);
            }
            None
        },
    }
}


fn check_entry(seen: &Vec<(String, ResourceDef)>, key: &String, def: &ResourceDef) -> (r: Option<
    CatalogError,
>)
    ensures
        match r {
            Some(e) => fault_at(seen@.push((*key, *def)), seen@.len() as int) == Some(e.fault())
                && e.key() == key@,
            None => fault_at(seen@.push((*key, *def)), seen@.len() as int).is_none(),
        },
{
    let ghost entries = seen@.push((*key, *def));
    let ghost n = seen@.len() as int;
    proof {
        assert(entries[n] == (*key, *def));
    }
    if def.id_field.as_str().is_empty() {
        return Some(CatalogError::MissingIdField(key.clone()));
    }
    if def.name_field.as_str().is_empty() {
        return Some(CatalogError::MissingNameField(key.clone()));
    }
    if def.columns.len() == 0 {
        return Some(CatalogError::NoColumns(key.clone()));
    }
    proof {
        lemma_first_index(entry_keys(seen@), key@);
        assert(entry_keys(entries)[n] == key@);
        assert forall|j: int| 0 <= j < n implies entry_keys(entries)[j] == entry_keys(seen@)[j] by {
            assert(entries[j] == seen@[j]);
        }
    }
    match find_entry(seen, key.as_str()) {
        Some(j) => {
            proof {
                assert(entry_keys(entries)[j as int] == entry_keys(entries)[n]);
            }
            Some(CatalogError::DuplicateResource(key.clone()))
        },
        None => None,
    }
}

/// Merges descriptor documents into one catalog.
///
/// The catalog holds the resource entries of all documents in document
/// order, and their color tables in document order. The merge fails at the
/// first entry that is at fault: one whose descriptor has an empty id field,
/// an empty name field or no columns, or whose key an earlier entry has. The
/// error names the fault and the key.
pub fn get_registry(documents: Vec<ResourceConfig>) -> (r: Result<ResourceConfig, CatalogError>)
    ensures
        match r {
            Ok(registry) => {
                &&& registry.resources@ == all_resources(documents@)
                &&& registry.color_maps@ == all_color_maps(documents@)
                &&& registry.wf()
            },
            Err(e) => exists|i: int|
                {
                    &&& 0 <= i < all_resources(documents@).len()
                    &&& fault_at(all_resources(documents@), i) == Some(e.fault())
                    &&& entry_keys(all_resources(documents@))[i] == e.key()
                    &&& forall|j: int| 0 <= j < i ==> fault_at(all_resources(documents@), j).is_none()
                },
        },
{
    let ghost all = all_resources(documents@);
    let ghost tables = all_color_maps(documents@);
    let mut pending = documents;
    let mut merged = ResourceConfig { color_maps: Vec::new(), resources: Vec::new() };
    proof {
        assert(merged.resources@ + all =~= all);
        assert(merged.color_maps@ + tables =~= tables);
    }
    while pending.len() > 0
        invariant
            all == all_resources(documents@),
            tables == all_color_maps(documents@),
            merged.resources@ + all_resources(pending@) == all,
            merged.color_maps@ + all_color_maps(pending@) == tables,
            forall|i: int| 0 <= i < merged.resources@.len() ==> fault_at(all, i).is_none(),
        decreases pending.len(),
    {
        let ghost rest = pending@.drop_first();
        let document = pending.remove(0);
        proof {
            assert(pending@ =~= rest);
        }
        let ResourceConfig { color_maps, resources } = document;
        let mut color_maps = color_maps;
        let mut resources = resources;
        let ghost done_tables = merged.color_maps@;
        merged.color_maps.append(&mut color_maps);
        proof {
            assert(merged.color_maps@ + all_color_maps(pending@) =~= done_tables + (
            document.color_maps@ + all_color_maps(rest)));
        }
        proof {
            assert(merged.resources@ + resources@ + all_resources(pending@) =~= merged.resources@
                + (document.resources@ + all_resources(rest)));
        }
        while resources.len() > 0
            invariant
                all == all_resources(documents@),
                tables == all_color_maps(documents@),
                merged.resources@ + resources@ + all_resources(pending@) == all,
                merged.color_maps@ + all_color_maps(pending@) == tables,
                forall|i: int| 0 <= i < merged.resources@.len() ==> fault_at(all, i).is_none(),
            decreases resources.len(),
        {
            let ghost seen = merged.resources@;
            let ghost n = seen.len() as int;
            let ghost later = resources@.drop_first();
            let entry = resources.remove(0);
            proof {
                assert(resources@ =~= later);
                assert(all =~= seen.push(entry) + later + all_resources(pending@));
                assert(all[n] == entry);
                assert(entry_keys(all)[n] == entry.0@);
                assert forall|j: int| 0 <= j <= n implies entry_keys(all)[j] == entry_keys(
                    seen.push(entry),
                )[j] by {
                    assert(all[j] == seen.push(entry)[j]);
                }
                assert(fault_at(all, n) == fault_at(seen.push(entry), n)) by {
                    assert(seen.push(entry)[n] == all[n]);
                    if exists|j: int| 0 <= j < n && entry_keys(all)[j] == entry_keys(all)[n] {
                        let j = choose|j: int| 0 <= j < n && entry_keys(all)[j] == entry_keys(all)[n];
                        assert(entry_keys(seen.push(entry))[j] == entry_keys(seen.push(entry))[n]);
                    }
                    if exists|j: int|
                        0 <= j < n && entry_keys(seen.push(entry))[j] == entry_keys(
                            seen.push(entry),
                        )[n] {
                        let j = choose|j: int|
                            0 <= j < n && entry_keys(seen.push(entry))[j] == entry_keys(
                                seen.push(entry),
                            )[n];
                        assert(entry_keys(all)[j] == entry_keys(all)[n]);
                    }
                }
            }
            match check_entry(&merged.resources, &entry.0, &entry.1) {
                Some(e) => {
                    return Err(e);
                },
                None => {},
            }
            merged.resources.push(entry);
        }
        proof {
            assert(merged.resources@ + resources@ =~= merged.resources@);
        }
    }
    proof {
        assert(all_resources(pending@) =~= Seq::empty());
        assert(all_color_maps(pending@) =~= Seq::empty());
        assert(merged.resources@ =~= all);
        assert(merged.color_maps@ =~= tables);
    }
    Ok(merged)
}

/// Whether the link `j` of the entry `i` of the catalog leads to a resource
/// of the catalog.
pub open spec fn link_resolves(registry: ResourceConfig, i: int, j: int) -> bool {
    registry.lookup(registry.resources@[i].1.sub_resources@[j].resource_key@).is_some()
}

/// Whether every sub-resource that a descriptor of the catalog declares is
/// a resource of the catalog. Documents may be composed before this holds;
/// it is what a drill-down relies on.
pub open spec fn links_resolved(registry: ResourceConfig) -> bool {
    forall|i: int, j: int|
        0 <= i < registry.resources@.len() && 0 <= j
            < registry.resources@[i].1.sub_resources@.len() ==> #[trigger] link_resolves(
            registry,
            i,
            j,
        )
}

/// Checks that every declared sub-resource is a resource of the catalog.
pub fn links_resolve(registry: &ResourceConfig) -> (r: bool)
    ensures
        r == links_resolved(*registry),
{
    let mut i: usize = 0;
    while i < registry.resources.len()
        invariant
            i <= registry.resources.len(),
            forall|a: int, b: int|
                0 <= a < i && 0 <= b < registry.resources@[a].1.sub_resources@.len()
                    ==> #[trigger] link_resolves(*registry, a, b),
        decreases registry.resources.len() - i,
    {
        let links = &registry.resources[i].1.sub_resources;
        let mut j: usize = 0;
        while j < links.len()
            invariant
                i < registry.resources.len(),
                links == &registry.resources@[i as int].1.sub_resources,
                j <= links.len(),
                forall|a: int, b: int|
                    0 <= a < i && 0 <= b < registry.resources@[a].1.sub_resources@.len()
                        ==> #[trigger] link_resolves(*registry, a, b),
                forall|b: int| 0 <= b < j ==> #[trigger] link_resolves(*registry, i as int, b),
            decreases links.len() - j,
        {
            if get_resource(registry, links[j].resource_key.as_str()).is_none() {
                proof {
                    assert(!link_resolves(*registry, i as int, j as int));
                }
                return false;
            }
            j += 1;
        }
        i += 1;
    }
    true
}

/// In a catalog whose links resolve, every sub-resource that a resolved
/// descriptor declares resolves too.
pub proof fn lemma_declared_children_resolve(registry: ResourceConfig, key: Seq<char>, j: int)
    requires
        links_resolved(registry),
        registry.lookup(key).is_some(),
        0 <= j < registry.lookup(key).unwrap().sub_resources@.len(),
    ensures
        registry.lookup(registry.lookup(key).unwrap().sub_resources@[j].resource_key@).is_some(),
{
    lemma_first_index(registry.keys(), key);
    let i = first_index(registry.keys(), key).unwrap();
    assert(link_resolves(registry, i, j));
}

/// Every key of a well-formed catalog resolves, and to a descriptor with a
/// non-empty id field, a non-empty name field and at least one column.
pub proof fn lemma_known_keys_resolve(registry: ResourceConfig, key: Seq<char>)
    requires
        registry.wf(),
        registry.keys().contains(key),
    ensures
        registry.lookup(key).is_some(),
        registry.lookup(key).unwrap().valid(),
{
    lemma_first_index(registry.keys(), key);
    let i = first_index(registry.keys(), key).unwrap();
    assert(fault_at(registry.resources@, i).is_none());
}

/// In a well-formed catalog no key occurs twice: every entry is the one
/// that its key resolves to.
pub proof fn lemma_keys_unique(registry: ResourceConfig, i: int)
    requires
        registry.wf(),
        0 <= i < registry.resources@.len(),
    ensures
        registry.lookup(registry.keys()[i]) == Some(registry.resources@[i].1),
{
    let key = registry.keys()[i];
    lemma_first_index(registry.keys(), key);
    let k = first_index(registry.keys(), key).unwrap();
    if k < i {
        assert(fault_at(registry.resources@, i).is_none());
        assert(entry_keys(registry.resources@)[k] == entry_keys(registry.resources@)[i]);
    }
}

} // verus!
