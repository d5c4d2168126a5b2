//! The navigation controller.
//!
//! [`App`] holds the view state of the dashboard: the current resource, the
//! fetched records and their filtered view, the selection, the parent
//! context of a drill-down, and the state of the command palette. Its
//! methods are the whole set of operations on that state.
//!
//! The controller never performs remote work. An operation that needs
//! records returns a [`FetchRequest`]; the caller invokes the remote
//! operation and hands the outcome to [`App::finish_refresh`].

use crate::aws::client::{format_aws_error, normalized};
use crate::config::{Config, ConfigView};
use crate::event::KeyCode;
use crate::json::{clone_items, compact_text, views, write_compact, write_pretty, Json, JsonView};
use crate::resource::fetcher::{
    extract_json_value, extracted, fetch_resources, fetch_view, filter_views,
    finish_fetch, FetchRequest, FilterView, ResourceFilter,
};
use crate::resource::registry::{
    get_all_resource_keys, get_resource, opt_text, ResourceConfig, ResourceDef, SubResourceDef,
};
use crate::text::{
    concat, contains, first_index, insert_sorted, inserted, is_substring, lemma_first_index,
    lowered, same_text, sort_texts, split_words, texts, to_lower, words,
};
use vstd::prelude::*;

verus! {

/// What the dashboard is showing.
#[derive(Debug, Clone, Copy, PartialEq, Eq, Structural)]
pub enum Mode {
    /// The list of records.
    Normal,
    /// The command palette.
    Command,
    /// The help popup.
    Help,
    /// A confirmation dialog.
    Confirm,
    /// The profile selection.
    Profiles,
    /// The region selection.
    Regions,
    /// The details of the selected record.
    Describe,
}

/// An action that waits for confirmation.
#[derive(Debug, Clone, PartialEq)]
pub enum ConfirmAction {
    Terminate,
    Custom(String),
}

/// The mathematical value of a [`ConfirmAction`].
pub enum ConfirmActionView {
    Terminate,
    Custom(Seq<char>),
}

impl View for ConfirmAction {
    type V = ConfirmActionView;

    open spec fn view(&self) -> ConfirmActionView {
        match self {
            ConfirmAction::Terminate => ConfirmActionView::Terminate,
            ConfirmAction::Custom(name) => ConfirmActionView::Custom(name@),
        }
    }
}

/// The parent of a drill-down: the resource that was left, the record that
/// was selected there, and the label that the breadcrumb shows for it.
#[derive(Debug)]
pub struct ParentContext {
    pub resource_key: String,
    pub item: Json,
    pub display_name: String,
}

/// The mathematical value of a [`ParentContext`].
pub struct ParentView {
    pub resource_key: Seq<char>,
    pub item: JsonView,
    pub display_name: Seq<char>,
}

impl View for ParentContext {
    type V = ParentView;

    open spec fn view(&self) -> ParentView {
        ParentView {
            resource_key: self.resource_key@,
            item: self.item@,
            display_name: self.display_name@,
        }
    }
}

/// The values of a stack of parents.
pub open spec fn parent_views(stack: Seq<ParentContext>) -> Seq<ParentView> {
    stack.map_values(|p: ParentContext| p@)
}

/// The value of an optional parent.
pub open spec fn opt_parent(parent: Option<ParentContext>) -> Option<ParentView> {
    match parent {
        Some(p) => Some(p@),
        None => None,
    }
}

/// The value of an optional pending action.
pub open spec fn opt_action(action: Option<ConfirmAction>) -> Option<ConfirmActionView> {
    match action {
        Some(a) => Some(a@),
        None => None,
    }
}

/// The view state of the dashboard.
#[derive(Debug)]
pub struct App {
    /// The resource catalog. It is never changed.
    pub registry: ResourceConfig,
    /// The resource being viewed.
    pub current_resource_key: String,
    /// All fetched records.
    pub items: Vec<Json>,
    /// The records that pass the filter.
    pub filtered_items: Vec<Json>,
    /// The selected position in `filtered_items`.
    pub selected: usize,
    pub mode: Mode,
    pub filter_text: String,
    pub filter_active: bool,
    /// The immediate parent of a drill-down.
    pub parent_context: Option<ParentContext>,
    /// The ancestors beyond the immediate parent, oldest first.
    pub navigation_stack: Vec<ParentContext>,
    pub command_text: String,
    pub command_suggestions: Vec<String>,
    pub command_suggestion_selected: usize,
    /// The suggestion that would complete the typed command.
    pub command_preview: Option<String>,
    pub profile: String,
    pub region: String,
    pub available_profiles: Vec<String>,
    pub available_regions: Vec<String>,
    pub profiles_selected: usize,
    pub regions_selected: usize,
    /// The action that the confirmation dialog is about.
    pub confirm_action: Option<ConfirmAction>,
    /// Whether a fetch is under way.
    pub loading: bool,
    pub error_message: Option<String>,
    pub describe_scroll: usize,
    /// When the records were refreshed last, in milliseconds.
    pub last_refresh: u64,
    pub config: Config,
    /// The key that may begin a two-key sequence, and when it was pressed,
    /// in milliseconds.
    pub last_key_press: Option<(KeyCode, u64)>,
}

/// The mathematical value of an [`App`].
pub struct AppView {
    pub registry: ResourceConfig,
    pub current_resource_key: Seq<char>,
    pub items: Seq<JsonView>,
    pub filtered_items: Seq<JsonView>,
    pub selected: nat,
    pub mode: Mode,
    pub filter_text: Seq<char>,
    pub filter_active: bool,
    pub parent_context: Option<ParentView>,
    pub navigation_stack: Seq<ParentView>,
    pub command_text: Seq<char>,
    pub command_suggestions: Seq<Seq<char>>,
    pub command_suggestion_selected: nat,
    pub command_preview: Option<Seq<char>>,
    pub profile: Seq<char>,
    pub region: Seq<char>,
    pub available_profiles: Seq<Seq<char>>,
    pub available_regions: Seq<Seq<char>>,
    pub profiles_selected: nat,
    pub regions_selected: nat,
    pub confirm_action: Option<ConfirmActionView>,
    pub loading: bool,
    pub error_message: Option<Seq<char>>,
    pub describe_scroll: nat,
    pub last_refresh: u64,
    pub config: ConfigView,
    pub last_key_press: Option<(KeyCode, u64)>,
}

impl View for App {
    type V = AppView;

    open spec fn view(&self) -> AppView {
        AppView {
            registry: self.registry,
            current_resource_key: self.current_resource_key@,
            items: views(self.items@),
            filtered_items: views(self.filtered_items@),
            selected: self.selected as nat,
            mode: self.mode,
            filter_text: self.filter_text@,
            filter_active: self.filter_active,
            parent_context: opt_parent(self.parent_context),
            navigation_stack: parent_views(self.navigation_stack@),
            command_text: self.command_text@,
            command_suggestions: texts(self.command_suggestions@),
            command_suggestion_selected: self.command_suggestion_selected as nat,
            command_preview: opt_text(self.command_preview),
            profile: self.profile@,
            region: self.region@,
            available_profiles: texts(self.available_profiles@),
            available_regions: texts(self.available_regions@),
            profiles_selected: self.profiles_selected as nat,
            regions_selected: self.regions_selected as nat,
            confirm_action: opt_action(self.confirm_action),
            loading: self.loading,
            error_message: opt_text(self.error_message),
            describe_scroll: self.describe_scroll as nat,
            last_refresh: self.last_refresh,
            config: self.config@,
            last_key_press: self.last_key_press,
        }
    }
}

/// The time between two automatic refreshes, in milliseconds.
pub const REFRESH_INTERVAL_MS: u64 = 5000;

/// The resource that the dashboard starts with.
pub open spec fn initial_resource() -> Seq<char> {
    "ec2-instances"@
}

/// The selection after a move forward by `step` in a list of `len` entries:
/// it stops at the last entry, and stays where it is in an empty list.
pub open spec fn moved_down(selected: nat, step: nat, len: nat) -> nat {
    if len == 0 {
        selected
    } else if selected + step < len {
        selected + step
    } else {
        (len - 1) as nat
    }
}

/// The selection after a move back by `step` in a list of `len` entries:
/// it stops at the first entry, and stays where it is in an empty list.
pub open spec fn moved_up(selected: nat, step: nat, len: nat) -> nat {
    if len == 0 {
        selected
    } else if selected >= step {
        (selected - step) as nat
    } else {
        0
    }
}

/// The selection after a jump to the first of `len` entries; it stays
/// where it is in an empty list.
pub open spec fn at_top(selected: nat, len: nat) -> nat {
    if len == 0 {
        selected
    } else {
        0
    }
}

/// The selection after a jump to the last of `len` entries; it stays where
/// it is in an empty list.
pub open spec fn at_bottom(selected: nat, len: nat) -> nat {
    if len == 0 {
        selected
    } else {
        (len - 1) as nat
    }
}

/// The selection after the list has changed to `len` entries: a selection
/// past the end moves to the last entry; in an empty list it stays where it
/// is.
pub open spec fn clamped(selected: nat, len: nat) -> nat {
    if selected >= len && len > 0 {
        (len - 1) as nat
    } else {
        selected
    }
}

fn step_down(selected: usize, step: usize, len: usize) -> (r: usize)
    ensures
        r == moved_down(selected as nat, step as nat, len as nat),
{
    if len == 0 {
        selected
    } else if selected < len && step < len - selected {
        selected + step
    } else {
        len - 1
    }
}

fn step_up(selected: usize, step: usize, len: usize) -> (r: usize)
    ensures
        r == moved_up(selected as nat, step as nat, len as nat),
{
    if len == 0 {
        selected
    } else if selected >= step {
        selected - step
    } else {
        0
    }
}

/// The state after a move of the selection forward by `step`, in the list
/// that the mode shows.
pub open spec fn after_move_down(v: AppView, step: nat) -> AppView {
    match v.mode {
        Mode::Profiles => AppView {
            profiles_selected: moved_down(v.profiles_selected, step, v.available_profiles.len()),
            ..v
        },
        Mode::Regions => AppView {
            regions_selected: moved_down(v.regions_selected, step, v.available_regions.len()),
            ..v
        },
        _ => AppView { selected: moved_down(v.selected, step, v.filtered_items.len()), ..v },
    }
}

/// The state after a move of the selection back by `step`, in the list that
/// the mode shows.
pub open spec fn after_move_up(v: AppView, step: nat) -> AppView {
    match v.mode {
        Mode::Profiles => AppView {
            profiles_selected: moved_up(v.profiles_selected, step, v.available_profiles.len()),
            ..v
        },
        Mode::Regions => AppView {
            regions_selected: moved_up(v.regions_selected, step, v.available_regions.len()),
            ..v
        },
        _ => AppView { selected: moved_up(v.selected, step, v.filtered_items.len()), ..v },
    }
}

/// The state after a jump of the selection to the first entry of the list
/// that the mode shows.
pub open spec fn after_jump_to_top(v: AppView) -> AppView {
    match v.mode {
        Mode::Profiles => AppView {
            profiles_selected: at_top(v.profiles_selected, v.available_profiles.len()),
            ..v
        },
        Mode::Regions => AppView {
            regions_selected: at_top(v.regions_selected, v.available_regions.len()),
            ..v
        },
        _ => AppView { selected: at_top(v.selected, v.filtered_items.len()), ..v },
    }
}

/// The state after a jump of the selection to the last entry of the list
/// that the mode shows.
pub open spec fn after_jump_to_bottom(v: AppView) -> AppView {
    match v.mode {
        Mode::Profiles => AppView {
            profiles_selected: at_bottom(v.profiles_selected, v.available_profiles.len()),
            ..v
        },
        Mode::Regions => AppView {
            regions_selected: at_bottom(v.regions_selected, v.available_regions.len()),
            ..v
        },
        _ => AppView { selected: at_bottom(v.selected, v.filtered_items.len()), ..v },
    }
}

/// The position of `wanted` in `names`, or 0 where it is not among them.
pub open spec fn position_or_first(names: Seq<Seq<char>>, wanted: Seq<char>) -> nat {
    match first_index(names, wanted) {
        Some(i) => i as nat,
        None => 0,
    }
}

fn position_in(names: &Vec<String>, wanted: &str) -> (r: usize)
    ensures
        r == position_or_first(texts(names@), wanted@),
{
    proof {
        lemma_first_index(texts(names@), wanted@);
    }
    match crate::text::find_first(names, wanted) {
        Some(i) => i,
        None => 0,
    }
}


/// Whether a record passes the filter `needle`, which is in lowercase
/// already: where the resource has a descriptor, the lowercase form of the
/// record's name or of its id holds the needle; where it has none, the
/// lowercase form of the record's compact JSON text does.
pub open spec fn item_matches(def: Option<ResourceDef>, needle: Seq<char>, item: JsonView) -> bool {
    match def {
        Some(d) => is_substring(needle, lowered(extracted(item, d.name_field@))) || is_substring(
            needle,
            lowered(extracted(item, d.id_field@)),
        ),
        None => is_substring(needle, lowered(compact_text(item))),
    }
}

/// The records of `items` that the filter text shows, in order: all of them
/// for a filter text that is empty or has an empty lowercase form, and else
/// those that pass the lowercase form of the filter text.
pub open spec fn visible(
    registry: ResourceConfig,
    key: Seq<char>,
    filter_text: Seq<char>,
    items: Seq<JsonView>,
) -> Seq<JsonView> {
    if lowered(filter_text).len() == 0 {
        items
    } else {
        items.filter(|item: JsonView| item_matches(registry.lookup(key), lowered(filter_text), item))
    }
}

/// The state after the filter has been applied to the records: the visible
/// records are recomputed, and a selection past their end moves to the last
/// of them.
pub open spec fn after_filter(v: AppView) -> AppView {
    let shown = visible(v.registry, v.current_resource_key, v.filter_text, v.items);
    AppView { filtered_items: shown, selected: clamped(v.selected, shown.len()), ..v }
}


/// The filter that the first usable link to `child` gives for the parent
/// record: the link's filter parameter with the parent's id as its one
/// value. A link is usable where the parent record has an id at the link's
/// path. There is no filter where no link to `child` is usable.
pub open spec fn link_filter(links: Seq<SubResourceDef>, child: Seq<char>, parent: JsonView) -> Seq<
    FilterView,
>
    decreases links.len(),
{
    if links.len() == 0 {
        Seq::empty()
    } else if links[0].resource_key@ == child && extracted(parent, links[0].parent_id_field@)
        != "-"@ {
        seq![
            FilterView {
                name: links[0].filter_param@,
                values: seq![extracted(parent, links[0].parent_id_field@)],
            },
        ]
    } else {
        link_filter(links.drop_first(), child, parent)
    }
}

/// The filters that the navigation context gives for a fetch of the
/// current resource: none at the top level or for an unknown resource, and
/// else the filter of the parent's link to the current resource. At most one
/// filter comes out.
pub open spec fn context_filters(v: AppView) -> Seq<FilterView> {
    match v.parent_context {
        None => Seq::empty(),
        Some(parent) => if v.registry.lookup(v.current_resource_key).is_none() {
            Seq::empty()
        } else {
            match v.registry.lookup(parent.resource_key) {
                Some(def) => link_filter(def.sub_resources@, v.current_resource_key, parent.item),
                None => Seq::empty(),
            }
        },
    }
}

/// The text of the error for a resource key that the catalog does not have.
pub open spec fn unknown_resource(key: Seq<char>) -> Seq<char> {
    "Unknown resource: "@ + key
}

/// The state after a refresh of the current resource has begun: a fetch is
/// under way and the last error is gone; or, for a resource that the
/// catalog does not have, nothing but the error has changed.
pub open spec fn after_refresh_start(v: AppView) -> AppView {
    match v.registry.lookup(v.current_resource_key) {
        None => AppView { error_message: Some(unknown_resource(v.current_resource_key)), ..v },
        Some(_) => AppView { loading: true, error_message: None, ..v },
    }
}

/// The state after a fetch for the resource `request_key` has ended at the
/// time `now`.
///
/// The outcome of a fetch for another resource than the current one is
/// dropped. Records replace the old ones, the filter is applied to them,
/// and the selection stays where it was as far as the visible records
/// reach. An error empties the records, moves the selection to the start
/// and shows as a short message.
pub open spec fn after_refresh(
    v: AppView,
    request_key: Seq<char>,
    outcome: Result<Seq<JsonView>, Seq<char>>,
    now: u64,
) -> AppView {
    if request_key != v.current_resource_key {
        v
    } else {
        match outcome {
            Ok(items) => AppView {
                loading: false,
                last_refresh: now,
                ..after_filter(AppView { items, ..v })
            },
            Err(text) => AppView {
                items: Seq::empty(),
                filtered_items: Seq::empty(),
                selected: 0,
                error_message: Some(normalized(text)),
                loading: false,
                last_refresh: now,
                ..v
            },
        }
    }
}

/// The state at the top level of the resource `key`: no ancestors, the
/// selection at the start, no filter, the list showing.
pub open spec fn at_top_level(v: AppView, key: Seq<char>) -> AppView {
    AppView {
        parent_context: None,
        navigation_stack: Seq::empty(),
        current_resource_key: key,
        selected: 0,
        filter_text: Seq::empty(),
        filter_active: false,
        mode: Mode::Normal,
        ..v
    }
}

/// The state after a navigation to the top level of the resource `key`:
/// for a resource that the catalog has, the top level of it with a refresh
/// begun; for any other, nothing but the error has changed.
pub open spec fn after_navigate(v: AppView, key: Seq<char>) -> AppView {
    match v.registry.lookup(key) {
        None => AppView { error_message: Some(unknown_resource(key)), ..v },
        Some(_) => after_refresh_start(at_top_level(v, key)),
    }
}

/// The label of a record in the breadcrumb: its name, or its id where it
/// has no name.
pub open spec fn parent_label(def: ResourceDef, item: JsonView) -> Seq<char> {
    if extracted(item, def.name_field@) != "-"@ {
        extracted(item, def.name_field@)
    } else {
        extracted(item, def.id_field@)
    }
}

/// The text of the error for a drill-down into `child` that the current
/// resource does not declare.
pub open spec fn not_a_sub_resource(child: Seq<char>, current: Seq<char>) -> Seq<char> {
    child + " is not a sub-resource of "@ + current
}

/// The state one level below `v`, in the sub-resource `child` of the
/// selected record `item` of the resource with descriptor `def`: the old
/// parent joins the ancestors, the selected record becomes the parent, and
/// selection and filter start afresh.
pub open spec fn one_level_down(v: AppView, def: ResourceDef, item: JsonView, child: Seq<char>) -> AppView {
    AppView {
        navigation_stack: match v.parent_context {
            Some(p) => v.navigation_stack.push(p),
            None => v.navigation_stack,
        },
        parent_context: Some(
            ParentView {
                resource_key: v.current_resource_key,
                item,
                display_name: parent_label(def, item),
            },
        ),
        current_resource_key: child,
        selected: 0,
        filter_text: Seq::empty(),
        filter_active: false,
        ..v
    }
}

/// The state after a drill-down into the sub-resource `child`.
///
/// Nothing happens without a selected record or for a current resource
/// that the catalog does not have. A sub-resource that the current
/// descriptor does not declare only sets the error. Else the state is one
/// level down, with a refresh begun.
pub open spec fn after_drill_down(v: AppView, child: Seq<char>) -> AppView {
    if v.selected >= v.filtered_items.len() {
        v
    } else {
        match v.registry.lookup(v.current_resource_key) {
            None => v,
            Some(def) => if def.link_to(child).is_none() {
                AppView {
                    error_message: Some(not_a_sub_resource(child, v.current_resource_key)),
                    ..v
                }
            } else {
                after_refresh_start(
                    one_level_down(v, def, v.filtered_items[v.selected as int], child),
                )
            },
        }
    }
}

/// The state one level above `v`, whose parent is `parent`: the parent's
/// resource is current again, the youngest ancestor becomes the parent,
/// and selection and filter start afresh.
pub open spec fn one_level_up(v: AppView, parent: ParentView) -> AppView {
    AppView {
        parent_context: if v.navigation_stack.len() > 0 {
            Some(v.navigation_stack.last())
        } else {
            None
        },
        navigation_stack: if v.navigation_stack.len() > 0 {
            v.navigation_stack.drop_last()
        } else {
            v.navigation_stack
        },
        current_resource_key: parent.resource_key,
        selected: 0,
        filter_text: Seq::empty(),
        filter_active: false,
        ..v
    }
}

/// The state after a navigation back to the parent: one level up with a
/// refresh begun, or unchanged at the top level.
pub open spec fn after_back(v: AppView) -> AppView {
    match v.parent_context {
        None => v,
        Some(parent) => after_refresh_start(one_level_up(v, parent)),
    }
}

/// The breadcrumb entry of an ancestor.
pub open spec fn crumb(p: ParentView) -> Seq<char> {
    p.resource_key + ":"@ + p.display_name
}

/// The breadcrumb: an entry for every ancestor, oldest first, then one for
/// the parent, then the current resource key.
pub open spec fn breadcrumb(v: AppView) -> Seq<Seq<char>> {
    v.navigation_stack.map_values(|p: ParentView| crumb(p)) + match v.parent_context {
        Some(p) => seq![crumb(p)],
        None => Seq::empty(),
    } + seq![v.current_resource_key]
}

fn crumb_of(p: &ParentContext) -> (r: String)
    ensures
        r@ == crumb(p@),
{
    let mut r = concat(p.resource_key.as_str(), ":");
    r.append(p.display_name.as_str());
    r
}

fn find_link_filter(links: &Vec<SubResourceDef>, child: &str, parent: &Json) -> (r: Vec<
    ResourceFilter,
>)
    ensures
        filter_views(r@) == link_filter(links@, child@, parent@),
{
    let mut i: usize = 0;
    proof {
        assert(links@.skip(0) == links@);
    }
    while i < links.len()
        invariant
            i <= links.len(),
            link_filter(links@, child@, parent@) == link_filter(
                links@.skip(i as int),
                child@,
                parent@,
            ),
        decreases links.len() - i,
    {
        let link = &links[i];
        proof {
            assert(links@.skip(i as int)[0] == links@[i as int]);
            assert(links@.skip(i as int).drop_first() == links@.skip(i + 1));
        }
        if same_text(link.resource_key.as_str(), child) {
            let id = extract_json_value(parent, link.parent_id_field.as_str());
            if !same_text(id.as_str(), "-") {
                let mut values: Vec<String> = Vec::new();
                values.push(id);
                let filter = ResourceFilter::new(link.filter_param.as_str(), values);
                let mut r: Vec<ResourceFilter> = Vec::new();
                r.push(filter);
                proof {
                    assert(texts(values@) =~= seq![id@]);
                    assert(filter_views(r@) =~= seq![
                        FilterView { name: link.filter_param@, values: seq![id@] },
                    ]);
                }
                return r;
            }
        }
        i += 1;
    }
    let r: Vec<ResourceFilter> = Vec::new();
    proof {
        assert(filter_views(r@) =~= Seq::empty());
    }
    r
}


/// The commands that the palette offers: the resource keys of the catalog
/// and the two commands `profiles` and `regions`, in dictionary order.
pub open spec fn available_commands(registry: ResourceConfig) -> Seq<Seq<char>> {
    inserted(inserted(sort_texts(registry.keys()), "profiles"@), "regions"@)
}

/// The commands that the palette suggests for the typed text: all of them
/// for a text that is empty or has an empty lowercase form, and else those
/// that hold the lowercase form of the text anywhere.
pub open spec fn suggestions_for(registry: ResourceConfig, typed: Seq<char>) -> Seq<Seq<char>> {
    if lowered(typed).len() == 0 {
        available_commands(registry)
    } else {
        available_commands(registry).filter(|c: Seq<char>| is_substring(lowered(typed), c))
    }
}

/// The preview for a list of suggestions: the highlighted one, if there is
/// one.
pub open spec fn preview_of(suggestions: Seq<Seq<char>>, selected: nat) -> Option<Seq<char>> {
    if selected < suggestions.len() {
        Some(suggestions[selected as int])
    } else {
        None
    }
}

/// The state after the suggestions have been recomputed for the typed
/// text: a highlight past their end goes back to the first, and the preview
/// follows the highlight.
pub open spec fn after_suggestions(v: AppView) -> AppView {
    let suggestions = suggestions_for(v.registry, v.command_text);
    let selected = if v.command_suggestion_selected >= suggestions.len() {
        0
    } else {
        v.command_suggestion_selected
    };
    AppView {
        command_suggestions: suggestions,
        command_suggestion_selected: selected,
        command_preview: preview_of(suggestions, selected),
        ..v
    }
}

/// The state with the highlight of the suggestions at `selected`, and the
/// preview following it.
pub open spec fn with_highlight(v: AppView, selected: nat) -> AppView {
    AppView {
        command_suggestion_selected: selected,
        command_preview: preview_of(v.command_suggestions, selected),
        ..v
    }
}

/// The command line that is run: the preview where nothing is typed, or
/// where the preview holds the typed text anywhere; and else the typed
/// text.
pub open spec fn resolved_command(v: AppView) -> Seq<char> {
    if v.command_text.len() == 0 {
        match v.command_preview {
            Some(p) => p,
            None => Seq::empty(),
        }
    } else {
        match v.command_preview {
            Some(p) => if is_substring(v.command_text, p) {
                p
            } else {
                v.command_text
            },
            None => v.command_text,
        }
    }
}

/// What a command line asks for.
pub enum Command {
    /// An empty line.
    Nothing,
    Quit,
    Back,
    Profiles,
    Regions,
    /// Switch to the named region.
    Region(Seq<char>),
    /// Switch to the named profile.
    Profile(Seq<char>),
    /// Drill down into the named sub-resource of the selected record.
    DrillDown(Seq<char>),
    /// Go to the top level of the named resource.
    Navigate(Seq<char>),
    /// A first word that is neither a verb nor a resource.
    Unknown(Seq<char>),
}

/// Whether the state allows a drill-down into `child`: a record is
/// selected, and the current descriptor declares the sub-resource.
pub open spec fn can_drill_down(v: AppView, child: Seq<char>) -> bool {
    &&& v.selected < v.filtered_items.len()
    &&& v.registry.lookup(v.current_resource_key) matches Some(def)
    &&& def.link_to(child).is_some()
}

/// What the resolved command line asks for. Its first word is the verb.
/// The verbs `region` and `profile` need a second word; without one, and
/// for every other first word, the word is taken for a resource key.
pub open spec fn parsed_command(v: AppView) -> Command {
    let parts = words(resolved_command(v));
    if parts.len() == 0 {
        Command::Nothing
    } else if parts[0] == "q"@ || parts[0] == "quit"@ {
        Command::Quit
    } else if parts[0] == "back"@ {
        Command::Back
    } else if parts[0] == "profiles"@ {
        Command::Profiles
    } else if parts[0] == "regions"@ {
        Command::Regions
    } else if parts[0] == "region"@ && parts.len() > 1 {
        Command::Region(parts[1])
    } else if parts[0] == "profile"@ && parts.len() > 1 {
        Command::Profile(parts[1])
    } else if v.registry.lookup(parts[0]).is_none() {
        Command::Unknown(parts[0])
    } else if can_drill_down(v, parts[0]) {
        Command::DrillDown(parts[0])
    } else {
        Command::Navigate(parts[0])
    }
}

/// The state with the profile selection open.
pub open spec fn in_profiles_mode(v: AppView) -> AppView {
    AppView {
        mode: Mode::Profiles,
        profiles_selected: position_or_first(v.available_profiles, v.profile),
        ..v
    }
}

/// The state with the region selection open.
pub open spec fn in_regions_mode(v: AppView) -> AppView {
    AppView {
        mode: Mode::Regions,
        regions_selected: position_or_first(v.available_regions, v.region),
        ..v
    }
}

/// The state after a command has been run.
pub open spec fn after_command(v: AppView, command: Command) -> AppView {
    match command {
        Command::Back => after_back(v),
        Command::Profiles => in_profiles_mode(v),
        Command::Regions => in_regions_mode(v),
        Command::DrillDown(key) => after_drill_down(v, key),
        Command::Navigate(key) => after_navigate(v, key),
        Command::Unknown(word) => AppView {
            error_message: Some("Unknown command: "@ + word),
            ..v
        },
        _ => v,
    }
}

/// Whether running a command in the state `v` begins a fetch: it does where
/// the command moves to a resource that the catalog has.
pub open spec fn begins_fetch(v: AppView, command: Command) -> bool {
    match command {
        Command::Back => v.parent_context matches Some(parent) && v.registry.lookup(
            parent.resource_key,
        ).is_some(),
        Command::DrillDown(key) => can_drill_down(v, key) && v.registry.lookup(key).is_some(),
        Command::Navigate(key) => v.registry.lookup(key).is_some(),
        _ => false,
    }
}

/// A remote action that is ready to be performed on one resource.
#[derive(Debug)]
pub struct ActionRequest {
    pub service: String,
    pub action: String,
    pub resource_id: String,
}

/// What the caller has to do after an operation of the controller.
#[derive(Debug)]
pub enum Effect {
    /// Nothing.
    Nothing,
    /// End the program.
    Quit,
    /// Perform the fetch and hand its outcome to [`App::finish_refresh`].
    Fetch(FetchRequest),
    /// Switch to the region, call [`App::switch_region`], and refresh.
    SwitchRegion(String),
    /// Switch to the profile, call [`App::switch_profile`], and refresh.
    SwitchProfile(String),
    /// Perform the action, and refresh where it succeeds.
    RunAction(ActionRequest),
}

/// The mathematical value of an [`Effect`]. Of a fetch it says only that
/// there is one; which one, the state tells.
pub enum EffectView {
    Nothing,
    Quit,
    Fetch,
    SwitchRegion(Seq<char>),
    SwitchProfile(Seq<char>),
    RunAction(ActionView),
}

/// The mathematical value of an [`ActionRequest`].
pub struct ActionView {
    pub service: Seq<char>,
    pub action: Seq<char>,
    pub resource_id: Seq<char>,
}

impl View for ActionRequest {
    type V = ActionView;

    open spec fn view(&self) -> ActionView {
        ActionView {
            service: self.service@,
            action: self.action@,
            resource_id: self.resource_id@,
        }
    }
}

/// The action `action` of the compute service on the instance `id`.
pub open spec fn instance_action(action: Seq<char>, id: Seq<char>) -> ActionView {
    ActionView { service: "ec2"@, action, resource_id: id }
}

/// The fetch `request` is the one that the state `v` asks for: that of the
/// current resource, with the filters of the navigation context.
pub open spec fn fetch_for(v: AppView, request: FetchRequest) -> bool {
    &&& v.registry.lookup(v.current_resource_key) matches Some(def)
    &&& request.is_for(v.current_resource_key, fetch_view(def), context_filters(v))
}

/// The effect has the value `view`; and, where it is a fetch, it is the
/// fetch that the state `after` asks for.
pub open spec fn shows(effect: Effect, view: EffectView, after: AppView) -> bool {
    match view {
        EffectView::Nothing => effect is Nothing,
        EffectView::Quit => effect is Quit,
        EffectView::Fetch => effect matches Effect::Fetch(request) && fetch_for(after, request),
        EffectView::SwitchRegion(name) => effect matches Effect::SwitchRegion(r) && r@ == name,
        EffectView::SwitchProfile(name) => effect matches Effect::SwitchProfile(p) && p@ == name,
        EffectView::RunAction(action) => effect matches Effect::RunAction(request) && request@
            == action,
    }
}

/// What the caller has to do after a command has been run in the state
/// `v`.
pub open spec fn command_effect(v: AppView, command: Command) -> EffectView {
    match command {
        Command::Quit => EffectView::Quit,
        Command::Region(name) => EffectView::SwitchRegion(name),
        Command::Profile(name) => EffectView::SwitchProfile(name),
        _ => if begins_fetch(v, command) {
            EffectView::Fetch
        } else {
            EffectView::Nothing
        },
    }
}

/// The id of an instance record, where the record has one.
pub open spec fn instance_id(item: JsonView) -> Option<Seq<char>> {
    if extracted(item, "InstanceId"@) != "-"@ {
        Some(extracted(item, "InstanceId"@))
    } else {
        None
    }
}

/// The instance that an instance action applies to: the selected record's,
/// while the instances are the current resource and a record with an id is
/// selected.
pub open spec fn selected_instance(v: AppView) -> Option<Seq<char>> {
    if v.current_resource_key == "ec2-instances"@ && v.selected < v.filtered_items.len() {
        instance_id(v.filtered_items[v.selected as int])
    } else {
        None
    }
}

/// The declared action `key` as it applies to the selected record, and
/// whether it has to be confirmed first. There is none without a selected
/// record, for a resource that the catalog does not have, for an action
/// that the descriptor does not declare, and for a record without an id.
pub open spec fn declared_action(v: AppView, key: Seq<char>) -> Option<(ActionView, bool)> {
    if v.selected >= v.filtered_items.len() {
        None
    } else {
        match v.registry.lookup(v.current_resource_key) {
            Some(def) => match def.action_named(key) {
                Some(action) => {
                    let id = extracted(v.filtered_items[v.selected as int], def.id_field@);
                    if id == "-"@ {
                        None
                    } else {
                        Some(
                            (
                                ActionView {
                                    service: def.service@,
                                    action: action.sdk_method@,
                                    resource_id: id,
                                },
                                action.confirm.is_some() || action.needs_confirm,
                            ),
                        )
                    }
                },
                None => None,
            },
            None => None,
        }
    }
}

/// The state after a declared action has been asked for: an action that
/// has to be confirmed opens the confirmation dialog; any other leaves the
/// state as it is.
pub open spec fn after_action_request(v: AppView, key: Seq<char>) -> AppView {
    match declared_action(v, key) {
        Some((_, true)) => AppView {
            mode: Mode::Confirm,
            confirm_action: Some(ConfirmActionView::Custom(key)),
            ..v
        },
        _ => v,
    }
}

/// The action that an affirmative confirmation runs: the termination of
/// the selected instance, or the declared action that waits for
/// confirmation, on the selected record.
pub open spec fn confirmed_action(v: AppView) -> Option<ActionView> {
    match v.confirm_action {
        Some(ConfirmActionView::Terminate) => match selected_instance(v) {
            Some(id) => Some(instance_action("terminate_instance"@, id)),
            None => None,
        },
        Some(ConfirmActionView::Custom(key)) => match declared_action(v, key) {
            Some((action, _)) => Some(action),
            None => None,
        },
        None => None,
    }
}

/// The value of an optional action request.
pub open spec fn opt_request(r: Option<ActionRequest>) -> Option<ActionView> {
    match r {
        Some(request) => Some(request@),
        None => None,
    }
}

fn filter_commands(all: Vec<String>, needle: &str) -> (r: Vec<String>)
    ensures
        texts(r@) == texts(all@).filter(|c: Seq<char>| is_substring(needle@, c)),
{
    let ghost pred = |c: Seq<char>| is_substring(needle@, c);
    let ghost wanted = texts(all@);
    let mut r: Vec<String> = Vec::new();
    let mut i: usize = 0;
    proof {
        assert(wanted.take(0) =~= Seq::<Seq<char>>::empty());
        assert(wanted.take(0).filter(pred) =~= Seq::<Seq<char>>::empty()) by {
            reveal(Seq::filter);
        }
        assert(texts(r@) =~= Seq::<Seq<char>>::empty());
    }
    while i < all.len()
        invariant
            i <= all.len(),
            wanted == texts(all@),
            pred == |c: Seq<char>| is_substring(needle@, c),
            texts(r@) == wanted.take(i as int).filter(pred),
        decreases all.len() - i,
    {
        let keep = contains(all[i].as_str(), needle);
        proof {
            assert(wanted.take(i + 1) =~= wanted.take(i as int).push(wanted[i as int]));
            wanted.take(i as int).lemma_filter_push(wanted[i as int], pred);
            assert(keep == pred(wanted[i as int]));
        }
        if keep {
            let ghost before = texts(r@);
            r.push(all[i].clone());
            proof {
                assert(texts(r@) =~= before.push(wanted[i as int]));
            }
        }
        i += 1;
    }
    proof {
        assert(wanted.take(i as int) =~= wanted);
    }
    r
}

impl App {
    /// The state that the dashboard starts in: the initial resource with the
    /// records fetched for it, all of them visible, nothing selected beyond
    /// the first, no parent, no filter, no error.
    pub fn from_initialized(
        registry: ResourceConfig,
        profile: String,
        region: String,
        available_profiles: Vec<String>,
        available_regions: Vec<String>,
        initial_items: Vec<Json>,
        config: Config,
        now: u64,
    ) -> (app: Self)
        ensures
            app@ == (AppView {
                registry,
                current_resource_key: initial_resource(),
                items: views(initial_items@),
                filtered_items: views(initial_items@),
                selected: 0,
                mode: Mode::Normal,
                filter_text: Seq::empty(),
                filter_active: false,
                parent_context: None,
                navigation_stack: Seq::empty(),
                command_text: Seq::empty(),
                command_suggestions: Seq::empty(),
                command_suggestion_selected: 0,
                command_preview: None,
                profile: profile@,
                region: region@,
                available_profiles: texts(available_profiles@),
                available_regions: texts(available_regions@),
                profiles_selected: 0,
                regions_selected: 0,
                confirm_action: None,
                loading: false,
                error_message: None,
                describe_scroll: 0,
                last_refresh: now,
                config: config@,
                last_key_press: None,
            }),
    {
        let filtered_items = clone_items(&initial_items);
        let app = App {
            registry,
            current_resource_key: "ec2-instances".to_owned(),
            items: initial_items,
            filtered_items,
            selected: 0,
            mode: Mode::Normal,
            filter_text: String::new(),
            filter_active: false,
            parent_context: None,
            navigation_stack: Vec::new(),
            command_text: String::new(),
            command_suggestions: Vec::new(),
            command_suggestion_selected: 0,
            command_preview: None,
            profile,
            region,
            available_profiles,
            available_regions,
            profiles_selected: 0,
            regions_selected: 0,
            confirm_action: None,
            loading: false,
            error_message: None,
            describe_scroll: 0,
            last_refresh: now,
            config,
            last_key_press: None,
        };
        proof {
            assert(parent_views(app.navigation_stack@) =~= Seq::empty());
            assert(texts(app.command_suggestions@) =~= Seq::empty());
        }
        app
    }

    /// Whether it is time for an automatic refresh at the time `now`, in
    /// milliseconds: the list is showing, no fetch is under way, and the
    /// refresh interval has passed since the last refresh.
    pub fn needs_refresh(&self, now: u64) -> (r: bool)
        ensures
            r == (self.mode == Mode::Normal && !self.loading && now - self.last_refresh
                >= REFRESH_INTERVAL_MS),
    {
        if self.mode != Mode::Normal {
            return false;
        }
        if self.loading {
            return false;
        }
        now >= self.last_refresh && now - self.last_refresh >= REFRESH_INTERVAL_MS
    }

    /// Notes `now` as the time of the last refresh.
    pub fn mark_refreshed(&mut self, now: u64)
        ensures
            final(self)@ == (AppView { last_refresh: now, ..old(self)@ }),
    {
        self.last_refresh = now;
    }

    /// The descriptor of the current resource.
    pub fn current_resource(&self) -> (r: Option<&ResourceDef>)
        ensures
            match r {
                Some(def) => self.registry.lookup(self.current_resource_key@) == Some(*def),
                None => self.registry.lookup(self.current_resource_key@).is_none(),
            },
    {
        get_resource(&self.registry, self.current_resource_key.as_str())
    }

    /// The number of visible records.
    pub fn current_list_len(&self) -> (n: usize)
        ensures
            n == self@.filtered_items.len(),
    {
        self.filtered_items.len()
    }

    /// The selected record, if the selection is within the visible records.
    pub fn selected_item(&self) -> (r: Option<&Json>)
        ensures
            match r {
                Some(item) => self@.selected < self@.filtered_items.len() && item@
                    == self@.filtered_items[self@.selected as int],
                None => self@.selected >= self@.filtered_items.len(),
            },
    {
        if self.selected < self.filtered_items.len() {
            Some(&self.filtered_items[self.selected])
        } else {
            None
        }
    }

    /// The selected record as indented JSON text.
    pub fn selected_item_json(&self) -> (r: Option<String>)
        ensures
            match r {
                Some(text) => self@.selected < self@.filtered_items.len() && text@
                    == crate::json::pretty_text(self@.filtered_items[self@.selected as int]),
                None => self@.selected >= self@.filtered_items.len(),
            },
    {
        match self.selected_item() {
            Some(item) => Some(write_pretty(item)),
            None => None,
        }
    }

    /// Moves the selection to the next entry of the list that the mode
    /// shows.
    pub fn next(&mut self)
        ensures
            final(self)@ == after_move_down(old(self)@, 1),
    {
        self.page_down(1);
    }

    /// Moves the selection to the previous entry of the list that the mode
    /// shows.
    pub fn previous(&mut self)
        ensures
            final(self)@ == after_move_up(old(self)@, 1),
    {
        self.page_up(1);
    }

    /// Moves the selection to the first entry of the list that the mode
    /// shows. In an empty list nothing happens.
    pub fn go_to_top(&mut self)
        ensures
            final(self)@ == after_jump_to_top(old(self)@),
    {
        match self.mode {
            Mode::Profiles => {
                if self.available_profiles.len() > 0 {
                    self.profiles_selected = 0;
                }
            },
            Mode::Regions => {
                if self.available_regions.len() > 0 {
                    self.regions_selected = 0;
                }
            },
            _ => {
                if self.filtered_items.len() > 0 {
                    self.selected = 0;
                }
            },
        }
    }

    /// Moves the selection to the last entry of the list that the mode
    /// shows. In an empty list nothing happens.
    pub fn go_to_bottom(&mut self)
        ensures
            final(self)@ == after_jump_to_bottom(old(self)@),
    {
        match self.mode {
            Mode::Profiles => {
                if self.available_profiles.len() > 0 {
                    self.profiles_selected = self.available_profiles.len() - 1;
                }
            },
            Mode::Regions => {
                if self.available_regions.len() > 0 {
                    self.regions_selected = self.available_regions.len() - 1;
                }
            },
            _ => {
                if self.filtered_items.len() > 0 {
                    self.selected = self.filtered_items.len() - 1;
                }
            },
        }
    }

    /// Moves the selection forward by `page_size` entries of the list that
    /// the mode shows.
    pub fn page_down(&mut self, page_size: usize)
        ensures
            final(self)@ == after_move_down(old(self)@, page_size as nat),
    {
        match self.mode {
            Mode::Profiles => {
                self.profiles_selected = step_down(
                    self.profiles_selected,
                    page_size,
                    self.available_profiles.len(),
                );
            },
            Mode::Regions => {
                self.regions_selected = step_down(
                    self.regions_selected,
                    page_size,
                    self.available_regions.len(),
                );
            },
            _ => {
                self.selected = step_down(self.selected, page_size, self.filtered_items.len());
            },
        }
    }

    /// Moves the selection back by `page_size` entries of the list that the
    /// mode shows.
    pub fn page_up(&mut self, page_size: usize)
        ensures
            final(self)@ == after_move_up(old(self)@, page_size as nat),
    {
        match self.mode {
            Mode::Profiles => {
                self.profiles_selected = step_up(
                    self.profiles_selected,
                    page_size,
                    self.available_profiles.len(),
                );
            },
            Mode::Regions => {
                self.regions_selected = step_up(
                    self.regions_selected,
                    page_size,
                    self.available_regions.len(),
                );
            },
            _ => {
                self.selected = step_up(self.selected, page_size, self.filtered_items.len());
            },
        }
    }

    /// Switches the filter input on or off.
    pub fn toggle_filter(&mut self)
        ensures
            final(self)@ == (AppView { filter_active: !old(self)@.filter_active, ..old(self)@ }),
    {
        self.filter_active = !self.filter_active;
    }

    /// Opens the help popup.
    pub fn enter_help_mode(&mut self)
        ensures
            final(self)@ == (AppView { mode: Mode::Help, ..old(self)@ }),
    {
        self.mode = Mode::Help;
    }

    /// Opens the details of the selected record. Nothing happens while no
    /// record is visible.
    pub fn enter_describe_mode(&mut self)
        ensures
            final(self)@ == if old(self)@.filtered_items.len() > 0 {
                AppView { mode: Mode::Describe, describe_scroll: 0, ..old(self)@ }
            } else {
                old(self)@
            },
    {
        if self.filtered_items.len() > 0 {
            self.mode = Mode::Describe;
            self.describe_scroll = 0;
        }
    }

    /// Opens the confirmation dialog for `action`.
    pub fn enter_confirm_mode(&mut self, action: ConfirmAction)
        ensures
            final(self)@ == (AppView {
                mode: Mode::Confirm,
                confirm_action: Some(action@),
                ..old(self)@
            }),
    {
        self.confirm_action = Some(action);
        self.mode = Mode::Confirm;
    }

    /// Opens the profile selection, on the current profile where it is
    /// among the available ones.
    pub fn enter_profiles_mode(&mut self)
        ensures
            final(self)@ == (AppView {
                mode: Mode::Profiles,
                profiles_selected: position_or_first(
                    old(self)@.available_profiles,
                    old(self)@.profile,
                ),
                ..old(self)@
            }),
    {
        self.profiles_selected = position_in(&self.available_profiles, self.profile.as_str());
        self.mode = Mode::Profiles;
    }

    /// Opens the region selection, on the current region where it is among
    /// the available ones.
    pub fn enter_regions_mode(&mut self)
        ensures
            final(self)@ == (AppView {
                mode: Mode::Regions,
                regions_selected: position_or_first(
                    old(self)@.available_regions,
                    old(self)@.region,
                ),
                ..old(self)@
            }),
    {
        self.regions_selected = position_in(&self.available_regions, self.region.as_str());
        self.mode = Mode::Regions;
    }

    fn passes(&self, def: Option<&ResourceDef>, needle: &str, item: &Json) -> (r: bool)
        ensures
            r == item_matches(
                match def {
                    Some(d) => Some(*d),
                    None => None,
                },
                needle@,
                item@,
            ),
    {
        match def {
            Some(d) => {
                let name = to_lower(extract_json_value(item, d.name_field.as_str()).as_str());
                if contains(name.as_str(), needle) {
                    return true;
                }
                let id = to_lower(extract_json_value(item, d.id_field.as_str()).as_str());
                contains(id.as_str(), needle)
            },
            None => {
                let text = to_lower(write_compact(item).as_str());
                contains(text.as_str(), needle)
            },
        }
    }

    /// Applies the filter text to the records.
    pub fn apply_filter(&mut self)
        ensures
            final(self)@ == after_filter(old(self)@),
    {
        let needle = to_lower(self.filter_text.as_str());
        if needle.as_str().is_empty() {
            self.filtered_items = clone_items(&self.items);
        } else {
            let mut shown: Vec<Json> = Vec::new();
            let def = get_resource(&self.registry, self.current_resource_key.as_str());
            let ghost pred = |item: JsonView|
                item_matches(
                    self.registry.lookup(self.current_resource_key@),
                    lowered(self.filter_text@),
                    item,
                );
            let ghost all = views(self.items@);
            let mut i: usize = 0;
            proof {
                assert(all.take(0) =~= Seq::<JsonView>::empty());
                assert(all.take(0).filter(pred) =~= Seq::<JsonView>::empty()) by {
                    reveal(Seq::filter);
                }
                assert(views(shown@) =~= Seq::<JsonView>::empty());
            }
            while i < self.items.len()
                invariant
                    i <= self.items.len(),
                    all == views(self.items@),
                    needle@ == lowered(self.filter_text@),
                    match def {
                        Some(d) => self.registry.lookup(self.current_resource_key@) == Some(*d),
                        None => self.registry.lookup(self.current_resource_key@).is_none(),
                    },
                    pred == |item: JsonView|
                        item_matches(
                            self.registry.lookup(self.current_resource_key@),
                            lowered(self.filter_text@),
                            item,
                        ),
                    views(shown@) == all.take(i as int).filter(pred),
                decreases self.items.len() - i,
            {
                let item = &self.items[i];
                let keep = self.passes(def, needle.as_str(), item);
                proof {
                    assert(all.take(i + 1) =~= all.take(i as int).push(all[i as int]));
                    all.take(i as int).lemma_filter_push(all[i as int], pred);
                    assert(all[i as int] == item@);
                    assert(keep == pred(item@));
                }
                if keep {
                    let ghost before = views(shown@);
                    shown.push(item.clone());
                    proof {
                        assert(views(shown@) =~= before.push(item@));
                    }
                }
                i += 1;
            }
            proof {
                assert(all.take(i as int) =~= all);
            }
            self.filtered_items = shown;
        }
        if self.selected >= self.filtered_items.len() && self.filtered_items.len() > 0 {
            self.selected = self.filtered_items.len() - 1;
        }
    }

    /// Empties the filter text, closes the filter input and shows all
    /// records again.
    pub fn clear_filter(&mut self)
        ensures
            final(self)@ == after_filter(
                AppView { filter_text: Seq::empty(), filter_active: false, ..old(self)@ },
            ),
    {
        self.filter_text = String::new();
        self.filter_active = false;
        self.apply_filter();
    }

    /// The filters that the navigation context gives for a fetch of the
    /// current resource.
    pub fn build_filters_from_context(&self) -> (r: Vec<ResourceFilter>)
        ensures
            filter_views(r@) == context_filters(self@),
    {
        let none: Vec<ResourceFilter> = Vec::new();
        proof {
            assert(filter_views(none@) =~= Seq::empty());
        }
        match &self.parent_context {
            None => none,
            Some(parent) => {
                if self.current_resource().is_none() {
                    return none;
                }
                match get_resource(&self.registry, parent.resource_key.as_str()) {
                    Some(def) => find_link_filter(
                        &def.sub_resources,
                        self.current_resource_key.as_str(),
                        &parent.item,
                    ),
                    None => none,
                }
            },
        }
    }

    /// Begins a refresh of the current resource.
    ///
    /// For a resource that the catalog has, the result is the fetch to
    /// perform: that of the current resource, with the filters of the
    /// navigation context merged into its parameters. Its outcome belongs
    /// to [`App::finish_refresh`]. For any other resource there is no
    /// fetch, and the error says so.
    pub fn refresh_current(&mut self) -> (r: Option<FetchRequest>)
        ensures
            final(self)@ == after_refresh_start(old(self)@),
            match r {
                Some(request) => {
                    &&& old(self).registry.lookup(old(self)@.current_resource_key) matches Some(def)
                    &&& request.is_for(
                        old(self)@.current_resource_key,
                        fetch_view(def),
                        context_filters(old(self)@),
                    )
                },
                None => old(self).registry.lookup(old(self)@.current_resource_key).is_none(),
            },
    {
        let filters = self.build_filters_from_context();
        match fetch_resources(&self.registry, self.current_resource_key.as_str(), &filters) {
            Ok(request) => {
                self.loading = true;
                self.error_message = None;
                Some(request)
            },
            Err(e) => {
                self.error_message = Some(e.message());
                None
            },
        }
    }

    /// Ends a refresh with what the remote operation answered to `request`,
    /// at the time `now`.
    pub fn finish_refresh(&mut self, request: &FetchRequest, response: Result<Json, String>, now: u64)
        ensures
            final(self)@ == after_refresh(
                old(self)@,
                request.resource_key@,
                crate::resource::fetcher::fetch_outcome(
                    request.response_path@,
                    crate::resource::fetcher::response_view(response),
                ),
                now,
            ),
    {
        if !same_text(request.resource_key.as_str(), self.current_resource_key.as_str()) {
            return ;
        }
        match finish_fetch(request, response) {
            Ok(items) => {
                self.items = items;
                self.apply_filter();
            },
            Err(e) => {
                self.error_message = Some(format_aws_error(e.message().as_str()));
                self.items = Vec::new();
                self.filtered_items = Vec::new();
                self.selected = 0;
                proof {
                    assert(views(self.items@) =~= Seq::empty());
                    assert(views(self.filtered_items@) =~= Seq::empty());
                }
            },
        }
        self.loading = false;
        self.last_refresh = now;
    }

    fn reset_view(&mut self)
        ensures
            final(self)@ == (AppView {
                selected: 0,
                filter_text: Seq::empty(),
                filter_active: false,
                ..old(self)@
            }),
    {
        self.selected = 0;
        self.filter_text = String::new();
        self.filter_active = false;
    }

    /// Navigates to the top level of the resource `resource_key`, and gives
    /// the fetch to perform for it. For a resource that the catalog does
    /// not have there is no fetch, and nothing but the error changes.
    pub fn navigate_to_resource(&mut self, resource_key: &str) -> (r: Option<FetchRequest>)
        ensures
            final(self)@ == after_navigate(old(self)@, resource_key@),
            match r {
                Some(request) => {
                    &&& old(self).registry.lookup(resource_key@) matches Some(def)
                    &&& request.is_for(resource_key@, fetch_view(def), Seq::empty())
                },
                None => old(self).registry.lookup(resource_key@).is_none(),
            },
    {
        if get_resource(&self.registry, resource_key).is_none() {
            self.error_message = Some(concat("Unknown resource: ", resource_key));
            return None;
        }
        self.parent_context = None;
        self.navigation_stack = Vec::new();
        proof {
            assert(parent_views(self.navigation_stack@) =~= Seq::empty());
        }
        self.current_resource_key = resource_key.to_owned();
        self.reset_view();
        self.mode = Mode::Normal;
        self.refresh_current()
    }

    /// Drills down from the selected record into its sub-resource
    /// `sub_resource_key`, and gives the fetch to perform for it.
    ///
    /// There is a fetch exactly where the drill-down takes place and the
    /// catalog has the sub-resource.
    pub fn navigate_to_sub_resource(&mut self, sub_resource_key: &str) -> (r: Option<FetchRequest>)
        ensures
            final(self)@ == after_drill_down(old(self)@, sub_resource_key@),
            match r {
                Some(request) => {
                    &&& final(self)@.current_resource_key == sub_resource_key@
                    &&& final(self)@.loading
                    &&& old(self).registry.lookup(sub_resource_key@) matches Some(def)
                    &&& request.is_for(
                        sub_resource_key@,
                        fetch_view(def),
                        context_filters(final(self)@),
                    )
                },
                None => true,
            },
            r.is_some() == {
                &&& old(self)@.selected < old(self)@.filtered_items.len()
                &&& old(self).registry.lookup(old(self)@.current_resource_key) matches Some(def)
                &&& def.link_to(sub_resource_key@).is_some()
                &&& old(self).registry.lookup(sub_resource_key@).is_some()
            },
    {
        if self.selected >= self.filtered_items.len() {
            return None;
        }
        let item = self.filtered_items[self.selected].clone();
        let display: String;
        match get_resource(&self.registry, self.current_resource_key.as_str()) {
            None => {
                return None;
            },
            Some(def) => {
                if def.find_sub_resource(sub_resource_key).is_none() {
                    let mut text = concat(sub_resource_key, " is not a sub-resource of ");
                    text.append(self.current_resource_key.as_str());
                    self.error_message = Some(text);
                    return None;
                }
                let name = extract_json_value(&item, def.name_field.as_str());
                display = if !same_text(name.as_str(), "-") {
                    name
                } else {
                    extract_json_value(&item, def.id_field.as_str())
                };
            },
        }
        let ghost stack = parent_views(self.navigation_stack@);
        match self.parent_context.take() {
            Some(parent) => {
                self.navigation_stack.push(parent);
                proof {
                    assert(parent_views(self.navigation_stack@) =~= stack.push(parent@));
                }
            },
            None => {},
        }
        self.parent_context = Some(
            ParentContext {
                resource_key: self.current_resource_key.clone(),
                item,
                display_name: display,
            },
        );
        self.current_resource_key = sub_resource_key.to_owned();
        self.reset_view();
        let r = self.refresh_current();
        proof {
            assert(context_filters(after_refresh_start(self@)) == context_filters(self@));
        }
        r
    }

    /// Navigates back to the parent, and gives the fetch to perform for
    /// it. At the top level nothing happens.
    pub fn navigate_back(&mut self) -> (r: Option<FetchRequest>)
        ensures
            final(self)@ == after_back(old(self)@),
            match r {
                Some(request) => {
                    &&& old(self)@.parent_context matches Some(parent)
                    &&& old(self).registry.lookup(parent.resource_key) matches Some(def)
                    &&& request.is_for(
                        parent.resource_key,
                        fetch_view(def),
                        context_filters(final(self)@),
                    )
                },
                None => old(self)@.parent_context matches Some(parent) ==> old(
                    self,
                ).registry.lookup(parent.resource_key).is_none(),
            },
    {
        match self.parent_context.take() {
            None => None,
            Some(parent) => {
                let ghost stack = parent_views(self.navigation_stack@);
                self.parent_context = self.navigation_stack.pop();
                proof {
                    if stack.len() > 0 {
                        assert(parent_views(self.navigation_stack@) =~= stack.drop_last());
                    } else {
                        assert(parent_views(self.navigation_stack@) =~= stack);
                    }
                }
                self.current_resource_key = parent.resource_key;
                self.reset_view();
                let ghost before = self@;
                let r = self.refresh_current();
                proof {
                    assert(context_filters(after_refresh_start(before)) == context_filters(before));
                }
                r
            },
        }
    }

    /// The breadcrumb of the navigation.
    pub fn get_breadcrumb(&self) -> (path: Vec<String>)
        ensures
            texts(path@) == breadcrumb(self@),
    {
        let mut path: Vec<String> = Vec::new();
        let ghost stack = parent_views(self.navigation_stack@);
        let ghost crumbs = stack.map_values(|p: ParentView| crumb(p));
        let mut i: usize = 0;
        proof {
            assert(texts(path@) =~= crumbs.take(0));
        }
        while i < self.navigation_stack.len()
            invariant
                i <= self.navigation_stack.len(),
                stack == parent_views(self.navigation_stack@),
                crumbs == stack.map_values(|p: ParentView| crumb(p)),
                texts(path@) == crumbs.take(i as int),
            decreases self.navigation_stack.len() - i,
        {
            let ghost before = texts(path@);
            let c = crumb_of(&self.navigation_stack[i]);
            path.push(c);
            proof {
                assert(texts(path@) =~= before.push(c@));
                assert(crumbs.take(i + 1) =~= crumbs.take(i as int).push(crumbs[i as int]));
            }
            i += 1;
        }
        proof {
            assert(crumbs.take(i as int) =~= crumbs);
        }
        match &self.parent_context {
            Some(p) => {
                let ghost before = texts(path@);
                let c = crumb_of(p);
                path.push(c);
                proof {
                    assert(texts(path@) =~= before + seq![c@]);
                }
            },
            None => {
                proof {
                    assert(texts(path@) =~= texts(path@) + Seq::<Seq<char>>::empty());
                }
            },
        }
        let ghost before = texts(path@);
        path.push(self.current_resource_key.clone());
        proof {
            assert(texts(path@) =~= before + seq![self.current_resource_key@]);
        }
        path
    }

    /// The commands that the palette offers.
    pub fn get_available_commands(&self) -> (r: Vec<String>)
        ensures
            texts(r@) == available_commands(self.registry),
    {
        let mut commands = get_all_resource_keys(&self.registry);
        insert_sorted(&mut commands, "profiles".to_owned());
        insert_sorted(&mut commands, "regions".to_owned());
        commands
    }

    /// Opens the command palette: nothing typed, all commands suggested,
    /// the first one highlighted, no preview.
    pub fn enter_command_mode(&mut self)
        ensures
            final(self)@ == (AppView {
                mode: Mode::Command,
                command_text: Seq::empty(),
                command_suggestions: available_commands(old(self).registry),
                command_suggestion_selected: 0,
                command_preview: None,
                ..old(self)@
            }),
    {
        self.mode = Mode::Command;
        self.command_text = String::new();
        self.command_suggestions = self.get_available_commands();
        self.command_suggestion_selected = 0;
        self.command_preview = None;
    }

    fn update_preview(&mut self)
        ensures
            final(self)@ == with_highlight(old(self)@, old(self)@.command_suggestion_selected),
    {
        if self.command_suggestion_selected < self.command_suggestions.len() {
            self.command_preview = Some(
                self.command_suggestions[self.command_suggestion_selected].clone(),
            );
        } else {
            self.command_preview = None;
        }
    }

    /// Recomputes the suggestions for the typed text.
    pub fn update_command_suggestions(&mut self)
        ensures
            final(self)@ == after_suggestions(old(self)@),
    {
        let input = to_lower(self.command_text.as_str());
        let all = self.get_available_commands();
        if input.as_str().is_empty() {
            self.command_suggestions = all;
        } else {
            self.command_suggestions = filter_commands(all, input.as_str());
        }
        if self.command_suggestion_selected >= self.command_suggestions.len() {
            self.command_suggestion_selected = 0;
        }
        self.update_preview();
    }

    /// Moves the highlight to the next suggestion, from the last one to the
    /// first. Nothing happens without suggestions.
    pub fn next_suggestion(&mut self)
        ensures
            final(self)@ == if old(self)@.command_suggestions.len() > 0 {
                with_highlight(
                    old(self)@,
                    (old(self)@.command_suggestion_selected + 1)
                        % old(self)@.command_suggestions.len(),
                )
            } else {
                old(self)@
            },
    {
        let len: usize = self.command_suggestions.len();
        if len > 0 {
            let at: usize = self.command_suggestion_selected % len;
            let ghost was: nat = self.command_suggestion_selected as nat;
            assert((was + 1) % (len as nat) == (at + 1) % (len as int)) by (nonlinear_arith)
                requires
                    len > 0,
                    at == was % (len as nat),
            ;
            self.command_suggestion_selected = (at + 1) % len;
            self.update_preview();
        }
    }

    /// Moves the highlight to the previous suggestion, from the first one
    /// to the last. Nothing happens without suggestions.
    pub fn prev_suggestion(&mut self)
        ensures
            final(self)@ == if old(self)@.command_suggestions.len() > 0 {
                with_highlight(
                    old(self)@,
                    if old(self)@.command_suggestion_selected == 0 {
                        (old(self)@.command_suggestions.len() - 1) as nat
                    } else {
                        (old(self)@.command_suggestion_selected - 1) as nat
                    },
                )
            } else {
                old(self)@
            },
    {
        if self.command_suggestions.len() > 0 {
            if self.command_suggestion_selected == 0 {
                self.command_suggestion_selected = self.command_suggestions.len() - 1;
            } else {
                self.command_suggestion_selected = self.command_suggestion_selected - 1;
            }
            self.update_preview();
        }
    }

    /// Takes the preview over as the typed text and recomputes the
    /// suggestions for it. Nothing happens without a preview.
    pub fn apply_suggestion(&mut self)
        ensures
            final(self)@ == match old(self)@.command_preview {
                Some(preview) => after_suggestions(
                    AppView { command_text: preview, ..old(self)@ },
                ),
                None => old(self)@,
            },
    {
        let taken = match &self.command_preview {
            Some(preview) => Some(preview.clone()),
            None => None,
        };
        match taken {
            Some(text) => {
                self.command_text = text;
                self.update_command_suggestions();
            },
            None => {},
        }
    }

    fn resolve_command(&self) -> (r: String)
        ensures
            r@ == resolved_command(self@),
    {
        if self.command_text.as_str().is_empty() {
            match &self.command_preview {
                Some(p) => p.clone(),
                None => String::new(),
            }
        } else {
            match &self.command_preview {
                Some(p) => if contains(p.as_str(), self.command_text.as_str()) {
                    p.clone()
                } else {
                    self.command_text.clone()
                },
                None => self.command_text.clone(),
            }
        }
    }

    fn wants_drill_down(&self, child: &str) -> (r: bool)
        ensures
            r == can_drill_down(self@, child@),
    {
        if self.selected >= self.filtered_items.len() {
            return false;
        }
        match self.current_resource() {
            Some(def) => def.find_sub_resource(child).is_some(),
            None => false,
        }
    }

    pub(crate) fn fetch_effect(&self, request: Option<FetchRequest>) -> (r: Effect)
        ensures
            match request {
                Some(q) => r == Effect::Fetch(q),
                None => r is Nothing,
            },
    {
        match request {
            Some(q) => Effect::Fetch(q),
            None => Effect::Nothing,
        }
    }

    /// Runs the command of the palette, and says what the caller has to do.
    pub fn execute_command(&mut self) -> (effect: Effect)
        ensures
            final(self)@ == after_command(old(self)@, parsed_command(old(self)@)),
            shows(effect, command_effect(old(self)@, parsed_command(old(self)@)), final(self)@),
    {
        let line = self.resolve_command();
        let parts = split_words(line.as_str());
        if parts.len() == 0 {
            return Effect::Nothing;
        }
        let verb = parts[0].as_str();
        proof {
            assert(texts(parts@)[0] == verb@);
        }
        if same_text(verb, "q") || same_text(verb, "quit") {
            return Effect::Quit;
        }
        if same_text(verb, "back") {
            let ghost before = self@;
            let request = self.navigate_back();
            proof {
                if before.parent_context.is_some() {
                    assert(self@ == after_refresh_start(
                        one_level_up(before, before.parent_context.unwrap()),
                    ));
                }
            }
            return self.fetch_effect(request);
        }
        if same_text(verb, "profiles") {
            self.enter_profiles_mode();
            return Effect::Nothing;
        }
        if same_text(verb, "regions") {
            self.enter_regions_mode();
            return Effect::Nothing;
        }
        if same_text(verb, "region") && parts.len() > 1 {
            proof {
                assert(texts(parts@)[1] == parts@[1]@);
            }
            return Effect::SwitchRegion(parts[1].clone());
        }
        if same_text(verb, "profile") && parts.len() > 1 {
            proof {
                assert(texts(parts@)[1] == parts@[1]@);
            }
            return Effect::SwitchProfile(parts[1].clone());
        }
        if get_resource(&self.registry, verb).is_none() {
            self.error_message = Some(concat("Unknown command: ", verb));
            return Effect::Nothing;
        }
        if self.wants_drill_down(verb) {
            let request = self.navigate_to_sub_resource(verb);
            self.fetch_effect(request)
        } else {
            let request = self.navigate_to_resource(verb);
            proof {
                assert(context_filters(self@) =~= Seq::empty());
            }
            self.fetch_effect(request)
        }
    }

    fn action_on_instance(&self, action: &str) -> (r: Option<ActionRequest>)
        ensures
            opt_request(r) == match selected_instance(self@) {
                Some(id) => Some(instance_action(action@, id)),
                None => None,
            },
    {
        if !same_text(self.current_resource_key.as_str(), "ec2-instances") {
            return None;
        }
        match self.selected_item() {
            None => None,
            Some(item) => {
                let id = extract_json_value(item, "InstanceId");
                if same_text(id.as_str(), "-") {
                    None
                } else {
                    Some(
                        ActionRequest {
                            service: "ec2".to_owned(),
                            action: action.to_owned(),
                            resource_id: id,
                        },
                    )
                }
            },
        }
    }

    /// The action that starts the selected instance, while the instances
    /// are the current resource and a record with an id is selected.
    pub fn start_selected_instance(&self) -> (r: Option<ActionRequest>)
        ensures
            opt_request(r) == match selected_instance(self@) {
                Some(id) => Some(instance_action("start_instance"@, id)),
                None => None,
            },
    {
        self.action_on_instance("start_instance")
    }

    /// The action that stops the selected instance, while the instances are
    /// the current resource and a record with an id is selected.
    pub fn stop_selected_instance(&self) -> (r: Option<ActionRequest>)
        ensures
            opt_request(r) == match selected_instance(self@) {
                Some(id) => Some(instance_action("stop_instance"@, id)),
                None => None,
            },
    {
        self.action_on_instance("stop_instance")
    }

    /// The action that terminates the selected instance, while the
    /// instances are the current resource and a record with an id is
    /// selected.
    pub fn terminate_selected_instance(&self) -> (r: Option<ActionRequest>)
        ensures
            opt_request(r) == match selected_instance(self@) {
                Some(id) => Some(instance_action("terminate_instance"@, id)),
                None => None,
            },
    {
        self.action_on_instance("terminate_instance")
    }

    fn resolve_action(&self, key: &str) -> (r: Option<(ActionRequest, bool)>)
        ensures
            match r {
                Some((request, confirm)) => declared_action(self@, key@) == Some(
                    (request@, confirm),
                ),
                None => declared_action(self@, key@).is_none(),
            },
    {
        match self.selected_item() {
            None => None,
            Some(item) => match self.current_resource() {
                None => None,
                Some(def) => match def.find_action(key) {
                    None => None,
                    Some(action) => {
                        let id = extract_json_value(item, def.id_field.as_str());
                        if same_text(id.as_str(), "-") {
                            None
                        } else {
                            Some(
                                (
                                    ActionRequest {
                                        service: def.service.clone(),
                                        action: action.sdk_method.clone(),
                                        resource_id: id,
                                    },
                                    action.requires_confirm(),
                                ),
                            )
                        }
                    },
                },
            },
        }
    }

    /// Asks for the declared action `key` on the selected record.
    ///
    /// An action without a confirmation policy is given back to be
    /// performed at once. One with a policy opens the confirmation dialog
    /// instead, and is given by [`App::take_confirmed_action`] once it has
    /// been confirmed. Nothing happens where the action does not apply.
    pub fn request_action(&mut self, key: &str) -> (r: Option<ActionRequest>)
        ensures
            final(self)@ == after_action_request(old(self)@, key@),
            opt_request(r) == match declared_action(old(self)@, key@) {
                Some((action, false)) => Some(action),
                _ => None,
            },
    {
        match self.resolve_action(key) {
            Some((request, confirm)) => {
                if confirm {
                    self.enter_confirm_mode(ConfirmAction::Custom(key.to_owned()));
                    None
                } else {
                    Some(request)
                }
            },
            None => None,
        }
    }

    /// The action that an affirmative confirmation runs.
    pub fn take_confirmed_action(&self) -> (r: Option<ActionRequest>)
        ensures
            opt_request(r) == confirmed_action(self@),
    {
        match &self.confirm_action {
            Some(ConfirmAction::Terminate) => self.terminate_selected_instance(),
            Some(ConfirmAction::Custom(key)) => match self.resolve_action(key.as_str()) {
                Some((request, _)) => Some(request),
                None => None,
            },
            None => None,
        }
    }

    /// Takes note of a switch to the region `region`: it is the current
    /// region and the remembered one.
    pub fn switch_region(&mut self, region: &str)
        ensures
            final(self)@ == (AppView {
                region: region@,
                config: ConfigView { region: Some(region@), ..old(self)@.config },
                ..old(self)@
            }),
    {
        self.region = region.to_owned();
        self.config.set_region(region);
    }

    /// Takes note of a switch to the profile `profile`, which has led to
    /// the region `region`: both are current and remembered.
    pub fn switch_profile(&mut self, profile: &str, region: &str)
        ensures
            final(self)@ == (AppView {
                profile: profile@,
                region: region@,
                config: ConfigView {
                    profile: Some(profile@),
                    region: Some(region@),
                    ..old(self)@.config
                },
                ..old(self)@
            }),
    {
        self.profile = profile.to_owned();
        self.region = region.to_owned();
        self.config.set_profile(profile);
        self.config.set_region(region);
    }

    /// Closes the profile selection and gives the highlighted profile, if
    /// the highlight is on one.
    pub fn select_profile(&mut self) -> (r: Option<String>)
        ensures
            final(self)@ == (AppView { mode: Mode::Normal, confirm_action: None, ..old(self)@ }),
            opt_text(r) == preview_of(old(self)@.available_profiles, old(self)@.profiles_selected),
    {
        let chosen = if self.profiles_selected < self.available_profiles.len() {
            Some(self.available_profiles[self.profiles_selected].clone())
        } else {
            None
        };
        self.exit_mode();
        chosen
    }

    /// Closes the region selection and gives the highlighted region, if the
    /// highlight is on one.
    pub fn select_region(&mut self) -> (r: Option<String>)
        ensures
            final(self)@ == (AppView { mode: Mode::Normal, confirm_action: None, ..old(self)@ }),
            opt_text(r) == preview_of(old(self)@.available_regions, old(self)@.regions_selected),
    {
        let chosen = if self.regions_selected < self.available_regions.len() {
            Some(self.available_regions[self.regions_selected].clone())
        } else {
            None
        };
        self.exit_mode();
        chosen
    }

    /// Goes back to the list and forgets the action that waited for
    /// confirmation.
    pub fn exit_mode(&mut self)
        ensures
            final(self)@ == (AppView { mode: Mode::Normal, confirm_action: None, ..old(self)@ }),
    {
        self.mode = Mode::Normal;
        self.confirm_action = None;
    }
}

} // verus!
