//! Laws of the navigation controller.
//!
//! Each law is stated over the transition functions of [`crate::app`], which
//! are what the controller's operations are proved to compute.

use crate::app::{
    after_back, after_drill_down, after_filter, after_navigate, after_refresh,
    after_refresh_start, at_bottom, at_top, available_commands, breadcrumb, can_drill_down, context_filters, item_matches,
    link_filter, moved_down, moved_up, one_level_down, suggestions_for, visible, AppView,
};
use crate::json::JsonView;
use crate::resource::registry::{ResourceConfig, SubResourceDef};
use crate::text::{
    ascii_lower, ascii_upper, inserted, is_ascii, lemma_ascii_case, is_substring, lemma_inserted_is_sorted, lemma_sort_texts, lowered, sort_texts, sorted,
};
use vstd::prelude::*;

verus! {

/// The ancestry of a state is consistent: there are no further ancestors
/// without a parent.
pub open spec fn consistent(v: AppView) -> bool {
    v.parent_context.is_none() ==> v.navigation_stack.len() == 0
}

/// Applying the filter, beginning and ending a refresh, and navigating
/// keep the ancestry consistent.
pub proof fn lemma_consistency_is_kept(
    v: AppView,
    key: Seq<char>,
    outcome: Result<Seq<JsonView>, Seq<char>>,
    now: u64,
)
    requires
        consistent(v),
    ensures
        consistent(after_filter(v)),
        consistent(after_refresh_start(v)),
        consistent(after_refresh(v, key, outcome, now)),
        consistent(after_navigate(v, key)),
        consistent(after_drill_down(v, key)),
        consistent(after_back(v)),
{
}

/// With an empty filter text, all records are visible.
pub proof fn lemma_empty_filter_shows_all(v: AppView)
    requires
        v.filter_text.len() == 0,
    ensures
        after_filter(v).filtered_items == v.items,
{
}

/// Applying the filter a second time changes nothing.
pub proof fn lemma_filter_is_idempotent(v: AppView)
    ensures
        after_filter(after_filter(v)) == after_filter(v),
{
}

/// The filter does not tell apart two filter texts with the same lowercase
/// form: they show the same records and lead to the same selection.
pub proof fn lemma_filter_ignores_case(v: AppView, a: Seq<char>, b: Seq<char>)
    requires
        lowered(a) == lowered(b),
    ensures
        after_filter(AppView { filter_text: a, ..v }).filtered_items == after_filter(
            AppView { filter_text: b, ..v },
        ).filtered_items,
        after_filter(AppView { filter_text: a, ..v }).selected == after_filter(
            AppView { filter_text: b, ..v },
        ).selected,
{
    let with_a = |item: JsonView|
        item_matches(v.registry.lookup(v.current_resource_key), lowered(a), item);
    let with_b = |item: JsonView|
        item_matches(v.registry.lookup(v.current_resource_key), lowered(b), item);
    assert(with_a =~= with_b);
}

/// The filter ignores the case of ASCII letters: a filter text of ASCII
/// characters, its lowercase form and its uppercase form show the same
/// records and lead to the same selection.
pub proof fn lemma_filter_ignores_ascii_case(v: AppView, s: Seq<char>)
    requires
        is_ascii(s),
    ensures
        after_filter(AppView { filter_text: ascii_lower(s), ..v }).filtered_items == after_filter(
            AppView { filter_text: s, ..v },
        ).filtered_items,
        after_filter(AppView { filter_text: ascii_upper(s), ..v }).filtered_items == after_filter(
            AppView { filter_text: s, ..v },
        ).filtered_items,
        after_filter(AppView { filter_text: ascii_lower(s), ..v }).selected == after_filter(
            AppView { filter_text: s, ..v },
        ).selected,
        after_filter(AppView { filter_text: ascii_upper(s), ..v }).selected == after_filter(
            AppView { filter_text: s, ..v },
        ).selected,
{
    lemma_ascii_case(s);
    lemma_filter_ignores_case(v, ascii_lower(s), s);
    lemma_filter_ignores_case(v, ascii_upper(s), s);
}

/// The suggestions ignore the case of ASCII letters in the typed text.
pub proof fn lemma_suggestions_ignore_ascii_case(registry: ResourceConfig, typed: Seq<char>)
    requires
        is_ascii(typed),
    ensures
        suggestions_for(registry, ascii_lower(typed)) == suggestions_for(registry, typed),
        suggestions_for(registry, ascii_upper(typed)) == suggestions_for(registry, typed),
{
    lemma_ascii_case(typed);
}

/// A drill-down from a selected record into a sub-resource that the
/// current descriptor does not declare sets the error and nothing else:
/// the current resource and the records stay as they are.
pub proof fn lemma_undeclared_child_only_sets_error(v: AppView, child: Seq<char>)
    requires
        v.selected < v.filtered_items.len(),
        v.registry.lookup(v.current_resource_key) matches Some(def) && def.link_to(child).is_none(),
    ensures
        after_drill_down(v, child).error_message.is_some(),
        after_drill_down(v, child).current_resource_key == v.current_resource_key,
        after_drill_down(v, child).items == v.items,
        after_drill_down(v, child) == (AppView {
            error_message: after_drill_down(v, child).error_message,
            ..v
        }),
{
}

/// Going back undoes a drill-down. Whatever has happened to the records
/// one level down, the navigation back restores the resource, the parent
/// and the ancestors that the drill-down started from; so every level of a
/// chain of drill-downs is restored in turn.
pub proof fn lemma_back_undoes_drill_down(v: AppView, child: Seq<char>, below: AppView)
    requires
        consistent(v),
        can_drill_down(v, child),
        below.parent_context == after_drill_down(v, child).parent_context,
        below.navigation_stack == after_drill_down(v, child).navigation_stack,
    ensures
        after_back(below).current_resource_key == v.current_resource_key,
        after_back(below).parent_context == v.parent_context,
        after_back(below).navigation_stack == v.navigation_stack,
{
    let def = v.registry.lookup(v.current_resource_key).unwrap();
    let down = one_level_down(v, def, v.filtered_items[v.selected as int], child);
    assert(after_drill_down(v, child).parent_context == down.parent_context);
    assert(after_drill_down(v, child).navigation_stack == down.navigation_stack);
    match v.parent_context {
        Some(p) => {
            assert(v.navigation_stack.push(p).drop_last() =~= v.navigation_stack);
        },
        None => {},
    }
}

/// A failed refresh of the current resource leaves no records, the
/// selection at the start and an error, whatever the state was before.
pub proof fn lemma_failed_refresh_clears(v: AppView, text: Seq<char>, now: u64)
    ensures
        after_refresh(v, v.current_resource_key, Err(text), now).items.len() == 0,
        after_refresh(v, v.current_resource_key, Err(text), now).filtered_items.len() == 0,
        after_refresh(v, v.current_resource_key, Err(text), now).selected == 0,
        after_refresh(v, v.current_resource_key, Err(text), now).error_message.is_some(),
        !after_refresh(v, v.current_resource_key, Err(text), now).loading,
{
}

/// A successful refresh keeps the selection where it still falls within
/// the visible records.
pub proof fn lemma_refresh_keeps_selection(v: AppView, items: Seq<JsonView>, now: u64)
    requires
        v.selected < visible(v.registry, v.current_resource_key, v.filter_text, items).len(),
    ensures
        after_refresh(v, v.current_resource_key, Ok(items), now).selected == v.selected,
        after_refresh(v, v.current_resource_key, Ok(items), now).items == items,
{
}

/// The outcome of a fetch for another resource than the current one is
/// dropped.
pub proof fn lemma_stale_outcome_is_dropped(
    v: AppView,
    key: Seq<char>,
    outcome: Result<Seq<JsonView>, Seq<char>>,
    now: u64,
)
    requires
        key != v.current_resource_key,
    ensures
        after_refresh(v, key, outcome, now) == v,
{
}

/// At the top level a fetch has no filters.
pub proof fn lemma_top_level_has_no_filters(v: AppView)
    requires
        v.parent_context.is_none(),
    ensures
        context_filters(v).len() == 0,
{
}


/// Moves of the selection saturate: a move forward in a list with entries
/// ends within the list, a move back never passes the start, and a move in
/// an empty list changes nothing.
pub proof fn lemma_moves_saturate(selected: nat, step: nat, len: nat)
    ensures
        len > 0 ==> moved_down(selected, step, len) < len,
        len > 0 ==> at_bottom(selected, len) == len - 1,
        len == 0 ==> moved_down(selected, step, len) == selected,
        len == 0 ==> at_bottom(selected, len) == selected,
        selected < len ==> moved_down(selected, step, len) >= selected,
        moved_up(selected, step, len) <= selected,
        len == 0 ==> moved_up(selected, step, len) == selected,
        len == 0 ==> at_top(selected, len) == selected,
        len > 0 ==> at_top(selected, len) == 0,
{
}

/// Every visible record is one of the records, and passes the filter where
/// the filter text has a lowercase form that is not empty.
pub proof fn lemma_visible_records_pass(v: AppView, i: int)
    requires
        0 <= i < after_filter(v).filtered_items.len(),
    ensures
        v.items.contains(after_filter(v).filtered_items[i]),
        lowered(v.filter_text).len() > 0 ==> item_matches(
            v.registry.lookup(v.current_resource_key),
            lowered(v.filter_text),
            after_filter(v).filtered_items[i],
        ),
{
    if lowered(v.filter_text).len() > 0 {
        let pred = |item: JsonView|
            item_matches(v.registry.lookup(v.current_resource_key), lowered(v.filter_text), item);
        v.items.lemma_filter_pred(pred, i);
        assert(v.items.filter(pred).contains(v.items.filter(pred)[i]));
        v.items.lemma_filter_contains_rev(pred, v.items.filter(pred)[i]);
    } else {
        assert(v.items[i] == after_filter(v).filtered_items[i]);
    }
}

/// The commands that the palette offers are in dictionary order, and they
/// are the resource keys of the catalog and the two commands `profiles`
/// and `regions`, each as often as it occurs there.
pub proof fn lemma_commands_are_sorted_keys(registry: ResourceConfig)
    ensures
        sorted(available_commands(registry)),
        available_commands(registry).to_multiset() == registry.keys().to_multiset().insert(
            "profiles"@,
        ).insert("regions"@),
        available_commands(registry).len() == registry.keys().len() + 2,
{
    lemma_sort_texts(registry.keys());
    lemma_inserted_is_sorted(sort_texts(registry.keys()), "profiles"@);
    lemma_inserted_is_sorted(inserted(sort_texts(registry.keys()), "profiles"@), "regions"@);
}

/// A text is among the commands that the palette offers exactly where it
/// is a resource key of the catalog or one of the two commands `profiles`
/// and `regions`.
pub proof fn lemma_commands_are_the_keys(registry: ResourceConfig, command: Seq<char>)
    ensures
        available_commands(registry).contains(command) <==> (registry.keys().contains(command)
            || command == "profiles"@ || command == "regions"@),
{
    lemma_commands_are_sorted_keys(registry);
    vstd::seq_lib::to_multiset_contains(available_commands(registry), command);
    vstd::seq_lib::to_multiset_contains(registry.keys(), command);
}

/// The suggestions are complete: every command that holds the lowercase
/// form of the typed text is suggested.
pub proof fn lemma_holding_commands_are_suggested(
    registry: ResourceConfig,
    typed: Seq<char>,
    command: Seq<char>,
)
    requires
        available_commands(registry).contains(command),
        is_substring(lowered(typed), command),
    ensures
        suggestions_for(registry, typed).contains(command),
{
    let pred = |c: Seq<char>| is_substring(lowered(typed), c);
    let all = available_commands(registry);
    let i = choose|i: int| 0 <= i < all.len() && all[i] == command;
    all.lemma_filter_contains(pred, i);
}

/// Every suggestion for a typed text holds the lowercase form of the text
/// somewhere, not only at its start.
pub proof fn lemma_suggestions_hold_the_text(registry: ResourceConfig, typed: Seq<char>, i: int)
    requires
        0 <= i < suggestions_for(registry, typed).len(),
    ensures
        is_substring(lowered(typed), suggestions_for(registry, typed)[i]),
{
    if lowered(typed).len() > 0 {
        let pred = |c: Seq<char>| is_substring(lowered(typed), c);
        available_commands(registry).lemma_filter_pred(pred, i);
    } else {
        let command = suggestions_for(registry, typed)[i];
        assert(command.subrange(0, 0) =~= lowered(typed));
        assert(crate::text::occurs_at(lowered(typed), command, 0));
    }
}

proof fn lemma_one_link_filter(links: Seq<SubResourceDef>, child: Seq<char>, parent: JsonView)
    ensures
        link_filter(links, child, parent).len() <= 1,
    decreases links.len(),
{
    if links.len() > 0 {
        lemma_one_link_filter(links.drop_first(), child, parent);
    }
}

/// The navigation context gives at most one filter.
pub proof fn lemma_at_most_one_filter(v: AppView)
    ensures
        context_filters(v).len() <= 1,
{
    match v.parent_context {
        Some(parent) => match v.registry.lookup(parent.resource_key) {
            Some(def) => {
                lemma_one_link_filter(def.sub_resources@, v.current_resource_key, parent.item);
            },
            None => {},
        },
        None => {},
    }
}

/// The breadcrumb has one entry for every ancestor and ends with the
/// current resource key.
pub proof fn lemma_breadcrumb_shape(v: AppView)
    ensures
        breadcrumb(v).len() == v.navigation_stack.len() + (if v.parent_context.is_some() {
            1nat
        } else {
            0nat
        }) + 1,
        breadcrumb(v).last() == v.current_resource_key,
{
}

} // verus!
