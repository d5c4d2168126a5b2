//! Key handling.
//!
//! A key press is decided here: it changes the state of the controller and
//! gives the effect that the caller has to perform. Reading the keys from
//! the terminal is left to the caller.

use crate::app::{
    after_back, after_command, after_drill_down, after_filter, after_move_down, after_move_up,
    after_jump_to_bottom, after_jump_to_top, after_suggestions, at_bottom, at_top,
    available_commands, begins_fetch, command_effect,
    confirmed_action, instance_action, parsed_command, preview_of, selected_instance, shows,
    with_highlight, App, AppView, Command, ConfirmAction, ConfirmActionView, Effect, EffectView,
    Mode,
};
use crate::resource::registry::{ResourceDef, SubResourceDef};
use crate::text::{chars_of, same_text};
use vstd::prelude::*;

verus! {

/// A key of the keyboard, as far as the dashboard tells keys apart.
#[derive(Debug, Clone, Copy, PartialEq, Eq, Structural)]
pub enum KeyCode {
    Char(char),
    Backspace,
    Enter,
    Right,
    Up,
    Down,
    Home,
    End,
    Tab,
    Esc,
    /// Any other key.
    Other,
}

/// A key press: the key, and whether the control key was held.
#[derive(Debug, Clone, Copy, PartialEq, Eq, Structural)]
pub struct KeyEvent {
    pub code: KeyCode,
    pub ctrl: bool,
}

/// The number of entries that a page key moves by.
pub const PAGE_SIZE: usize = 10;

/// The time within which a second `g` completes the sequence `gg`, in
/// milliseconds.
pub const DOUBLE_PRESS_MS: u64 = 250;

/// The scroll position that stands for the end of the details.
pub const SCROLL_END: usize = usize::MAX / 2;

/// The regions that the digit keys `0` to `5` switch to.
pub open spec fn region_shortcuts() -> Seq<Seq<char>> {
    seq![
        "us-east-1"@,
        "us-west-2"@,
        "eu-west-1"@,
        "eu-central-1"@,
        "ap-northeast-1"@,
        "ap-southeast-1"@,
    ]
}

/// The position of a digit key among the region shortcuts.
pub open spec fn shortcut_digit(c: char) -> Option<int> {
    if c == '0' {
        Some(0)
    } else if c == '1' {
        Some(1)
    } else if c == '2' {
        Some(2)
    } else if c == '3' {
        Some(3)
    } else if c == '4' {
        Some(4)
    } else if c == '5' {
        Some(5)
    } else {
        None
    }
}

/// A state and the effect that goes with it.
pub struct Outcome {
    pub state: AppView,
    pub effect: EffectView,
}

/// The outcome that leaves `state` to the caller without any work.
pub open spec fn quiet(state: AppView) -> Outcome {
    Outcome { state, effect: EffectView::Nothing }
}

/// The state back in normal mode, with no action waiting for confirmation.
pub open spec fn in_normal_mode(v: AppView) -> AppView {
    AppView { mode: Mode::Normal, confirm_action: None, ..v }
}

/// The sub-resource that the shortcut `c` leads to: that of the first link
/// of the current descriptor with this shortcut, while a record is
/// selected.
pub open spec fn shortcut_target(v: AppView, c: char) -> Option<Seq<char>> {
    if v.selected >= v.filtered_items.len() {
        None
    } else {
        match v.registry.lookup(v.current_resource_key) {
            Some(def) => first_with_shortcut(def.sub_resources@, c),
            None => None,
        }
    }
}

/// The child of the first of `links` whose shortcut is the one character
/// `c`.
pub open spec fn first_with_shortcut(links: Seq<SubResourceDef>, c: char) -> Option<Seq<char>>
    decreases links.len(),
{
    if links.len() == 0 {
        None
    } else if links[0].shortcut@ == seq![c] {
        Some(links[0].resource_key@)
    } else {
        first_with_shortcut(links.drop_first(), c)
    }
}

/// Whether the key `g` at the time `now` completes the sequence `gg`: the
/// key before it was a `g`, less than the double-press time ago.
pub open spec fn completes_sequence(v: AppView, now: u64) -> bool {
    v.last_key_press matches Some((key, at)) && key == KeyCode::Char('g') && (now < at || now - at
        < DOUBLE_PRESS_MS)
}

/// The outcome of a character key in normal mode that has no fixed
/// meaning.
///
/// A shortcut of a sub-resource drills down into it. Else `s` and `S` start
/// and stop the selected instance. A `g` that completes the sequence `gg`
/// moves the selection to the top; a `g` that neither does that nor is a
/// shortcut begins the sequence; any other character ends it.
pub open spec fn after_other_char(v: AppView, c: char, now: u64) -> Outcome {
    let target = shortcut_target(v, c);
    let moved = match target {
        Some(child) => after_drill_down(v, child),
        None => v,
    };
    let effect = match target {
        Some(child) => if begins_fetch(v, Command::DrillDown(child)) {
            EffectView::Fetch
        } else {
            EffectView::Nothing
        },
        None => match selected_instance(v) {
            Some(id) => if c == 's' {
                EffectView::RunAction(instance_action("start_instance"@, id))
            } else if c == 'S' {
                EffectView::RunAction(instance_action("stop_instance"@, id))
            } else {
                EffectView::Nothing
            },
            None => EffectView::Nothing,
        },
    };
    let jumps = c == 'g' && completes_sequence(v, now);
    let handled = target.is_some() || jumps;
    Outcome {
        state: AppView {
            selected: if jumps {
                at_top(moved.selected, moved.filtered_items.len())
            } else {
                moved.selected
            },
            last_key_press: if !handled && c == 'g' {
                Some((KeyCode::Char('g'), now))
            } else {
                None
            },
            ..moved
        },
        effect,
    }
}

/// The outcome of navigating back, where there is a parent to go back to.
pub open spec fn back_if_below(v: AppView) -> Outcome {
    if v.parent_context.is_some() {
        Outcome { state: after_back(v), effect: command_effect(v, Command::Back) }
    } else {
        quiet(v)
    }
}

/// The outcome of a key in normal mode, while the filter input is closed.
pub open spec fn after_normal_key(v: AppView, key: KeyEvent, now: u64) -> Outcome {
    match key.code {
        KeyCode::Char(c) => {
            if c == 'c' && key.ctrl {
                Outcome { state: v, effect: EffectView::Quit }
            } else if shortcut_digit(c).is_some() {
                Outcome {
                    state: v,
                    effect: EffectView::SwitchRegion(region_shortcuts()[shortcut_digit(c).unwrap()]),
                }
            } else if c == 'j' {
                quiet(after_move_down(v, 1))
            } else if c == 'k' {
                quiet(after_move_up(v, 1))
            } else if c == 'G' {
                quiet(AppView { selected: at_bottom(v.selected, v.filtered_items.len()), ..v })
            } else if c == 'd' && key.ctrl {
                if v.current_resource_key == "ec2-instances"@ {
                    quiet(
                        AppView {
                            mode: Mode::Confirm,
                            confirm_action: Some(ConfirmActionView::Terminate),
                            ..v
                        },
                    )
                } else {
                    quiet(after_move_down(v, PAGE_SIZE as nat))
                }
            } else if (c == 'u' || c == 'b') && key.ctrl {
                quiet(after_move_up(v, PAGE_SIZE as nat))
            } else if c == 'f' && key.ctrl {
                quiet(after_move_down(v, PAGE_SIZE as nat))
            } else if c == 'd' {
                quiet(described(v))
            } else if c == '/' {
                quiet(AppView { filter_active: !v.filter_active, ..v })
            } else if c == ':' {
                quiet(
                    AppView {
                        mode: Mode::Command,
                        command_text: Seq::empty(),
                        command_suggestions: available_commands(v.registry),
                        command_suggestion_selected: 0,
                        command_preview: None,
                        ..v
                    },
                )
            } else if c == '?' {
                quiet(AppView { mode: Mode::Help, ..v })
            } else {
                after_other_char(v, c, now)
            }
        },
        KeyCode::Down => quiet(after_move_down(v, 1)),
        KeyCode::Up => quiet(after_move_up(v, 1)),
        KeyCode::Home => quiet(AppView { selected: at_top(v.selected, v.filtered_items.len()), ..v }),
        KeyCode::End => quiet(
            AppView { selected: at_bottom(v.selected, v.filtered_items.len()), ..v },
        ),
        KeyCode::Enter => quiet(described(v)),
        KeyCode::Backspace => back_if_below(v),
        KeyCode::Esc => if v.filter_text.len() > 0 {
            quiet(after_filter(AppView { filter_text: Seq::empty(), filter_active: false, ..v }))
        } else {
            back_if_below(v)
        },
        _ => quiet(v),
    }
}

/// The state with the details of the selected record open, where a record
/// is visible.
pub open spec fn described(v: AppView) -> AppView {
    if v.filtered_items.len() > 0 {
        AppView { mode: Mode::Describe, describe_scroll: 0, ..v }
    } else {
        v
    }
}

/// The state after a key in the filter input: escape clears the filter,
/// enter closes the input, backspace takes the last character off the
/// filter text, and a character is added to it; the filter is applied at
/// once.
pub open spec fn after_filter_key(v: AppView, key: KeyEvent) -> AppView {
    match key.code {
        KeyCode::Esc => after_filter(
            AppView { filter_text: Seq::empty(), filter_active: false, ..v },
        ),
        KeyCode::Enter => AppView { filter_active: false, ..v },
        KeyCode::Backspace => after_filter(
            AppView {
                filter_text: if v.filter_text.len() > 0 {
                    v.filter_text.drop_last()
                } else {
                    v.filter_text
                },
                ..v
            },
        ),
        KeyCode::Char(c) => after_filter(AppView { filter_text: v.filter_text.push(c), ..v }),
        _ => v,
    }
}

/// The outcome of a key in the command palette.
pub open spec fn after_command_key(v: AppView, key: KeyEvent) -> Outcome {
    match key.code {
        KeyCode::Esc => quiet(in_normal_mode(AppView { command_text: Seq::empty(), ..v })),
        KeyCode::Enter => {
            let command = parsed_command(v);
            let ran = after_command(v, command);
            Outcome {
                state: if command !is Quit && ran.mode == Mode::Command {
                    in_normal_mode(ran)
                } else {
                    ran
                },
                effect: command_effect(v, command),
            }
        },
        KeyCode::Tab | KeyCode::Right => quiet(
            match v.command_preview {
                Some(preview) => after_suggestions(AppView { command_text: preview, ..v }),
                None => v,
            },
        ),
        KeyCode::Down => quiet(
            if v.command_suggestions.len() > 0 {
                with_highlight(
                    v,
                    (v.command_suggestion_selected + 1) % v.command_suggestions.len(),
                )
            } else {
                v
            },
        ),
        KeyCode::Up => quiet(
            if v.command_suggestions.len() > 0 {
                with_highlight(
                    v,
                    if v.command_suggestion_selected == 0 {
                        (v.command_suggestions.len() - 1) as nat
                    } else {
                        (v.command_suggestion_selected - 1) as nat
                    },
                )
            } else {
                v
            },
        ),
        KeyCode::Backspace => quiet(
            after_suggestions(
                AppView {
                    command_text: if v.command_text.len() > 0 {
                        v.command_text.drop_last()
                    } else {
                        v.command_text
                    },
                    ..v
                },
            ),
        ),
        KeyCode::Char(c) => quiet(
            after_suggestions(AppView { command_text: v.command_text.push(c), ..v }),
        ),
        _ => quiet(v),
    }
}

/// The scroll position after a move forward by `step`, which stops at the
/// largest position there is.
pub open spec fn scrolled_down(scroll: nat, step: nat) -> nat {
    if scroll + step > usize::MAX {
        usize::MAX as nat
    } else {
        scroll + step
    }
}

/// The scroll position after a move back by `step`, which stops at the
/// start.
pub open spec fn scrolled_up(scroll: nat, step: nat) -> nat {
    if scroll >= step {
        (scroll - step) as nat
    } else {
        0
    }
}

/// The state after a key in the details of a record.
pub open spec fn after_describe_key(v: AppView, key: KeyEvent) -> AppView {
    match key.code {
        KeyCode::Esc => in_normal_mode(v),
        KeyCode::Char(c) => if c == 'q' {
            in_normal_mode(v)
        } else if c == 'd' && key.ctrl {
            AppView { describe_scroll: scrolled_down(v.describe_scroll, PAGE_SIZE as nat), ..v }
        } else if c == 'd' {
            in_normal_mode(v)
        } else if c == 'u' && key.ctrl {
            AppView { describe_scroll: scrolled_up(v.describe_scroll, PAGE_SIZE as nat), ..v }
        } else if c == 'j' {
            AppView { describe_scroll: scrolled_down(v.describe_scroll, 1), ..v }
        } else if c == 'k' {
            AppView { describe_scroll: scrolled_up(v.describe_scroll, 1), ..v }
        } else if c == 'g' {
            AppView { describe_scroll: 0, ..v }
        } else if c == 'G' {
            AppView { describe_scroll: SCROLL_END as nat, ..v }
        } else {
            v
        },
        KeyCode::Down => AppView { describe_scroll: scrolled_down(v.describe_scroll, 1), ..v },
        KeyCode::Up => AppView { describe_scroll: scrolled_up(v.describe_scroll, 1), ..v },
        KeyCode::Home => AppView { describe_scroll: 0, ..v },
        KeyCode::End => AppView { describe_scroll: SCROLL_END as nat, ..v },
        _ => v,
    }
}

/// The outcome of a key in the confirmation dialog: `y` runs the action
/// that waits for confirmation and closes the dialog; `n` and escape only
/// close it.
pub open spec fn after_confirm_key(v: AppView, key: KeyEvent) -> Outcome {
    match key.code {
        KeyCode::Char(c) => if c == 'y' || c == 'Y' {
            Outcome {
                state: in_normal_mode(v),
                effect: match confirmed_action(v) {
                    Some(action) => EffectView::RunAction(action),
                    None => EffectView::Nothing,
                },
            }
        } else if c == 'n' || c == 'N' {
            quiet(in_normal_mode(v))
        } else {
            quiet(v)
        },
        KeyCode::Esc => quiet(in_normal_mode(v)),
        _ => quiet(v),
    }
}

/// The state after a key that moves the selection in one of the two
/// selection lists, or the state itself for any other key.
pub open spec fn after_list_key(v: AppView, key: KeyEvent) -> AppView {
    match key.code {
        KeyCode::Esc => in_normal_mode(v),
        KeyCode::Char(c) => if c == 'q' {
            in_normal_mode(v)
        } else if c == 'j' {
            after_move_down(v, 1)
        } else if c == 'k' {
            after_move_up(v, 1)
        } else if c == 'g' {
            after_jump_to_top(v)
        } else if c == 'G' {
            after_jump_to_bottom(v)
        } else {
            v
        },
        KeyCode::Down => after_move_down(v, 1),
        KeyCode::Up => after_move_up(v, 1),
        KeyCode::Home => after_jump_to_top(v),
        KeyCode::End => after_jump_to_bottom(v),
        _ => v,
    }
}

/// The outcome of a key in the profile or the region selection: enter
/// closes the selection and switches to the highlighted entry, if the
/// highlight is on one.
pub open spec fn after_selection_key(v: AppView, key: KeyEvent) -> Outcome {
    if key.code == KeyCode::Enter {
        Outcome {
            state: in_normal_mode(v),
            effect: if v.mode == Mode::Profiles {
                match preview_of(v.available_profiles, v.profiles_selected) {
                    Some(name) => EffectView::SwitchProfile(name),
                    None => EffectView::Nothing,
                }
            } else {
                match preview_of(v.available_regions, v.regions_selected) {
                    Some(name) => EffectView::SwitchRegion(name),
                    None => EffectView::Nothing,
                }
            },
        }
    } else {
        quiet(after_list_key(v, key))
    }
}

/// The outcome of a key press at the time `now`, by the mode that the
/// dashboard is in.
pub open spec fn after_key(v: AppView, key: KeyEvent, now: u64) -> Outcome {
    match v.mode {
        Mode::Normal => if v.filter_active {
            quiet(after_filter_key(v, key))
        } else {
            after_normal_key(v, key, now)
        },
        Mode::Command => after_command_key(v, key),
        Mode::Help => quiet(
            if key.code == KeyCode::Esc || key.code == KeyCode::Char('q') || key.code
                == KeyCode::Char('?') {
                in_normal_mode(v)
            } else {
                v
            },
        ),
        Mode::Describe => quiet(after_describe_key(v, key)),
        Mode::Confirm => after_confirm_key(v, key),
        Mode::Profiles => after_selection_key(v, key),
        Mode::Regions => after_selection_key(v, key),
    }
}

fn region_shortcut(c: char) -> (r: Option<String>)
    ensures
        match r {
            Some(region) => shortcut_digit(c) matches Some(i) && region@ == region_shortcuts()[i],
            None => shortcut_digit(c).is_none(),
        },
{
    if c == '0' {
        Some("us-east-1".to_owned())
    } else if c == '1' {
        Some("us-west-2".to_owned())
    } else if c == '2' {
        Some("eu-west-1".to_owned())
    } else if c == '3' {
        Some("eu-central-1".to_owned())
    } else if c == '4' {
        Some("ap-northeast-1".to_owned())
    } else if c == '5' {
        Some("ap-southeast-1".to_owned())
    } else {
        None
    }
}

fn is_shortcut(text: &str, c: char) -> (r: bool)
    ensures
        r == (text@ == seq![c]),
{
    let chars = chars_of(text);
    if chars.len() == 1 && chars[0] == c {
        assert(chars@ =~= seq![c]);
        true
    } else {
        false
    }
}

fn find_shortcut(def: &ResourceDef, c: char) -> (r: Option<String>)
    ensures
        opt_text(r) == first_with_shortcut(def.sub_resources@, c),
{
    let links = &def.sub_resources;
    let mut i: usize = 0;
    proof {
        assert(links@.skip(0) == links@);
    }
    while i < links.len()
        invariant
            i <= links.len(),
            links == &def.sub_resources,
            first_with_shortcut(links@, c) == first_with_shortcut(links@.skip(i as int), c),
        decreases links.len() - i,
    {
        proof {
            assert(links@.skip(i as int)[0] == links@[i as int]);
            assert(links@.skip(i as int).drop_first() == links@.skip(i + 1));
        }
        if is_shortcut(links[i].shortcut.as_str(), c) {
            return Some(links[i].resource_key.clone());
        }
        i += 1;
    }
    None
}

/// The text of an optional string.
pub open spec fn opt_text(s: Option<String>) -> Option<Seq<char>> {
    crate::resource::registry::opt_text(s)
}

fn scroll_down(scroll: usize, step: usize) -> (r: usize)
    ensures
        r == scrolled_down(scroll as nat, step as nat),
{
    if scroll > usize::MAX - step {
        usize::MAX
    } else {
        scroll + step
    }
}

fn scroll_up(scroll: usize, step: usize) -> (r: usize)
    ensures
        r == scrolled_up(scroll as nat, step as nat),
{
    if scroll >= step {
        scroll - step
    } else {
        0
    }
}

fn action_effect(request: Option<crate::app::ActionRequest>) -> (r: Effect)
    ensures
        match request {
            Some(q) => r == Effect::RunAction(q),
            None => r is Nothing,
        },
{
    match request {
        Some(q) => Effect::RunAction(q),
        None => Effect::Nothing,
    }
}

fn go_back(app: &mut App) -> (effect: Effect)
    ensures
        final(app)@ == back_if_below(old(app)@).state,
        shows(effect, back_if_below(old(app)@).effect, final(app)@),
{
    if app.parent_context.is_some() {
        let request = app.navigate_back();
        app.fetch_effect(request)
    } else {
        Effect::Nothing
    }
}

fn handle_other_char(app: &mut App, c: char, now: u64) -> (effect: Effect)
    requires
        old(app).mode == Mode::Normal,
    ensures
        final(app)@ == after_other_char(old(app)@, c, now).state,
        shows(effect, after_other_char(old(app)@, c, now).effect, final(app)@),
{
    let ghost before = app@;
    let target = if app.selected < app.filtered_items.len() {
        match app.current_resource() {
            Some(def) => find_shortcut(def, c),
            None => None,
        }
    } else {
        None
    };
    let mut handled = false;
    let mut effect = Effect::Nothing;
    match target {
        Some(child) => {
            proof {
                crate::text::lemma_first_index(
                    before.registry.lookup(before.current_resource_key).unwrap().child_keys(),
                    child@,
                );
                lemma_shortcut_is_declared(
                    before.registry.lookup(before.current_resource_key).unwrap(),
                    c,
                );
            }
            let request = app.navigate_to_sub_resource(child.as_str());
            effect = app.fetch_effect(request);
            handled = true;
        },
        None => {
            if same_text(app.current_resource_key.as_str(), "ec2-instances") {
                if c == 's' {
                    effect = action_effect(app.start_selected_instance());
                } else if c == 'S' {
                    effect = action_effect(app.stop_selected_instance());
                }
            }
        },
    }
    if c == 'g' {
        match app.last_key_press {
            Some((key, at)) => {
                if key == KeyCode::Char('g') && (now < at || now - at < DOUBLE_PRESS_MS) {
                    if app.filtered_items.len() > 0 {
                        app.selected = 0;
                    }
                    handled = true;
                }
            },
            None => {},
        }
    }
    if !handled && c == 'g' {
        app.last_key_press = Some((KeyCode::Char('g'), now));
    } else {
        app.last_key_press = None;
    }
    effect
}

/// A shortcut leads to a sub-resource that the descriptor declares.
proof fn lemma_shortcut_is_declared(def: ResourceDef, c: char)
    ensures
        first_with_shortcut(def.sub_resources@, c) matches Some(child) ==> def.link_to(
            child,
        ).is_some(),
{
    match first_with_shortcut(def.sub_resources@, c) {
        Some(child) => {
            lemma_shortcut_occurs(def.sub_resources@, c);
            let i = choose|i: int|
                0 <= i < def.sub_resources@.len() && def.sub_resources@[i].resource_key@ == child;
            assert(def.child_keys()[i] == child);
            crate::text::lemma_first_index(def.child_keys(), child);
        },
        None => {},
    }
}

proof fn lemma_shortcut_occurs(links: Seq<SubResourceDef>, c: char)
    ensures
        first_with_shortcut(links, c) matches Some(child) ==> exists|i: int|
            0 <= i < links.len() && links[i].resource_key@ == child,
    decreases links.len(),
{
    if links.len() > 0 {
        if links[0].shortcut@ == seq![c] {
            assert(links[0].resource_key@ == first_with_shortcut(links, c).unwrap());
        } else {
            lemma_shortcut_occurs(links.drop_first(), c);
            match first_with_shortcut(links.drop_first(), c) {
                Some(child) => {
                    let i = choose|i: int|
                        0 <= i < links.drop_first().len() && links.drop_first()[i].resource_key@
                            == child;
                    assert(links[i + 1].resource_key@ == child);
                },
                None => {},
            }
        }
    }
}

fn handle_normal_mode(app: &mut App, key: KeyEvent, now: u64) -> (effect: Effect)
    requires
        old(app).mode == Mode::Normal,
        !old(app).filter_active,
    ensures
        final(app)@ == after_normal_key(old(app)@, key, now).state,
        shows(effect, after_normal_key(old(app)@, key, now).effect, final(app)@),
{
    match key.code {
        KeyCode::Char(c) => {
            if c == 'c' && key.ctrl {
                return Effect::Quit;
            }
            match region_shortcut(c) {
                Some(region) => {
                    return Effect::SwitchRegion(region);
                },
                None => {},
            }
            if c == 'j' {
                app.next();
            } else if c == 'k' {
                app.previous();
            } else if c == 'G' {
                app.go_to_bottom();
            } else if c == 'd' && key.ctrl {
                if same_text(app.current_resource_key.as_str(), "ec2-instances") {
                    app.enter_confirm_mode(ConfirmAction::Terminate);
                } else {
                    app.page_down(PAGE_SIZE);
                }
            } else if (c == 'u' || c == 'b') && key.ctrl {
                app.page_up(PAGE_SIZE);
            } else if c == 'f' && key.ctrl {
                app.page_down(PAGE_SIZE);
            } else if c == 'd' {
                app.enter_describe_mode();
            } else if c == '/' {
                app.toggle_filter();
            } else if c == ':' {
                app.enter_command_mode();
            } else if c == '?' {
                app.enter_help_mode();
            } else {
                return handle_other_char(app, c, now);
            }
            Effect::Nothing
        },
        KeyCode::Down => {
            app.next();
            Effect::Nothing
        },
        KeyCode::Up => {
            app.previous();
            Effect::Nothing
        },
        KeyCode::Home => {
            app.go_to_top();
            Effect::Nothing
        },
        KeyCode::End => {
            app.go_to_bottom();
            Effect::Nothing
        },
        KeyCode::Enter => {
            app.enter_describe_mode();
            Effect::Nothing
        },
        KeyCode::Backspace => go_back(app),
        KeyCode::Esc => {
            if !app.filter_text.as_str().is_empty() {
                app.clear_filter();
                Effect::Nothing
            } else {
                go_back(app)
            }
        },
        _ => Effect::Nothing,
    }
}

fn handle_filter_input(app: &mut App, key: KeyEvent)
    ensures
        final(app)@ == after_filter_key(old(app)@, key),
{
    match key.code {
        KeyCode::Esc => {
            app.clear_filter();
        },
        KeyCode::Enter => {
            app.filter_active = false;
        },
        KeyCode::Backspace => {
            app.filter_text.pop();
            app.apply_filter();
        },
        KeyCode::Char(c) => {
            app.filter_text.push(c);
            app.apply_filter();
        },
        _ => {},
    }
}

fn handle_command_mode(app: &mut App, key: KeyEvent) -> (effect: Effect)
    ensures
        final(app)@ == after_command_key(old(app)@, key).state,
        shows(effect, after_command_key(old(app)@, key).effect, final(app)@),
{
    match key.code {
        KeyCode::Esc => {
            app.command_text = String::new();
            app.exit_mode();
            Effect::Nothing
        },
        KeyCode::Enter => {
            let effect = app.execute_command();
            match effect {
                Effect::Quit => Effect::Quit,
                other => {
                    if app.mode == Mode::Command {
                        let ghost ran = app@;
                        app.exit_mode();
                        proof {
                            assert(crate::app::context_filters(app@) == crate::app::context_filters(
                                ran,
                            ));
                        }
                    }
                    other
                },
            }
        },
        KeyCode::Tab | KeyCode::Right => {
            app.apply_suggestion();
            Effect::Nothing
        },
        KeyCode::Down => {
            app.next_suggestion();
            Effect::Nothing
        },
        KeyCode::Up => {
            app.prev_suggestion();
            Effect::Nothing
        },
        KeyCode::Backspace => {
            app.command_text.pop();
            app.update_command_suggestions();
            Effect::Nothing
        },
        KeyCode::Char(c) => {
            app.command_text.push(c);
            app.update_command_suggestions();
            Effect::Nothing
        },
        _ => Effect::Nothing,
    }
}

fn handle_help_mode(app: &mut App, key: KeyEvent)
    ensures
        final(app)@ == if key.code == KeyCode::Esc || key.code == KeyCode::Char('q') || key.code
            == KeyCode::Char('?') {
            in_normal_mode(old(app)@)
        } else {
            old(app)@
        },
{
    match key.code {
        KeyCode::Esc => {
            app.exit_mode();
        },
        KeyCode::Char(c) => {
            if c == 'q' || c == '?' {
                app.exit_mode();
            }
        },
        _ => {},
    }
}

fn handle_describe_mode(app: &mut App, key: KeyEvent)
    ensures
        final(app)@ == after_describe_key(old(app)@, key),
{
    match key.code {
        KeyCode::Esc => {
            app.exit_mode();
        },
        KeyCode::Char(c) => {
            if c == 'q' {
                app.exit_mode();
            } else if c == 'd' && key.ctrl {
                app.describe_scroll = scroll_down(app.describe_scroll, PAGE_SIZE);
            } else if c == 'd' {
                app.exit_mode();
            } else if c == 'u' && key.ctrl {
                app.describe_scroll = scroll_up(app.describe_scroll, PAGE_SIZE);
            } else if c == 'j' {
                app.describe_scroll = scroll_down(app.describe_scroll, 1);
            } else if c == 'k' {
                app.describe_scroll = scroll_up(app.describe_scroll, 1);
            } else if c == 'g' {
                app.describe_scroll = 0;
            } else if c == 'G' {
                app.describe_scroll = SCROLL_END;
            }
        },
        KeyCode::Down => {
            app.describe_scroll = scroll_down(app.describe_scroll, 1);
        },
        KeyCode::Up => {
            app.describe_scroll = scroll_up(app.describe_scroll, 1);
        },
        KeyCode::Home => {
            app.describe_scroll = 0;
        },
        KeyCode::End => {
            app.describe_scroll = SCROLL_END;
        },
        _ => {},
    }
}

fn handle_confirm_mode(app: &mut App, key: KeyEvent) -> (effect: Effect)
    ensures
        final(app)@ == after_confirm_key(old(app)@, key).state,
        shows(effect, after_confirm_key(old(app)@, key).effect, final(app)@),
{
    match key.code {
        KeyCode::Char(c) => {
            if c == 'y' || c == 'Y' {
                let effect = action_effect(app.take_confirmed_action());
                app.exit_mode();
                effect
            } else if c == 'n' || c == 'N' {
                app.exit_mode();
                Effect::Nothing
            } else {
                Effect::Nothing
            }
        },
        KeyCode::Esc => {
            app.exit_mode();
            Effect::Nothing
        },
        _ => Effect::Nothing,
    }
}

fn handle_list_key(app: &mut App, key: KeyEvent)
    ensures
        final(app)@ == after_list_key(old(app)@, key),
{
    match key.code {
        KeyCode::Esc => {
            app.exit_mode();
        },
        KeyCode::Char(c) => {
            if c == 'q' {
                app.exit_mode();
            } else if c == 'j' {
                app.next();
            } else if c == 'k' {
                app.previous();
            } else if c == 'g' {
                app.go_to_top();
            } else if c == 'G' {
                app.go_to_bottom();
            }
        },
        KeyCode::Down => {
            app.next();
        },
        KeyCode::Up => {
            app.previous();
        },
        KeyCode::Home => {
            app.go_to_top();
        },
        KeyCode::End => {
            app.go_to_bottom();
        },
        _ => {},
    }
}

fn handle_profiles_mode(app: &mut App, key: KeyEvent) -> (effect: Effect)
    requires
        old(app).mode == Mode::Profiles,
    ensures
        final(app)@ == after_selection_key(old(app)@, key).state,
        shows(effect, after_selection_key(old(app)@, key).effect, final(app)@),
{
    if key.code == KeyCode::Enter {
        match app.select_profile() {
            Some(profile) => Effect::SwitchProfile(profile),
            None => Effect::Nothing,
        }
    } else {
        handle_list_key(app, key);
        Effect::Nothing
    }
}

fn handle_regions_mode(app: &mut App, key: KeyEvent) -> (effect: Effect)
    requires
        old(app).mode == Mode::Regions,
    ensures
        final(app)@ == after_selection_key(old(app)@, key).state,
        shows(effect, after_selection_key(old(app)@, key).effect, final(app)@),
{
    if key.code == KeyCode::Enter {
        match app.select_region() {
            Some(region) => Effect::SwitchRegion(region),
            None => Effect::Nothing,
        }
    } else {
        handle_list_key(app, key);
        Effect::Nothing
    }
}

/// Handles a key press at the time `now`, in milliseconds, and says what
/// the caller has to do.
pub fn handle_key_event(app: &mut App, key: KeyEvent, now: u64) -> (effect: Effect)
    ensures
        final(app)@ == after_key(old(app)@, key, now).state,
        shows(effect, after_key(old(app)@, key, now).effect, final(app)@),
{
    match app.mode {
        Mode::Normal => {
            if app.filter_active {
                handle_filter_input(app, key);
                Effect::Nothing
            } else {
                handle_normal_mode(app, key, now)
            }
        },
        Mode::Command => handle_command_mode(app, key),
        Mode::Help => {
            handle_help_mode(app, key);
            Effect::Nothing
        },
        Mode::Describe => {
            handle_describe_mode(app, key);
            Effect::Nothing
        },
        Mode::Confirm => handle_confirm_mode(app, key),
        Mode::Profiles => handle_profiles_mode(app, key),
        Mode::Regions => handle_regions_mode(app, key),
    }
}

} // verus!
