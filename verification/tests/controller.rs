use taws::app::{App, ConfirmAction, Effect, Mode};
use taws::config::Config;
use taws::json::Json;
use taws::resource::{
    get_registry, ColumnDef, FetchRequest, ResourceConfig, ResourceDef, SubResourceDef,
};

fn text(s: &str) -> Json {
    Json::String(s.to_string())
}

fn object(members: Vec<(&str, Json)>) -> Json {
    Json::Object(members.into_iter().map(|(k, v)| (k.to_string(), v)).collect())
}

fn record(id: &str, name: &str) -> Json {
    object(vec![("Id", text(id)), ("Name", text(name))])
}

fn resource(display_name: &str, path: &str, links: Vec<SubResourceDef>) -> ResourceDef {
    ResourceDef {
        display_name: display_name.to_string(),
        service: "compute".to_string(),
        sdk_method: format!("list_{}", path),
        sdk_method_params: Json::Object(vec![]),
        response_path: path.to_string(),
        id_field: "Id".to_string(),
        name_field: "Name".to_string(),
        is_global: false,
        columns: vec![ColumnDef {
            header: "NAME".to_string(),
            json_path: "Name".to_string(),
            width: 100,
            color_map: None,
        }],
        sub_resources: links,
        actions: vec![],
    }
}

fn link(child: &str, shortcut: &str, parent_id: &str, param: &str) -> SubResourceDef {
    SubResourceDef {
        resource_key: child.to_string(),
        display_name: child.to_string(),
        shortcut: shortcut.to_string(),
        parent_id_field: parent_id.to_string(),
        filter_param: param.to_string(),
    }
}

fn catalog() -> ResourceConfig {
    get_registry(vec![ResourceConfig {
        color_maps: vec![],
        resources: vec![
            ("vm".to_string(), resource("VMs", "vms", vec![link("vm-volumes", "v", "Id", "vmId")])),
            (
                "vm-volumes".to_string(),
                resource("Volumes", "volumes", vec![link("vm-snapshots", "s", "Id", "volumeId")]),
            ),
            ("vm-snapshots".to_string(), resource("Snapshots", "snapshots", vec![])),
            ("ebs-volumes".to_string(), resource("EBS Volumes", "ebs", vec![])),
            ("elasticache".to_string(), resource("Caches", "caches", vec![])),
            (
                "ec2-instances".to_string(),
                ResourceDef {
                    id_field: "InstanceId".to_string(),
                    name_field: "Tags.Name".to_string(),
                    ..resource("EC2 Instances", "reservations", vec![])
                },
            ),
        ],
    }])
    .unwrap()
}

fn app_with(items: Vec<Json>) -> App {
    App::from_initialized(
        catalog(),
        "default".to_string(),
        "us-east-1".to_string(),
        vec!["default".to_string(), "work".to_string()],
        vec!["us-east-1".to_string(), "eu-west-1".to_string(), "ap-south-1".to_string()],
        items,
        Config::default(),
        1_000,
    )
}

fn vms() -> Vec<Json> {
    vec![record("i-1", "web"), record("i-2", "DB-Main"), record("i-3", "cache")]
}

fn vm_app() -> App {
    let mut app = app_with(vec![]);
    let request = app.navigate_to_resource("vm").expect("vm is known");
    app.finish_refresh(&request, Ok(object(vec![("vms", Json::Array(vms()))])), 2_000);
    app
}

fn answer(app: &mut App, request: &FetchRequest, path: &str, items: Vec<Json>) {
    app.finish_refresh(request, Ok(object(vec![(path, Json::Array(items))])), 3_000);
}

fn fetch(effect: Effect) -> FetchRequest {
    match effect {
        Effect::Fetch(request) => request,
        other => panic!("expected a fetch, got {:?}", other),
    }
}

#[test]
fn the_dashboard_starts_on_the_instances() {
    let app = app_with(vec![record("i-1", "web")]);
    assert_eq!(app.current_resource_key, "ec2-instances");
    assert_eq!(app.items, vec![record("i-1", "web")]);
    assert_eq!(app.filtered_items, app.items);
    assert_eq!(app.selected, 0);
    assert_eq!(app.mode, Mode::Normal);
    assert!(app.parent_context.is_none());
    assert!(app.navigation_stack.is_empty());
    assert!(!app.loading);
    assert!(app.error_message.is_none());
    assert_eq!(app.last_refresh, 1_000);
    assert_eq!(app.get_breadcrumb(), vec!["ec2-instances"]);
}

#[test]
fn a_refresh_is_due_after_the_interval_in_normal_mode() {
    let mut app = app_with(vec![]);
    assert!(!app.needs_refresh(1_000));
    assert!(!app.needs_refresh(5_999));
    assert!(app.needs_refresh(6_000));
    assert!(!app.needs_refresh(500));
    app.enter_help_mode();
    assert!(!app.needs_refresh(60_000));
    app.exit_mode();
    app.loading = true;
    assert!(!app.needs_refresh(60_000));
    app.loading = false;
    app.mark_refreshed(58_000);
    assert!(!app.needs_refresh(60_000));
    assert!(app.needs_refresh(63_000));
}

#[test]
fn an_empty_filter_shows_all_records() {
    let mut app = vm_app();
    app.filter_text = "web".to_string();
    app.apply_filter();
    assert_eq!(app.filtered_items, vec![record("i-1", "web")]);
    app.filter_text.clear();
    app.apply_filter();
    assert_eq!(app.filtered_items, app.items);
    app.apply_filter();
    assert_eq!(app.filtered_items, app.items);
}

#[test]
fn the_filter_ignores_case() {
    let mut app = vm_app();
    app.filter_text = "DB".to_string();
    app.apply_filter();
    let upper = app.filtered_items.clone();
    app.filter_text = "db".to_string();
    app.apply_filter();
    assert_eq!(app.filtered_items, upper);
    assert_eq!(app.filtered_items, vec![record("i-2", "DB-Main")]);

    let mut app = app_with(vec![]);
    let request = app.navigate_to_resource("vm").unwrap();
    answer(&mut app, &request, "vms", vec![record("x", "ABCdef"), record("y", "xyz")]);
    app.filter_text = "ABC".to_string();
    app.apply_filter();
    let first = app.filtered_items.clone();
    app.filter_text = "abc".to_string();
    app.apply_filter();
    assert_eq!(app.filtered_items, first);
    assert_eq!(first, vec![record("x", "ABCdef")]);
}

#[test]
fn the_filter_looks_at_name_and_id() {
    let mut app = vm_app();
    app.filter_text = "i-3".to_string();
    app.apply_filter();
    assert_eq!(app.filtered_items, vec![record("i-3", "cache")]);
    app.filter_text = "c".to_string();
    app.apply_filter();
    assert_eq!(app.filtered_items, vec![record("i-3", "cache")]);
    app.filter_text = "nothing".to_string();
    app.apply_filter();
    assert!(app.filtered_items.is_empty());
}

#[test]
fn the_filter_moves_a_selection_past_the_end_to_the_last_record() {
    let mut app = vm_app();
    app.selected = 2;
    app.filter_text = "i-".to_string();
    app.apply_filter();
    assert_eq!(app.selected, 2);
    app.filter_text = "web".to_string();
    app.apply_filter();
    assert_eq!(app.selected, 0);
    app.selected = 2;
    app.filter_text = "nothing".to_string();
    app.apply_filter();
    assert_eq!(app.selected, 2);
}

#[test]
fn without_a_descriptor_the_filter_searches_the_json_text() {
    let mut app = vm_app();
    app.current_resource_key = "mystery".to_string();
    app.items = vec![
        object(vec![("Size", Json::Number("42".to_string())), ("Zone", text("North"))]),
        object(vec![("Size", Json::Number("7".to_string())), ("Zone", text("south"))]),
    ];
    app.filter_text = "\"zone\":\"north\"".to_string();
    app.apply_filter();
    assert_eq!(app.filtered_items, vec![app.items[0].clone()]);
    app.filter_text = "\"size\":7".to_string();
    app.apply_filter();
    assert_eq!(app.filtered_items, vec![app.items[1].clone()]);
}

#[test]
fn clearing_the_filter_closes_the_input() {
    let mut app = vm_app();
    app.toggle_filter();
    assert!(app.filter_active);
    app.filter_text = "web".to_string();
    app.apply_filter();
    app.clear_filter();
    assert!(!app.filter_active);
    assert_eq!(app.filter_text, "");
    assert_eq!(app.filtered_items, app.items);
}

#[test]
fn selection_moves_saturate() {
    let mut app = vm_app();
    app.previous();
    assert_eq!(app.selected, 0);
    app.next();
    assert_eq!(app.selected, 1);
    app.next();
    app.next();
    assert_eq!(app.selected, 2);
    app.page_up(10);
    assert_eq!(app.selected, 0);
    app.page_down(2);
    assert_eq!(app.selected, 2);
    app.page_down(usize::MAX);
    assert_eq!(app.selected, 2);
    app.go_to_top();
    assert_eq!(app.selected, 0);
    app.go_to_bottom();
    assert_eq!(app.selected, 2);
    app.page_up(1);
    assert_eq!(app.selected, 1);
    assert_eq!(app.current_list_len(), 3);
}

#[test]
fn moving_on_an_empty_list_changes_nothing() {
    let mut app = app_with(vec![]);
    app.next();
    app.page_down(10);
    app.go_to_bottom();
    assert_eq!(app.selected, 0);
    assert!(app.selected_item().is_none());
    assert!(app.selected_item_json().is_none());
}

#[test]
fn moving_back_on_an_empty_list_changes_nothing() {
    let mut app = app_with(vec![]);
    app.selected = 5;
    app.previous();
    assert_eq!(app.selected, 5);
    app.page_up(3);
    assert_eq!(app.selected, 5);
    app.go_to_top();
    assert_eq!(app.selected, 5);
    app.next();
    app.go_to_bottom();
    assert_eq!(app.selected, 5);
}

#[test]
fn a_child_without_default_parameters_is_still_filtered() {
    let mut child = resource("Volumes", "volumes", vec![]);
    child.sdk_method_params = Json::Null;
    let registry = get_registry(vec![ResourceConfig {
        color_maps: vec![],
        resources: vec![
            ("vm".to_string(), resource("VMs", "vms", vec![link("vm-volumes", "v", "Id", "vmId")])),
            ("vm-volumes".to_string(), child),
        ],
    }])
    .expect("the catalog is valid");
    let mut app = App::from_initialized(
        registry,
        "default".to_string(),
        "us-east-1".to_string(),
        vec!["default".to_string()],
        vec!["us-east-1".to_string()],
        vec![],
        Config::default(),
        0,
    );
    let request = app.navigate_to_resource("vm").expect("vm is known");
    app.finish_refresh(&request, Ok(object(vec![("vms", Json::Array(vms()))])), 1);
    let request = app.navigate_to_sub_resource("vm-volumes").expect("the child is known");
    assert_eq!(request.params, object(vec![("vmId", Json::Array(vec![text("i-1")]))]));
    let request = app.navigate_back().expect("the parent is known");
    assert_eq!(request.params, object(vec![]));
}

#[test]
fn selection_moves_follow_the_mode() {
    let mut app = vm_app();
    app.enter_profiles_mode();
    assert_eq!(app.mode, Mode::Profiles);
    assert_eq!(app.profiles_selected, 0);
    app.next();
    app.next();
    assert_eq!(app.profiles_selected, 1);
    assert_eq!(app.selected, 0);
    app.go_to_top();
    assert_eq!(app.profiles_selected, 0);
    app.exit_mode();

    app.region = "eu-west-1".to_string();
    app.enter_regions_mode();
    assert_eq!(app.regions_selected, 1);
    app.go_to_bottom();
    assert_eq!(app.regions_selected, 2);
    app.page_up(5);
    assert_eq!(app.regions_selected, 0);
    app.page_down(1);
    assert_eq!(app.regions_selected, 1);
    app.region = "mars-1".to_string();
    app.enter_regions_mode();
    assert_eq!(app.regions_selected, 0);
}

#[test]
fn modes_are_left_for_normal_mode() {
    let mut app = vm_app();
    app.enter_help_mode();
    assert_eq!(app.mode, Mode::Help);
    app.exit_mode();
    assert_eq!(app.mode, Mode::Normal);
    app.enter_confirm_mode(ConfirmAction::Terminate);
    assert_eq!(app.mode, Mode::Confirm);
    assert_eq!(app.confirm_action, Some(ConfirmAction::Terminate));
    app.exit_mode();
    assert_eq!(app.mode, Mode::Normal);
    assert!(app.confirm_action.is_none());
    app.describe_scroll = 9;
    app.enter_describe_mode();
    assert_eq!(app.mode, Mode::Describe);
    assert_eq!(app.describe_scroll, 0);
    app.exit_mode();
    let mut empty = app_with(vec![]);
    empty.enter_describe_mode();
    assert_eq!(empty.mode, Mode::Normal);
}

#[test]
fn the_selected_record_prints_as_indented_json() {
    let app = vm_app();
    assert_eq!(app.selected_item(), Some(&record("i-1", "web")));
    assert_eq!(
        app.selected_item_json().unwrap(),
        "{\n  \"Id\": \"i-1\",\n  \"Name\": \"web\"\n}"
    );
}

#[test]
fn navigating_to_a_resource_asks_for_its_records() {
    let mut app = app_with(vec![record("i-9", "old")]);
    app.filter_text = "x".to_string();
    app.selected = 3;
    let request = app.navigate_to_resource("vm").unwrap();
    assert_eq!(request.resource_key, "vm");
    assert_eq!(request.service, "compute");
    assert_eq!(request.sdk_method, "list_vms");
    assert_eq!(request.response_path, "vms");
    assert_eq!(request.params, Json::Object(vec![]));
    assert_eq!(app.current_resource_key, "vm");
    assert!(app.loading);
    assert_eq!(app.selected, 0);
    assert_eq!(app.filter_text, "");
    answer(&mut app, &request, "vms", vms());
    assert!(!app.loading);
    assert_eq!(app.items, vms());
    assert_eq!(app.filtered_items, vms());
    assert_eq!(app.last_refresh, 3_000);
}

#[test]
fn navigating_to_an_unknown_resource_only_sets_the_error() {
    let mut app = vm_app();
    assert!(app.navigate_to_resource("nope").is_none());
    assert_eq!(app.error_message.as_deref(), Some("Unknown resource: nope"));
    assert_eq!(app.current_resource_key, "vm");
    assert_eq!(app.items, vms());
    assert!(!app.loading);
}

#[test]
fn refreshing_an_unknown_resource_only_sets_the_error() {
    let mut app = vm_app();
    app.current_resource_key = "mystery".to_string();
    assert!(app.refresh_current().is_none());
    assert_eq!(app.error_message.as_deref(), Some("Unknown resource: mystery"));
    assert_eq!(app.items, vms());
    assert!(!app.loading);
}

#[test]
fn a_drill_down_filters_the_child_by_the_parent() {
    let mut app = vm_app();
    let request = app.navigate_to_sub_resource("vm-volumes").unwrap();
    assert_eq!(request.resource_key, "vm-volumes");
    assert_eq!(
        request.params,
        object(vec![("vmId", Json::Array(vec![text("i-1")]))])
    );
    let filters = app.build_filters_from_context();
    assert_eq!(filters.len(), 1);
    assert_eq!(filters[0].name, "vmId");
    assert_eq!(filters[0].values, vec!["i-1"]);
    assert_eq!(app.current_resource_key, "vm-volumes");
    let parent = app.parent_context.as_ref().unwrap();
    assert_eq!(parent.resource_key, "vm");
    assert_eq!(parent.item, record("i-1", "web"));
    assert_eq!(parent.display_name, "web");
    assert_eq!(app.get_breadcrumb(), vec!["vm:web", "vm-volumes"]);
}

#[test]
fn a_parent_without_a_name_is_labelled_by_its_id() {
    let mut app = app_with(vec![]);
    let request = app.navigate_to_resource("vm").unwrap();
    answer(&mut app, &request, "vms", vec![object(vec![("Id", text("i-7"))])]);
    app.navigate_to_sub_resource("vm-volumes").unwrap();
    assert_eq!(app.parent_context.as_ref().unwrap().display_name, "i-7");
}

#[test]
fn a_parent_without_an_id_gives_no_filter() {
    let mut app = app_with(vec![]);
    let request = app.navigate_to_resource("vm").unwrap();
    answer(&mut app, &request, "vms", vec![object(vec![("Name", text("anonymous"))])]);
    let request = app.navigate_to_sub_resource("vm-volumes").unwrap();
    assert_eq!(request.params, Json::Object(vec![]));
    assert!(app.build_filters_from_context().is_empty());
}

#[test]
fn there_are_no_filters_at_the_top_level() {
    let app = vm_app();
    assert!(app.build_filters_from_context().is_empty());
}

#[test]
fn a_drill_down_into_an_undeclared_child_only_sets_the_error() {
    let mut app = vm_app();
    assert!(app.navigate_to_sub_resource("vm-snapshots").is_none());
    assert_eq!(
        app.error_message.as_deref(),
        Some("vm-snapshots is not a sub-resource of vm")
    );
    assert_eq!(app.current_resource_key, "vm");
    assert_eq!(app.items, vms());
    assert!(app.parent_context.is_none());
}

#[test]
fn a_drill_down_without_a_selection_does_nothing() {
    let mut app = app_with(vec![]);
    let request = app.navigate_to_resource("vm").unwrap();
    answer(&mut app, &request, "vms", vec![]);
    assert!(app.navigate_to_sub_resource("vm-volumes").is_none());
    assert_eq!(app.current_resource_key, "vm");
    assert!(app.error_message.is_none());
    assert!(app.parent_context.is_none());
}

#[test]
fn going_back_restores_every_level() {
    let mut app = vm_app();
    app.next();
    let request = app.navigate_to_sub_resource("vm-volumes").unwrap();
    answer(&mut app, &request, "volumes", vec![record("vol-1", "data"), record("vol-2", "logs")]);
    app.next();
    let request = app.navigate_to_sub_resource("vm-snapshots").unwrap();
    assert_eq!(
        request.params,
        object(vec![("volumeId", Json::Array(vec![text("vol-2")]))])
    );
    answer(&mut app, &request, "snapshots", vec![record("snap-1", "monday")]);
    assert_eq!(app.current_resource_key, "vm-snapshots");
    assert_eq!(app.navigation_stack.len(), 1);
    assert_eq!(app.navigation_stack[0].resource_key, "vm");
    assert_eq!(app.parent_context.as_ref().unwrap().resource_key, "vm-volumes");
    assert_eq!(
        app.get_breadcrumb(),
        vec!["vm:DB-Main", "vm-volumes:logs", "vm-snapshots"]
    );

    let request = app.navigate_back().unwrap();
    assert_eq!(request.resource_key, "vm-volumes");
    assert_eq!(
        request.params,
        object(vec![("vmId", Json::Array(vec![text("i-2")]))])
    );
    assert_eq!(app.current_resource_key, "vm-volumes");
    let parent = app.parent_context.as_ref().unwrap();
    assert_eq!(parent.resource_key, "vm");
    assert_eq!(parent.item, record("i-2", "DB-Main"));
    assert_eq!(parent.display_name, "DB-Main");
    assert!(app.navigation_stack.is_empty());

    let request = app.navigate_back().unwrap();
    assert_eq!(request.resource_key, "vm");
    assert_eq!(request.params, Json::Object(vec![]));
    assert_eq!(app.current_resource_key, "vm");
    assert!(app.parent_context.is_none());
    assert!(app.navigation_stack.is_empty());

    assert!(app.navigate_back().is_none());
    assert_eq!(app.current_resource_key, "vm");
}

#[test]
fn a_top_level_navigation_discards_the_ancestry() {
    let mut app = vm_app();
    let request = app.navigate_to_sub_resource("vm-volumes").unwrap();
    answer(&mut app, &request, "volumes", vec![record("vol-1", "data")]);
    app.navigate_to_sub_resource("vm-snapshots").unwrap();
    app.navigate_to_resource("ebs-volumes").unwrap();
    assert!(app.parent_context.is_none());
    assert!(app.navigation_stack.is_empty());
    assert_eq!(app.get_breadcrumb(), vec!["ebs-volumes"]);
}

#[test]
fn a_failed_fetch_clears_the_records() {
    let mut app = vm_app();
    app.selected = 2;
    let request = app.refresh_current().unwrap();
    assert!(app.loading);
    assert!(app.error_message.is_none());
    app.finish_refresh(&request, Err("dispatch failure: no route".to_string()), 9_000);
    assert!(app.items.is_empty());
    assert!(app.filtered_items.is_empty());
    assert_eq!(app.selected, 0);
    assert_eq!(
        app.error_message.as_deref(),
        Some("Connection failed - check internet/credentials")
    );
    assert!(!app.loading);
    assert_eq!(app.last_refresh, 9_000);
}

#[test]
fn a_response_without_the_records_counts_as_a_failed_fetch() {
    let mut app = vm_app();
    let request = app.refresh_current().unwrap();
    app.finish_refresh(&request, Ok(object(vec![("other", Json::Array(vec![]))])), 9_000);
    assert!(app.items.is_empty());
    assert_eq!(app.error_message.as_deref(), Some("Path 'vms' not found in response"));

    let request = app.refresh_current().unwrap();
    app.finish_refresh(&request, Ok(object(vec![("vms", text("none"))])), 9_500);
    assert!(app.items.is_empty());
    assert_eq!(
        app.error_message.as_deref(),
        Some("Expected array at path 'vms', got String(\"none\")")
    );
}

#[test]
fn a_successful_refresh_keeps_the_selection_within_reach() {
    let mut app = vm_app();
    app.selected = 1;
    let request = app.refresh_current().unwrap();
    answer(&mut app, &request, "vms", vms());
    assert_eq!(app.selected, 1);
    app.selected = 2;
    let request = app.refresh_current().unwrap();
    answer(&mut app, &request, "vms", vec![record("i-1", "web")]);
    assert_eq!(app.selected, 0);
    assert_eq!(app.filtered_items, vec![record("i-1", "web")]);
}

#[test]
fn a_refresh_applies_the_filter_to_the_new_records() {
    let mut app = vm_app();
    app.filter_text = "web".to_string();
    app.apply_filter();
    let request = app.refresh_current().unwrap();
    answer(&mut app, &request, "vms", vec![record("i-5", "web-2"), record("i-6", "db")]);
    assert_eq!(app.items.len(), 2);
    assert_eq!(app.filtered_items, vec![record("i-5", "web-2")]);
}

#[test]
fn the_outcome_of_a_fetch_for_another_resource_is_dropped() {
    let mut app = vm_app();
    let request = app.refresh_current().unwrap();
    app.navigate_to_resource("ebs-volumes").unwrap();
    let items_before = app.items.clone();
    app.finish_refresh(&request, Ok(object(vec![("vms", Json::Array(vec![record("x", "y")]))])), 9_000);
    assert_eq!(app.current_resource_key, "ebs-volumes");
    assert_eq!(app.items, items_before);
    assert!(app.loading);
    app.finish_refresh(&request, Err("timeout".to_string()), 9_500);
    assert!(app.error_message.is_none());
    assert!(app.loading);
}

#[test]
fn the_palette_suggests_by_substring() {
    let mut app = vm_app();
    app.enter_command_mode();
    assert_eq!(app.mode, Mode::Command);
    assert_eq!(
        app.command_suggestions,
        vec![
            "ebs-volumes",
            "ec2-instances",
            "elasticache",
            "profiles",
            "regions",
            "vm",
            "vm-snapshots",
            "vm-volumes"
        ]
    );
    assert!(app.command_preview.is_none());
    app.command_text = "eb".to_string();
    app.update_command_suggestions();
    assert_eq!(app.command_suggestions, vec!["ebs-volumes"]);
    app.command_text = "e".to_string();
    app.update_command_suggestions();
    assert!(app.command_suggestions.contains(&"ebs-volumes".to_string()));
    assert!(app.command_suggestions.contains(&"elasticache".to_string()));
    app.command_text = "volumes".to_string();
    app.update_command_suggestions();
    assert_eq!(app.command_suggestions, vec!["ebs-volumes", "vm-volumes"]);
    assert_eq!(app.command_preview.as_deref(), Some("ebs-volumes"));
}

#[test]
fn typing_eb_suggests_both_commands_that_hold_it() {
    let registry = get_registry(vec![ResourceConfig {
        color_maps: vec![],
        resources: vec![
            ("ebs-volumes".to_string(), resource("EBS Volumes", "ebs", vec![])),
            ("elasticache".to_string(), resource("Caches", "caches", vec![])),
            ("web-servers".to_string(), resource("Web", "web", vec![])),
        ],
    }])
    .unwrap();
    let mut app = App::from_initialized(
        registry,
        "default".to_string(),
        "us-east-1".to_string(),
        vec![],
        vec![],
        vec![],
        Config::default(),
        0,
    );
    app.enter_command_mode();
    app.command_text = "e".to_string();
    app.update_command_suggestions();
    assert!(app.command_suggestions.contains(&"ebs-volumes".to_string()));
    assert!(app.command_suggestions.contains(&"elasticache".to_string()));
    app.command_text = "eb".to_string();
    app.update_command_suggestions();
    assert_eq!(app.command_suggestions, vec!["ebs-volumes", "web-servers"]);
    app.command_text = "EB".to_string();
    app.update_command_suggestions();
    assert_eq!(app.command_suggestions, vec!["ebs-volumes", "web-servers"]);
}

#[test]
fn the_highlight_cycles_and_the_preview_follows() {
    let mut app = vm_app();
    app.enter_command_mode();
    app.command_text = "vm".to_string();
    app.update_command_suggestions();
    assert_eq!(app.command_suggestions, vec!["vm", "vm-snapshots", "vm-volumes"]);
    assert_eq!(app.command_preview.as_deref(), Some("vm"));
    app.next_suggestion();
    assert_eq!(app.command_preview.as_deref(), Some("vm-snapshots"));
    app.prev_suggestion();
    app.prev_suggestion();
    assert_eq!(app.command_suggestion_selected, 2);
    assert_eq!(app.command_preview.as_deref(), Some("vm-volumes"));
    app.next_suggestion();
    assert_eq!(app.command_suggestion_selected, 0);
    app.command_suggestion_selected = 2;
    app.command_text = "vm-s".to_string();
    app.update_command_suggestions();
    assert_eq!(app.command_suggestion_selected, 0);
    assert_eq!(app.command_preview.as_deref(), Some("vm-snapshots"));
    app.command_text = "zzz".to_string();
    app.update_command_suggestions();
    assert!(app.command_suggestions.is_empty());
    assert!(app.command_preview.is_none());
    app.next_suggestion();
    app.prev_suggestion();
    assert_eq!(app.command_suggestion_selected, 0);
}

#[test]
fn applying_a_suggestion_takes_the_preview_over() {
    let mut app = vm_app();
    app.enter_command_mode();
    app.apply_suggestion();
    assert_eq!(app.command_text, "");
    app.command_text = "snap".to_string();
    app.update_command_suggestions();
    app.apply_suggestion();
    assert_eq!(app.command_text, "vm-snapshots");
    assert_eq!(app.command_suggestions, vec!["vm-snapshots"]);
}

#[test]
fn a_command_snaps_to_the_preview_that_holds_it() {
    let mut app = vm_app();
    app.enter_command_mode();
    app.command_text = "eb".to_string();
    app.update_command_suggestions();
    let request = fetch(app.execute_command());
    assert_eq!(request.resource_key, "ebs-volumes");
    assert_eq!(app.current_resource_key, "ebs-volumes");
    assert_eq!(app.mode, Mode::Normal);
}

#[test]
fn an_empty_command_runs_the_preview() {
    let mut app = vm_app();
    app.enter_command_mode();
    assert!(matches!(app.execute_command(), Effect::Nothing));
    assert_eq!(app.current_resource_key, "vm");
    app.update_command_suggestions();
    app.next_suggestion();
    let request = fetch(app.execute_command());
    assert_eq!(request.resource_key, "ec2-instances");
}

#[test]
fn commands_quit_go_back_and_open_the_selections() {
    let mut app = vm_app();
    app.command_text = "q".to_string();
    assert!(matches!(app.execute_command(), Effect::Quit));
    app.command_text = "quit now".to_string();
    assert!(matches!(app.execute_command(), Effect::Quit));
    app.command_text = "profiles".to_string();
    assert!(matches!(app.execute_command(), Effect::Nothing));
    assert_eq!(app.mode, Mode::Profiles);
    app.command_text = "regions".to_string();
    assert!(matches!(app.execute_command(), Effect::Nothing));
    assert_eq!(app.mode, Mode::Regions);
    app.command_text = "back".to_string();
    assert!(matches!(app.execute_command(), Effect::Nothing));
    app.exit_mode();
    app.navigate_to_sub_resource("vm-volumes").unwrap();
    app.command_text = "  back  ".to_string();
    let request = fetch(app.execute_command());
    assert_eq!(request.resource_key, "vm");
}

#[test]
fn region_and_profile_commands_need_a_name() {
    let mut app = vm_app();
    app.command_text = "region eu-west-1".to_string();
    match app.execute_command() {
        Effect::SwitchRegion(region) => assert_eq!(region, "eu-west-1"),
        other => panic!("expected a region switch, got {:?}", other),
    }
    app.command_text = "profile\twork extra".to_string();
    match app.execute_command() {
        Effect::SwitchProfile(profile) => assert_eq!(profile, "work"),
        other => panic!("expected a profile switch, got {:?}", other),
    }
    app.command_text = "region".to_string();
    assert!(matches!(app.execute_command(), Effect::Nothing));
    assert_eq!(app.error_message.as_deref(), Some("Unknown command: region"));
}

#[test]
fn a_resource_command_drills_down_where_it_can() {
    let mut app = vm_app();
    app.command_text = "vm-volumes".to_string();
    let request = fetch(app.execute_command());
    assert_eq!(request.resource_key, "vm-volumes");
    assert_eq!(app.parent_context.as_ref().unwrap().resource_key, "vm");

    let mut app = vm_app();
    app.command_text = "vm-snapshots".to_string();
    let request = fetch(app.execute_command());
    assert_eq!(request.resource_key, "vm-snapshots");
    assert!(app.parent_context.is_none());

    let mut app = app_with(vec![]);
    let request = app.navigate_to_resource("vm").unwrap();
    answer(&mut app, &request, "vms", vec![]);
    app.command_text = "vm-volumes".to_string();
    fetch(app.execute_command());
    assert!(app.parent_context.is_none());
    assert_eq!(app.current_resource_key, "vm-volumes");
}

#[test]
fn an_unknown_command_is_a_soft_error() {
    let mut app = vm_app();
    app.command_text = "frobnicate all".to_string();
    assert!(matches!(app.execute_command(), Effect::Nothing));
    assert_eq!(app.error_message.as_deref(), Some("Unknown command: frobnicate"));
    assert_eq!(app.current_resource_key, "vm");
}

#[test]
fn instance_actions_need_a_selected_instance() {
    let mut app = app_with(vec![object(vec![("InstanceId", text("i-0abc"))])]);
    let start = app.start_selected_instance().unwrap();
    assert_eq!(start.service, "ec2");
    assert_eq!(start.action, "start_instance");
    assert_eq!(start.resource_id, "i-0abc");
    assert_eq!(app.stop_selected_instance().unwrap().action, "stop_instance");
    assert_eq!(app.terminate_selected_instance().unwrap().action, "terminate_instance");
    app.selected = 5;
    assert!(app.start_selected_instance().is_none());
    let app = app_with(vec![object(vec![("Name", text("no id"))])]);
    assert!(app.stop_selected_instance().is_none());
    let app = vm_app();
    assert!(app.terminate_selected_instance().is_none());
}

#[test]
fn switches_are_remembered() {
    let mut app = vm_app();
    app.switch_region("eu-west-1");
    assert_eq!(app.region, "eu-west-1");
    assert_eq!(app.config.region.as_deref(), Some("eu-west-1"));
    assert!(app.config.profile.is_none());
    app.switch_profile("work", "ap-south-1");
    assert_eq!(app.profile, "work");
    assert_eq!(app.region, "ap-south-1");
    assert_eq!(app.config.profile.as_deref(), Some("work"));
    assert_eq!(app.config.region.as_deref(), Some("ap-south-1"));
}

#[test]
fn selecting_gives_the_highlighted_entry() {
    let mut app = vm_app();
    app.enter_profiles_mode();
    app.next();
    assert_eq!(app.select_profile().as_deref(), Some("work"));
    assert_eq!(app.mode, Mode::Normal);
    app.enter_regions_mode();
    app.regions_selected = 7;
    assert!(app.select_region().is_none());
    assert_eq!(app.mode, Mode::Normal);
    app.enter_regions_mode();
    app.go_to_bottom();
    assert_eq!(app.select_region().as_deref(), Some("ap-south-1"));
}

fn action(key: &str, sdk_method: &str, needs_confirm: bool) -> taws::resource::ActionDef {
    taws::resource::ActionDef {
        key: key.to_string(),
        display_name: key.to_string(),
        shortcut: None,
        sdk_method: sdk_method.to_string(),
        id_param: None,
        needs_confirm,
        confirm: None,
    }
}

fn app_with_actions(items: Vec<Json>) -> App {
    let mut def = resource("Queues", "queues", vec![]);
    def.service = "sqs".to_string();
    def.actions = vec![action("purge", "purge_queue", false), action("delete", "delete_queue", true)];
    let registry = get_registry(vec![ResourceConfig {
        color_maps: vec![],
        resources: vec![("ec2-instances".to_string(), def)],
    }])
    .unwrap();
    App::from_initialized(
        registry,
        "default".to_string(),
        "us-east-1".to_string(),
        vec![],
        vec![],
        items,
        Config::default(),
        0,
    )
}

#[test]
fn an_action_without_a_policy_runs_at_once() {
    let mut app = app_with_actions(vec![record("q-1", "jobs")]);
    let request = app.request_action("purge").unwrap();
    assert_eq!(request.service, "sqs");
    assert_eq!(request.action, "purge_queue");
    assert_eq!(request.resource_id, "q-1");
    assert_eq!(app.mode, Mode::Normal);
    assert!(app.confirm_action.is_none());
}

#[test]
fn an_action_with_a_policy_waits_for_confirmation() {
    let mut app = app_with_actions(vec![record("q-1", "jobs")]);
    assert!(app.request_action("delete").is_none());
    assert_eq!(app.mode, Mode::Confirm);
    assert_eq!(app.confirm_action, Some(ConfirmAction::Custom("delete".to_string())));
    let request = app.take_confirmed_action().unwrap();
    assert_eq!(request.action, "delete_queue");
    assert_eq!(request.resource_id, "q-1");
    app.exit_mode();
    assert!(app.take_confirmed_action().is_none());
}

#[test]
fn an_action_that_does_not_apply_does_nothing() {
    let mut app = app_with_actions(vec![record("q-1", "jobs")]);
    assert!(app.request_action("explode").is_none());
    assert_eq!(app.mode, Mode::Normal);
    let mut empty = app_with_actions(vec![]);
    assert!(empty.request_action("purge").is_none());
    assert!(empty.request_action("delete").is_none());
    assert_eq!(empty.mode, Mode::Normal);
    let mut no_id = app_with_actions(vec![object(vec![("Name", text("x"))])]);
    assert!(no_id.request_action("delete").is_none());
    assert_eq!(no_id.mode, Mode::Normal);
}
