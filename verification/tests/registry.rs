use taws::json::Json;
use taws::resource::{
    links_resolve,
    get_all_resource_keys, get_color_for_value, get_color_map, get_registry, get_resource,
    ActionDef, CatalogError, ColorDef, ColumnDef, ConfirmConfig, ResourceConfig, ResourceDef,
    SubResourceDef,
};

fn column(header: &str, path: &str, width: u16, color_map: Option<&str>) -> ColumnDef {
    ColumnDef {
        header: header.to_string(),
        json_path: path.to_string(),
        width,
        color_map: color_map.map(|name| name.to_string()),
    }
}

fn resource(
    display_name: &str,
    service: &str,
    sdk_method: &str,
    response_path: &str,
    id_field: &str,
    name_field: &str,
) -> ResourceDef {
    ResourceDef {
        display_name: display_name.to_string(),
        service: service.to_string(),
        sdk_method: sdk_method.to_string(),
        sdk_method_params: Json::Object(vec![]),
        response_path: response_path.to_string(),
        id_field: id_field.to_string(),
        name_field: name_field.to_string(),
        is_global: false,
        columns: vec![column("ID", id_field, 40, None), column("NAME", name_field, 60, None)],
        sub_resources: vec![],
        actions: vec![],
    }
}

fn link(child: &str, display_name: &str, shortcut: &str, parent_id: &str, param: &str) -> SubResourceDef {
    SubResourceDef {
        resource_key: child.to_string(),
        display_name: display_name.to_string(),
        shortcut: shortcut.to_string(),
        parent_id_field: parent_id.to_string(),
        filter_param: param.to_string(),
    }
}

fn action(key: &str, display_name: &str, sdk_method: &str, confirm: Option<ConfirmConfig>) -> ActionDef {
    ActionDef {
        key: key.to_string(),
        display_name: display_name.to_string(),
        shortcut: None,
        sdk_method: sdk_method.to_string(),
        id_param: None,
        needs_confirm: false,
        confirm,
    }
}

fn color(value: &str, rgb: [u8; 3]) -> ColorDef {
    ColorDef { value: value.to_string(), color: rgb }
}

fn document(resources: Vec<(&str, ResourceDef)>) -> ResourceConfig {
    ResourceConfig {
        color_maps: vec![],
        resources: resources.into_iter().map(|(key, def)| (key.to_string(), def)).collect(),
    }
}

fn common_document() -> ResourceConfig {
    ResourceConfig {
        color_maps: vec![
            (
                "state".to_string(),
                vec![
                    color("running", [0, 255, 0]),
                    color("available", [0, 255, 0]),
                    color("pending", [255, 255, 0]),
                    color("stopped", [255, 0, 0]),
                    color("terminated", [128, 128, 128]),
                ],
            ),
            ("bool".to_string(), vec![color("Yes", [0, 255, 0]), color("No", [255, 0, 0])]),
        ],
        resources: vec![],
    }
}

fn ec2_document() -> ResourceConfig {
    let mut instances = resource(
        "EC2 Instances",
        "ec2",
        "describe_instances",
        "reservations",
        "InstanceId",
        "Tags.Name",
    );
    instances.columns = vec![
        column("NAME", "Tags.Name", 25, None),
        column("ID", "InstanceId", 20, None),
        column("STATE", "State", 15, Some("state")),
        column("TYPE", "InstanceType", 15, None),
    ];
    instances.actions = vec![
        action("start", "Start", "start_instance", None),
        action("stop", "Stop", "stop_instance", None),
        action(
            "terminate",
            "Terminate",
            "terminate_instance",
            Some(ConfirmConfig {
                message: Some("Terminate instance".to_string()),
                default_yes: false,
                destructive: true,
            }),
        ),
    ];
    document(vec![("ec2-instances", instances)])
}

fn iam_document() -> ResourceConfig {
    let mut users = resource("IAM Users", "iam", "list_users", "users", "UserId", "UserName");
    users.is_global = true;
    users.sub_resources = vec![
        link("iam-user-policies", "Policies", "p", "UserName", "user_name"),
        link("iam-user-groups", "Groups", "g", "UserName", "user_name"),
        link("iam-user-access-keys", "Access Keys", "a", "UserName", "user_name"),
    ];
    let mut roles = resource("IAM Roles", "iam", "list_roles", "roles", "RoleId", "RoleName");
    roles.is_global = true;
    roles.sub_resources = vec![link("iam-role-policies", "Policies", "p", "RoleName", "role_name")];
    let mut groups = resource("IAM Groups", "iam", "list_groups", "groups", "GroupId", "GroupName");
    groups.is_global = true;
    let mut policies =
        resource("IAM Policies", "iam", "list_policies", "policies", "PolicyId", "PolicyName");
    policies.is_global = true;
    document(vec![
        ("iam-users", users),
        ("iam-roles", roles),
        ("iam-groups", groups),
        ("iam-policies", policies),
        (
            "iam-user-policies",
            resource(
                "User Policies",
                "iam",
                "list_attached_user_policies",
                "attached_policies",
                "PolicyArn",
                "PolicyName",
            ),
        ),
        (
            "iam-user-groups",
            resource("User Groups", "iam", "list_groups_for_user", "groups", "GroupId", "GroupName"),
        ),
        (
            "iam-user-access-keys",
            resource(
                "Access Keys",
                "iam",
                "list_access_keys",
                "access_key_metadata",
                "AccessKeyId",
                "AccessKeyId",
            ),
        ),
        (
            "iam-role-policies",
            resource(
                "Role Policies",
                "iam",
                "list_attached_role_policies",
                "attached_policies",
                "PolicyArn",
                "PolicyName",
            ),
        ),
    ])
}

fn data_document() -> ResourceConfig {
    let mut rds = resource(
        "RDS Instances",
        "rds",
        "describe_db_instances",
        "db_instances",
        "DBInstanceIdentifier",
        "DBInstanceIdentifier",
    );
    rds.sub_resources = vec![link(
        "rds-snapshots",
        "Snapshots",
        "s",
        "DBInstanceIdentifier",
        "db_instance_identifier",
    )];
    let mut lambda = resource(
        "Lambda Functions",
        "lambda",
        "list_functions",
        "functions",
        "FunctionArn",
        "FunctionName",
    );
    lambda.actions = vec![
        action("invoke", "Invoke", "invoke_function", None),
        ActionDef {
            needs_confirm: true,
            ..action("delete", "Delete function", "delete_function", None)
        },
    ];
    document(vec![
        ("rds-instances", rds),
        (
            "rds-snapshots",
            resource(
                "RDS Snapshots",
                "rds",
                "describe_db_snapshots",
                "db_snapshots",
                "DBSnapshotIdentifier",
                "DBSnapshotIdentifier",
            ),
        ),
        ("lambda-functions", lambda),
        ("s3-buckets", resource("S3 Buckets", "s3", "list_buckets", "buckets", "Name", "Name")),
        (
            "dynamodb-tables",
            resource("DynamoDB Tables", "dynamodb", "list_tables", "table_names", "TableName", "TableName"),
        ),
        ("sqs-queues", resource("SQS Queues", "sqs", "list_queues", "queue_urls", "QueueUrl", "QueueName")),
        ("sns-topics", resource("SNS Topics", "sns", "list_topics", "topics", "TopicArn", "TopicName")),
        (
            "secretsmanager-secrets",
            resource("Secrets", "secretsmanager", "list_secrets", "secrets", "ARN", "Name"),
        ),
        (
            "ssm-parameters",
            resource("Parameters", "ssm", "describe_parameters", "parameters", "Name", "Name"),
        ),
        ("kms-keys", resource("KMS Keys", "kms", "list_keys_with_details", "keys", "KeyId", "KeyId")),
        (
            "elasticache-clusters",
            resource(
                "ElastiCache Clusters",
                "elasticache",
                "describe_cache_clusters",
                "cache_clusters",
                "CacheClusterId",
                "CacheClusterId",
            ),
        ),
        (
            "ebs-volumes",
            resource("EBS Volumes", "ec2", "describe_volumes", "volumes", "VolumeId", "Tags.Name"),
        ),
    ])
}

fn container_document() -> ResourceConfig {
    let mut clusters = resource(
        "ECS Clusters",
        "ecs",
        "list_clusters_with_details",
        "clusters",
        "clusterArn",
        "clusterName",
    );
    clusters.sub_resources = vec![
        link("ecs-services", "Services", "s", "clusterArn", "cluster"),
        link("ecs-tasks", "Tasks", "t", "clusterArn", "cluster"),
    ];
    document(vec![
        ("ecs-clusters", clusters),
        (
            "ecs-services",
            resource(
                "ECS Services",
                "ecs",
                "list_services_with_details",
                "services",
                "serviceArn",
                "serviceName",
            ),
        ),
        (
            "ecs-tasks",
            resource("ECS Tasks", "ecs", "list_tasks_with_details", "tasks", "taskArn", "taskArn"),
        ),
        (
            "eks-clusters",
            resource("EKS Clusters", "eks", "list_clusters_with_details", "clusters", "arn", "name"),
        ),
        (
            "ecr-repositories",
            resource(
                "ECR Repositories",
                "ecr",
                "describe_repositories",
                "repositories",
                "repositoryArn",
                "repositoryName",
            ),
        ),
    ])
}

fn network_document() -> ResourceConfig {
    let mut balancers = resource(
        "Load Balancers",
        "elbv2",
        "describe_load_balancers",
        "load_balancers",
        "LoadBalancerArn",
        "LoadBalancerName",
    );
    balancers.sub_resources = vec![
        link("elbv2-listeners", "Listeners", "l", "LoadBalancerArn", "load_balancer_arn"),
        link("elbv2-target-groups", "Target Groups", "t", "LoadBalancerArn", "load_balancer_arn"),
    ];
    let mut listeners = resource(
        "Listeners",
        "elbv2",
        "describe_listeners",
        "listeners",
        "ListenerArn",
        "ListenerArn",
    );
    listeners.sub_resources = vec![link("elbv2-rules", "Rules", "r", "ListenerArn", "listener_arn")];
    let mut target_groups = resource(
        "Target Groups",
        "elbv2",
        "describe_target_groups",
        "target_groups",
        "TargetGroupArn",
        "TargetGroupName",
    );
    target_groups.sub_resources =
        vec![link("elbv2-targets", "Targets", "t", "TargetGroupArn", "target_group_arn")];
    let mut targets = resource(
        "Targets",
        "elbv2",
        "describe_target_health",
        "target_health_descriptions",
        "Target.Id",
        "Target.Id",
    );
    targets.columns.push(column("HEALTH", "TargetHealth.State", 20, Some("health")));
    let mut zones = resource(
        "Hosted Zones",
        "route53",
        "list_hosted_zones",
        "hosted_zones",
        "Id",
        "Name",
    );
    zones.is_global = true;
    ResourceConfig {
        color_maps: vec![(
            "health".to_string(),
            vec![
                color("healthy", [0, 255, 0]),
                color("unhealthy", [255, 0, 0]),
                color("draining", [255, 255, 0]),
            ],
        )],
        resources: vec![
            ("elbv2-load-balancers".to_string(), balancers),
            ("elbv2-listeners".to_string(), listeners),
            ("elbv2-target-groups".to_string(), target_groups),
            ("elbv2-targets".to_string(), targets),
            (
                "elbv2-rules".to_string(),
                resource("Rules", "elbv2", "describe_rules", "rules", "RuleArn", "RuleArn"),
            ),
            ("route53-hosted-zones".to_string(), zones),
            (
                "vpc-vpcs".to_string(),
                resource("VPCs", "ec2", "describe_vpcs", "vpcs", "VpcId", "Tags.Name"),
            ),
            (
                "vpc-subnets".to_string(),
                resource("Subnets", "ec2", "describe_subnets", "subnets", "SubnetId", "Tags.Name"),
            ),
            (
                "vpc-security-groups".to_string(),
                resource(
                    "Security Groups",
                    "ec2",
                    "describe_security_groups",
                    "security_groups",
                    "GroupId",
                    "GroupName",
                ),
            ),
            (
                "cloudformation-stacks".to_string(),
                resource(
                    "Stacks",
                    "cloudformation",
                    "describe_stacks",
                    "stacks",
                    "StackId",
                    "StackName",
                ),
            ),
            (
                "cloudwatch-log-groups".to_string(),
                resource(
                    "Log Groups",
                    "cloudwatchlogs",
                    "describe_log_groups",
                    "log_groups",
                    "arn",
                    "logGroupName",
                ),
            ),
            (
                "apigateway-rest-apis".to_string(),
                resource("REST APIs", "apigateway", "get_rest_apis", "items", "id", "name"),
            ),
        ],
    }
}

fn documents() -> Vec<ResourceConfig> {
    vec![
        common_document(),
        ec2_document(),
        iam_document(),
        data_document(),
        container_document(),
        network_document(),
    ]
}

fn registry() -> ResourceConfig {
    get_registry(documents()).expect("the documents make a catalog")
}

fn texts(keys: &[String]) -> Vec<&str> {
    keys.iter().map(|k| k.as_str()).collect()
}

#[test]
fn test_registry_loads_successfully() {
    let registry = registry();
    assert!(!registry.resources.is_empty(), "Registry should have resources");
}

#[test]
fn test_ec2_instances_resource_exists() {
    let registry = registry();
    let resource = get_resource(&registry, "ec2-instances");
    assert!(resource.is_some(), "EC2 instances resource should exist");

    let resource = resource.unwrap();
    assert_eq!(resource.display_name, "EC2 Instances");
    assert_eq!(resource.service, "ec2");
    assert_eq!(resource.sdk_method, "describe_instances");
    assert!(!resource.columns.is_empty(), "EC2 instances should have columns");
}

#[test]
fn test_iam_users_resource_exists() {
    let registry = registry();
    let resource = get_resource(&registry, "iam-users");
    assert!(resource.is_some(), "IAM users resource should exist");

    let resource = resource.unwrap();
    assert_eq!(resource.service, "iam");
    assert!(resource.is_global, "IAM should be a global service");
}

#[test]
fn test_iam_users_has_sub_resources() {
    let registry = registry();
    let resource = get_resource(&registry, "iam-users").unwrap();
    assert!(!resource.sub_resources.is_empty(), "IAM users should have sub-resources");

    let policy_sub = resource.sub_resources.iter().find(|s| s.resource_key == "iam-user-policies");
    assert!(policy_sub.is_some(), "IAM users should have policies sub-resource");
}

#[test]
fn test_ec2_instances_has_actions() {
    let registry = registry();
    let resource = get_resource(&registry, "ec2-instances").unwrap();
    assert!(!resource.actions.is_empty(), "EC2 instances should have actions");

    let start_action = resource.actions.iter().find(|a| a.sdk_method == "start_instance");
    assert!(start_action.is_some(), "EC2 should have start action");

    let terminate_action = resource.actions.iter().find(|a| a.sdk_method == "terminate_instance");
    assert!(terminate_action.is_some(), "EC2 should have terminate action");
    assert!(
        terminate_action.unwrap().requires_confirm(),
        "Terminate should require confirmation"
    );
}

#[test]
fn test_get_all_resource_keys() {
    let registry = registry();
    let keys = get_all_resource_keys(&registry);
    let keys = texts(&keys);
    assert!(keys.len() >= 30, "Should have at least 30 resource types");
    assert!(keys.contains(&"ec2-instances"), "Should contain ec2-instances");
    assert!(keys.contains(&"lambda-functions"), "Should contain lambda-functions");
    assert!(keys.contains(&"s3-buckets"), "Should contain s3-buckets");
}

#[test]
fn test_common_color_maps_exist() {
    let registry = registry();
    let state_map = get_color_map(&registry, "state");
    assert!(state_map.is_some(), "State color map should exist");

    let bool_map = get_color_map(&registry, "bool");
    assert!(bool_map.is_some(), "Bool color map should exist");
}

#[test]
fn test_get_color_for_running_state() {
    let registry = registry();
    let color = get_color_for_value(&registry, "state", "running");
    assert!(color.is_some(), "Should have color for 'running' state");
    assert_eq!(color.unwrap(), [0, 255, 0]);
}

#[test]
fn test_rds_has_sub_resources() {
    let registry = registry();
    let resource = get_resource(&registry, "rds-instances").unwrap();
    assert!(!resource.sub_resources.is_empty(), "RDS should have sub-resources");

    let snapshot_sub = resource.sub_resources.iter().find(|s| s.resource_key == "rds-snapshots");
    assert!(snapshot_sub.is_some(), "RDS should have snapshots sub-resource");
}

#[test]
fn test_ecs_has_sub_resources() {
    let registry = registry();
    let resource = get_resource(&registry, "ecs-clusters").unwrap();
    assert!(!resource.sub_resources.is_empty(), "ECS clusters should have sub-resources");

    let services_sub = resource.sub_resources.iter().find(|s| s.resource_key == "ecs-services");
    assert!(services_sub.is_some(), "ECS should have services sub-resource");

    let tasks_sub = resource.sub_resources.iter().find(|s| s.resource_key == "ecs-tasks");
    assert!(tasks_sub.is_some(), "ECS should have tasks sub-resource");
}

#[test]
fn test_lambda_has_actions() {
    let registry = registry();
    let resource = get_resource(&registry, "lambda-functions").unwrap();
    assert!(!resource.actions.is_empty(), "Lambda functions should have actions");

    let invoke_action = resource.actions.iter().find(|a| a.sdk_method == "invoke_function");
    assert!(invoke_action.is_some(), "Lambda should have invoke action");
}

#[test]
fn test_all_resources_have_required_fields() {
    let registry = registry();
    for (key, resource) in &registry.resources {
        assert!(!resource.display_name.is_empty(), "Resource {} should have display_name", key);
        assert!(!resource.service.is_empty(), "Resource {} should have service", key);
        assert!(!resource.sdk_method.is_empty(), "Resource {} should have sdk_method", key);
        assert!(!resource.id_field.is_empty(), "Resource {} should have id_field", key);
        assert!(!resource.name_field.is_empty(), "Resource {} should have name_field", key);
    }
}

#[test]
fn test_elbv2_load_balancers_resource_exists() {
    let registry = registry();
    let resource = get_resource(&registry, "elbv2-load-balancers");
    assert!(resource.is_some(), "ELBv2 load balancers resource should exist");

    let resource = resource.unwrap();
    assert_eq!(resource.display_name, "Load Balancers");
    assert_eq!(resource.service, "elbv2");
    assert_eq!(resource.sdk_method, "describe_load_balancers");
}

#[test]
fn test_elbv2_has_sub_resources() {
    let registry = registry();
    let resource = get_resource(&registry, "elbv2-load-balancers").unwrap();
    assert!(
        !resource.sub_resources.is_empty(),
        "ELBv2 load balancers should have sub-resources"
    );

    let listeners_sub = resource.sub_resources.iter().find(|s| s.resource_key == "elbv2-listeners");
    assert!(listeners_sub.is_some(), "ELBv2 should have listeners sub-resource");

    let target_groups_sub =
        resource.sub_resources.iter().find(|s| s.resource_key == "elbv2-target-groups");
    assert!(target_groups_sub.is_some(), "ELBv2 should have target groups sub-resource");
}

#[test]
fn test_elbv2_listeners_has_rules_sub_resource() {
    let registry = registry();
    let resource = get_resource(&registry, "elbv2-listeners").unwrap();

    let rules_sub = resource.sub_resources.iter().find(|s| s.resource_key == "elbv2-rules");
    assert!(rules_sub.is_some(), "ELBv2 listeners should have rules sub-resource");
}

#[test]
fn test_elbv2_target_groups_has_targets_sub_resource() {
    let registry = registry();
    let resource = get_resource(&registry, "elbv2-target-groups").unwrap();

    let targets_sub = resource.sub_resources.iter().find(|s| s.resource_key == "elbv2-targets");
    assert!(targets_sub.is_some(), "ELBv2 target groups should have targets sub-resource");
}

#[test]
fn test_elbv2_health_color_map_exists() {
    let registry = registry();
    let health_map = get_color_map(&registry, "health");
    assert!(health_map.is_some(), "Health color map should exist");

    let color = get_color_for_value(&registry, "health", "healthy");
    assert!(color.is_some(), "Should have color for 'healthy' state");
    assert_eq!(color.unwrap(), [0, 255, 0]);
}

#[test]
fn every_sub_resource_link_resolves() {
    let registry = registry();
    for (key, resource) in &registry.resources {
        for sub in &resource.sub_resources {
            assert!(
                get_resource(&registry, &sub.resource_key).is_some(),
                "{} links to {}, which should resolve",
                key,
                sub.resource_key
            );
        }
    }
}

#[test]
fn every_known_key_resolves_to_a_valid_descriptor() {
    let registry = registry();
    for key in get_all_resource_keys(&registry) {
        let resource = get_resource(&registry, &key).expect("a known key resolves");
        assert!(!resource.columns.is_empty());
        assert!(!resource.id_field.is_empty());
        assert!(!resource.name_field.is_empty());
    }
}

#[test]
fn resource_keys_come_in_dictionary_order() {
    let registry = get_registry(vec![document(vec![
        ("vm", resource("VMs", "compute", "list_vms", "vms", "Id", "Name")),
        ("disk", resource("Disks", "compute", "list_disks", "disks", "Id", "Name")),
        ("vm-volumes", resource("Volumes", "compute", "list_volumes", "volumes", "Id", "Name")),
        ("app", resource("Apps", "apps", "list_apps", "apps", "Id", "Name")),
    ])])
    .unwrap();
    assert_eq!(get_all_resource_keys(&registry), vec!["app", "disk", "vm", "vm-volumes"]);
}

#[test]
fn merging_keeps_the_entries_in_document_order() {
    let registry = registry();
    let keys: Vec<&str> = registry.resources.iter().map(|(key, _)| key.as_str()).collect();
    assert_eq!(keys[0], "ec2-instances");
    assert_eq!(keys[1], "iam-users");
    assert_eq!(keys.len(), 38);
    assert_eq!(registry.color_maps.len(), 3);
}

#[test]
fn a_second_entry_with_the_same_key_fails_the_merge() {
    let first = document(vec![("vm", resource("VMs", "compute", "list_vms", "vms", "Id", "Name"))]);
    let second =
        document(vec![("vm", resource("Machines", "compute", "list", "machines", "Id", "Name"))]);
    match get_registry(vec![first, second]) {
        Err(CatalogError::DuplicateResource(key)) => assert_eq!(key, "vm"),
        other => panic!("expected a duplicate key error, got {:?}", other),
    }
}

#[test]
fn a_descriptor_without_an_id_field_fails_the_merge() {
    let broken = document(vec![("vm", resource("VMs", "compute", "list_vms", "vms", "", "Name"))]);
    match get_registry(vec![broken]) {
        Err(CatalogError::MissingIdField(key)) => assert_eq!(key, "vm"),
        other => panic!("expected a missing id field error, got {:?}", other),
    }
}

#[test]
fn a_descriptor_without_a_name_field_fails_the_merge() {
    let broken = document(vec![("vm", resource("VMs", "compute", "list_vms", "vms", "Id", ""))]);
    match get_registry(vec![broken]) {
        Err(CatalogError::MissingNameField(key)) => assert_eq!(key, "vm"),
        other => panic!("expected a missing name field error, got {:?}", other),
    }
}

#[test]
fn a_descriptor_without_columns_fails_the_merge() {
    let mut def = resource("VMs", "compute", "list_vms", "vms", "Id", "Name");
    def.columns = vec![];
    match get_registry(vec![document(vec![("vm", def)])]) {
        Err(CatalogError::NoColumns(key)) => assert_eq!(key, "vm"),
        other => panic!("expected a missing columns error, got {:?}", other),
    }
}

#[test]
fn the_first_fault_in_document_order_is_reported() {
    let good = resource("VMs", "compute", "list_vms", "vms", "Id", "Name");
    let no_name = resource("Disks", "compute", "list_disks", "disks", "Id", "");
    let documents = vec![
        document(vec![("vm", good.clone()), ("disk", no_name)]),
        document(vec![("vm", good)]),
    ];
    match get_registry(documents) {
        Err(CatalogError::MissingNameField(key)) => assert_eq!(key, "disk"),
        other => panic!("expected the missing name field of disk, got {:?}", other),
    }
}

#[test]
fn no_documents_make_an_empty_catalog() {
    let registry = get_registry(vec![]).unwrap();
    assert!(registry.resources.is_empty());
    assert!(registry.color_maps.is_empty());
    assert!(get_all_resource_keys(&registry).is_empty());
    assert!(get_resource(&registry, "vm").is_none());
}

#[test]
fn a_later_color_table_replaces_an_earlier_one() {
    let first = ResourceConfig {
        color_maps: vec![("state".to_string(), vec![color("running", [1, 2, 3])])],
        resources: vec![],
    };
    let second = ResourceConfig {
        color_maps: vec![("state".to_string(), vec![color("running", [4, 5, 6])])],
        resources: vec![],
    };
    let registry = get_registry(vec![first, second]).unwrap();
    assert_eq!(get_color_for_value(&registry, "state", "running"), Some([4, 5, 6]));
}

#[test]
fn colors_are_missing_for_unknown_tables_and_values() {
    let registry = registry();
    assert_eq!(get_color_for_value(&registry, "state", "exploded"), None);
    assert_eq!(get_color_for_value(&registry, "mood", "running"), None);
    assert!(get_color_map(&registry, "mood").is_none());
    assert_eq!(get_color_for_value(&registry, "state", "stopped"), Some([255, 0, 0]));
}

#[test]
fn the_first_rule_for_a_value_gives_its_color() {
    let registry = ResourceConfig {
        color_maps: vec![(
            "state".to_string(),
            vec![color("running", [1, 1, 1]), color("running", [2, 2, 2])],
        )],
        resources: vec![],
    };
    assert_eq!(get_color_for_value(&registry, "state", "running"), Some([1, 1, 1]));
}

#[test]
fn an_action_asks_for_confirmation_by_policy_or_by_flag() {
    let plain = action("start", "Start", "start_instance", None);
    assert!(!plain.requires_confirm());
    assert!(plain.get_confirm_config().is_none());

    let flagged = ActionDef { needs_confirm: true, ..action("delete", "Delete", "delete", None) };
    assert!(flagged.requires_confirm());
    let config = flagged.get_confirm_config().unwrap();
    assert_eq!(config.message.as_deref(), Some("Delete"));
    assert!(!config.default_yes);
    assert!(!config.destructive);

    let declared = action(
        "terminate",
        "Terminate",
        "terminate_instance",
        Some(ConfirmConfig { message: Some("Really?".to_string()), default_yes: true, destructive: true }),
    );
    assert!(declared.requires_confirm());
    let config = declared.get_confirm_config().unwrap();
    assert_eq!(config.message.as_deref(), Some("Really?"));
    assert!(config.default_yes);
    assert!(config.destructive);
}

#[test]
fn the_default_confirmation_policy_is_cautious() {
    let config = ConfirmConfig::default();
    assert!(config.message.is_none());
    assert!(!config.default_yes);
    assert!(!config.destructive);
}

#[test]
fn a_descriptor_finds_its_first_link_to_a_child() {
    let mut vm = resource("VMs", "compute", "list_vms", "vms", "Id", "Name");
    vm.sub_resources = vec![
        link("vm-volumes", "Volumes", "v", "Id", "vmId"),
        link("vm-volumes", "Volumes again", "w", "Name", "vmName"),
    ];
    assert_eq!(vm.find_sub_resource("vm-volumes").unwrap().filter_param, "vmId");
    assert!(vm.find_sub_resource("vm-disks").is_none());
}

#[test]
fn the_links_of_the_catalog_resolve() {
    assert!(links_resolve(&registry()));
}

#[test]
fn a_link_to_a_resource_that_is_not_there_is_found() {
    let mut broken = registry();
    let last = broken.resources.len() - 1;
    broken.resources[last].1.sub_resources.push(link("no-such", "Nothing", "n", "Id", "id"));
    assert!(!links_resolve(&broken));
    assert!(links_resolve(&ResourceConfig { color_maps: vec![], resources: vec![] }));
}
