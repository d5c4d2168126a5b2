use taws::config::Config;

#[test]
fn test_default_config() {
    let config = Config::default();
    assert!(config.profile.is_none());
    assert!(config.region.is_none());
}

#[test]
fn the_default_config_remembers_no_resource() {
    assert!(Config::default().last_resource.is_none());
}

#[test]
fn setters_remember_one_value_each() {
    let mut config = Config::default();
    config.set_profile("my-profile");
    assert_eq!(config.profile.as_deref(), Some("my-profile"));
    assert!(config.region.is_none());
    config.set_region("eu-west-1");
    assert_eq!(config.region.as_deref(), Some("eu-west-1"));
    config.set_last_resource("ec2-instances");
    assert_eq!(config.last_resource.as_deref(), Some("ec2-instances"));
    assert_eq!(config.profile.as_deref(), Some("my-profile"));
}

#[test]
fn the_effective_profile_prefers_the_environment() {
    let mut config = Config::default();
    assert_eq!(config.effective_profile(None), "default");
    config.set_profile("saved");
    assert_eq!(config.effective_profile(None), "saved");
    assert_eq!(config.effective_profile(Some("from-env".to_string())), "from-env");
}

#[test]
fn the_effective_region_prefers_the_environment() {
    let mut config = Config::default();
    assert_eq!(config.effective_region(None, None), "us-east-1");
    config.set_region("eu-west-1");
    assert_eq!(config.effective_region(None, None), "eu-west-1");
    assert_eq!(config.effective_region(None, Some("ap-south-1".to_string())), "ap-south-1");
    assert_eq!(
        config.effective_region(Some("us-west-2".to_string()), Some("ap-south-1".to_string())),
        "us-west-2"
    );
}
