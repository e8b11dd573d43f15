use padre::config::Config;

#[test]
fn check_set_and_get_config_item() {
    let mut config = Config::new();
    assert_eq!(config.get_config("BackPressure"), Some(20));
    assert_eq!(config.set_config("BackPressure", 0), true);
    assert_eq!(config.get_config("BackPressure"), Some(0));
}

#[test]
fn check_get_non_existent_config_item() {
    let config = Config::new();
    assert_eq!(config.get_config("NotExists"), None);
}

#[test]
fn check_set_non_existent_config_item() {
    let mut config = Config::new();
    assert_eq!(config.set_config("NotExists", 2), false);
}

#[test]
fn config_defaults() {
    let config = Config::new();
    assert_eq!(config.get_config("UnknownPosition"), Some(0));
    assert_eq!(config.get_config("ProcessSpawnTimeout"), Some(10));
    assert_eq!(config.get_config("BreakpointTimeout"), Some(2));
    assert_eq!(config.get_config("PrintVariableTimeout"), Some(2));
    assert_eq!(config.get_config("StepTimeout"), None);
}

#[test]
fn config_set_leaves_others() {
    let mut config = Config::new();
    assert!(config.set_config("PrintVariableTimeout", 7));
    assert_eq!(config.get_config("PrintVariableTimeout"), Some(7));
    assert_eq!(config.get_config("BreakpointTimeout"), Some(2));
    assert!(!config.set_config("backpressure", 1));
    assert_eq!(config.get_config("BackPressure"), Some(20));
}
