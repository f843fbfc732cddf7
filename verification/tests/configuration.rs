use rev::application_config::{ApplicationConfig, ApplicationSettings, ConfigError};

#[test]
fn settings_hold_home_and_extension() {
    let settings = ApplicationSettings::new("/home/someone/.config/rev".to_string(), "kdl".to_string());
    assert_eq!(settings.config_home, "/home/someone/.config/rev");
    assert_eq!(settings.config_file_ext, "kdl");
}

#[test]
fn config_requires_a_committer() {
    let ok = ApplicationConfig::new(Some("someone".to_string())).expect("a committer was given");
    assert_eq!(ok.committer(), "someone");
    let err = ApplicationConfig::new(None).expect_err("no committer was given");
    assert_eq!(err, ConfigError::MissingCommitter);
}
