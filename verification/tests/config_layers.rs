use nervemq::config::defaults;
use nervemq::config::{Config, ConfigBuilder, DataDirLayer, DefaultsLayer};

#[test]
fn accessors_fall_back_to_defaults() {
    let config = Config::default();

    assert_eq!(config.db_path(), defaults::DB_PATH);
    assert_eq!(config.default_max_retries(), defaults::MAX_RETRIES);
    assert_eq!(
        url::Url::parse(&config.host()).unwrap(),
        url::Url::parse(defaults::HOST).unwrap()
    );
    assert_eq!(config.bind_address(), defaults::BIND_ADDRESS);
    assert_eq!(config.root_email(), defaults::ROOT_EMAIL);
    assert_eq!(config.root_password(), defaults::ROOT_PASSWORD);
}

#[test]
fn root_password_provided_reflects_explicit_configuration() {
    assert!(!Config::default().root_password_provided());

    let config = Config {
        root_password: Some("hunter2".to_string()),
        ..Default::default()
    };
    assert!(config.root_password_provided());
    assert_eq!(config.root_password(), "hunter2");
}

#[test]
fn defaults_layer_supplies_every_field() {
    let config = ConfigBuilder::new()
        .with_layer(DefaultsLayer.resolve())
        .load();

    assert_eq!(config.db_path, Some(defaults::DB_PATH.to_string()));
    assert_eq!(config.default_max_retries, Some(defaults::MAX_RETRIES));
    assert_eq!(
        url::Url::parse(config.host.as_deref().unwrap()).unwrap(),
        url::Url::parse(defaults::HOST).unwrap()
    );
    assert_eq!(config.bind_address, Some(defaults::BIND_ADDRESS.to_string()));
    assert_eq!(config.root_email, Some(defaults::ROOT_EMAIL.to_string()));
    assert!(config.root_password.is_none());
    assert!(!config.root_password_provided());
    assert_eq!(config.root_password(), defaults::ROOT_PASSWORD);
}

#[test]
fn an_empty_builder_validates_to_the_base_config() {
    let config = ConfigBuilder::new().load();
    assert!(config.db_path.is_none());
    assert!(config.root_email.is_none());
}

#[test]
fn later_layers_override_earlier_ones_field_by_field() {
    let overrides = Config {
        db_path: Some("custom.db".to_string()),
        default_max_retries: Some(7),
        ..Default::default()
    };

    let config = ConfigBuilder::new()
        .with_layer(DefaultsLayer.resolve())
        .with_layer(overrides)
        .load();

    assert_eq!(config.db_path(), "custom.db");
    assert_eq!(config.default_max_retries(), 7);
    assert_eq!(
        url::Url::parse(&config.host()).unwrap(),
        url::Url::parse(defaults::HOST).unwrap()
    );
    assert_eq!(config.root_email(), defaults::ROOT_EMAIL);
}

#[test]
fn sessions_db_path_defaults_to_a_sibling_of_the_main_database() {
    let config = Config::default();
    assert_eq!(config.sessions_db_path(), "sessions.db");

    let config = Config {
        db_path: Some("/data/nervemq.db".to_string()),
        ..Default::default()
    };
    assert_eq!(config.sessions_db_path(), "/data/sessions.db");

    let config = Config {
        db_path: Some("/data/nervemq.db".to_string()),
        sessions_db_path: Some("/elsewhere/s.db".to_string()),
        ..Default::default()
    };
    assert_eq!(config.sessions_db_path(), "/elsewhere/s.db");
}

#[test]
fn data_dir_layer_places_databases_in_the_directory() {
    let config = ConfigBuilder::new()
        .with_layer(DefaultsLayer.resolve())
        .with_layer(DataDirLayer::new("/data/nervemq".to_string()).resolve())
        .load();

    assert_eq!(config.db_path(), "/data/nervemq/nervemq.db");
    assert_eq!(config.sessions_db_path(), "/data/nervemq/sessions.db");
}

#[test]
fn data_dir_layer_overrides_environment_db_path() {
    let environment = Config {
        db_path: Some("/tmp/env-test.db".to_string()),
        ..Default::default()
    };
    let config = ConfigBuilder::new()
        .with_layer(DefaultsLayer.resolve())
        .with_layer(environment)
        .with_layer(DataDirLayer::new("/data".to_string()).resolve())
        .load();

    assert_eq!(config.db_path(), "/data/nervemq.db");
}

#[test]
fn applying_an_empty_layer_changes_nothing() {
    let base = DefaultsLayer.resolve();
    let applied = DefaultsLayer.resolve().apply(Config::default());
    assert_eq!(applied.db_path, base.db_path);
    assert_eq!(applied.host, base.host);
    assert_eq!(applied.root_password, base.root_password);
    let onto_empty = Config::default().apply(DefaultsLayer.resolve());
    assert_eq!(onto_empty.bind_address, base.bind_address);
}

#[test]
fn layering_is_associative_on_a_sample() {
    let a = DefaultsLayer.resolve();
    let b = Config { db_path: Some("b.db".to_string()), ..Default::default() };
    let c = Config { root_email: Some("c@example.com".to_string()), ..Default::default() };
    let left = a.clone().apply(b.clone()).apply(c.clone());
    let right = a.apply(b.apply(c));
    assert_eq!(left.db_path, right.db_path);
    assert_eq!(left.root_email, right.root_email);
    assert_eq!(left.bind_address, right.bind_address);
    assert_eq!(left.db_path(), "b.db");
    assert_eq!(left.root_email(), "c@example.com");
}

#[test]
fn sessions_path_of_a_bare_file_name_is_bare() {
    let config = Config { db_path: Some("queue.db".to_string()), ..Default::default() };
    assert_eq!(config.sessions_db_path(), "sessions.db");
}
