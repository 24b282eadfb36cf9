use tmux_wax::config_from_fields;
use tmux_wax::ConfigError;
use tmux_wax::ConfigField;

#[test]
fn config_well_formed_record() {
    let config = config_from_fields(
        Some("testuser".to_string()),
        Some("testpass".to_string()),
        Some("127.0.0.1".to_string()),
        Some(22),
    )
    .expect("Failed to read config");
    assert_eq!(config.username, "testuser");
    assert_eq!(config.password, "testpass");
    assert_eq!(config.host, "127.0.0.1");
    assert_eq!(config.port, 22);
}

#[test]
fn config_missing_username() {
    let r = config_from_fields(
        None,
        Some("testpass".to_string()),
        Some("127.0.0.1".to_string()),
        Some(22),
    );
    assert_eq!(
        r.unwrap_err(),
        ConfigError::MissingField(ConfigField::Username)
    );
}

#[test]
fn config_missing_password() {
    let r = config_from_fields(
        Some("testuser".to_string()),
        None,
        Some("127.0.0.1".to_string()),
        Some(22),
    );
    assert_eq!(
        r.unwrap_err(),
        ConfigError::MissingField(ConfigField::Password)
    );
}

#[test]
fn config_missing_host() {
    let r = config_from_fields(
        Some("testuser".to_string()),
        Some("testpass".to_string()),
        None,
        Some(22),
    );
    assert_eq!(r.unwrap_err(), ConfigError::MissingField(ConfigField::Host));
}

#[test]
fn config_missing_port() {
    let r = config_from_fields(
        Some("testuser".to_string()),
        Some("testpass".to_string()),
        Some("127.0.0.1".to_string()),
        None,
    );
    assert_eq!(r.unwrap_err(), ConfigError::MissingField(ConfigField::Port));
}

#[test]
fn config_port_out_of_range() {
    let r = config_from_fields(
        Some("testuser".to_string()),
        Some("testpass".to_string()),
        Some("127.0.0.1".to_string()),
        Some(65536),
    );
    assert_eq!(r.unwrap_err(), ConfigError::PortOutOfRange);
    let r = config_from_fields(
        Some("testuser".to_string()),
        Some("testpass".to_string()),
        Some("127.0.0.1".to_string()),
        Some(-1),
    );
    assert_eq!(r.unwrap_err(), ConfigError::PortOutOfRange);
}

#[test]
fn config_port_boundaries() {
    let config = config_from_fields(
        Some("u".to_string()),
        Some("p".to_string()),
        Some("h".to_string()),
        Some(65535),
    )
    .expect("largest port must be accepted");
    assert_eq!(config.port, 65535);
    let config = config_from_fields(
        Some("u".to_string()),
        Some("p".to_string()),
        Some("h".to_string()),
        Some(0),
    )
    .expect("port zero must be accepted");
    assert_eq!(config.port, 0);
}
