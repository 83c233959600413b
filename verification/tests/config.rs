use shuidui_backend::config::{
    parse_port, resolve_config, ConfigError, EnvValues, PortError, ALERT_CHANNEL_CAPACITY,
};
use std::num::IntErrorKind;

fn std_kind(s: &str) -> Result<u16, PortError> {
    s.parse::<u16>().map_err(|e| match e.kind() {
        IntErrorKind::Empty => PortError::Empty,
        IntErrorKind::InvalidDigit => PortError::InvalidDigit,
        IntErrorKind::PosOverflow => PortError::PosOverflow,
        other => panic!("unexpected kind {:?}", other),
    })
}

#[test]
fn parses_like_the_standard_library() {
    let cases = [
        "", "+", "-", "-0", "-1", "0", "1883", "+80", "0080", "00000000065535", "65535",
        "65536", "99999", "99999a", "6553a", "a", " 80", "80 ", "8_0", "８０", "1e3",
        "+-1", "++1", "655350", "123456789012345678901234567890", "6553x6",
    ];
    for s in cases {
        assert_eq!(parse_port(s), std_kind(s), "input {:?}", s);
    }
}

#[test]
fn every_port_round_trips() {
    for n in 0..=u16::MAX {
        assert_eq!(parse_port(&n.to_string()), Ok(n));
    }
}

fn unset() -> EnvValues {
    EnvValues {
        clickhouse_url: None,
        clickhouse_db: None,
        mqtt_broker: None,
        mqtt_port: None,
        mqtt_topic: None,
        api_port: None,
    }
}

#[test]
fn defaults_when_unset() {
    let c = resolve_config(unset()).unwrap();
    assert_eq!(c.clickhouse_url, "http://localhost:8123");
    assert_eq!(c.clickhouse_db, "shuidui");
    assert_eq!(c.mqtt_broker, "localhost");
    assert_eq!(c.mqtt_port, 1883);
    assert_eq!(c.mqtt_topic, "shuidui/sensor/#");
    assert_eq!(c.api_port, 8080);
    assert_eq!(ALERT_CHANNEL_CAPACITY, 100);
}

#[test]
fn given_values_win() {
    let env = EnvValues {
        clickhouse_url: Some("http://ch:9000".to_string()),
        clickhouse_db: Some("db".to_string()),
        mqtt_broker: Some("broker".to_string()),
        mqtt_port: Some("+1884".to_string()),
        mqtt_topic: Some("t/#".to_string()),
        api_port: Some("9090".to_string()),
    };
    let c = resolve_config(env).unwrap();
    assert_eq!(c.clickhouse_url, "http://ch:9000");
    assert_eq!(c.clickhouse_db, "db");
    assert_eq!(c.mqtt_broker, "broker");
    assert_eq!(c.mqtt_port, 1884);
    assert_eq!(c.mqtt_topic, "t/#");
    assert_eq!(c.api_port, 9090);
}

#[test]
fn bad_ports_are_reported_mqtt_first() {
    let mut env = unset();
    env.mqtt_port = Some("x".to_string());
    env.api_port = Some("".to_string());
    assert_eq!(
        resolve_config(env).err(),
        Some(ConfigError::MqttPort(PortError::InvalidDigit))
    );

    let mut env = unset();
    env.api_port = Some("70000".to_string());
    assert_eq!(resolve_config(env).err(), Some(ConfigError::ApiPort(PortError::PosOverflow)));

    let mut env = unset();
    env.api_port = Some("".to_string());
    assert_eq!(resolve_config(env).err(), Some(ConfigError::ApiPort(PortError::Empty)));
}
