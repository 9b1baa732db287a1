use oxidesip::signaling::config::{
    load_config, load_config_from_env, DtmfMode, EnvVars, PreferredCodec, RawConfig, SipAccountConfig,
    SipTransport,
};
use oxidesip::signaling::error::CoreError;

fn text_field(table: &toml::Table, key: &str) -> Option<String> {
    table.get(key).and_then(|v| v.as_str()).map(|s| s.to_string())
}

/// The fields of a configuration file that these tests use.
fn raw_from_toml(text: &str) -> RawConfig {
    let table: toml::Table = text.parse().unwrap();
    RawConfig {
        sip_server_host: text_field(&table, "sip_server_host"),
        username: text_field(&table, "username"),
        password: text_field(&table, "password"),
        ca_cert_path: text_field(&table, "ca_cert_path"),
        ..Default::default()
    }
}

#[test]
fn missing_required_field_errors() {
    let raw = RawConfig::default();
    assert!(raw.into_config().is_err());
}

#[test]
fn defaults_applied() {
    let raw = RawConfig {
        sip_server_host: Some("pbx.example.com".into()),
        username: Some("1001".into()),
        password: Some("secret".into()),
        ..Default::default()
    };
    let cfg = raw.into_config().unwrap();
    assert_eq!(cfg.transport, SipTransport::Udp);
    assert_eq!(cfg.sip_server_port, 5060);
    assert_eq!(cfg.register_expires, 3600);
    assert_eq!(cfg.local_port, 0);
    assert!(!cfg.srtp);
    assert!(cfg.ca_cert_path.is_none());
    assert_eq!(cfg.dtmf_mode, DtmfMode::Auto);
    assert_eq!(cfg.preferred_payload_types(), vec![0, 8]);
}

#[test]
fn tls_transport_defaults_and_requires_ca_cert() {
    let raw = RawConfig {
        sip_server_host: Some("pbx.example.com".into()),
        username: Some("1001".into()),
        password: Some("secret".into()),
        transport: Some(SipTransport::Tls),
        ..Default::default()
    };
    assert!(raw.into_config().is_err());

    let raw = RawConfig {
        sip_server_host: Some("pbx.example.com".into()),
        username: Some("1001".into()),
        password: Some("secret".into()),
        transport: Some(SipTransport::Tls),
        ca_cert_path: Some("./ca.pem".into()),
        ..Default::default()
    };
    let cfg = raw.into_config().unwrap();
    assert_eq!(cfg.sip_server_port, 5061);
}

#[test]
fn toml_load_and_env_override_precedence() {
    let text = r#"
sip_server_host = "pbx.example.com"
username = "1001"
password = "filepass"
ca_cert_path = "./ca.pem"
"#;
    let cfg = load_config(raw_from_toml(text), &EnvVars::default()).expect("should load from file");
    assert_eq!(cfg.sip_server_host, "pbx.example.com");
    assert_eq!(cfg.password, "filepass");
    assert_eq!(cfg.sip_server_port, 5060);

    let env = EnvVars { password: Some("envpass".into()), ..Default::default() };
    let cfg = load_config(raw_from_toml(text), &env).expect("should load with env override");
    assert_eq!(cfg.password, "envpass");
    assert_eq!(cfg.sip_server_host, "pbx.example.com");
}

#[test]
fn udp_transport_does_not_require_ca_cert() {
    let text = r#"
sip_server_host = "pbx.example.com"
username = "1001"
password = "filepass"
"#;
    let cfg = load_config(raw_from_toml(text), &EnvVars::default())
        .expect("udp transport should not require ca_cert_path");
    assert_eq!(cfg.transport, SipTransport::Udp);
    assert_eq!(cfg.sip_server_port, 5060);
    assert!(cfg.ca_cert_path.is_none());
    assert!(!cfg.srtp);
}

#[test]
fn env_overrides_transport_and_srtp() {
    let text = r#"
sip_server_host = "pbx.example.com"
username = "1001"
password = "filepass"
"#;
    let env = EnvVars {
        transport: Some("tcp".into()),
        srtp: Some("true".into()),
        ..Default::default()
    };
    let cfg = load_config(raw_from_toml(text), &env).expect("should load with transport/srtp overrides");
    assert_eq!(cfg.transport, SipTransport::Tcp);
    assert_eq!(cfg.sip_server_port, 5060);
    assert!(cfg.srtp);
}

#[test]
fn the_environment_alone_is_enough() {
    let env = EnvVars {
        sip_server_host: Some("pbx".into()),
        sip_server_port: Some("5080".into()),
        username: Some("1001".into()),
        password: Some("secret".into()),
        preferred_codecs: Some("alaw, ulaw".into()),
        ..Default::default()
    };
    let cfg = load_config_from_env(&env).unwrap();
    assert_eq!(cfg.sip_server_port, 5080);
    assert_eq!(cfg.preferred_codecs, vec![PreferredCodec::Alaw, PreferredCodec::Ulaw]);
    assert!(load_config_from_env(&EnvVars::default()).is_err());
}

#[test]
fn missing_fields_are_named() {
    let raw = RawConfig { sip_server_host: Some("pbx".into()), ..Default::default() };
    match raw.into_config() {
        Err(CoreError::Config(text)) => assert_eq!(text, "missing username"),
        _ => panic!("an account without a user"),
    }
}

#[test]
fn a_blank_account_has_the_usual_values() {
    let config = SipAccountConfig::default();
    assert_eq!(config.sip_server_port, 5060);
    assert_eq!(config.register_expires, 3600);
    assert_eq!(config.preferred_codecs, vec![PreferredCodec::Ulaw, PreferredCodec::Alaw]);
    assert_eq!(config.reg_epoch, 0);
}

#[test]
fn names_of_transports_and_codecs() {
    assert_eq!(SipTransport::parse_env("TLS"), Some(SipTransport::Tls));
    assert_eq!(SipTransport::parse_env("sctp"), None);
    assert_eq!(SipTransport::Tcp.as_parameter(), "tcp");
    assert_eq!(PreferredCodec::Alaw.payload_type(), 8);
    assert_eq!(PreferredCodec::parse_env("g729"), None);
}
