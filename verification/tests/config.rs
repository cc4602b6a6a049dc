use standards::config::{
    default_auth_tcp_addr, default_bind, Config, DEFAULT_AUTH_TCP_ADDR, DEFAULT_BIND, SHARED_ENV,
};
use standards::telemetry::deployment_environment;
use standards::public_id::ParseError;

#[test]
fn defaults_come_from_the_default_functions() {
    let config = Config::default();
    assert_eq!(config.bind, "127.0.0.1:8080");
    assert_eq!(config.auth_tcp_addr, "tcp.auth.dev.thmsn.dev:7070");
    assert_eq!(config.auth_admin_key, "");
    assert_eq!(config.otlp_endpoint, None);
    assert_eq!(config.bind, default_bind());
    assert_eq!(config.auth_tcp_addr, default_auth_tcp_addr());
    assert_eq!(DEFAULT_BIND, "127.0.0.1:8080");
    assert_eq!(DEFAULT_AUTH_TCP_ADDR, "tcp.auth.dev.thmsn.dev:7070");
}

#[test]
fn shared_env_lists_the_fleet_variables() {
    assert_eq!(SHARED_ENV, ["AUTH_ADMIN_KEY", "AUTH_MODE", "OTLP_ENDPOINT", "PRODUCTION"]);
}

#[test]
fn deployment_environment_follows_production() {
    assert_eq!(deployment_environment(true), "production");
    assert_eq!(deployment_environment(false), "development");
}

#[test]
fn number_and_char_text_in_messages() {
    assert_eq!(ParseError::Length(0).message(), "public id must be 11 chars, got 0");
    assert_eq!(ParseError::Length(1234567).message(), "public id must be 11 chars, got 1234567");
    assert_eq!(ParseError::Char('a').message(), "invalid public-id character 'a'");
    assert_eq!(ParseError::Char('\'').message(), "invalid public-id character '\\''");
}
