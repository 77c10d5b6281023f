use pulse::config::{
    default_heartbeat_interval, default_heartbeat_timeout, default_max_channels,
    default_max_connections, default_max_message_size, default_max_subscriptions,
    default_metrics_port, default_true, default_ws_path, parse_port, AppState, Config,
    HeartbeatConfig, LimitsConfig, MetricsConfig, TransportConfig,
};

#[test]
fn test_default_config() {
    let config = Config::default();
    assert_eq!(config.port, 8080);
    assert!(config.transport.websocket);
    assert!(!config.transport.webtransport);
}

#[test]
fn test_config_bind_addr() {
    let config = Config::default();
    let addr = config.bind_text();
    assert_eq!(addr, "127.0.0.1:8080");
}

#[test]
fn defaults_of_every_section() {
    assert!(default_true());
    assert_eq!(default_ws_path(), "/ws");
    assert_eq!(default_max_connections(), 100_000);
    assert_eq!(default_max_channels(), 10_000);
    assert_eq!(default_max_subscriptions(), 100);
    assert_eq!(default_max_message_size(), 64 * 1024);
    assert_eq!(default_heartbeat_interval(), 30_000);
    assert_eq!(default_heartbeat_timeout(), 60_000);
    assert_eq!(default_metrics_port(), 9090);

    let transport = TransportConfig::default();
    assert_eq!(transport.websocket_path, "/ws");
    let limits = LimitsConfig::default();
    assert_eq!(limits.max_connections, 100_000);
    assert_eq!(limits.max_channels, 10_000);
    assert_eq!(limits.max_subscriptions_per_connection, 100);
    assert_eq!(limits.max_message_size, 65536);
    let heartbeat = HeartbeatConfig::default();
    assert_eq!((heartbeat.interval_ms, heartbeat.timeout_ms), (30_000, 60_000));
    let metrics = MetricsConfig::default();
    assert!(metrics.enabled);
    assert_eq!(metrics.port, 9090);
    assert_eq!(Config::default().host, "127.0.0.1");
}

#[test]
fn port_text_is_read_like_a_decimal_number() {
    assert_eq!(parse_port("8080"), Some(8080));
    assert_eq!(parse_port("0"), Some(0));
    assert_eq!(parse_port("65535"), Some(65535));
    assert_eq!(parse_port("65536"), None);
    assert_eq!(parse_port("99999999999999999999"), None);
    assert_eq!(parse_port("+443"), Some(443));
    assert_eq!(parse_port("00080"), Some(80));
    assert_eq!(parse_port(""), None);
    assert_eq!(parse_port("+"), None);
    assert_eq!(parse_port("-1"), None);
    assert_eq!(parse_port("80 "), None);
    assert_eq!(parse_port("8o8o"), None);
    assert_eq!(parse_port("++1"), None);
    assert_eq!(parse_port("\u{663}"), None);
    for text in ["8080", "0", "65535", "65536", "+443", "00080", "", "+", "-1", "80 ", "1e3"] {
        assert_eq!(parse_port(text), text.parse::<u16>().ok());
    }
}

#[test]
fn overrides_replace_host_and_port() {
    let config = Config::with_overrides(Some("0.0.0.0".to_string()), Some("9000".to_string()));
    assert_eq!(config.host, "0.0.0.0");
    assert_eq!(config.port, 9000);
    assert_eq!(config.bind_text(), "0.0.0.0:9000");
    let config = Config::with_overrides(None, Some("not a port".to_string()));
    assert_eq!(config.host, "127.0.0.1");
    assert_eq!(config.port, 8080);
    let config = Config::with_overrides(None, None);
    assert_eq!(config.bind_text(), "127.0.0.1:8080");
    assert_eq!(config.limits.max_connections, 100_000);
}

#[test]
fn app_state_configures_the_router() {
    let mut config = Config::default();
    config.limits.max_subscriptions_per_connection = 1;
    let mut state = AppState::new(config);
    assert_eq!(state.config.port, 8080);
    let _rx = state.router.subscribe("c1", "a").unwrap();
    assert!(state.router.subscribe("c1", "b").is_err());
    // channels are created and deleted on demand
    state.router.unsubscribe("c1", "a").unwrap();
    assert!(!state.router.channel_exists("a"));
    assert_eq!(state.router.stats().channel_count, 0);
}

#[test]
fn router_config_of_a_server() {
    let router = Config::default().router_config();
    assert_eq!(router.max_channels, 10_000);
    assert_eq!(router.max_subscriptions_per_connection, 100);
    assert_eq!(router.channel_capacity, 131072);
    assert!(router.auto_create_channels);
    assert!(router.auto_delete_empty_channels);
}
