use gaggle::config::Config;

#[test]
fn test_config_default() {
    let config = Config::default();
    assert_eq!(config.port, 8080);
    assert_eq!(config.host, "0.0.0.0");
}

#[test]
fn test_server_addr() {
    let config = Config {
        host: "127.0.0.1".to_string(),
        port: 3000,
        ..Default::default()
    };
    assert_eq!(config.server_addr(), "127.0.0.1:3000");
}

#[test]
fn default_config_values() {
    let c = Config::default();
    assert_eq!(c.solana_rpc_url, "https://api.devnet.solana.com");
    assert_eq!(c.database_path, "gaggle.db");
    assert_eq!(c.server_api_key, None);
    assert_eq!(c.rate_limit_rpm, 120);
    assert_eq!(c.server_addr(), "0.0.0.0:8080");
}

#[test]
fn server_addr_formats_edge_ports() {
    let mut c = Config::default();
    c.port = 0;
    assert_eq!(c.server_addr(), "0.0.0.0:0");
    c.port = 65535;
    c.host = "localhost".to_string();
    assert_eq!(c.server_addr(), "localhost:65535");
    c.port = 10;
    assert_eq!(c.server_addr(), "localhost:10");
}

#[test]
fn settings_override_defaults() {
    let c = Config::from_settings(
        Some("127.0.0.1"),
        Some("9000"),
        Some("http://rpc"),
        Some("/tmp/x.db"),
        Some("k"),
        Some("30"),
    );
    assert_eq!(c.host, "127.0.0.1");
    assert_eq!(c.port, 9000);
    assert_eq!(c.solana_rpc_url, "http://rpc");
    assert_eq!(c.database_path, "/tmp/x.db");
    assert_eq!(c.server_api_key.as_deref(), Some("k"));
    assert_eq!(c.rate_limit_rpm, 30);
}

#[test]
fn unset_settings_take_defaults() {
    let c = Config::from_settings(None, None, None, None, None, None);
    assert_eq!(c.host, "0.0.0.0");
    assert_eq!(c.port, 8080);
    assert_eq!(c.rate_limit_rpm, 120);
    assert_eq!(c.server_api_key, None);
}

#[test]
fn bad_numbers_take_defaults() {
    let c = Config::from_settings(None, Some("70000"), None, None, None, Some("-5"));
    assert_eq!(c.port, 8080);
    assert_eq!(c.rate_limit_rpm, 120);
    let c = Config::from_settings(None, Some("+8081"), None, None, None, Some("4294967295"));
    assert_eq!(c.port, 8081);
    assert_eq!(c.rate_limit_rpm, 4294967295);
    let c = Config::from_settings(None, Some(""), None, None, None, Some("12a"));
    assert_eq!(c.port, 8080);
    assert_eq!(c.rate_limit_rpm, 120);
    let c = Config::from_settings(None, Some("+"), None, None, None, Some("0042"));
    assert_eq!(c.port, 8080);
    assert_eq!(c.rate_limit_rpm, 42);
}
