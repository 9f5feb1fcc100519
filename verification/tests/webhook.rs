use gaggle::api::webhook::validate_callback_url;

#[test]
fn test_validate_callback_url_blocks_ssrf() {
    assert!(validate_callback_url("http://127.0.0.1/webhook").is_err());
    assert!(validate_callback_url("http://localhost/webhook").is_err());
    assert!(validate_callback_url("http://10.0.0.1/webhook").is_err());
    assert!(validate_callback_url("http://172.16.0.1/webhook").is_err());
    assert!(validate_callback_url("http://192.168.1.1/webhook").is_err());
    assert!(validate_callback_url("http://169.254.169.254/latest/meta-data/").is_err());
    assert!(validate_callback_url("http://0.0.0.0/webhook").is_err());
    assert!(validate_callback_url("http://[::1]/webhook").is_err());
}

#[test]
fn test_validate_callback_url_allows_public() {
    assert!(validate_callback_url("https://example.com/webhook").is_ok());
    assert!(validate_callback_url("http://203.0.113.50/webhook").is_ok());
    assert!(validate_callback_url("https://api.agent-callback.io/hook").is_ok());
}

#[test]
fn test_validate_callback_url_rejects_bad_schemes() {
    assert!(validate_callback_url("ftp://example.com/webhook").is_err());
    assert!(validate_callback_url("file:///etc/passwd").is_err());
    assert!(validate_callback_url("gopher://example.com/").is_err());
}

#[test]
fn refusal_messages_name_the_reason() {
    assert_eq!(validate_callback_url("http://localhost/x"), Err("callback URL blocked: localhost".to_string()));
    assert_eq!(
        validate_callback_url("http://127.0.0.2/x"),
        Err("callback URL blocked: loopback IP 127.0.0.2".to_string())
    );
    assert_eq!(
        validate_callback_url("http://10.1.2.3/x"),
        Err("callback URL blocked: private IP 10.1.2.3".to_string())
    );
    assert_eq!(
        validate_callback_url("http://172.31.255.1/x"),
        Err("callback URL blocked: private IP 172.31.255.1".to_string())
    );
    assert_eq!(
        validate_callback_url("http://169.254.1.1/x"),
        Err("callback URL blocked: link-local IP 169.254.1.1".to_string())
    );
    assert_eq!(validate_callback_url("ftp://example.com/"), Err("unsupported scheme: ftp".to_string()));
}

#[test]
fn ranges_next_to_private_ones_pass() {
    assert!(validate_callback_url("http://172.15.0.1/x").is_ok());
    assert!(validate_callback_url("http://172.32.0.1/x").is_ok());
    assert!(validate_callback_url("http://192.169.0.1/x").is_ok());
    assert!(validate_callback_url("http://[2001:db8::1]/x").is_ok());
}

#[test]
fn unparsable_url_is_refused_as_invalid() {
    let e = validate_callback_url("not a url").unwrap_err();
    assert!(e.starts_with("invalid URL: "));
}

#[test]
fn ip_forms_that_parse_to_loopback_are_refused() {
    // The URL parser reads these as 127.0.0.1.
    assert!(validate_callback_url("http://0x7f.0.0.1/x").is_err());
    assert!(validate_callback_url("http://2130706433/x").is_err());
}
