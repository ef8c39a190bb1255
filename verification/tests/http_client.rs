use kiro_rs::http_client::{proxy_basic_auth, secs_from_setting, HttpTimeouts, ProxyConfig};

#[test]
fn test_proxy_config_new() {
    let config = ProxyConfig::new("http://127.0.0.1:7890");
    assert_eq!(config.url, "http://127.0.0.1:7890");
    assert!(config.username.is_none());
    assert!(config.password.is_none());
}

#[test]
fn test_proxy_config_with_auth() {
    let config = ProxyConfig::new("socks5://127.0.0.1:1080").with_auth("user", "pass");
    assert_eq!(config.url, "socks5://127.0.0.1:1080");
    assert_eq!(config.username, Some("user".to_string()));
    assert_eq!(config.password, Some("pass".to_string()));
}

#[test]
fn basic_auth_needs_both_parts() {
    let with = ProxyConfig::new("http://p").with_auth("u", "p");
    let (u, p) = proxy_basic_auth(&with).unwrap();
    assert_eq!((u.as_str(), p.as_str()), ("u", "p"));
    let mut half = ProxyConfig::new("http://p");
    half.username = Some("u".to_string());
    assert!(proxy_basic_auth(&half).is_none());
}

#[test]
fn seconds_settings_fall_back() {
    assert_eq!(secs_from_setting(None, 15), 15);
    assert_eq!(secs_from_setting(Some("42"), 15), 42);
    assert_eq!(secs_from_setting(Some("0"), 15), 15);
    assert_eq!(secs_from_setting(Some("abc"), 15), 15);
    let t = HttpTimeouts::from_settings(None, Some("9"), None, Some("x"));
    assert_eq!(t.connect_secs, 15);
    assert_eq!(t.read_secs, 9);
    assert_eq!(t.keepalive_secs, 60);
    assert_eq!(t.pool_idle_secs, 15);
}
