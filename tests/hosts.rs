use roleman::loopback::{is_loopback_auth_url, url_host};
use roleman::ui::{hint, success};

#[test]
fn parses_url_host() {
    assert_eq!(url_host("http://127.0.0.1:52391/callback").as_deref(), Some("127.0.0.1"));
    assert_eq!(url_host("https://localhost/path").as_deref(), Some("localhost"));
    assert_eq!(url_host("https://[::1]:3000/path").as_deref(), Some("::1"));
    assert_eq!(url_host("not-a-url"), None);
}

#[test]
fn matches_loopback_auth_urls() {
    assert!(is_loopback_auth_url("http://127.0.0.1:52391/callback"));
    assert!(is_loopback_auth_url("https://localhost:52391/callback"));
    assert!(is_loopback_auth_url("http://[::1]:52391/callback"));
    assert!(!is_loopback_auth_url("https://example.com/callback"));
    assert!(!is_loopback_auth_url("https://localhost.evil.example/callback"));
}

#[test]
fn host_edge_cases() {
    assert_eq!(url_host("https://user@LocalHost:1/x").as_deref(), Some("LocalHost"));
    assert!(is_loopback_auth_url("https://user@LocalHost:1/x"));
    assert_eq!(url_host("https://[::1/x"), None);
}

#[test]
fn status_lines_are_coloured() {
    let s = success("done");
    assert!(s.starts_with("✅ "));
    assert!(s.contains("done"));
    assert_ne!(s, "✅ done");
    assert!(hint("h").starts_with("› "));
    assert_eq!(s, "✅ \x1b[32mdone\x1b[39m");
    assert_eq!(hint("h"), "› \x1b[2mh\x1b[0m");
}
