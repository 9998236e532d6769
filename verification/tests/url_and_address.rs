use lanshare::address::{base_url, base_url_for, resolve, HostAddress};
use lanshare::config::MyConfig;
use lanshare::url::build_file_url;

fn config(protocol: &str, port: &str) -> MyConfig {
    MyConfig::from_env(
        Some("/srv/files".to_string()),
        Some(protocol.to_string()),
        Some(port.to_string()),
        "/home/user".to_string(),
    )
    .unwrap()
}

#[test]
fn file_url_is_base_share_name() {
    assert_eq!(
        build_file_url("http://192.168.1.20:8000", "report.txt"),
        "http://192.168.1.20:8000/share/report.txt"
    );
}

#[test]
fn file_url_keeps_the_name_as_it_is() {
    assert_eq!(build_file_url("http://h:1", "a b#?.txt"), "http://h:1/share/a b#?.txt");
    assert_eq!(build_file_url("http://h:1", "../x"), "http://h:1/share/../x");
    assert_eq!(build_file_url("http://h:1", ""), "http://h:1/share/");
    assert_eq!(build_file_url("", "n"), "/share/n");
}

#[test]
fn file_url_differs_for_different_names() {
    let base = "https://10.0.0.7:8443";
    let names = ["a.txt", "b.txt", "a.txt ", "A.txt", "a", "\u{e4}.txt"];
    for (i, a) in names.iter().enumerate() {
        for (j, b) in names.iter().enumerate() {
            assert_eq!(build_file_url(base, a) == build_file_url(base, b), i == j);
        }
    }
}

#[test]
fn base_url_is_protocol_address_port() {
    let host = HostAddress { ip: "192.168.1.20".to_string() };
    assert_eq!(base_url(&config("http", "8000"), &host), "http://192.168.1.20:8000");
    assert_eq!(base_url(&config("https", "443"), &host), "https://192.168.1.20:443");
}

#[test]
fn loopback_is_127_0_0_1() {
    assert_eq!(HostAddress::loopback().ip, "127.0.0.1");
}

#[test]
fn failed_lookup_gives_loopback() {
    assert_eq!(HostAddress::from_lookup(None), HostAddress::loopback());
    assert_eq!(base_url_for(&config("http", "8000"), None), "http://127.0.0.1:8000");
}

#[test]
fn found_address_is_used() {
    assert_eq!(HostAddress::from_lookup(Some("10.1.2.3".to_string())).ip, "10.1.2.3");
    assert_eq!(
        base_url_for(&config("http", "9000"), Some("10.1.2.3".to_string())),
        "http://10.1.2.3:9000"
    );
}

#[test]
fn resolve_always_gives_a_base_url() {
    let url = resolve(&config("http", "8000"));
    assert!(url.starts_with("http://"));
    assert!(url.ends_with(":8000"));
    assert!(url.len() > "http://:8000".len());
}
