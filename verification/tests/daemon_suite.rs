use pep_daemon::config::{PepConfig, parse_domain_list, trim_ascii};
use pep_daemon::ipaddr::Ipv6Address;
use pep_daemon::health::{HealthStatus, health_check, is_health_method};
use pep_daemon::ipaddr::{IpAddress, Ipv4Address, is_public_ip};
use pep_daemon::ssrf::is_host_allowed;
use pep_daemon::stream::{SliceSource, read_with_cap};
use pep_daemon::text::sanitize_url_string;

fn v4(a: u8, b: u8, c: u8, d: u8) -> IpAddress {
    IpAddress::V4(Ipv4Address { a, b, c, d })
}

#[test]
fn main_host_allowlist_accepts_exact_and_subdomain() {
    let allowlist = vec!["example.com".to_string()];
    assert!(is_host_allowed("example.com", &allowlist));
    assert!(is_host_allowed("api.example.com", &allowlist));
    assert!(!is_host_allowed("evil-example.com", &allowlist));
    assert!(!is_host_allowed("example.com.evil", &allowlist));
}

#[test]
fn main_host_allowlist_is_case_insensitive() {
    let allowlist = vec!["Example.COM".to_string()];
    assert!(is_host_allowed("API.Example.Com", &allowlist));
}

#[test]
fn main_public_ipv4_blocks_private_ranges() {
    let private_ips = [
        v4(10, 0, 0, 1),
        v4(192, 168, 1, 1),
        v4(127, 0, 0, 1),
        v4(169, 254, 1, 1),
        v4(100, 64, 0, 1),
    ];
    for ip in private_ips {
        assert!(!is_public_ip(ip), "expected the address to be blocked");
    }
    let public = v4(8, 8, 8, 8);
    assert!(is_public_ip(public));
}

#[test]
fn main_public_ipv6_blocks_private_ranges() {
    let mk = |g0: u16, g7: u16| {
        IpAddress::V6(Ipv6Address { g0, g1: 0, g2: 0, g3: 0, g4: 0, g5: 0, g6: 0, g7 })
    };
    for ip in [mk(0, 1), mk(0xfe80, 1), mk(0xfc00, 1)] {
        assert!(!is_public_ip(ip), "expected the address to be blocked");
    }
    let public = IpAddress::V6(Ipv6Address {
        g0: 0x2001,
        g1: 0x4860,
        g2: 0x4860,
        g3: 0,
        g4: 0,
        g5: 0,
        g6: 0,
        g7: 0x8888,
    });
    assert!(is_public_ip(public));
}

#[test]
fn main_read_with_cap_rejects_oversized_body() {
    let payload = vec![1u8; 10];
    let mut source = SliceSource::new(payload);
    let err = read_with_cap(&mut source, 5).expect_err("expected cap error");
    assert!(err.contains("exceeds max bytes"));
}

#[test]
fn main_sanitize_url_string_removes_query_and_fragment() {
    let raw = "https://example.com/path?token=secret#frag";
    assert_eq!(sanitize_url_string(raw), "https://example.com/path");
}

#[test]
fn config_defaults_apply_when_unset_or_unparseable() {
    let config = PepConfig::from_env_values(None, None, None, None, None);
    assert!(config.allowed_domains.is_empty());
    assert_eq!(config.max_request_bytes, 5 * 1024 * 1024);
    assert_eq!(config.max_response_bytes, 10 * 1024 * 1024);
    assert_eq!(config.max_redirects, 5);
    assert_eq!(config.audit_log_path, "audit.jsonl");

    let config = PepConfig::from_env_values(
        Some("Example.com, API.Test.ORG ,,  ".to_string()),
        Some("not-a-number".to_string()),
        Some("4096".to_string()),
        Some("-3".to_string()),
        Some("/var/log/pep.jsonl".to_string()),
    );
    assert_eq!(config.allowed_domains, vec!["example.com".to_string(), "api.test.org".to_string()]);
    assert_eq!(config.max_request_bytes, 5 * 1024 * 1024);
    assert_eq!(config.max_response_bytes, 4096);
    assert_eq!(config.max_redirects, 5);
    assert_eq!(config.audit_log_path, "/var/log/pep.jsonl");
}

#[test]
fn numeric_settings_accept_plus_and_reject_overflow() {
    let config = PepConfig::from_env_values(
        None,
        Some("+123".to_string()),
        Some("99999999999999999999999999".to_string()),
        Some("4294967296".to_string()),
        None,
    );
    assert_eq!(config.max_request_bytes, 123);
    assert_eq!(config.max_response_bytes, 10 * 1024 * 1024);
    assert_eq!(config.max_redirects, 5);
}

#[test]
fn trim_removes_ascii_whitespace_only_at_the_ends() {
    assert_eq!(trim_ascii("  a b \t"), "a b");
    assert_eq!(trim_ascii("\r\n"), "");
    assert_eq!(trim_ascii("x"), "x");
    assert_eq!(trim_ascii(""), "");
}

#[test]
fn domain_list_drops_empty_entries() {
    let parsed = parse_domain_list(",,a,, ,B,");
    assert_eq!(parsed, vec!["a".to_string(), "b".to_string()]);
    let parsed = parse_domain_list("");
    assert!(parsed.is_empty());
}

#[test]
fn health_snapshot_reports_limits() {
    let config = PepConfig {
        allowed_domains: vec!["example.com".to_string(), "test.org".to_string()],
        max_request_bytes: 100,
        max_response_bytes: 200,
        max_redirects: 3,
        audit_log_path: "audit.jsonl".to_string(),
    };
    let status: HealthStatus = health_check(&config);
    assert_eq!(status.status, "ok");
    assert_eq!(status.version, "0.1.0");
    assert_eq!(status.allowed_domains_count, 2);
    assert_eq!(status.max_request_bytes, 100);
    assert_eq!(status.max_response_bytes, 200);
}

#[test]
fn health_method_is_exact() {
    assert!(is_health_method("HEALTH"));
    assert!(!is_health_method("health"));
    assert!(!is_health_method("GET"));
}
