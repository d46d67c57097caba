use pep_daemon::ipaddr::{IpAddress, Ipv4Address, Ipv6Address, is_public_ip, ipv4_to_string,
    ipv6_to_string};
use pep_daemon::ssrf::{ensure_addresses_public, is_host_allowed, is_scheme_allowed};

fn v4(a: u8, b: u8, c: u8, d: u8) -> IpAddress {
    IpAddress::V4(Ipv4Address { a, b, c, d })
}

fn v6(groups: [u16; 8]) -> IpAddress {
    IpAddress::V6(Ipv6Address {
        g0: groups[0],
        g1: groups[1],
        g2: groups[2],
        g3: groups[3],
        g4: groups[4],
        g5: groups[5],
        g6: groups[6],
        g7: groups[7],
    })
}

#[test]
fn ssrf_host_allowlist_accepts_exact_and_subdomain() {
    let allowlist = vec!["example.com".to_string()];
    assert!(is_host_allowed("example.com", &allowlist));
    assert!(is_host_allowed("api.example.com", &allowlist));
    assert!(!is_host_allowed("evil-example.com", &allowlist));
    assert!(!is_host_allowed("example.com.evil", &allowlist));
}

#[test]
fn ssrf_host_allowlist_is_case_insensitive() {
    let allowlist = vec!["Example.COM".to_string()];
    assert!(is_host_allowed("API.Example.Com", &allowlist));
}

#[test]
fn ssrf_public_ipv4_blocks_private_ranges() {
    let private_ips = [
        v4(10, 0, 0, 1),
        v4(192, 168, 1, 1),
        v4(127, 0, 0, 1),
        v4(169, 254, 1, 1),
        v4(100, 64, 0, 1),
    ];
    for ip in private_ips {
        assert!(!is_public_ip(ip), "expected {} to be blocked", ipv4_str(ip));
    }
    let public = v4(8, 8, 8, 8);
    assert!(is_public_ip(public));
}

fn ipv4_str(ip: IpAddress) -> String {
    match ip {
        IpAddress::V4(a) => ipv4_to_string(a),
        IpAddress::V6(a) => ipv6_to_string(a),
    }
}

#[test]
fn ssrf_public_ipv6_blocks_private_ranges() {
    let private_ips = [
        v6([0, 0, 0, 0, 0, 0, 0, 1]),
        v6([0xfe80, 0, 0, 0, 0, 0, 0, 1]),
        v6([0xfc00, 0, 0, 0, 0, 0, 0, 1]),
    ];
    for ip in private_ips {
        assert!(!is_public_ip(ip), "expected {} to be blocked", ipv4_str(ip));
    }
    let public = v6([0x2001, 0x4860, 0x4860, 0, 0, 0, 0, 0x8888]);
    assert!(is_public_ip(public));
}

#[test]
fn scheme_allowlist_admits_http_and_https_only() {
    assert!(is_scheme_allowed("http"));
    assert!(is_scheme_allowed("https"));
    assert!(!is_scheme_allowed("ftp"));
    assert!(!is_scheme_allowed("HTTP"));
    assert!(!is_scheme_allowed(""));
}

#[test]
fn host_allowlist_denies_everything_when_empty() {
    let empty: Vec<String> = Vec::new();
    assert!(!is_host_allowed("example.com", &empty));
}

#[test]
fn host_allowlist_strips_trailing_dots() {
    let allowlist = vec!["example.com.".to_string()];
    assert!(is_host_allowed("example.com", &allowlist));
    assert!(is_host_allowed("example.com.", &allowlist));
    assert!(is_host_allowed("api.example.com..", &allowlist));
}

#[test]
fn resolved_addresses_report_first_blocked() {
    let addrs = vec![v4(8, 8, 8, 8), v4(10, 0, 0, 1), v4(127, 0, 0, 1)];
    let err = ensure_addresses_public(&addrs).expect_err("expected a blocked address");
    assert_eq!(err, "blocked ip 10.0.0.1");
    let all_public = vec![v4(8, 8, 8, 8), v4(1, 1, 1, 1)];
    assert!(ensure_addresses_public(&all_public).is_ok());
}

#[test]
fn blocked_ipv6_is_rendered_in_groups() {
    let addrs = vec![v6([0xfe80, 0, 0, 0, 0, 0, 0, 1])];
    let err = ensure_addresses_public(&addrs).expect_err("expected a blocked address");
    assert_eq!(err, "blocked ip fe80:0:0:0:0:0:0:1");
}
