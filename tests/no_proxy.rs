use dagproxy::config::{NoProxyError, NoProxyValue};
use dagproxy::net::{parse_ipv4, Ipv4Net};

#[test]
fn test_ip_no_proxy_matches() {
    let no_proxy = NoProxyValue::from_str("127.0.0.0/24").unwrap();
    assert!(no_proxy.matches_host("127.0.0.2"));
}

#[test]
fn test_url_no_proxy_matches() {
    let no_proxy = NoProxyValue::from_str("google.com").unwrap();
    assert!(no_proxy.matches_host("blabla.google.com"));
    assert!(no_proxy.matches_host("google.com"));
}

#[test]
fn host_entry_matches_by_substring_only() {
    let no_proxy = NoProxyValue::from_str("com").unwrap();
    assert!(no_proxy.matches_host("badcom.example.com"));
    let google = NoProxyValue::from_str("google.com").unwrap();
    assert!(google.matches_host("mail.google.com:443"));
    assert!(!google.matches_host("google.co"));
    assert!(!google.matches_host("Google.com"));
    assert!(!google.matches_host(""));
}

#[test]
fn subnet_entry_needs_a_bare_ipv4_literal() {
    let net = NoProxyValue::from_str("127.0.0.0/24").unwrap();
    assert!(!net.matches_host("127.0.1.2"));
    assert!(!net.matches_host("localhost"));
    assert!(!net.matches_host("127.0.0.2:80"));
    assert!(!net.matches_host("127.000.0.2"));
    assert!(!net.matches_host("::1"));
    assert!(net.matches_host("127.0.0.255"));
}

#[test]
fn subnet_entry_is_parsed_by_netaddr() {
    let net = NoProxyValue::from_str("10.1.2.3/8").unwrap();
    assert_eq!(net, NoProxyValue::Subnet(Ipv4Net { addr: 0x0a00_0000, mask: 0xff00_0000 }));
    let wide = NoProxyValue::from_str("192.168.1.0/255.255.255.0").unwrap();
    assert_eq!(wide, NoProxyValue::Subnet(Ipv4Net { addr: 0xc0a8_0100, mask: 0xffff_ff00 }));
}

#[test]
fn invalid_subnet_entry_is_refused() {
    let r = NoProxyValue::from_str("not/a-net");
    assert_eq!(r, Err(NoProxyError::InvalidSubnet("not/a-net".to_string())));
}

#[test]
fn entry_text_round_trips() {
    let host = NoProxyValue::from_str("teams.microsoft.com").unwrap();
    assert_eq!(host.to_string(), "teams.microsoft.com");
    let net = NoProxyValue::from_str("10.0.0.0/8").unwrap();
    assert_eq!(net.to_string(), "10.0.0.0/8");
    let masked = NoProxyValue::from_str("10.1.2.3/8").unwrap();
    let once = masked.to_string();
    assert_eq!(once, "10.0.0.0/8");
    let twice = NoProxyValue::from_str(&once).unwrap().to_string();
    assert_eq!(twice, once);
    assert_eq!(NoProxyValue::from_str(&once).unwrap(), masked);
    let odd = NoProxyValue::from_str("10.0.0.0/255.0.255.0").unwrap();
    assert_eq!(odd.to_string(), "10.0.0.0/255.0.255.0");
    assert_eq!(NoProxyValue::from_str(&odd.to_string()).unwrap(), odd);
}

#[test]
fn ipv4_literals() {
    assert_eq!(parse_ipv4("127.0.0.1"), Some(0x7f00_0001));
    assert_eq!(parse_ipv4("0.0.0.0"), Some(0));
    assert_eq!(parse_ipv4("255.255.255.255"), Some(0xffff_ffff));
    assert_eq!(parse_ipv4("10.80.120.7"), Some(0x0a50_7807));
    assert_eq!(parse_ipv4("01.2.3.4"), None);
    assert_eq!(parse_ipv4("256.1.1.1"), None);
    assert_eq!(parse_ipv4("1.2.3"), None);
    assert_eq!(parse_ipv4("1.2.3.4."), None);
    assert_eq!(parse_ipv4("1.2.3.4.5"), None);
    assert_eq!(parse_ipv4("1234.1.1.1"), None);
    assert_eq!(parse_ipv4(""), None);
    assert_eq!(parse_ipv4("a.b.c.d"), None);
}

#[test]
fn network_contains_by_mask() {
    let net = Ipv4Net { addr: 0x0a50_0000, mask: 0xffff_0000 };
    assert!(net.contains(0x0a50_0001));
    assert!(net.contains(0x0a50_ffff));
    assert!(!net.contains(0x0a51_0000));
    let unmasked = Ipv4Net { addr: 0x0a50_1234, mask: 0xffff_0000 };
    assert!(unmasked.contains(0x0a50_0001));
    let everything = Ipv4Net { addr: 0, mask: 0 };
    assert!(everything.contains(0xdead_beef));
}

#[test]
fn canonical_cidr_text_is_written_back_unchanged() {
    for text in ["0.0.0.0/0", "1.2.3.4/32", "10.80.0.0/16", "169.254.0.0/16", "128.0.0.0/1"] {
        let entry = NoProxyValue::from_str(text).unwrap();
        assert_eq!(entry.to_string(), text);
        assert_eq!(NoProxyValue::from_str(&entry.to_string()).unwrap(), entry);
    }
    let whole = NoProxyValue::from_str("0.0.0.0/0").unwrap();
    assert_eq!(whole, NoProxyValue::Subnet(Ipv4Net { addr: 0, mask: 0 }));
    let single = NoProxyValue::from_str("1.2.3.4/32").unwrap();
    assert_eq!(single, NoProxyValue::Subnet(Ipv4Net { addr: 0x0102_0304, mask: 0xffff_ffff }));
}
