use netpolicy::addr::{format_ip_prefix, format_ipv4, parse_ip_prefix, parse_ipv4, parse_octet,
    parse_prefix, split_str, IpPrefix};
use netpolicy::NetError;

#[test]
fn parse_valid_address() {
    let p = parse_ip_prefix("192.168.1.1/24").unwrap();
    assert_eq!((p.a, p.b, p.c, p.d, p.prefix), (192, 168, 1, 1, 24));
}

#[test]
fn parse_extreme_octets() {
    let p = parse_ip_prefix("0.255.0.255/32").unwrap();
    assert_eq!((p.a, p.b, p.c, p.d, p.prefix), (0, 255, 0, 255, 32));
}

#[test]
fn parse_rejects_non_ip() {
    assert!(matches!(
        parse_ip_prefix("not-an-ip/24"),
        Err(NetError::InvalidAddress)
    ));
}

#[test]
fn parse_rejects_missing_prefix() {
    assert!(matches!(parse_ip_prefix("10.0.0.1"), Err(NetError::InvalidAddress)));
}

#[test]
fn parse_rejects_extra_slash() {
    assert!(matches!(parse_ip_prefix("10.0.0.1/24/8"), Err(NetError::InvalidAddress)));
}

#[test]
fn parse_rejects_octet_out_of_range() {
    assert!(matches!(parse_ip_prefix("10.0.0.256/24"), Err(NetError::InvalidAddress)));
}

#[test]
fn parse_rejects_leading_zero_in_octet() {
    assert!(matches!(parse_ip_prefix("10.0.0.01/24"), Err(NetError::InvalidAddress)));
}

#[test]
fn parse_accepts_integer_spellings_of_the_prefix() {
    // the prefix length takes what integer parsing takes: leading zeros
    // and an optional plus sign
    let p = parse_ip_prefix("1.2.3.4/07").unwrap();
    assert_eq!(p.prefix, 7);
    let p = parse_ip_prefix("10.0.0.1/+24").unwrap();
    assert_eq!(p.prefix, 24);
    let p = parse_ip_prefix("10.0.0.1/000032").unwrap();
    assert_eq!(p.prefix, 32);
    assert_eq!(format_ip_prefix(&p), "10.0.0.1/32");
}

#[test]
fn parse_rejects_bad_prefixes() {
    assert!(matches!(parse_ip_prefix("10.0.0.1/256"), Err(NetError::InvalidAddress)));
    assert!(matches!(parse_ip_prefix("10.0.0.1/+"), Err(NetError::InvalidAddress)));
    assert!(matches!(parse_ip_prefix("10.0.0.1/-1"), Err(NetError::InvalidAddress)));
    assert!(matches!(parse_ip_prefix("10.0.0.1/2a"), Err(NetError::InvalidAddress)));
}

#[test]
fn parse_prefix_grammar() {
    assert_eq!(parse_prefix("0"), Some(0));
    assert_eq!(parse_prefix("007"), Some(7));
    assert_eq!(parse_prefix("+255"), Some(255));
    assert_eq!(parse_prefix("0000000000255"), Some(255));
    assert_eq!(parse_prefix("256"), None);
    assert_eq!(parse_prefix("99999999999999999999"), None);
    assert_eq!(parse_prefix("+"), None);
    assert_eq!(parse_prefix(""), None);
    assert_eq!(parse_prefix("++7"), None);
}

#[test]
fn parse_rejects_ipv6_literals() {
    // the model is IPv4 only; the kernel add call this feeds is
    // IPv4-specific
    assert!(matches!(parse_ip_prefix("::1/64"), Err(NetError::InvalidAddress)));
    assert!(matches!(parse_ip_prefix("fe80::1/10"), Err(NetError::InvalidAddress)));
}

#[test]
fn parse_rejects_empty_parts() {
    assert!(matches!(parse_ip_prefix("10..0.1/24"), Err(NetError::InvalidAddress)));
    assert!(matches!(parse_ip_prefix("/24"), Err(NetError::InvalidAddress)));
    assert!(matches!(parse_ip_prefix("10.0.0.1/"), Err(NetError::InvalidAddress)));
}

#[test]
fn parse_rejects_signs_and_spaces() {
    assert!(matches!(parse_ip_prefix("+10.0.0.1/24"), Err(NetError::InvalidAddress)));
    assert!(matches!(parse_ip_prefix("10.0.0.1/ 24"), Err(NetError::InvalidAddress)));
}

#[test]
fn parse_ipv4_alone() {
    assert_eq!(parse_ipv4("8.8.8.8"), Some((8, 8, 8, 8)));
    assert_eq!(parse_ipv4("8.8.8"), None);
    assert_eq!(parse_ipv4("8.8.8.8.8"), None);
}

#[test]
fn parse_octet_grammar() {
    assert_eq!(parse_octet("0"), Some(0));
    assert_eq!(parse_octet("255"), Some(255));
    assert_eq!(parse_octet("256"), None);
    assert_eq!(parse_octet("00"), None);
    assert_eq!(parse_octet(""), None);
    assert_eq!(parse_octet("1234"), None);
    assert_eq!(parse_octet("a1"), None);
}

#[test]
fn format_renders_canonically() {
    assert_eq!(format_ipv4(10, 0, 0, 1), "10.0.0.1");
    let p = IpPrefix { a: 172, b: 16, c: 254, d: 3, prefix: 16 };
    assert_eq!(format_ip_prefix(&p), "172.16.254.3/16");
}

#[test]
fn format_then_parse_round_trip() {
    // rendering an address and parsing the rendering gives it back
    let p = IpPrefix { a: 203, b: 0, c: 113, d: 77, prefix: 29 };
    let s = format_ip_prefix(&p);
    let q = parse_ip_prefix(s.as_str()).unwrap();
    assert_eq!(p, q);
}

#[test]
fn parse_then_format_round_trip() {
    // every accepted string is the canonical spelling of its value
    let s = "198.51.100.9/27";
    let p = parse_ip_prefix(s).unwrap();
    assert_eq!(format_ip_prefix(&p), s);
}

#[test]
fn split_preserves_segments() {
    assert_eq!(split_str("a.b.c", '.'), vec!["a", "b", "c"]);
    assert_eq!(split_str("", '.'), vec![""]);
    assert_eq!(split_str("a..b", '.'), vec!["a", "", "b"]);
    assert_eq!(split_str("abc", '.'), vec!["abc"]);
}
