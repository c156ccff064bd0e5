use websocket::text::{append_decimal, parse_i32, split, starts_with};
use websocket::{host_alone, is_ip_str, is_ipv4_str, is_ipv6_str, split_host_port};

#[test]
fn ipv4_addresses_are_told_apart() {
    assert!(is_ipv4_str("1.1.1.1"));
    assert!(is_ipv4_str("255.255.255.255"));
    assert!(is_ipv4_str("001.02.3.4"));
    assert!(is_ipv4_str("127.0.0.1:21116"));
    assert!(!is_ipv4_str("256.1.1.1"));
    assert!(!is_ipv4_str("0001.1.1.1"));
    assert!(!is_ipv4_str("1.1.1"));
    assert!(!is_ipv4_str("1.1.1.1.1"));
    assert!(!is_ipv4_str("1..1.1"));
    assert!(!is_ipv4_str("1.1.1.1:"));
    assert!(!is_ipv4_str("1.1.1.1:80:90"));
    assert!(!is_ipv4_str("1.1.1.1:-80"));
    assert!(!is_ipv4_str("rustdesk.com"));
    assert!(!is_ipv4_str(""));
}

#[test]
fn ipv6_addresses_are_told_apart() {
    assert!(is_ipv6_str("1:2:3"));
    assert!(is_ipv6_str("[ab:2:3]:12"));
    assert!(is_ipv6_str("[ABEF:2a:3]:12"));
    assert!(!is_ipv6_str("[ABEG:2a:3]:12"));
    assert!(!is_ipv6_str("1[ab:2:3]:12"));
    assert!(!is_ipv6_str("1.1.1.1"));
    assert!(!is_ipv6_str("1:2:"));
    assert!(is_ipv6_str("1:2::0"));
    assert!(!is_ipv6_str("1:2:::0"));
    assert!(is_ipv6_str("[1:2::0]:1"));
    assert!(!is_ipv6_str("[1:2::0]:"));
    assert!(is_ipv6_str("[1:2::0]"));
    assert!(!is_ipv6_str("[1:2::0]]"));
    assert!(!is_ipv6_str("[1:2::0]x"));
    assert!(!is_ipv6_str("[]"));
    assert!(!is_ipv6_str("1:2::0]:1"));
    assert!(!is_ipv6_str("12345:1:2"));
    assert!(!is_ipv6_str("cafe:80"));
    assert!(!is_ipv6_str(""));
}

#[test]
fn zeros_may_be_left_out_of_ipv6_addresses() {
    assert!(is_ipv6_str("::"));
    assert!(is_ipv6_str("::1"));
    assert!(is_ipv6_str("fe80::"));
    assert!(is_ipv6_str("[::1]"));
    assert!(is_ipv6_str("[::1]:21116"));
    assert!(is_ipv6_str("[fe80::]:21116"));
    assert!(is_ipv6_str("::ffff:10.0.0.1"));
    assert!(is_ipv6_str("[::ffff:10.0.0.1]:80"));
    assert!(!is_ipv6_str("::ffff:10.0.0.256"));
    assert!(!is_ipv6_str("::10.0.0.1:ffff"));
    assert!(!is_ipv6_str(":"));
    assert!(!is_ipv6_str(":::"));
    assert!(!is_ipv6_str(":::1"));
    assert!(!is_ipv6_str("1:::"));
    assert!(!is_ipv6_str(":1:2"));
}

#[test]
fn hosts_without_a_port_are_found() {
    assert_eq!(host_alone("127.0.0.1"), Some("127.0.0.1".to_string()));
    assert_eq!(host_alone("rustdesk.com"), Some("rustdesk.com".to_string()));
    assert_eq!(host_alone("::1"), Some("[::1]".to_string()));
    assert_eq!(host_alone("[::1]"), Some("[::1]".to_string()));
    assert_eq!(host_alone("127.0.0.1:80"), None);
    assert_eq!(host_alone("[::1]:80"), None);
    assert_eq!(host_alone("a:b:c:x"), None);
    assert_eq!(split_host_port("[::1]"), None);
    assert_eq!(split_host_port("[::1]:80"), Some(("[::1]".to_string(), 80)));
    assert_eq!(split_host_port("cafe:80"), Some(("cafe".to_string(), 80)));
}

#[test]
fn ip_addresses_are_of_either_kind() {
    assert!(is_ip_str("1.1.1.1"));
    assert!(is_ip_str("[0:0:0:0:0:0:0:1]:21115"));
    assert!(is_ip_str("0:0:0:0:0:0:0:1"));
    assert!(!is_ip_str("rustdesk.com:21116"));
}

#[test]
fn hosts_and_ports_come_apart() {
    assert_eq!(split_host_port("127.0.0.1:21116"), Some(("127.0.0.1".to_string(), 21116)));
    assert_eq!(split_host_port("rustdesk.com:21117"), Some(("rustdesk.com".to_string(), 21117)));
    assert_eq!(split_host_port("[1:2::3]:80"), Some(("[1:2::3]".to_string(), 80)));
    assert_eq!(split_host_port("127.0.0.1"), None);
    assert_eq!(split_host_port("1:2:3"), None);
    assert_eq!(split_host_port("a:b:c"), None);
    assert_eq!(split_host_port(""), None);
    assert_eq!(split_host_port("host:"), Some(("host".to_string(), 0)));
    assert_eq!(split_host_port("host:x"), Some(("host".to_string(), 0)));
    assert_eq!(split_host_port("host:-5"), Some(("host".to_string(), -5)));
    assert_eq!(split_host_port("m\u{fc}ller.de:80"), Some(("m\u{fc}ller.de".to_string(), 80)));
}

#[test]
fn numbers_are_read_as_the_standard_library_reads_them() {
    let texts = [
        "0", "7", "+7", "-7", "007", "2147483647", "2147483648", "-2147483648", "-2147483649",
        "99999999999999999999", "", "+", "-", "+-1", "1a", " 1", "1 ",
    ];
    for text in texts {
        assert_eq!(parse_i32(text), text.parse::<i32>().ok(), "{}", text);
    }
}

#[test]
fn numbers_are_written_as_the_standard_library_writes_them() {
    for n in [0, 9, 10, 21118, 2147483647, -1, -10, -2147483648] {
        let mut out = String::from(":");
        append_decimal(&mut out, n);
        assert_eq!(out, format!(":{}", n));
        assert_eq!(parse_i32(&out[1..]), Some(n));
    }
}

#[test]
fn text_is_cut_as_the_standard_library_cuts_it() {
    for text in ["", ":", "a", "a:b", ":a:", "a::b", "\u{e9}:x"] {
        let expected: Vec<String> = text.split(':').map(|s| s.to_string()).collect();
        assert_eq!(split(text, ':'), expected);
    }
    assert!(starts_with("https://x", "https"));
    assert!(!starts_with("http", "https"));
    assert!(starts_with("x", ""));
}
