use omicron::net::{
    ipv4_string, ipv6_string, range_string, ranges_string, IpRange, Ipv4Range, Ipv6Range,
    SocketAddr, SocketAddrV4, SocketAddrV6,
};
use omicron::text::{decimal_string, hexadecimal_string, join_strings};
use omicron::time::Timestamp;

#[test]
fn numbers_as_text() {
    for n in [0, 7, 10, 65_535, 1_000_000_007, u64::MAX] {
        assert_eq!(decimal_string(n), format!("{n}"));
        assert_eq!(hexadecimal_string(n), format!("{n:x}"));
    }
}

#[test]
fn joined_strings() {
    let list = |parts: &[&str]| parts.iter().map(|p| p.to_string()).collect::<Vec<String>>();
    assert_eq!(join_strings(&list(&[]), ", "), "");
    assert_eq!(join_strings(&list(&["a"]), ", "), "a");
    assert_eq!(join_strings(&list(&["a", "", "c"]), ", "), "a, , c");
}

#[test]
fn addresses_as_text() {
    assert_eq!(ipv4_string(0), "0.0.0.0");
    assert_eq!(ipv4_string(0xc0a8_01fe), "192.168.1.254");
    assert_eq!(ipv4_string(u32::MAX), "255.255.255.255");
    for (addr, text) in [
        (0u128, "::"),
        (1, "::1"),
        (0xfd00_1122_3344_0101_0000_0000_0000_0001, "fd00:1122:3344:101::1"),
        (0x2001_0db8_0000_0000_0001_0000_0000_0001, "2001:db8::1:0:0:1"),
        (0x2001_0db8_0000_0001_0001_0001_0001_0001, "2001:db8:0:1:1:1:1:1"),
        (0x0001_0000_0000_0002_0000_0000_0000_0003, "1:0:0:2::3"),
        (0x0001_0000_0000_0000_0000_0000_0000_0000, "1::"),
        (0x0000_0000_0000_0000_0000_ffff_c0a8_0101, "::ffff:192.168.1.1"),
        (0x0000_0000_0000_0000_0000_0000_c0a8_0101, "::c0a8:101"),
        (u128::MAX, "ffff:ffff:ffff:ffff:ffff:ffff:ffff:ffff"),
    ] {
        assert_eq!(ipv6_string(addr), text);
    }
}

#[test]
fn ranges_as_text() {
    let v4 = IpRange::V4(Ipv4Range { first: 0x0a00_0001, last: 0x0a00_00ff });
    let v6 = IpRange::V6(Ipv6Range { first: 1, last: 255 });
    let v4_text = "V4(Ipv4Range { first: 10.0.0.1, last: 10.0.0.255 })";
    let v6_text = "V6(Ipv6Range { first: ::1, last: ::ff })";
    assert_eq!(range_string(&v4), v4_text);
    assert_eq!(range_string(&v6), v6_text);
    assert_eq!(ranges_string(&vec![v4, v6]), format!("[{v4_text}, {v6_text}]"));
    assert_eq!(ranges_string(&Vec::new()), "[]");
}

#[test]
fn socket_addresses_as_text() {
    let v4 = SocketAddr::V4(SocketAddrV4 { ip: 0x7f00_0001, port: 80 });
    assert_eq!(v4.to_text(), "127.0.0.1:80");
    assert_eq!(v4.port(), 80);
    let v6 = SocketAddrV6 { ip: 1, port: 12226, flowinfo: 0, scope_id: 0 };
    assert_eq!(v6.to_text(), "[::1]:12226");
    let scoped = SocketAddr::V6(SocketAddrV6 { ip: 0xfe80 << 112 | 1, scope_id: 3, ..v6 });
    assert_eq!(scoped.to_text(), "[fe80::1%3]:12226");
    assert_eq!(scoped.port(), 12226);
}

#[test]
fn times_as_text() {
    let epoch = Timestamp { secs: 0, nanos: 0 };
    assert!(epoch.is_printable());
    assert_eq!(epoch.to_rfc3339_millis(), "1970-01-01T00:00:00.000Z");
    let last = Timestamp { secs: 253_402_300_799, nanos: 999_999_999 };
    assert!(last.is_printable());
    assert_eq!(last.to_rfc3339_millis(), "9999-12-31T23:59:59.999Z");
    assert!(!Timestamp { secs: 253_402_300_800, nanos: 0 }.is_printable());
    assert!(!Timestamp { secs: -1, nanos: 999_999_999 }.is_printable());
    // A leap second is written as the second after it.
    let leap = Timestamp { secs: 1_483_228_799, nanos: 1_500_000_000 };
    assert_eq!(leap.to_rfc3339_millis(), "2017-01-01T00:00:00.500Z");
}
