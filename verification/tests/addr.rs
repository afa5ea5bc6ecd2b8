//! Addresses, prefixes, texts and SIDs: read, written and computed.

use velstra::addr::{
    clear_host_bits6, fmt_mac, parse_cidr_v4, parse_cidr_v6, parse_mac, power_of_two, Cidr4, IpAddr,
    Ipv4Addr, Ipv6Addr,
};
use velstra::ipam::AddressBook;
use velstra::sorted::{sort, text_precedes, NumberKey, SortedMap, TextKey};
use velstra::srv6::{
    locator_src_from_service_sid, srv6_service_sid, Locator, DISC_MULTICAST, DISC_UNICAST,
};
use velstra::text::{
    chars_are, chars_of, find_from, parse_unsigned, push_decimal, push_hex_pair, push_hexadecimal,
    same, split_at_char, split_words, string_of, sub_chars, trim,
};

fn v4(s: &str) -> Option<Ipv4Addr> {
    Ipv4Addr::parse(s)
}

fn v6(s: &str) -> Ipv6Addr {
    Ipv6Addr::parse(s).unwrap()
}

// ---------------------------------------------------------------------------
// Addresses
// ---------------------------------------------------------------------------

#[test]
fn ipv4_addresses_are_four_decimal_octets() {
    assert_eq!(v4("0.0.0.0").unwrap().bits, 0);
    assert_eq!(v4("255.255.255.255").unwrap().bits, u32::MAX);
    assert_eq!(v4("10.0.0.1").unwrap().bits, 0x0a00_0001);
    assert_eq!(v4("192.168.1.2").unwrap().octets(), [192, 168, 1, 2]);
    assert_eq!(v4("192.168.1.2").unwrap().to_string(), "192.168.1.2");
    for bad in [
        "1.2.3", "1.2.3.4.5", "256.0.0.1", "01.2.3.4", "1.2.3.4 ", "", "1..2.3", "a.b.c.d",
        "+1.2.3.4", "0.0.0.00", "1.2.3.-4",
    ] {
        assert_eq!(v4(bad), None, "{bad:?}");
    }
}

#[test]
fn ipv6_addresses_compress_their_longest_run_of_zeros() {
    for (text, segments, shortest) in [
        ("::", [0, 0, 0, 0, 0, 0, 0, 0], "::"),
        ("0:0:0:0:0:0:0:1", [0, 0, 0, 0, 0, 0, 0, 1], "::1"),
        ("1::", [1, 0, 0, 0, 0, 0, 0, 0], "1::"),
        ("2001:db8:0:0:1::1", [0x2001, 0xdb8, 0, 0, 1, 0, 0, 1], "2001:db8::1:0:0:1"),
        ("2001:db8:0:1:1:1:1:1", [0x2001, 0xdb8, 0, 1, 1, 1, 1, 1], "2001:db8:0:1:1:1:1:1"),
        ("::ffff:1.2.3.4", [0, 0, 0, 0, 0, 0xffff, 0x102, 0x304], "::ffff:1.2.3.4"),
        ("64:ff9b::10.0.0.1", [0x64, 0xff9b, 0, 0, 0, 0, 0xa00, 1], "64:ff9b::a00:1"),
        ("1:2:3:4:5:6:7:8", [1, 2, 3, 4, 5, 6, 7, 8], "1:2:3:4:5:6:7:8"),
        ("1:2:3:4:5:6:7::", [1, 2, 3, 4, 5, 6, 7, 0], "1:2:3:4:5:6:7:0"),
        ("1:0:0:2:0:0:0:3", [1, 0, 0, 2, 0, 0, 0, 3], "1:0:0:2::3"),
        ("FCBB:BB00:1::", [0xfcbb, 0xbb00, 1, 0, 0, 0, 0, 0], "fcbb:bb00:1::"),
    ] {
        let a = v6(text);
        assert_eq!([a.s0, a.s1, a.s2, a.s3, a.s4, a.s5, a.s6, a.s7], segments, "{text:?}");
        assert_eq!(a.to_string(), shortest);
        assert_eq!(v6(shortest), a);
    }
    for bad in [
        "", ":", ":::", "1", "1:2:3:4:5:6:7", "1:2:3:4:5:6:7:8:9", "::1::", "12345::", "g::",
        "1:2:3:4:5:6:7:8::", "1.2.3.4::", "::1.2.3", "fe80::1%eth0",
    ] {
        assert_eq!(Ipv6Addr::parse(bad), None, "{bad:?}");
    }
}

#[test]
fn addresses_of_either_family_are_told_apart() {
    assert_eq!(IpAddr::parse("10.0.0.1"), v4("10.0.0.1").map(IpAddr::V4));
    assert_eq!(IpAddr::parse("::1"), Some(IpAddr::V6(v6("::1"))));
    assert_eq!(IpAddr::parse("nowhere"), None);
    assert_eq!(IpAddr::parse("2001:db8::2").unwrap().to_string(), "2001:db8::2");
}

#[test]
fn prefixes_lose_their_host_bits() {
    let c = parse_cidr_v4("192.168.100.77/24").unwrap();
    assert_eq!(c, Cidr4 { octets: [192, 168, 100, 0], prefix: 24 });
    assert_eq!(c.to_string(), "192.168.100.0/24");
    assert_eq!(parse_cidr_v4("10.1.2.3/0").unwrap().to_string(), "0.0.0.0/0");
    assert_eq!(parse_cidr_v4("10.1.2.3/32").unwrap().to_string(), "10.1.2.3/32");
    for bad in ["10.0.0.0", "10.0.0.0/33", "10.0.0.0/", "/8", "10.0.0.0/-1", "::/8", "10.0.0/8"] {
        assert_eq!(parse_cidr_v4(bad), None, "{bad:?}");
    }
    assert_eq!(parse_cidr_v6("2001:db8:1:2::5/48").unwrap().to_string(), "2001:db8:1::/48");
    assert_eq!(parse_cidr_v6("2001:db8::ff/121").unwrap().to_string(), "2001:db8::80/121");
    assert_eq!(parse_cidr_v6("::1/128").unwrap().to_string(), "::1/128");
    for bad in ["::", "::/129", "10.0.0.0/8", "::/x"] {
        assert_eq!(parse_cidr_v6(bad), None, "{bad:?}");
    }
    assert_eq!(clear_host_bits6(v6("ffff:ffff::"), 20), v6("ffff:f000::"));
    assert_eq!(power_of_two(0), 1);
    assert_eq!(power_of_two(32), 1 << 32);
}

#[test]
fn macs_are_written_in_lower_case() {
    assert_eq!(parse_mac("aa:BB:0c:dd:ee:01"), Some([0xaa, 0xbb, 0x0c, 0xdd, 0xee, 1]));
    assert_eq!(fmt_mac([0xaa, 0xbb, 0x0c, 0xdd, 0xee, 1]), "aa:bb:0c:dd:ee:01");
    for bad in
        ["", "aa:bb:cc:dd:ee", "aa:bb:cc:dd:ee:ff:00", "aa-bb-cc-dd-ee-ff", "gg:00:00:00:00:00"]
    {
        assert_eq!(parse_mac(bad), None, "{bad:?}");
    }
    assert_eq!(parse_mac("+a:bb:cc:dd:ee:ff"), None);
    assert_eq!(parse_mac("aa:bb:cc:dd:ee:+f"), None);
}

// ---------------------------------------------------------------------------
// Texts
// ---------------------------------------------------------------------------

#[test]
fn numbers_are_read_within_their_bounds() {
    let read = |s: &str, radix: u64, max: u64| parse_unsigned(&chars_of(s), radix, max);
    assert_eq!(read("0", 10, 255), Some(0));
    assert_eq!(read("255", 10, 255), Some(255));
    assert_eq!(read("256", 10, 255), None);
    assert_eq!(read("+7", 10, 255), Some(7));
    assert_eq!(read("", 10, 255), None);
    assert_eq!(read("+", 10, 255), None);
    assert_eq!(read("-1", 10, 255), None);
    assert_eq!(read("1a", 10, 255), None);
    assert_eq!(read("fF", 16, 255), Some(255));
    assert_eq!(read("18446744073709551615", 10, u64::MAX), Some(u64::MAX));
    assert_eq!(read("18446744073709551616", 10, u64::MAX), None);
}

#[test]
fn numbers_are_written() {
    let mut s = String::new();
    push_decimal(&mut s, 0);
    s.push('|');
    push_decimal(&mut s, u64::MAX);
    s.push('|');
    push_hexadecimal(&mut s, 0xbeef);
    s.push('|');
    push_hex_pair(&mut s, 7);
    assert_eq!(s, "0|18446744073709551615|beef|07");
}

#[test]
fn texts_are_cut() {
    let words = |s: &str| -> Vec<String> {
        split_words(&chars_of(s)).iter().map(string_of).collect()
    };
    assert_eq!(words("  a\tbc \u{a0}d\n"), vec!["a", "bc", "d"]);
    assert!(words(" \t").is_empty());
    let parts = |s: &str| -> Vec<String> {
        split_at_char(&chars_of(s), ':').iter().map(string_of).collect()
    };
    assert_eq!(parts("a::b"), vec!["a", "", "b"]);
    assert_eq!(parts(""), vec![""]);
    assert_eq!(string_of(&trim(&chars_of("  a b\u{3000}"))), "a b");
    let v = chars_of("h\u{e9}llo");
    assert_eq!(string_of(&sub_chars(&v, 1, 3)), "\u{e9}l");
    assert!(chars_are(&v, "h\u{e9}llo"));
    assert!(!chars_are(&v, "hello"));
    assert_eq!(find_from(&v, 'l', 3), 3);
    assert_eq!(find_from(&v, 'z', 0), 5);
    assert!(same("a", "a") && !same("a", "b"));
}

#[test]
fn tables_stay_in_order() {
    let mut m: SortedMap<TextKey, u8> = SortedMap::new();
    for (k, v) in [("b", 1), ("a", 2), ("aa", 3), ("b", 4)] {
        m.insert(TextKey { text: k.to_string() }, v);
    }
    let got: Vec<(&str, u8)> =
        m.items().iter().map(|i| (i.key.text.as_str(), i.value)).collect();
    assert_eq!(got, vec![("a", 2), ("aa", 3), ("b", 4)]);
    assert!(m.remove(&TextKey { text: "aa".to_string() }));
    assert!(!m.remove(&TextKey { text: "aa".to_string() }));
    assert_eq!(m.get(&TextKey { text: "b".to_string() }), Some(&4));
    assert_eq!(m.into_values(), vec![2, 4]);
    assert!(text_precedes("a", "ab") && !text_precedes("b", "ab") && !text_precedes("a", "a"));
    let sorted = sort(vec![NumberKey { number: 3 }, NumberKey { number: 1 }]);
    assert_eq!(sorted[0].number, 1);
}

// ---------------------------------------------------------------------------
// SIDs
// ---------------------------------------------------------------------------

#[test]
fn a_peer_is_traced_back_from_the_sid_that_it_advertises() {
    let l = Locator { addr: v6("fcbb:bb00:1::"), len: 48 };
    let sid = srv6_service_sid(l, DISC_UNICAST, 5000).unwrap();
    let flood = srv6_service_sid(l, DISC_MULTICAST, 5000).unwrap();
    assert_ne!(sid, flood);
    assert_eq!(locator_src_from_service_sid(sid, DISC_UNICAST, 5000), l.srv6_src());
    assert_eq!(locator_src_from_service_sid(flood, DISC_MULTICAST, 5000), l.srv6_src());
    assert_eq!(locator_src_from_service_sid(sid, DISC_UNICAST, 5001), None);
    assert_eq!(l.srv6_src(), srv6_service_sid(l, DISC_UNICAST, 0));
}

#[test]
fn an_empty_book_knows_nothing() {
    let mut b = AddressBook::new();
    assert!(b.subnet("s").is_none() && b.floating_ip("f").is_none());
    assert!(b.subnets().is_empty() && b.leases().is_empty());
    assert!(!b.has_subnet_of(7));
    assert!(!b.remove_subnet("s").unwrap());
    assert!(!b.release_floating_ip("f").unwrap());
    let e = b.disassociate_floating_ip("f").unwrap_err();
    assert_eq!(e.message, "no floating ip \"f\"");
}
