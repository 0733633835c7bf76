use ddns::address::format::{format_ip, format_ipv4, format_ipv6};
use ddns::address::parse::{
    chars_of, parse_ip, parse_ipv4, parse_ipv4_trimmed, parse_ipv6, parse_ipv6_trimmed,
};
use ddns::address::{merge_interface_id, IpAddress, Ipv4Address, Ipv6Address, MergedAddress};

fn v6(text: &str) -> Ipv6Address {
    parse_ipv6(text).expect("an IPv6 address")
}

#[test]
fn chars_of_keeps_every_character() {
    assert_eq!(chars_of("a:é"), vec!['a', ':', 'é']);
    assert_eq!(chars_of(""), Vec::<char>::new());
}

#[test]
fn ipv4_is_read() {
    assert_eq!(parse_ipv4("1.2.3.4"), Some(Ipv4Address { bits: 0x0102_0304 }));
    assert_eq!(parse_ipv4("0.0.0.0"), Some(Ipv4Address { bits: 0 }));
    assert_eq!(parse_ipv4("255.255.255.255"), Some(Ipv4Address { bits: 0xffff_ffff }));
    assert_eq!(parse_ipv4("192.168.10.1"), Some(Ipv4Address { bits: 0xc0a8_0a01 }));
}

#[test]
fn ipv4_is_refused() {
    for text in [
        "", "1", "1.2.3", "1.2.3.4.5", "1.2.3.", ".1.2.3", "1..2.3", "256.1.1.1", "1.2.3.04",
        "01.2.3.4", "1.2.3.4 ", " 1.2.3.4", "1.2.3.a", "1.2.3.-4", "1.2.3.0x4", "1234.1.1.1",
        "00.0.0.0", "1.2.3.4\n", "::1", "１.2.3.4",
    ] {
        assert_eq!(parse_ipv4(text), None, "{:?}", text);
    }
}

#[test]
fn ipv6_is_read() {
    assert_eq!(parse_ipv6("::"), Some(Ipv6Address { bits: 0 }));
    assert_eq!(parse_ipv6("::1"), Some(Ipv6Address { bits: 1 }));
    assert_eq!(
        parse_ipv6("2001:db8::1234:5678:9abc:def0"),
        Some(Ipv6Address { bits: 0x2001_0db8_0000_0000_1234_5678_9abc_def0 })
    );
    assert_eq!(
        parse_ipv6("1:2:3:4:5:6:7:8"),
        Some(Ipv6Address { bits: 0x0001_0002_0003_0004_0005_0006_0007_0008 })
    );
    assert_eq!(
        parse_ipv6("FFFF:abcd::"),
        Some(Ipv6Address { bits: 0xffff_abcd_0000_0000_0000_0000_0000_0000 })
    );
    assert_eq!(
        parse_ipv6("::ffff:1.2.3.4"),
        Some(Ipv6Address { bits: 0x0000_ffff_0102_0304 })
    );
    assert_eq!(
        parse_ipv6("1:2:3:4:5:6:1.2.3.4"),
        Some(Ipv6Address { bits: 0x0001_0002_0003_0004_0005_0006_0102_0304 })
    );
    assert_eq!(
        parse_ipv6("1:2:3:4:5:6:7::"),
        Some(Ipv6Address { bits: 0x0001_0002_0003_0004_0005_0006_0007_0000 })
    );
    assert_eq!(
        parse_ipv6("::2:3:4:5:6:7:8"),
        Some(Ipv6Address { bits: 0x0000_0002_0003_0004_0005_0006_0007_0008 })
    );
}

#[test]
fn ipv6_is_refused() {
    for text in [
        "", ":", ":::", "1", "1:2:3:4:5:6:7", "1:2:3:4:5:6:7:8:9", "1::2::3", "12345::",
        "1:2:3:4:5:6:7:8::", "::1:2:3:4:5:6:7:8", "1.2.3.4::", "::1.2.3.4:5", "g::", "1:::2",
        "1:2:3:4:5:6:7:1.2.3.4", "::1.2.3", "::1.2.3.4.5", "::1 ", " ::1", "1:2:3:4:5:6:7:",
        ":1:2:3:4:5:6:7", "fe80::1%eth0", "::ffff:1.2.3.256", "::01.2.3.4", "1.2.3.4",
    ] {
        assert_eq!(parse_ipv6(text), None, "{:?}", text);
    }
}

#[test]
fn reading_follows_the_grammar() {
    let cases: [(&str, Option<u128>); 30] = [
        ("1::", Some(0x0001_0000_0000_0000_0000_0000_0000_0000)),
        ("1::2", Some(0x0001_0000_0000_0000_0000_0000_0000_0002)),
        ("a:b:c:d:e:f:0:1", Some(0x000a_000b_000c_000d_000e_000f_0000_0001)),
        ("A:B:C:D:E:F:0:1", Some(0x000a_000b_000c_000d_000e_000f_0000_0001)),
        ("0:0:0:0:0:0:0:0", Some(0)),
        ("::ffff:ffff:ffff:ffff", Some(0xffff_ffff_ffff_ffff)),
        ("::ffff:10.0.0.1", Some(0x0000_ffff_0a00_0001)),
        ("64:ff9b::192.0.2.33", Some(0x0064_ff9b_0000_0000_0000_0000_c000_0221)),
        ("1:2:3:4::5:6:7:8", None),
        ("1:2:3::5:6:7:8", Some(0x0001_0002_0003_0000_0005_0006_0007_0008)),
        ("::1.2.3.4", Some(0x0102_0304)),
        ("0000:0000::", Some(0)),
        ("00000::", None),
        ("1:2:3:4:5:1.2.3.4", None),
        ("::1.2.3.04", None),
        ("::1.2.3.4.", None),
        ("::.1.2.3", None),
        ("[::1]", None),
        ("::1%1", None),
        ("1:2:3:4:5:6:7:8 ", None),
        ("::ffff:0:1.2.3.4", Some(0xffff_0000_0102_0304)),
        ("1::1.2.3.4", Some(0x0001_0000_0000_0000_0000_0000_0102_0304)),
        ("1:2:3:4:5::1.2.3.4", Some(0x0001_0002_0003_0004_0005_0000_0102_0304)),
        ("1:2:3:4:5:6::1.2.3.4", None),
        ("::0.0.0.0", Some(0)),
        ("::255.255.255.255", Some(0xffff_ffff)),
        ("0::0", Some(0)),
        ("::0:0", Some(0)),
        ("1:0:0:0:0:0:0:8", Some(0x0001_0000_0000_0000_0000_0000_0000_0008)),
        ("ffff:ffff:ffff:ffff:ffff:ffff:ffff:ffff", Some(u128::MAX)),
    ];
    for (text, expected) in cases {
        let expected = expected.map(|bits| Ipv6Address { bits });
        assert_eq!(parse_ipv6(text), expected, "{:?}", text);
        assert_eq!(parse_ip(text), expected.map(IpAddress::V6), "{:?}", text);
    }
}

#[test]
fn either_family_is_read() {
    assert_eq!(parse_ip("10.0.0.1"), Some(IpAddress::V4(Ipv4Address { bits: 0x0a00_0001 })));
    assert_eq!(parse_ip("::1"), Some(IpAddress::V6(Ipv6Address { bits: 1 })));
    assert_eq!(parse_ip("example"), None);
}

#[test]
fn white_space_around_an_address_is_dropped() {
    assert_eq!(parse_ipv4_trimmed(" 1.2.3.4\n"), Some(Ipv4Address { bits: 0x0102_0304 }));
    assert_eq!(parse_ipv4_trimmed("\t\r\n1.2.3.4"), Some(Ipv4Address { bits: 0x0102_0304 }));
    assert_eq!(parse_ipv4_trimmed("\u{a0}1.2.3.4\u{3000}"), Some(Ipv4Address { bits: 0x0102_0304 }));
    assert_eq!(parse_ipv4_trimmed("1.2. 3.4"), None);
    assert_eq!(parse_ipv4_trimmed("   "), None);
    assert_eq!(parse_ipv4_trimmed(""), None);
    assert_eq!(parse_ipv6_trimmed("  ::1  \n"), Some(Ipv6Address { bits: 1 }));
    assert_eq!(parse_ipv6_trimmed("<html>"), None);
    assert_eq!(parse_ipv6_trimmed("\u{85}::1\u{2003}"), Some(Ipv6Address { bits: 1 }));
    assert_eq!(parse_ipv4_trimmed("x 1.2.3.4"), None);
    assert_eq!(parse_ipv4_trimmed("\u{200b}1.2.3.4"), None);
    assert_eq!(parse_ipv6_trimmed("\u{feff}::1"), None);
    for text in [" 1.2.3.4 ", "\u{85}::1\u{2003}", "x 1.2.3.4", "\u{200b}1.2.3.4", "\n\n"] {
        assert_eq!(parse_ipv4_trimmed(text), parse_ipv4(text.trim()), "{:?}", text);
        assert_eq!(parse_ipv6_trimmed(text), parse_ipv6(text.trim()), "{:?}", text);
    }
}

#[test]
fn ipv4_is_written() {
    assert_eq!(format_ipv4(&Ipv4Address { bits: 0x0102_0304 }), "1.2.3.4");
    assert_eq!(format_ipv4(&Ipv4Address { bits: 0 }), "0.0.0.0");
    assert_eq!(format_ipv4(&Ipv4Address { bits: 0xffff_ffff }), "255.255.255.255");
    assert_eq!(format_ipv4(&Ipv4Address { bits: 0xc0a8_0a64 }), "192.168.10.100");
}

#[test]
fn ipv6_is_written() {
    assert_eq!(format_ipv6(&Ipv6Address { bits: 0 }), "::");
    assert_eq!(format_ipv6(&Ipv6Address { bits: 1 }), "::1");
    assert_eq!(
        format_ipv6(&Ipv6Address { bits: 0x2001_0db8_0000_0000_1234_5678_9abc_def0 }),
        "2001:db8::1234:5678:9abc:def0"
    );
    assert_eq!(
        format_ipv6(&Ipv6Address { bits: 0x0001_0002_0003_0004_0005_0006_0007_0008 }),
        "1:2:3:4:5:6:7:8"
    );
    assert_eq!(
        format_ipv6(&Ipv6Address { bits: 0x0001_0000_0003_0004_0005_0006_0007_0008 }),
        "1:0:3:4:5:6:7:8"
    );
    assert_eq!(
        format_ipv6(&Ipv6Address { bits: 0x0001_0000_0000_0004_0000_0000_0007_0008 }),
        "1::4:0:0:7:8"
    );
    assert_eq!(
        format_ipv6(&Ipv6Address { bits: 0x0001_0000_0000_0004_0000_0000_0000_0008 }),
        "1:0:0:4::8"
    );
    assert_eq!(format_ipv6(&Ipv6Address { bits: 0x0000_ffff_0102_0304 }), "::ffff:1.2.3.4");
    assert_eq!(
        format_ipv6(&Ipv6Address { bits: 0xfe80_0000_0000_0000_0000_0000_0000_0000 }),
        "fe80::"
    );
}

#[test]
fn what_is_written_is_read_back() {
    let mut samples: Vec<u128> = vec![
        0,
        1,
        u128::MAX,
        0x2001_0db8_0000_0000_1234_5678_9abc_def0,
        0x0000_ffff_0102_0304,
        0x0000_0000_0102_0304,
        0x0001_0000_0000_0000_0000_ffff_0102_0304,
        0x0000_0000_0000_0000_0001_0000_0000_0000,
        0x0001_0000_0000_0001_0000_0000_0000_0001,
        0x0001_0000_0000_0000_0001_0000_0000_0000,
        0x0000_0001_0000_0001_0000_0001_0000_0001,
        0x0001_0000_0001_0000_0001_0000_0001_0000,
        0x00ab_000c_0d00_e000_0f0f_0010_0100_1000,
    ];
    let mut state: u128 = 0x9e37_79b9_7f4a_7c15_f39c_c060_5ced_c835;
    for round in 0..400u32 {
        state = state
            .wrapping_mul(0x2545_f491_4f6c_dd1d_0000_0000_0000_0001)
            .wrapping_add(0x1405_7b7e_f767_814f);
        let mut value = state;
        let mut group = 0;
        while group < 8 {
            if (state >> (group * 7 + (round % 5))) & 3 != 0 {
                value &= !(0xffffu128 << (group * 16));
            }
            group += 1;
        }
        samples.push(value);
    }
    for bits in samples {
        let text = format_ipv6(&Ipv6Address { bits });
        assert_eq!(parse_ipv6(&text), Some(Ipv6Address { bits }), "{:?}", text);
        assert!(!text.contains(":::"));
        assert!(text.matches("::").count() <= 1);
        let low = bits as u32;
        let text = format_ipv4(&Ipv4Address { bits: low });
        assert_eq!(parse_ipv4(&text), Some(Ipv4Address { bits: low }), "{:?}", text);
    }
}

#[test]
fn either_family_is_written() {
    assert_eq!(format_ip(&IpAddress::V4(Ipv4Address { bits: 0x7f00_0001 })), "127.0.0.1");
    assert_eq!(format_ip(&IpAddress::V6(Ipv6Address { bits: 0x7f00_0001 })), "::7f00:1");
}

#[test]
fn halves_of_an_address() {
    let address = v6("2001:db8::1234:5678:9abc:def0");
    assert_eq!(address.prefix(), 0x2001_0db8_0000_0000);
    assert_eq!(address.interface_id(), 0x1234_5678_9abc_def0);
    let other = v6("fe80::1");
    assert_eq!(address.with_interface_of(&other), v6("2001:db8::1"));
}

#[test]
fn interface_identifier_replaces_the_low_half() {
    let resolved = v6("2001:db8::1234:5678:9abc:def0");
    let merged = merge_interface_id(&resolved, &Some(String::from("::ffff:ffff:ffff:ffff")));
    let merged = merged.expect("a merged address");
    assert_eq!(merged.address.interface_id(), 0xffff_ffff_ffff_ffff);
    assert_eq!(merged.address.prefix(), 0x2001_0db8_0000_0000);
    assert_eq!(merged.address, v6("2001:db8::ffff:ffff:ffff:ffff"));
    assert!(!merged.prefix_ignored);
}

#[test]
fn interface_identifier_with_high_bits_still_merges() {
    let resolved = v6("2001:db8:1:2:3:4:5:6");
    let merged = merge_interface_id(&resolved, &Some(String::from("fe80::a:b:c:d")));
    assert_eq!(
        merged,
        Some(MergedAddress { address: v6("2001:db8:1:2:a:b:c:d"), prefix_ignored: true })
    );
    let merged = merge_interface_id(&resolved, &Some(String::from("8000:8000::1")));
    assert_eq!(
        merged,
        Some(MergedAddress { address: v6("2001:db8:1:2::1"), prefix_ignored: true })
    );
}

#[test]
fn no_interface_identifier_leaves_the_address() {
    let resolved = v6("2001:db8:1:2:3:4:5:6");
    assert_eq!(
        merge_interface_id(&resolved, &None),
        Some(MergedAddress { address: resolved, prefix_ignored: false })
    );
}

#[test]
fn unreadable_interface_identifier_gives_nothing() {
    let resolved = v6("2001:db8:1:2:3:4:5:6");
    assert_eq!(merge_interface_id(&resolved, &Some(String::from("not an address"))), None);
    assert_eq!(merge_interface_id(&resolved, &Some(String::from(""))), None);
    assert_eq!(merge_interface_id(&resolved, &Some(String::from("1.2.3.4"))), None);
}

#[test]
fn white_space_is_what_the_language_calls_white_space() {
    let mut code: u32 = 0;
    while code <= 0x3100 {
        if let Some(c) = char::from_u32(code) {
            let before = format!("{}1.2.3.4", c);
            let after = format!("::1{}", c);
            assert_eq!(parse_ipv4_trimmed(&before), parse_ipv4(before.trim()), "{:?}", c);
            assert_eq!(parse_ipv6_trimmed(&after), parse_ipv6(after.trim()), "{:?}", c);
            assert_eq!(
                parse_ipv6_trimmed(&after).is_some(),
                c.is_whitespace() || c.is_ascii_hexdigit(),
                "{:?}",
                c
            );
        }
        code += 1;
    }
    for c in ['\u{feff}', '\u{e000}', '\u{1f600}', '\u{10ffff}', '\u{d7ff}', '\u{fffd}'] {
        let before = format!("{}1.2.3.4", c);
        assert_eq!(parse_ipv4_trimmed(&before), None, "{:?}", c);
    }
}
