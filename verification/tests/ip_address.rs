use shutdown_on_lan::ip_address::IpAddress;

#[test]
fn parses_dotted_decimal() {
    assert_eq!(IpAddress::parse("127.0.0.1"), Some(IpAddress::V4(127, 0, 0, 1)));
    assert_eq!(IpAddress::parse("10.0.0.5"), Some(IpAddress::V4(10, 0, 0, 5)));
    assert_eq!(IpAddress::parse("255.255.255.255"), Some(IpAddress::V4(255, 255, 255, 255)));
    assert_eq!(IpAddress::parse("0.0.0.0"), Some(IpAddress::V4(0, 0, 0, 0)));
}

#[test]
fn rejects_malformed_dotted_decimal() {
    for text in [
        "", "not-an-ip", "1.2.3", "1.2.3.4.5", "256.0.0.1", "01.2.3.4", "1.2.3.04", "1..2.3",
        " 1.2.3.4", "1.2.3.4 ", "1.2.3.4\n", "1.2.3.a", "1234.1.1.1", "1.2.3.", ".1.2.3", "+1.2.3.4",
    ] {
        assert_eq!(IpAddress::parse(text), None, "{:?}", text);
    }
}

fn v6(groups: [u16; 8]) -> IpAddress {
    IpAddress::V6(
        groups[0], groups[1], groups[2], groups[3], groups[4], groups[5], groups[6], groups[7],
    )
}

#[test]
fn parses_colon_hexadecimal() {
    let cases: Vec<(&str, [u16; 8])> = vec![
        ("::", [0, 0, 0, 0, 0, 0, 0, 0]),
        ("::1", [0, 0, 0, 0, 0, 0, 0, 1]),
        ("1::", [1, 0, 0, 0, 0, 0, 0, 0]),
        ("1:2:3:4:5:6:7:8", [1, 2, 3, 4, 5, 6, 7, 8]),
        ("1:2:3:4:5:6:7::", [1, 2, 3, 4, 5, 6, 7, 0]),
        ("::2:3:4:5:6:7:8", [0, 2, 3, 4, 5, 6, 7, 8]),
        ("::1:2:3:4:5:6:7", [0, 1, 2, 3, 4, 5, 6, 7]),
        ("1::8", [1, 0, 0, 0, 0, 0, 0, 8]),
        ("fe80::1", [0xfe80, 0, 0, 0, 0, 0, 0, 1]),
        ("FE80::ABCD", [0xfe80, 0, 0, 0, 0, 0, 0, 0xabcd]),
        ("0001::", [1, 0, 0, 0, 0, 0, 0, 0]),
        ("0:0:0:0:0:0:0:0", [0, 0, 0, 0, 0, 0, 0, 0]),
        ("::ffff:1.2.3.4", [0, 0, 0, 0, 0, 0xffff, 0x0102, 0x0304]),
        ("0:0:0:0:0:ffff:102:304", [0, 0, 0, 0, 0, 0xffff, 0x0102, 0x0304]),
        ("1:2:3:4:5:6:1.2.3.4", [1, 2, 3, 4, 5, 6, 0x0102, 0x0304]),
        ("::1.2.3.4", [0, 0, 0, 0, 0, 0, 0x0102, 0x0304]),
        ("1:2:3:4:5::1.2.3.4", [1, 2, 3, 4, 5, 0, 0x0102, 0x0304]),
        ("::255.255.255.255", [0, 0, 0, 0, 0, 0, 0xffff, 0xffff]),
    ];
    for (text, groups) in cases {
        assert_eq!(IpAddress::parse(text), Some(v6(groups)), "{:?}", text);
    }
}

#[test]
fn rejects_malformed_colon_hexadecimal() {
    for text in [
        "1:2:3:4:5:6::1.2.3.4", "1:2:3:4:5:6:7:1.2.3.4", "1.2.3.4::", "1::2::3", ":::", ":",
        "1:", ":1", "1:2:3:4:5:6:7", "1:2:3:4:5:6:7:8:9", "12345::", "00001::", "g::",
        "1::2:3:4:5:6:7:8", "1:2:3:4:5:6:7:8::", "::ffff:256.1.1.1", "::ffff:01.1.1.1",
        "1:2:3:4:5:6:7:8 ", "[::1]", "::1%eth0", "a.b.c.d", "1.2.3.4:80", "::ffff:1.2.3",
        "1::1.2.3.4:5", "1:::2", ":1::2", "::1:", "1.2.3.4:5::",
    ] {
        assert_eq!(IpAddress::parse(text), None, "{:?}", text);
    }
}

#[test]
fn writes_colon_hexadecimal() {
    let cases: Vec<([u16; 8], &str)> = vec![
        ([0, 0, 0, 0, 0, 0, 0, 0], "::"),
        ([0, 0, 0, 0, 0, 0, 0, 1], "::1"),
        ([1, 0, 0, 0, 0, 0, 0, 0], "1::"),
        ([1, 2, 3, 4, 5, 6, 7, 8], "1:2:3:4:5:6:7:8"),
        ([1, 0, 0, 2, 0, 0, 0, 3], "1:0:0:2::3"),
        ([1, 0, 0, 0, 2, 0, 0, 0], "1::2:0:0:0"),
        ([1, 0, 2, 0, 3, 0, 4, 0], "1:0:2:0:3:0:4:0"),
        ([0, 0, 0, 0, 0, 0xffff, 0x0102, 0x0304], "::ffff:1.2.3.4"),
        ([0, 0, 0, 0, 0, 0, 0x0102, 0x0304], "::102:304"),
        ([0xfe80, 0, 0, 0, 0xabcd, 0x10, 0x100, 0x1000], "fe80::abcd:10:100:1000"),
        ([0, 1, 0, 0, 1, 0, 0, 1], "0:1::1:0:0:1"),
        (
            [0xffff, 0xffff, 0xffff, 0xffff, 0xffff, 0xffff, 0xffff, 0xffff],
            "ffff:ffff:ffff:ffff:ffff:ffff:ffff:ffff",
        ),
    ];
    for (groups, text) in cases {
        assert_eq!(v6(groups).to_text(), text);
        assert_eq!(IpAddress::parse(text), Some(v6(groups)));
    }
}

#[test]
fn writes_dotted_decimal() {
    assert_eq!(IpAddress::V4(0, 0, 0, 0).to_text(), "0.0.0.0");
    assert_eq!(IpAddress::V4(127, 0, 0, 1).to_text(), "127.0.0.1");
    assert_eq!(IpAddress::V4(255, 255, 255, 255).to_text(), "255.255.255.255");
    assert_eq!(IpAddress::V4(10, 200, 99, 100).to_text(), "10.200.99.100");
}

#[test]
fn reading_what_was_written_gives_the_address_back() {
    let mut seed: u32 = 12345;
    for round in 0..2000 {
        let mut groups = [0u16; 8];
        for slot in groups.iter_mut() {
            seed = seed.wrapping_mul(1664525).wrapping_add(1013904223);
            let pick = (seed >> 16) as u16;
            *slot = if pick % 3 == 0 { 0 } else if pick % 3 == 1 { pick % 300 } else { pick };
        }
        let address = if round % 4 == 0 {
            IpAddress::V4(groups[0] as u8, groups[1] as u8, groups[2] as u8, groups[3] as u8)
        } else {
            v6(groups)
        };
        assert_eq!(IpAddress::parse(&address.to_text()), Some(address));
    }
}
