use geoip_service::address::{
    decimal_digit, hex_digit, join_groups, parse_address, parse_group, parse_group_list,
    parse_groups, parse_octet, parse_quad, split_fields, text_chars, IpAddress,
};

fn chars(text: &str) -> Vec<char> {
    text.chars().collect()
}

fn fields(text: &str, sep: char) -> Vec<Vec<char>> {
    text.split(sep).map(chars).collect()
}

#[test]
fn text_chars_keeps_every_character() {
    assert_eq!(text_chars(""), Vec::<char>::new());
    assert_eq!(text_chars("a:b"), vec!['a', ':', 'b']);
    assert_eq!(text_chars("é1"), vec!['é', '1']);
}

#[test]
fn split_fields_cuts_at_every_separator() {
    assert_eq!(split_fields(&chars(""), ':'), vec![Vec::<char>::new()]);
    assert_eq!(split_fields(&chars("abc"), ':'), vec![chars("abc")]);
    assert_eq!(split_fields(&chars("1::2"), ':'), vec![chars("1"), chars(""), chars("2")]);
    assert_eq!(split_fields(&chars("::"), ':'), vec![chars(""), chars(""), chars("")]);
    assert_eq!(split_fields(&chars("1.2.3.4"), '.'), fields("1.2.3.4", '.'));
    assert_eq!(split_fields(&chars("a:"), ':'), vec![chars("a"), chars("")]);
}

#[test]
fn digits_have_their_values() {
    assert_eq!(decimal_digit('0'), Some(0));
    assert_eq!(decimal_digit('9'), Some(9));
    assert_eq!(decimal_digit('a'), None);
    assert_eq!(decimal_digit('/'), None);
    assert_eq!(decimal_digit(':'), None);
    assert_eq!(hex_digit('0'), Some(0));
    assert_eq!(hex_digit('9'), Some(9));
    assert_eq!(hex_digit('a'), Some(10));
    assert_eq!(hex_digit('f'), Some(15));
    assert_eq!(hex_digit('A'), Some(10));
    assert_eq!(hex_digit('F'), Some(15));
    assert_eq!(hex_digit('g'), None);
    assert_eq!(hex_digit('G'), None);
    assert_eq!(hex_digit('@'), None);
    assert_eq!(hex_digit('`'), None);
}

#[test]
fn octets_are_one_to_three_digits_up_to_255() {
    assert_eq!(parse_octet(&chars("0")), Some(0));
    assert_eq!(parse_octet(&chars("7")), Some(7));
    assert_eq!(parse_octet(&chars("10")), Some(10));
    assert_eq!(parse_octet(&chars("255")), Some(255));
    assert_eq!(parse_octet(&chars("256")), None);
    assert_eq!(parse_octet(&chars("999")), None);
    assert_eq!(parse_octet(&chars("")), None);
    assert_eq!(parse_octet(&chars("00")), None);
    assert_eq!(parse_octet(&chars("01")), None);
    assert_eq!(parse_octet(&chars("1000")), None);
    assert_eq!(parse_octet(&chars("1a")), None);
    assert_eq!(parse_octet(&chars("-1")), None);
    assert_eq!(parse_octet(&chars("+1")), None);
}

#[test]
fn groups_are_one_to_four_hex_digits() {
    assert_eq!(parse_group(&chars("0")), Some(0));
    assert_eq!(parse_group(&chars("0000")), Some(0));
    assert_eq!(parse_group(&chars("ffff")), Some(0xffff));
    assert_eq!(parse_group(&chars("FfFf")), Some(0xffff));
    assert_eq!(parse_group(&chars("1a2B")), Some(0x1a2b));
    assert_eq!(parse_group(&chars("01")), Some(1));
    assert_eq!(parse_group(&chars("")), None);
    assert_eq!(parse_group(&chars("10000")), None);
    assert_eq!(parse_group(&chars("00000")), None);
    assert_eq!(parse_group(&chars("12g")), None);
    assert_eq!(parse_group(&chars("1.2")), None);
}

#[test]
fn quads_are_four_octets() {
    assert_eq!(parse_quad(&chars("1.2.3.4")), Some((0x0102, 0x0304)));
    assert_eq!(parse_quad(&chars("255.255.255.255")), Some((0xffff, 0xffff)));
    assert_eq!(parse_quad(&chars("0.0.0.0")), Some((0, 0)));
    assert_eq!(parse_quad(&chars("1.2.3")), None);
    assert_eq!(parse_quad(&chars("1.2.3.4.5")), None);
    assert_eq!(parse_quad(&chars("1.2.3.")), None);
    assert_eq!(parse_quad(&chars(".1.2.3")), None);
    assert_eq!(parse_quad(&chars("1..2.3")), None);
    assert_eq!(parse_quad(&chars("1.2.3.256")), None);
    assert_eq!(parse_quad(&chars("")), None);
}

#[test]
fn group_lists_allow_a_quad_only_at_the_end() {
    let list = fields("1:2:1.2.3.4", ':');
    assert_eq!(parse_group_list(&list, 0, 3, true), Some(vec![1, 2, 0x0102, 0x0304]));
    assert_eq!(parse_group_list(&list, 0, 3, false), None);
    assert_eq!(parse_group_list(&list, 0, 2, false), Some(vec![1, 2]));
    assert_eq!(parse_group_list(&list, 1, 1, false), Some(vec![]));
    let early = fields("1.2.3.4:5", ':');
    assert_eq!(parse_group_list(&early, 0, 2, true), None);
    assert_eq!(parse_group_list(&early, 0, 1, true), Some(vec![0x0102, 0x0304]));
}

#[test]
fn joined_groups_fill_the_gap_with_zeros() {
    assert_eq!(join_groups(&vec![], &vec![]), 0);
    assert_eq!(join_groups(&vec![], &vec![1]), 1);
    assert_eq!(join_groups(&vec![1], &vec![]), 1u128 << 112);
    assert_eq!(
        join_groups(&vec![0x2001, 0xdb8], &vec![0xff00, 0x42, 0x8329]),
        0x2001_0db8_0000_0000_0000_ff00_0042_8329
    );
    assert_eq!(
        join_groups(&vec![1, 2, 3, 4, 5, 6, 7, 8], &vec![]),
        0x0001_0002_0003_0004_0005_0006_0007_0008
    );
    assert_eq!(
        join_groups(&vec![], &vec![0xffff; 8]),
        u128::MAX
    );
}

#[test]
fn parse_groups_reads_colon_fields() {
    assert_eq!(parse_groups(&fields("::", ':')), Some(0));
    assert_eq!(parse_groups(&fields("::1", ':')), Some(1));
    assert_eq!(parse_groups(&fields("1::", ':')), Some(1u128 << 112));
    assert_eq!(parse_groups(&fields("1", ':')), None);
    assert_eq!(parse_groups(&fields("", ':')), None);
    assert_eq!(parse_groups(&fields(":", ':')), None);
}

#[test]
fn parses_dotted_quads() {
    assert_eq!(parse_address("8.8.8.8"), Some(IpAddress::V4(0x0808_0808)));
    assert_eq!(parse_address("1.1.1.1"), Some(IpAddress::V4(0x0101_0101)));
    assert_eq!(parse_address("203.0.113.1"), Some(IpAddress::V4(0xcb00_7101)));
    assert_eq!(parse_address("0.0.0.0"), Some(IpAddress::V4(0)));
    assert_eq!(parse_address("255.255.255.255"), Some(IpAddress::V4(u32::MAX)));
    assert_eq!(parse_address("127.0.0.1"), Some(IpAddress::V4(0x7f00_0001)));
    assert_eq!(parse_address("192.168.10.200"), Some(IpAddress::V4(0xc0a8_0ac8)));
}

#[test]
fn refuses_what_is_no_dotted_quad() {
    for text in [
        "",
        "not-an-ip",
        "1",
        "1.2.3",
        "1.2.3.4.5",
        "1.2.3.4.",
        ".1.2.3.4",
        "1..3.4",
        "256.1.1.1",
        "1.1.1.256",
        "01.2.3.4",
        "1.2.3.04",
        "1.2.3.4 ",
        " 1.2.3.4",
        "1.2.3.4\n",
        "1.2.3.-4",
        "1.2.3.+4",
        "1.2.3.4/24",
        "0x1.2.3.4",
        "1.2.3.४",
        "1,2,3,4",
        "1.2.3.4:80",
        "localhost",
    ] {
        assert_eq!(parse_address(text), None, "{:?}", text);
    }
}

#[test]
fn parses_full_ipv6() {
    assert_eq!(
        parse_address("2001:db8:85a3:0:0:8a2e:370:7334"),
        Some(IpAddress::V6(0x2001_0db8_85a3_0000_0000_8a2e_0370_7334))
    );
    assert_eq!(
        parse_address("2001:0DB8:85A3:0000:0000:8A2E:0370:7334"),
        Some(IpAddress::V6(0x2001_0db8_85a3_0000_0000_8a2e_0370_7334))
    );
    assert_eq!(
        parse_address("ffff:ffff:ffff:ffff:ffff:ffff:ffff:ffff"),
        Some(IpAddress::V6(u128::MAX))
    );
    assert_eq!(parse_address("0:0:0:0:0:0:0:0"), Some(IpAddress::V6(0)));
    assert_eq!(
        parse_address("1:2:3:4:5:6:7:8"),
        Some(IpAddress::V6(0x0001_0002_0003_0004_0005_0006_0007_0008))
    );
    assert_eq!(
        parse_address("1:2:3:4:5:6:1.2.3.4"),
        Some(IpAddress::V6(0x0001_0002_0003_0004_0005_0006_0102_0304))
    );
}

#[test]
fn parses_shortened_ipv6() {
    assert_eq!(parse_address("::"), Some(IpAddress::V6(0)));
    assert_eq!(parse_address("::1"), Some(IpAddress::V6(1)));
    assert_eq!(parse_address("1::"), Some(IpAddress::V6(1u128 << 112)));
    assert_eq!(
        parse_address("2001:db8::ff00:42:8329"),
        Some(IpAddress::V6(0x2001_0db8_0000_0000_0000_ff00_0042_8329))
    );
    assert_eq!(
        parse_address("fe80::1"),
        Some(IpAddress::V6(0xfe80_0000_0000_0000_0000_0000_0000_0001))
    );
    assert_eq!(
        parse_address("::ffff:1.2.3.4"),
        Some(IpAddress::V6(0x0000_0000_0000_0000_0000_ffff_0102_0304))
    );
    assert_eq!(parse_address("::1.2.3.4"), Some(IpAddress::V6(0x0102_0304)));
    assert_eq!(
        parse_address("1:2:3:4:5:6:7::"),
        Some(IpAddress::V6(0x0001_0002_0003_0004_0005_0006_0007_0000))
    );
    assert_eq!(
        parse_address("::2:3:4:5:6:7:8"),
        Some(IpAddress::V6(0x0000_0002_0003_0004_0005_0006_0007_0008))
    );
    assert_eq!(
        parse_address("1:2:3:4::6:7:8"),
        Some(IpAddress::V6(0x0001_0002_0003_0004_0000_0006_0007_0008))
    );
    assert_eq!(
        parse_address("1:2:3:4:5::1.2.3.4"),
        Some(IpAddress::V6(0x0001_0002_0003_0004_0005_0000_0102_0304))
    );
    assert_eq!(
        parse_address("64:ff9b::192.0.2.33"),
        Some(IpAddress::V6(0x0064_ff9b_0000_0000_0000_0000_c000_0221))
    );
}

#[test]
fn refuses_what_is_no_ipv6() {
    for text in [
        ":",
        ":::",
        ":1",
        "1:",
        "1:2",
        "1:2:3:4:5:6:7",
        "1:2:3:4:5:6:7:8:9",
        "1:2:3:4:5:6:7:8::",
        "::1:2:3:4:5:6:7:8",
        "1::2:3:4:5:6:7:8",
        "1::2::3",
        "1:::2",
        "::1::",
        "12345::",
        "::12345",
        "::g",
        "1:2:3:4:5:6:7:1.2.3.4",
        "1:2:3:4:5:6::1.2.3.4",
        "1.2.3.4::",
        "1.2.3.4::1",
        "1:1.2.3.4::",
        "::1.2.3.4:5",
        "::1.2.3",
        "::1.2.3.256",
        "::01.2.3.4",
        "fe80::1%eth0",
        "[::1]",
        "::1 ",
        " ::1",
        "1:2:3:4:5:6:1.2.3.4:7",
        "1:2:3:4:5:1.2.3.4",
        "1:2:3:4:5:6:7:1.2.3.4",
        "::ffff:1.2.3.4.5",
    ] {
        assert_eq!(parse_address(text), None, "{:?}", text);
    }
}

#[test]
fn a_long_text_is_refused() {
    let long = "1".repeat(10_000);
    assert_eq!(parse_address(&long), None);
    let colons = ":".repeat(10_000);
    assert_eq!(parse_address(&colons), None);
}
