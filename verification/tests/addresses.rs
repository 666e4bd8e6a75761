use bw_config::number::decimal_string;
use bw_config::number::digit_text;
use bw_config::number::parse_number;
use bw_config::ipv4::parse_octet;
use bw_config::text::split_text;
use bw_config::text::text_chars;
use bw_config::number::hex_string;
use bw_config::ipv6::parse_group;
use bw_config::ipv6::parse_ipv6;
use bw_config::IpAddress;
use bw_config::SocketAddress;

fn chars(text: &str) -> Vec<char> {
    text.chars().collect()
}

#[test]
fn text_as_characters() {
    assert_eq!(text_chars("a.é"), vec!['a', '.', 'é']);
    assert!(text_chars("").is_empty());
}

#[test]
fn split_at_every_mark() {
    assert_eq!(split_text(&chars("1.2.3"), '.'), vec![chars("1"), chars("2"), chars("3")]);
    assert_eq!(split_text(&chars(""), '.'), vec![chars("")]);
    assert_eq!(split_text(&chars("."), '.'), vec![chars(""), chars("")]);
    assert_eq!(split_text(&chars("a..b."), '.'), vec![chars("a"), chars(""), chars("b"), chars("")]);
    assert_eq!(split_text(&chars("abc"), ':'), vec![chars("abc")]);
}

#[test]
fn numbers_in_decimal() {
    assert_eq!(parse_number(&chars("0"), 255), Some(0));
    assert_eq!(parse_number(&chars("255"), 255), Some(255));
    assert_eq!(parse_number(&chars("256"), 255), None);
    assert_eq!(parse_number(&chars("007"), 255), Some(7));
    assert_eq!(parse_number(&chars("65535"), 65535), Some(65535));
    assert_eq!(parse_number(&chars("65536"), 65535), None);
    assert_eq!(parse_number(&chars("99999999999999999999"), 65535), None);
    assert_eq!(parse_number(&chars(""), 65535), None);
    assert_eq!(parse_number(&chars("12a"), 65535), None);
    assert_eq!(parse_number(&chars("-1"), 65535), None);
    assert_eq!(parse_number(&chars("٣"), 65535), None);
}

#[test]
fn octets() {
    assert_eq!(parse_octet(&chars("0")), Some(0));
    assert_eq!(parse_octet(&chars("10")), Some(10));
    assert_eq!(parse_octet(&chars("255")), Some(255));
    assert_eq!(parse_octet(&chars("256")), None);
    assert_eq!(parse_octet(&chars("00")), None);
    assert_eq!(parse_octet(&chars("01")), None);
    assert_eq!(parse_octet(&chars("0001")), None);
    assert_eq!(parse_octet(&chars("")), None);
}

#[test]
fn addresses() {
    assert_eq!(IpAddress::parse("1.2.3.4"), Some(IpAddress::V4([1, 2, 3, 4])));
    assert_eq!(IpAddress::parse("0.0.0.0"), Some(IpAddress::V4([0, 0, 0, 0])));
    assert_eq!(IpAddress::parse("255.255.255.255"), Some(IpAddress::V4([255, 255, 255, 255])));
    for bad in ["", "1.2.3", "1.2.3.4.5", "1.2.3.256", "01.2.3.4", "1..3.4", "1.2.3.4 ", "a.b.c.d", "1.2.3.4:5"] {
        assert_eq!(IpAddress::parse(bad), None, "{}", bad);
    }
    assert_eq!(IpAddress::parse_chars(&chars("10.0.0.1")), Some(IpAddress::V4([10, 0, 0, 1])));
}

#[test]
fn socket_addresses() {
    assert_eq!(
        SocketAddress::parse("1.2.3.4:124"),
        Some(SocketAddress { ip: IpAddress::V4([1, 2, 3, 4]), port: 124 })
    );
    assert_eq!(SocketAddress::parse("1.2.3.4:0").unwrap().port, 0);
    assert_eq!(SocketAddress::parse("1.2.3.4:65535").unwrap().port, 65535);
    assert_eq!(SocketAddress::parse("1.2.3.4:0080").unwrap().port, 80);
    for bad in ["1.2.3.4", "1.2.3.4:", ":80", "1.2.3.4:65536", "1.2.3.4:80:80", "1.2.3:80", "1.2.3.4:8o"] {
        assert_eq!(SocketAddress::parse(bad), None, "{}", bad);
    }
}

#[test]
fn addresses_as_text() {
    assert_eq!(IpAddress::V4([192, 168, 0, 1]).to_text(), "192.168.0.1");
    assert_eq!(IpAddress::V4([0, 0, 0, 0]).to_text(), "0.0.0.0");
    let socket = SocketAddress { ip: IpAddress::V4([10, 20, 30, 40]), port: 65535 };
    assert_eq!(socket.to_text(), "10.20.30.40:65535");
    assert_eq!(SocketAddress::parse(&socket.to_text()), Some(socket));
    assert_eq!(decimal_string(0), "0");
    assert_eq!(decimal_string(1400), "1400");
    assert_eq!(decimal_string(4294967295), "4294967295");
    assert_eq!(digit_text(7), "7");
}

#[test]
fn addresses_of_version_six() {
    let cases: Vec<(&str, [u16; 8])> = vec![
        ("::", [0, 0, 0, 0, 0, 0, 0, 0]),
        ("::1", [0, 0, 0, 0, 0, 0, 0, 1]),
        ("1::", [1, 0, 0, 0, 0, 0, 0, 0]),
        ("2001:db8::8a2e:370:7334", [0x2001, 0xdb8, 0, 0, 0, 0x8a2e, 0x370, 0x7334]),
        ("1:2:3:4:5:6:7:8", [1, 2, 3, 4, 5, 6, 7, 8]),
        ("1:2:3:4:5:6:7::", [1, 2, 3, 4, 5, 6, 7, 0]),
        ("::2:3:4:5:6:7:8", [0, 2, 3, 4, 5, 6, 7, 8]),
        ("FE80::AbCd", [0xfe80, 0, 0, 0, 0, 0, 0, 0xabcd]),
        ("0001:0002::ffff", [1, 2, 0, 0, 0, 0, 0, 0xffff]),
        ("::ffff:1.2.3.4", [0, 0, 0, 0, 0, 0xffff, 0x0102, 0x0304]),
        ("::255.255.255.255", [0, 0, 0, 0, 0, 0, 0xffff, 0xffff]),
        ("1:2:3:4:5:6:1.2.3.4", [1, 2, 3, 4, 5, 6, 0x0102, 0x0304]),
        ("1:2:3:4:5::1.2.3.4", [1, 2, 3, 4, 5, 0, 0x0102, 0x0304]),
    ];
    for (text, groups) in cases {
        assert_eq!(IpAddress::parse(text), Some(IpAddress::V6(groups)), "{}", text);
    }
}

#[test]
fn texts_that_write_no_address_of_version_six() {
    for bad in [
        ":",
        ":::",
        "1:2:3:4:5:6:7",
        "1:2:3:4:5:6:7:8:9",
        "1:2:3:4:5:6:7::8",
        "1:2:3:4:5:6:7:8::",
        "1::2::3",
        "12345::",
        "g::",
        "::1:",
        ":1::",
        "::1.2.3.4.5",
        "1.2.3.4::",
        "::1.2.3.4:5",
        "1:2:3:4:5:6:7:1.2.3.4",
        "1:2:3:4:5:6::1.2.3.4",
        "[::1]",
        "::1%1",
    ] {
        assert_eq!(IpAddress::parse(bad), None, "{}", bad);
    }
}

#[test]
fn addresses_of_version_six_as_text() {
    let cases: Vec<([u16; 8], &str)> = vec![
        ([0x2001, 0xdb8, 0, 0, 0, 0, 0, 1], "2001:db8::1"),
        ([0xffff; 8], "ffff:ffff:ffff:ffff:ffff:ffff:ffff:ffff"),
        ([0; 8], "::"),
        ([0, 0, 0, 0, 0, 0, 0, 1], "::1"),
        ([1, 0, 0, 0, 0, 0, 0, 0], "1::"),
        ([1, 0, 0, 2, 0, 0, 0, 3], "1:0:0:2::3"),
        ([1, 0, 0, 2, 0, 0, 3, 4], "1::2:0:0:3:4"),
        ([1, 0, 2, 3, 4, 5, 6, 7], "1:0:2:3:4:5:6:7"),
        ([1, 2, 3, 4, 5, 6, 0, 0], "1:2:3:4:5:6::"),
        ([0, 0, 1, 2, 3, 4, 5, 6], "::1:2:3:4:5:6"),
        ([0xfe80, 0, 0, 0, 0xa, 0xb0, 0xc00, 0xd000], "fe80::a:b0:c00:d000"),
        ([0, 0, 0, 0, 0, 0xffff, 0x0102, 0x0304], "::ffff:1.2.3.4"),
        ([0, 0, 0, 0, 0, 0xffff, 0, 0xff], "::ffff:0.0.0.255"),
        ([0, 0, 0, 0, 0, 0, 0x0102, 0x0304], "::102:304"),
        ([0, 0, 0, 0, 1, 0xffff, 0x0102, 0x0304], "::1:ffff:102:304"),
    ];
    for (groups, text) in cases {
        let ip = IpAddress::V6(groups);
        assert_eq!(ip.to_text(), text);
        assert_eq!(IpAddress::parse(text), Some(ip), "{}", text);
    }
}

#[test]
fn socket_addresses_of_version_six() {
    let socket = SocketAddress { ip: IpAddress::V6([0, 0, 0, 0, 0, 0, 0, 1]), port: 80 };
    assert_eq!(SocketAddress::parse("[::1]:80"), Some(socket));
    assert_eq!(socket.to_text(), "[::1]:80");
    let mapped = SocketAddress { ip: IpAddress::V6([0, 0, 0, 0, 0, 0xffff, 0x7f00, 1]), port: 1 };
    assert_eq!(mapped.to_text(), "[::ffff:127.0.0.1]:1");
    assert_eq!(SocketAddress::parse(&mapped.to_text()), Some(mapped));
    assert_eq!(SocketAddress::parse(&socket.to_text()), Some(socket));
    assert_eq!(
        SocketAddress::parse("[2001:db8::1]:65535"),
        Some(SocketAddress { ip: IpAddress::V6([0x2001, 0xdb8, 0, 0, 0, 0, 0, 1]), port: 65535 })
    );
    for bad in ["[::1]", "[::1]80", "[::1]:", "[::1]:65536", "[1.2.3.4]:80", "::1:80", "[::1:80", "[]:80", "[::1]]:80", "[[::1]:80"] {
        assert_eq!(SocketAddress::parse(bad), None, "{}", bad);
    }
}

#[test]
fn hexadecimal_groups() {
    assert_eq!(parse_group(&chars("0")), Some(0));
    assert_eq!(parse_group(&chars("ffff")), Some(0xffff));
    assert_eq!(parse_group(&chars("FfFf")), Some(0xffff));
    assert_eq!(parse_group(&chars("00a")), Some(10));
    assert_eq!(parse_group(&chars("")), None);
    assert_eq!(parse_group(&chars("10000")), None);
    assert_eq!(parse_group(&chars("00001")), None);
    assert_eq!(parse_group(&chars("1g")), None);
    assert_eq!(hex_string(0), "0");
    assert_eq!(hex_string(0xabcd), "abcd");
    assert_eq!(hex_string(0x10), "10");
    assert_eq!(parse_ipv6(&chars("::")), Some([0u16; 8]));
    assert_eq!(parse_ipv6(&chars("1.2.3.4")), None);
}
