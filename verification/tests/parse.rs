use resolver::addr::IpAddress;
use resolver::addr::SocketAddress;
use resolver::parse::find_char_in;
use resolver::parse::parse_decimal_u16;
use resolver::parse::parse_ipv4;
use resolver::parse::parse_socket_literal;
use resolver::parse::parse_u16_text;

fn sock(a: u8, b: u8, c: u8, d: u8, port: u16) -> SocketAddress {
    SocketAddress::new(IpAddress::v4(a, b, c, d), port)
}

#[test]
fn literal_loopback() {
    assert_eq!(
        parse_socket_literal("127.0.0.1:8080"),
        Some(sock(127, 0, 0, 1, 8080))
    );
}

#[test]
fn literal_extremes() {
    assert_eq!(parse_socket_literal("0.0.0.0:0"), Some(sock(0, 0, 0, 0, 0)));
    assert_eq!(
        parse_socket_literal("255.255.255.255:65535"),
        Some(sock(255, 255, 255, 255, 65535))
    );
}

#[test]
fn literal_needs_port() {
    assert_eq!(parse_socket_literal("127.0.0.1"), None);
    assert_eq!(parse_socket_literal("127.0.0.1:"), None);
}

#[test]
fn literal_rejects_bad_octets() {
    assert_eq!(parse_socket_literal("256.0.0.1:80"), None);
    assert_eq!(parse_socket_literal("01.2.3.4:80"), None);
    assert_eq!(parse_socket_literal("1.2.3:80"), None);
    assert_eq!(parse_socket_literal("1.2.3.4.5:80"), None);
    assert_eq!(parse_socket_literal("a.b.c.d:80"), None);
    assert_eq!(parse_socket_literal("1..2.3:80"), None);
}

#[test]
fn literal_rejects_bad_ports() {
    assert_eq!(parse_socket_literal("1.2.3.4:65536"), None);
    assert_eq!(parse_socket_literal("1.2.3.4:http"), None);
    // A `+` is tolerated only in the lenient host/port split, not in a
    // literal address.
    assert_eq!(parse_socket_literal("1.2.3.4:+80"), None);
}

#[test]
fn literal_port_leading_zeros() {
    assert_eq!(
        parse_socket_literal("10.0.0.2:008080"),
        Some(sock(10, 0, 0, 2, 8080))
    );
}

#[test]
fn literal_not_a_hostname() {
    assert_eq!(parse_socket_literal("example:80"), None);
    assert_eq!(parse_socket_literal("localhost:5000"), None);
    assert_eq!(parse_socket_literal(""), None);
}

fn sock6(segments: [u16; 8], port: u16) -> SocketAddress {
    SocketAddress::new(
        IpAddress::v6(
            segments[0],
            segments[1],
            segments[2],
            segments[3],
            segments[4],
            segments[5],
            segments[6],
            segments[7],
        ),
        port,
    )
}

#[test]
fn literal_v6_loopback() {
    assert_eq!(
        parse_socket_literal("[::1]:8080"),
        Some(sock6([0, 0, 0, 0, 0, 0, 0, 1], 8080))
    );
    assert_eq!(
        parse_socket_literal("[::]:0"),
        Some(sock6([0, 0, 0, 0, 0, 0, 0, 0], 0))
    );
}

#[test]
fn literal_v6_full_and_elided() {
    assert_eq!(
        parse_socket_literal("[1:2:3:4:5:6:7:8]:80"),
        Some(sock6([1, 2, 3, 4, 5, 6, 7, 8], 80))
    );
    assert_eq!(
        parse_socket_literal("[2001:db8::8a2e:370:7334]:443"),
        Some(sock6([0x2001, 0x0db8, 0, 0, 0, 0x8a2e, 0x0370, 0x7334], 443))
    );
    assert_eq!(
        parse_socket_literal("[1::]:80"),
        Some(sock6([1, 0, 0, 0, 0, 0, 0, 0], 80))
    );
    assert_eq!(
        parse_socket_literal("[::1:2:3:4:5:6:7]:80"),
        Some(sock6([0, 1, 2, 3, 4, 5, 6, 7], 80))
    );
    // Group values are hexadecimal, either case, with leading zeros allowed.
    assert_eq!(
        parse_socket_literal("[a:b:c:d:e:f:A:000B]:1"),
        Some(sock6([0xa, 0xb, 0xc, 0xd, 0xe, 0xf, 0xa, 0xb], 1))
    );
    assert_eq!(
        parse_socket_literal("[0001:0002:0003:0004:0005:0006:0007:0008]:9"),
        Some(sock6([1, 2, 3, 4, 5, 6, 7, 8], 9))
    );
    assert_eq!(
        parse_socket_literal("[fe80::01]:80"),
        Some(sock6([0xfe80, 0, 0, 0, 0, 0, 0, 1], 80))
    );
}

#[test]
fn literal_v6_embedded_v4() {
    assert_eq!(
        parse_socket_literal("[::ffff:192.168.0.1]:80"),
        Some(sock6([0, 0, 0, 0, 0, 0xffff, 0xc0a8, 0x0001], 80))
    );
    assert_eq!(
        parse_socket_literal("[1:2:3:4:5:6:192.168.0.1]:80"),
        Some(sock6([1, 2, 3, 4, 5, 6, 0xc0a8, 0x0001], 80))
    );
    assert_eq!(
        parse_socket_literal("[1::2:1.2.3.4]:80"),
        Some(sock6([1, 0, 0, 0, 0, 2, 0x0102, 0x0304], 80))
    );
    assert_eq!(
        parse_socket_literal("[1::7:1.2.3.4]:80"),
        Some(sock6([1, 0, 0, 0, 0, 7, 0x0102, 0x0304], 80))
    );
    assert_eq!(
        parse_socket_literal("[::0.0.0.0]:80"),
        Some(sock6([0, 0, 0, 0, 0, 0, 0, 0], 80))
    );
    // The embedded address can only stand last, and only whole.
    assert_eq!(parse_socket_literal("[1.2.3.4::1]:80"), None);
    assert_eq!(parse_socket_literal("[::1.2.3.4.5]:80"), None);
    assert_eq!(parse_socket_literal("[1:2:3:4:5:6:1.2.3.4:8]:80"), None);
}

#[test]
fn literal_v6_rejects_bad_addresses() {
    assert_eq!(parse_socket_literal("[]:80"), None);
    assert_eq!(parse_socket_literal("[:::1]:80"), None);
    assert_eq!(parse_socket_literal("[1::2::3]:80"), None);
    assert_eq!(parse_socket_literal("[12345::]:80"), None);
    assert_eq!(parse_socket_literal("[1:2:3:4:5:6:7]:80"), None);
    assert_eq!(parse_socket_literal("[1:2:3:4:5:6:7:8:9]:80"), None);
    assert_eq!(parse_socket_literal("[::1:2:3:4:5:6:7:8]:80"), None);
    assert_eq!(parse_socket_literal("[1:g::]:80"), None);
    assert_eq!(parse_socket_literal("[1.2.3.4]:80"), None);
    // Scope identifiers are not part of the address model.
    assert_eq!(parse_socket_literal("[fe80::1%1]:80"), None);
}

#[test]
fn literal_v6_needs_bracketed_port() {
    assert_eq!(parse_socket_literal("[::1]"), None);
    assert_eq!(parse_socket_literal("[::1]:"), None);
    assert_eq!(parse_socket_literal("[::1]:abc"), None);
    assert_eq!(parse_socket_literal("[::1]:65536"), None);
    assert_eq!(parse_socket_literal("[::1]80"), None);
    // An unbracketed version-6 address is not a socket literal.
    assert_eq!(parse_socket_literal("::1"), None);
    assert_eq!(parse_socket_literal("1:2:3:4:5:6:7:8"), None);
}

#[test]
fn ipv4_alone() {
    assert_eq!(parse_ipv4("10.0.0.1"), Some(IpAddress::v4(10, 0, 0, 1)));
    assert_eq!(parse_ipv4("0.0.0.0"), Some(IpAddress::v4(0, 0, 0, 0)));
    assert_eq!(parse_ipv4("10.0.0.1:80"), None);
    assert_eq!(parse_ipv4("10.0.0"), None);
    assert_eq!(parse_ipv4(""), None);
}

#[test]
fn decimal_port_values() {
    assert_eq!(parse_decimal_u16("0"), Some(0));
    assert_eq!(parse_decimal_u16("65535"), Some(65535));
    assert_eq!(parse_decimal_u16("65536"), None);
    assert_eq!(parse_decimal_u16("0080"), Some(80));
    assert_eq!(parse_decimal_u16("000000000000001"), Some(1));
    assert_eq!(parse_decimal_u16(""), None);
    assert_eq!(parse_decimal_u16("12a"), None);
    assert_eq!(parse_decimal_u16("999999999999999999999"), None);
}

#[test]
fn port_text_allows_plus() {
    assert_eq!(parse_u16_text("+80"), Some(80));
    assert_eq!(parse_u16_text("80"), Some(80));
    assert_eq!(parse_u16_text("+"), None);
    assert_eq!(parse_u16_text("-80"), None);
    assert_eq!(parse_u16_text("abc"), None);
}

#[test]
fn find_first_occurrence() {
    assert_eq!(find_char_in("example:80", ':'), Some(7));
    assert_eq!(find_char_in("a:b:c", ':'), Some(1));
    assert_eq!(find_char_in("example", ':'), None);
    assert_eq!(find_char_in("", ':'), None);
    assert_eq!(find_char_in(":head", ':'), Some(0));
}
