use turbine::ip::{parse_ip, ClientIp};
use turbine::resolver::{get_ip, RequestHeaders};
use turbine::text::{dec3_string, dec_string};

fn v4(a: u8, b: u8, c: u8, d: u8) -> Option<ClientIp> {
    Some(ClientIp::V4(a, b, c, d))
}

#[test]
fn parses_dotted_quads() {
    assert_eq!(parse_ip("203.0.113.5"), v4(203, 0, 113, 5));
    assert_eq!(parse_ip("0.0.0.0"), v4(0, 0, 0, 0));
    assert_eq!(parse_ip("255.255.255.255"), v4(255, 255, 255, 255));
}

#[test]
fn rejects_malformed_dotted_quads() {
    assert_eq!(parse_ip(""), None);
    assert_eq!(parse_ip("bad"), None);
    assert_eq!(parse_ip("1.2.3"), None);
    assert_eq!(parse_ip("1.2.3.4.5"), None);
    assert_eq!(parse_ip("256.0.0.1"), None);
    assert_eq!(parse_ip("01.2.3.4"), None); // leading zero
    assert_eq!(parse_ip("1..2.3"), None);
    assert_eq!(parse_ip("1.2.3.4 "), None); // the parser itself does not trim
    assert_eq!(parse_ip("1.2.3.x"), None);
    assert_eq!(parse_ip("1.2.3.4x"), None);
}

#[test]
fn parses_colon_grouped_v6() {
    assert_eq!(
        parse_ip("1:2:3:4:5:6:7:8"),
        Some(ClientIp::V6(1, 2, 3, 4, 5, 6, 7, 8))
    );
    assert_eq!(
        parse_ip("2001:db8:0:0:0:8a2e:370:7334"),
        Some(ClientIp::V6(0x2001, 0xdb8, 0, 0, 0, 0x8a2e, 0x370, 0x7334))
    );
    // hex digits in either case
    assert_eq!(
        parse_ip("ABcd::eF"),
        Some(ClientIp::V6(0xabcd, 0, 0, 0, 0, 0, 0, 0xef))
    );
}

#[test]
fn parses_compressed_v6() {
    assert_eq!(parse_ip("::"), Some(ClientIp::V6(0, 0, 0, 0, 0, 0, 0, 0)));
    assert_eq!(parse_ip("::1"), Some(ClientIp::V6(0, 0, 0, 0, 0, 0, 0, 1)));
    assert_eq!(parse_ip("1::"), Some(ClientIp::V6(1, 0, 0, 0, 0, 0, 0, 0)));
    assert_eq!(
        parse_ip("2001:db8::8a2e:370:7334"),
        Some(ClientIp::V6(0x2001, 0xdb8, 0, 0, 0, 0x8a2e, 0x370, 0x7334))
    );
}

#[test]
fn parses_embedded_dotted_quads() {
    assert_eq!(
        parse_ip("::ffff:192.0.2.1"),
        Some(ClientIp::V6(0, 0, 0, 0, 0, 0xffff, 0xc000, 0x0201))
    );
    assert_eq!(
        parse_ip("1:2:3:4:5:6:7.8.9.10"),
        Some(ClientIp::V6(1, 2, 3, 4, 5, 6, 0x0708, 0x090a))
    );
}

#[test]
fn rejects_malformed_v6() {
    assert_eq!(parse_ip(":"), None);
    assert_eq!(parse_ip(":::"), None);
    assert_eq!(parse_ip("1::2::3"), None);
    assert_eq!(parse_ip("1:2:3:4:5:6:7"), None); // seven groups, no ::
    assert_eq!(parse_ip("1:2:3:4:5:6:7:8:9"), None);
    assert_eq!(parse_ip("12345::"), None); // five hex digits
    assert_eq!(parse_ip("1:2:3:4:5:6:7:8::"), None); // :: with nothing to stand for
    assert_eq!(parse_ip("g::1"), None);
    assert_eq!(parse_ip("1.2.3.4::5"), None); // dotted quad not at the end
}

// --- the resolver's precedence chain ---

fn headers(
    xff: Option<&str>,
    xreal: Option<&str>,
    forwarded: &[&str],
    peer: Option<ClientIp>,
) -> RequestHeaders {
    RequestHeaders {
        x_forwarded_for: xff.map(|s| s.to_string()),
        x_real_ip: xreal.map(|s| s.to_string()),
        forwarded: forwarded.iter().map(|s| s.to_string()).collect(),
        peer,
    }
}

#[test]
fn forwarded_for_takes_the_first_valid_entry() {
    let h = headers(Some("bad, 203.0.113.5, 10.0.0.1"), None, &[], None);
    assert_eq!(get_ip(&h), v4(203, 0, 113, 5));
}

#[test]
fn real_ip_answers_when_forwarded_for_is_absent() {
    let h = headers(None, Some("198.51.100.7"), &[], None);
    assert_eq!(get_ip(&h), v4(198, 51, 100, 7));
}

#[test]
fn peer_address_is_the_last_resort() {
    let h = headers(None, None, &[], Some(ClientIp::V4(192, 0, 2, 1)));
    assert_eq!(get_ip(&h), v4(192, 0, 2, 1));
}

#[test]
fn nothing_resolves_to_nothing() {
    let h = headers(None, None, &[], None);
    assert_eq!(get_ip(&h), None);
}

#[test]
fn forwarded_header_is_read_through_the_grammar() {
    let h = headers(
        None,
        None,
        &["for=192.0.2.60;proto=http;by=203.0.113.43"],
        None,
    );
    assert_eq!(get_ip(&h), v4(192, 0, 2, 60));
    // a quoted socket-address identifier yields its IP
    let h = headers(None, None, &["for=\"192.0.2.61:4711\""], None);
    assert_eq!(get_ip(&h), v4(192, 0, 2, 61));
    // obfuscated identifiers carry no IP; later instances are tried
    let h = headers(None, None, &["for=_hidden", "for=192.0.2.62"], Some(KEY_PEER));
    assert_eq!(get_ip(&h), v4(192, 0, 2, 62));
}

#[test]
fn a_lone_quote_parameter_value_yields_no_address() {
    // the outside parser cannot survive this header shape; the
    // resolver treats the instance as yielding nothing and moves on
    let h = headers(None, None, &["for=192.0.2.60;host=\""], Some(KEY_PEER));
    assert_eq!(get_ip(&h), Some(KEY_PEER));
    let h = headers(None, None, &["host=\" ", "for=192.0.2.63"], None);
    assert_eq!(get_ip(&h), v4(192, 0, 2, 63));
    // a properly quoted empty host still parses
    let h = headers(None, None, &["for=192.0.2.64;host=\"\""], None);
    assert_eq!(get_ip(&h), v4(192, 0, 2, 64));
}

const KEY_PEER: ClientIp = ClientIp::V4(10, 0, 0, 1);

#[test]
fn earlier_sources_win() {
    let h = headers(
        Some("203.0.113.5"),
        Some("198.51.100.7"),
        &["for=192.0.2.60"],
        Some(KEY_PEER),
    );
    assert_eq!(get_ip(&h), v4(203, 0, 113, 5));
    let h = headers(
        Some("not-an-ip"),
        Some("198.51.100.7"),
        &["for=192.0.2.60"],
        Some(KEY_PEER),
    );
    assert_eq!(get_ip(&h), v4(198, 51, 100, 7));
    let h = headers(Some("not-an-ip"), None, &["for=192.0.2.60"], Some(KEY_PEER));
    assert_eq!(get_ip(&h), v4(192, 0, 2, 60));
    let h = headers(Some("not-an-ip"), None, &["for=unknown"], Some(KEY_PEER));
    assert_eq!(get_ip(&h), Some(KEY_PEER));
}

#[test]
fn entries_are_trimmed_before_parsing() {
    let h = headers(Some("  203.0.113.5\t"), None, &[], None);
    assert_eq!(get_ip(&h), v4(203, 0, 113, 5));
    let h = headers(Some(",, , 10.0.0.3"), None, &[], None);
    assert_eq!(get_ip(&h), v4(10, 0, 0, 3));
}

// --- decimal rendering ---

#[test]
fn decimal_rendering_is_exact() {
    assert_eq!(dec_string(0), "0");
    assert_eq!(dec_string(7), "7");
    assert_eq!(dec_string(12345), "12345");
    assert_eq!(dec_string(1_577_836_800_000), "1577836800000");
    assert_eq!(dec3_string(0), "000");
    assert_eq!(dec3_string(60), "060");
    assert_eq!(dec3_string(999), "999");
}
