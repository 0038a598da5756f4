use bitnames::address::{parse_hextet, parse_ipv4, parse_ipv6, parse_octet};
use bitnames::text::{bytes_eq, split_bytes, str_eq};
use bitnames::hex::decode_hex_32;
use bitnames::{BitnameInfo, DecodeError, IpAddress};
use serde_with::DeserializeAs;

const COMMITMENT_HEX: &str = "000102030405060708090a0b0c0d0e0f101112131415161718191A1B1C1D1E1F";

fn counting() -> [u8; 32] {
    let mut out = [0u8; 32];
    for i in 0..32 {
        out[i] = i as u8;
    }
    out
}

fn serde_with_hex(text: &str) -> Option<[u8; 32]> {
    let value = serde_json::Value::String(text.to_string());
    <serde_with::hex::Hex as DeserializeAs<[u8; 32]>>::deserialize_as(value).ok()
}

struct Lcg(u64);

impl Lcg {
    fn next(&mut self, bound: usize) -> usize {
        self.0 = self.0.wrapping_mul(6364136223846793005).wrapping_add(1442695040888963407);
        ((self.0 >> 33) as usize) % bound
    }
}

#[test]
fn resolved_address_prefers_ipv6() {
    let info = BitnameInfo::decode(None, Some("192.0.2.7"), Some("2001:db8::1")).unwrap();
    assert_eq!(info.ip_addr(), Some(IpAddress::V6([0x2001, 0xdb8, 0, 0, 0, 0, 0, 1])));
}

#[test]
fn resolved_address_falls_back_to_ipv4() {
    let info = BitnameInfo::decode(None, Some("192.0.2.7"), None).unwrap();
    assert_eq!(info.ip_addr(), Some(IpAddress::V4([192, 0, 2, 7])));
}

#[test]
fn resolved_address_is_absent_without_addresses() {
    let info = BitnameInfo::decode(Some(COMMITMENT_HEX), None, None).unwrap();
    assert_eq!(info.ip_addr(), None);
    let empty = BitnameInfo { commitment: None, ip4_addr: None, ip6_addr: None };
    assert_eq!(empty.ip_addr(), None);
}

#[test]
fn resolved_address_of_a_descriptor_built_from_values() {
    let info = BitnameInfo { commitment: None, ip4_addr: Some([10, 0, 0, 1]), ip6_addr: Some([0, 0, 0, 0, 0, 0, 0, 1]) };
    assert_eq!(info.ip_addr(), Some(IpAddress::V6([0, 0, 0, 0, 0, 0, 0, 1])));
}

#[test]
fn decode_reads_every_field() {
    let info = BitnameInfo::decode(Some(COMMITMENT_HEX), Some("127.0.0.1"), Some("::1")).unwrap();
    assert_eq!(info.commitment, Some(counting()));
    assert_eq!(info.ip4_addr, Some([127, 0, 0, 1]));
    assert_eq!(info.ip6_addr, Some([0, 0, 0, 0, 0, 0, 0, 1]));
}

#[test]
fn decode_keeps_absent_fields_absent() {
    let info = BitnameInfo::decode(None, None, None).unwrap();
    assert_eq!(info, BitnameInfo { commitment: None, ip4_addr: None, ip6_addr: None });
}

#[test]
fn decode_rejects_a_commitment_of_31_bytes() {
    let short = &COMMITMENT_HEX[..62];
    assert_eq!(BitnameInfo::decode(Some(short), None, None), Err(DecodeError::Commitment));
    assert_eq!(
        BitnameInfo::decode(Some(short), Some("127.0.0.1"), Some("::1")),
        Err(DecodeError::Commitment)
    );
}

#[test]
fn decode_rejects_a_malformed_commitment() {
    let long = format!("{}00", COMMITMENT_HEX);
    let odd = &COMMITMENT_HEX[..63];
    let not_hex = format!("{}0g", &COMMITMENT_HEX[..62]);
    let prefixed = format!("0x{}", &COMMITMENT_HEX[..62]);
    for bad in [long.as_str(), odd, not_hex.as_str(), prefixed.as_str(), ""] {
        assert_eq!(BitnameInfo::decode(Some(bad), None, None), Err(DecodeError::Commitment));
    }
}

#[test]
fn decode_rejects_an_ipv4_octet_out_of_range() {
    assert_eq!(BitnameInfo::decode(None, Some("999.1.1.1"), None), Err(DecodeError::Ip4Addr));
    assert_eq!(
        BitnameInfo::decode(Some(COMMITMENT_HEX), Some("999.1.1.1"), Some("::1")),
        Err(DecodeError::Ip4Addr)
    );
}

#[test]
fn decode_rejects_a_malformed_ipv6_address() {
    assert_eq!(BitnameInfo::decode(None, None, Some("1:2:3")), Err(DecodeError::Ip6Addr));
    assert_eq!(
        BitnameInfo::decode(Some(COMMITMENT_HEX), Some("1.1.1.1"), Some("::g")),
        Err(DecodeError::Ip6Addr)
    );
}

#[test]
fn decode_reports_the_first_malformed_field() {
    assert_eq!(BitnameInfo::decode(Some("zz"), Some("x"), Some("y")), Err(DecodeError::Commitment));
    assert_eq!(BitnameInfo::decode(None, Some("x"), Some("y")), Err(DecodeError::Ip4Addr));
    assert_eq!(BitnameInfo::decode(Some(COMMITMENT_HEX), Some("x"), Some("y")), Err(DecodeError::Ip4Addr));
    assert_eq!(BitnameInfo::decode(Some(COMMITMENT_HEX), None, Some("y")), Err(DecodeError::Ip6Addr));
}

#[test]
fn hex_reads_both_cases() {
    assert_eq!(decode_hex_32(COMMITMENT_HEX.as_bytes()), Some(counting()));
    assert_eq!(decode_hex_32(COMMITMENT_HEX.to_lowercase().as_bytes()), Some(counting()));
    assert_eq!(decode_hex_32(COMMITMENT_HEX.to_uppercase().as_bytes()), Some(counting()));
    assert_eq!(decode_hex_32(&[b'f'; 64]), Some([0xff; 32]));
    assert_eq!(decode_hex_32(&[b'0'; 64]), Some([0; 32]));
}

#[test]
fn hex_rejects_what_is_not_64_digits() {
    assert_eq!(decode_hex_32(b""), None);
    assert_eq!(decode_hex_32(&[b'0'; 63]), None);
    assert_eq!(decode_hex_32(&[b'0'; 65]), None);
    assert_eq!(decode_hex_32(&[b'0'; 62]), None);
    for bad in [b'g', b'G', b' ', b'/', b':', b'@', b'`', 0x80, 0xff, 0] {
        for at in [0, 1, 31, 62, 63] {
            let mut text = [b'a'; 64];
            text[at] = bad;
            assert_eq!(decode_hex_32(&text), None);
        }
    }
}

#[test]
fn hex_agrees_with_serde_with() {
    let mut rng = Lcg(7);
    let alphabet = b"0123456789abcdefABCDEFgG xz";
    for round in 0..20000 {
        let len = match round % 8 {
            0 => 62,
            1 => 63,
            2 => 65,
            3 => 66,
            _ => 64,
        };
        let limit = if round % 3 == 0 { alphabet.len() } else { 22 };
        let text: String = (0..len).map(|_| alphabet[rng.next(limit)] as char).collect();
        assert_eq!(decode_hex_32(text.as_bytes()), serde_with_hex(&text), "{text}");
    }
    let wide = format!("{}é", &COMMITMENT_HEX[..62]);
    assert_eq!(decode_hex_32(wide.as_bytes()), serde_with_hex(&wide));
    assert_eq!(decode_hex_32(wide.as_bytes()), None);
}

#[test]
fn split_gives_the_parts_between_separators() {
    let parts = |text: &'static str| -> Vec<&'static [u8]> { split_bytes(text.as_bytes(), b'.') };
    assert_eq!(parts(""), vec![&b""[..]]);
    assert_eq!(parts("a"), vec![&b"a"[..]]);
    assert_eq!(parts("."), vec![&b""[..], &b""[..]]);
    assert_eq!(parts("a.b"), vec![&b"a"[..], &b"b"[..]]);
    assert_eq!(parts(".a..bc."), vec![&b""[..], &b"a"[..], &b""[..], &b"bc"[..], &b""[..]]);
}

#[test]
fn octets_are_one_to_three_digits_up_to_255() {
    assert_eq!(parse_octet(b"0"), Some(0));
    assert_eq!(parse_octet(b"7"), Some(7));
    assert_eq!(parse_octet(b"10"), Some(10));
    assert_eq!(parse_octet(b"199"), Some(199));
    assert_eq!(parse_octet(b"255"), Some(255));
    assert_eq!(parse_octet(b"256"), None);
    assert_eq!(parse_octet(b"999"), None);
    assert_eq!(parse_octet(b"1000"), None);
    assert_eq!(parse_octet(b""), None);
    assert_eq!(parse_octet(b"00"), None);
    assert_eq!(parse_octet(b"01"), None);
    assert_eq!(parse_octet(b"001"), None);
    assert_eq!(parse_octet(b"+1"), None);
    assert_eq!(parse_octet(b"1a"), None);
    assert_eq!(parse_octet(b" 1"), None);
}

#[test]
fn ipv4_addresses_in_dotted_notation() {
    assert_eq!(parse_ipv4(b"0.0.0.0"), Some([0, 0, 0, 0]));
    assert_eq!(parse_ipv4(b"255.255.255.255"), Some([255, 255, 255, 255]));
    assert_eq!(parse_ipv4(b"192.168.1.20"), Some([192, 168, 1, 20]));
    for bad in [
        "", "1", "1.2.3", "1.2.3.4.5", "1.2.3.", ".1.2.3", "1..2.3", "1.2.3.4.", "999.1.1.1",
        "256.0.0.0", "1.2.3.256", "01.2.3.4", "1.2.3.04", "1.2.3.4 ", " 1.2.3.4", "1,2,3,4",
        "a.b.c.d", "0x1.2.3.4", "1.2.3.-4", "1.2.3.4/8", "１.2.3.4",
    ] {
        assert_eq!(parse_ipv4(bad.as_bytes()), None, "{bad}");
    }
}

#[test]
fn ipv6_addresses_in_full() {
    assert_eq!(parse_ipv6(b"1:2:3:4:5:6:7:8"), Some([1, 2, 3, 4, 5, 6, 7, 8]));
    assert_eq!(
        parse_ipv6(b"2001:0db8:85a3:0000:0000:8A2E:0370:7334"),
        Some([0x2001, 0x0db8, 0x85a3, 0, 0, 0x8a2e, 0x0370, 0x7334])
    );
    assert_eq!(
        parse_ipv6(b"ffff:FFFF:ffff:ffff:ffff:ffff:ffff:ffff"),
        Some([0xffff; 8])
    );
    assert_eq!(
        parse_ipv6(b"1:2:3:4:5:6:192.0.2.33"),
        Some([1, 2, 3, 4, 5, 6, 0xc000, 0x0221])
    );
}

#[test]
fn ipv6_addresses_with_a_double_colon() {
    assert_eq!(parse_ipv6(b"::"), Some([0; 8]));
    assert_eq!(parse_ipv6(b"::1"), Some([0, 0, 0, 0, 0, 0, 0, 1]));
    assert_eq!(parse_ipv6(b"1::"), Some([1, 0, 0, 0, 0, 0, 0, 0]));
    assert_eq!(parse_ipv6(b"2001:db8::1"), Some([0x2001, 0xdb8, 0, 0, 0, 0, 0, 1]));
    assert_eq!(parse_ipv6(b"1:2:3:4:5:6:7::"), Some([1, 2, 3, 4, 5, 6, 7, 0]));
    assert_eq!(parse_ipv6(b"::2:3:4:5:6:7:8"), Some([0, 2, 3, 4, 5, 6, 7, 8]));
    assert_eq!(parse_ipv6(b"1:2:3::6:7:8"), Some([1, 2, 3, 0, 0, 6, 7, 8]));
    assert_eq!(parse_ipv6(b"::ffff:10.1.2.3"), Some([0, 0, 0, 0, 0, 0xffff, 0x0a01, 0x0203]));
    assert_eq!(parse_ipv6(b"::10.1.2.3"), Some([0, 0, 0, 0, 0, 0, 0x0a01, 0x0203]));
    assert_eq!(parse_ipv6(b"1:2:3:4:5::10.1.2.3"), Some([1, 2, 3, 4, 5, 0, 0x0a01, 0x0203]));
}

#[test]
fn ipv6_rejects_what_is_not_an_address() {
    for bad in [
        "", ":", ":::", "1", "1:2:3", "1:2:3:4:5:6:7", "1:2:3:4:5:6:7:8:9", "1:2:3:4:5:6:7:8:",
        ":1:2:3:4:5:6:7:8", "1:2:3:4:5:6:7:8::", "::1:2:3:4:5:6:7:8", "1::2::3", "1:::2",
        "12345::", "::12345", "g::", "::g", "1:2:3:4:5:6:7:1.2.3.4", "1.2.3.4", "1.2.3.4::",
        "::1.2.3.4:5", "1:2:3:4:5:6::1.2.3.4", "::1.2.3", "::1.2.3.256", "::01.2.3.4", "1::2:",
        ":1::2", "::1 ", " ::1", "::1%eth0", "[::1]", "1:2:3:4:5:6:7:8x", "::ффф",
    ] {
        assert_eq!(parse_ipv6(bad.as_bytes()), None, "{bad}");
    }
}

#[test]
fn hextets_are_one_to_four_hex_digits() {
    assert_eq!(parse_hextet(b"0"), Some(0));
    assert_eq!(parse_hextet(b"a"), Some(10));
    assert_eq!(parse_hextet(b"F"), Some(15));
    assert_eq!(parse_hextet(b"10"), Some(16));
    assert_eq!(parse_hextet(b"0000"), Some(0));
    assert_eq!(parse_hextet(b"00ff"), Some(255));
    assert_eq!(parse_hextet(b"AbCd"), Some(0xabcd));
    assert_eq!(parse_hextet(b"ffff"), Some(0xffff));
    assert_eq!(parse_hextet(b""), None);
    assert_eq!(parse_hextet(b"00000"), None);
    assert_eq!(parse_hextet(b"12345"), None);
    assert_eq!(parse_hextet(b"g"), None);
    assert_eq!(parse_hextet(b"1.2"), None);
    assert_eq!(parse_hextet(b"0x1"), None);
}

#[test]
fn strings_are_equal_when_their_characters_are() {
    assert!(str_eq("", ""));
    assert!(str_eq("version", "version"));
    assert!(str_eq("é✓", "é✓"));
    assert!(!str_eq("version", "versiom"));
    assert!(!str_eq("version", "version "));
    assert!(!str_eq("", "a"));
    assert!(!str_eq("é", "e"));
    assert!(bytes_eq(b"abc", b"abc"));
    assert!(!bytes_eq(b"abc", b"abd"));
    assert!(!bytes_eq(b"abc", b"ab"));
}
