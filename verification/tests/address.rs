use serde_strz::ipv4::Ipv4;
use serde_strz::plain;

fn parses(s: &str) -> Option<Ipv4> {
    plain::decode(s).ok()
}

#[test]
fn address_parses_each_octet() {
    assert_eq!(parses("1.22.133.244"), Some(Ipv4 { a: 1, b: 22, c: 133, d: 244 }));
}

#[test]
fn address_parses_extremes() {
    assert_eq!(parses("0.0.0.0"), Some(Ipv4 { a: 0, b: 0, c: 0, d: 0 }));
    assert_eq!(parses("255.255.255.255"), Some(Ipv4 { a: 255, b: 255, c: 255, d: 255 }));
}

#[test]
fn address_rejects_octet_over_255() {
    assert_eq!(parses("256.1.1.1"), None);
    assert_eq!(parses("1.1.1.999"), None);
}

#[test]
fn address_rejects_leading_zero() {
    assert_eq!(parses("01.2.3.4"), None);
    assert_eq!(parses("1.2.3.04"), None);
}

#[test]
fn address_rejects_wrong_shape() {
    assert_eq!(parses(""), None);
    assert_eq!(parses("1.2.3"), None);
    assert_eq!(parses("1.2.3.4.5"), None);
    assert_eq!(parses("1..2.3"), None);
    assert_eq!(parses(".1.2.3"), None);
    assert_eq!(parses("1.2.3."), None);
    assert_eq!(parses(" 1.2.3.4"), None);
    assert_eq!(parses("1.2.3.4 "), None);
    assert_eq!(parses("1.2.3.x"), None);
    assert_eq!(parses("1234.1.2.3"), None);
}

#[test]
fn address_renders_canonically() {
    let v = Ipv4 { a: 5, b: 67, c: 208, d: 0 };
    assert_eq!(plain::encode(&v), "5.67.208.0");
}
