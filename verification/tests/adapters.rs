use serde_strz::codec::TextScalar;
use serde_strz::ipv4::Ipv4;
use serde_strz::{emp, opt, plain};

fn localhost() -> Ipv4 {
    Ipv4 { a: 127, b: 0, c: 0, d: 1 }
}

#[test]
fn plain_decodes_address_text() {
    let r: Ipv4 = plain::decode("127.0.0.1").unwrap();
    assert_eq!(r, localhost());
}

#[test]
fn plain_encodes_address_text() {
    let s = plain::encode(&localhost());
    assert_eq!(s, "127.0.0.1");
}

#[test]
fn plain_rejects_malformed_text() {
    let r: Result<Ipv4, _> = plain::decode("not-an-ip");
    let e = r.unwrap_err();
    assert!(!e.message.is_empty());
}

#[test]
fn plain_round_trips() {
    let cases = [
        Ipv4 { a: 0, b: 0, c: 0, d: 0 },
        Ipv4 { a: 255, b: 255, c: 255, d: 255 },
        Ipv4 { a: 9, b: 99, c: 199, d: 10 },
        localhost(),
    ];
    for v in cases {
        let r: Ipv4 = plain::decode(plain::encode(&v).as_str()).unwrap();
        assert_eq!(r, v);
    }
}

#[test]
fn opt_decodes_absent_to_none() {
    let r: Option<Ipv4> = opt::decode(&TextScalar::Absent).unwrap();
    assert_eq!(r, None);
}

#[test]
fn opt_encodes_none_as_absent() {
    let r = opt::encode(&None::<Ipv4>);
    assert!(matches!(r, TextScalar::Absent));
}

#[test]
fn opt_decodes_present_text() {
    let input = TextScalar::Text(String::from("127.0.0.1"));
    let r: Option<Ipv4> = opt::decode(&input).unwrap();
    assert_eq!(r, Some(localhost()));
}

#[test]
fn opt_encodes_present_value_as_text() {
    match opt::encode(&Some(localhost())) {
        TextScalar::Text(s) => assert_eq!(s, "127.0.0.1"),
        TextScalar::Absent => panic!("expected a present text scalar"),
    }
}

#[test]
fn opt_treats_empty_present_string_as_ordinary_input() {
    let input = TextScalar::Text(String::new());
    let r: Result<Option<Ipv4>, _> = opt::decode(&input);
    assert!(r.is_err());
}

#[test]
fn opt_rejects_malformed_text() {
    let input = TextScalar::Text(String::from("not-an-ip"));
    let r: Result<Option<Ipv4>, _> = opt::decode(&input);
    let e = r.unwrap_err();
    assert!(!e.message.is_empty());
}

#[test]
fn opt_round_trips() {
    let cases = [None, Some(localhost()), Some(Ipv4 { a: 10, b: 20, c: 30, d: 40 })];
    for v in cases {
        let r: Option<Ipv4> = opt::decode(&opt::encode(&v)).unwrap();
        assert_eq!(r, v);
    }
}

#[test]
fn emp_decodes_empty_string_to_none() {
    let input = TextScalar::Text(String::new());
    let r: Option<Ipv4> = emp::decode(&input).unwrap();
    assert_eq!(r, None);
}

#[test]
fn emp_decodes_absent_to_none() {
    let r: Option<Ipv4> = emp::decode(&TextScalar::Absent).unwrap();
    assert_eq!(r, None);
}

#[test]
fn emp_encodes_none_as_empty_string() {
    let s = emp::encode(&None::<Ipv4>);
    assert_eq!(s, "");
}

#[test]
fn emp_decodes_present_text() {
    let input = TextScalar::Text(String::from("127.0.0.1"));
    let r: Option<Ipv4> = emp::decode(&input).unwrap();
    assert_eq!(r, Some(localhost()));
}

#[test]
fn emp_encodes_present_value_as_text() {
    let s = emp::encode(&Some(localhost()));
    assert_eq!(s, "127.0.0.1");
}

#[test]
fn emp_rejects_malformed_text() {
    let input = TextScalar::Text(String::from("not-an-ip"));
    let r: Result<Option<Ipv4>, _> = emp::decode(&input);
    let e = r.unwrap_err();
    assert!(!e.message.is_empty());
}

#[test]
fn emp_round_trips() {
    let cases = [None, Some(localhost()), Some(Ipv4 { a: 1, b: 2, c: 3, d: 4 })];
    for v in cases {
        let s = emp::encode(&v);
        let r: Option<Ipv4> = emp::decode(&TextScalar::Text(s)).unwrap();
        assert_eq!(r, v);
    }
}

#[test]
fn emp_field_omitted_when_absent_under_policy() {
    let r = emp::encode_field(&None::<Ipv4>, true);
    assert_eq!(r, None);
}

#[test]
fn emp_field_present_value_written_under_policy() {
    let r = emp::encode_field(&Some(localhost()), true);
    assert_eq!(r, Some(String::from("127.0.0.1")));
}

#[test]
fn emp_field_absent_written_as_empty_string_without_policy() {
    let r = emp::encode_field(&None::<Ipv4>, false);
    assert_eq!(r, Some(String::new()));
}
