use parside::error::ParsideError;
use parside::message::cold_code::{ColdCode, Domain};

#[test]
fn sniff_tells_text_from_binary() {
    assert_eq!(ColdCode::sniff(b"-AAB").unwrap(), ColdCode::CtB64);
    assert_eq!(ColdCode::sniff(b"_AAA").unwrap(), ColdCode::OpB64);
    assert_eq!(ColdCode::sniff(&[0xf8, 0x00, 0x01]).unwrap(), ColdCode::CtOpB2);
    assert_eq!(ColdCode::sniff(&[0xff]).unwrap(), ColdCode::CtOpB2);
}

#[test]
fn sniff_tells_message_bodies() {
    assert_eq!(ColdCode::sniff(b"{\"v\":1}").unwrap(), ColdCode::JSON);
    assert_eq!(ColdCode::sniff(&[0x81, 0xa1]).unwrap(), ColdCode::MGPK1);
    assert_eq!(ColdCode::sniff(&[0xa1, 0x61]).unwrap(), ColdCode::CBOR);
    assert_eq!(ColdCode::sniff(&[0xde, 0x00]).unwrap(), ColdCode::MGPK2);
}

#[test]
fn sniff_consumes_nothing() {
    let stream = b"-AAB";
    let first = ColdCode::sniff(stream).unwrap();
    let second = ColdCode::sniff(stream).unwrap();
    assert_eq!(first, second);
    assert_eq!(stream.len(), 4);
}

#[test]
fn sniff_refuses_an_unknown_marker() {
    assert!(matches!(ColdCode::sniff(&[0x00, 0x01]), Err(ParsideError::Classification(_))));
    assert!(matches!(ColdCode::sniff(&[0x1f]), Err(ParsideError::Classification(_))));
    assert!(matches!(ColdCode::sniff(b"\n-AAB"), Err(ParsideError::Classification(_))));
}

#[test]
fn sniff_refuses_an_empty_stream() {
    assert!(matches!(ColdCode::sniff(b""), Err(ParsideError::Classification(_))));
}

#[test]
fn tritets_and_cold_codes_correspond() {
    let all = [
        ColdCode::CtB64,
        ColdCode::OpB64,
        ColdCode::JSON,
        ColdCode::MGPK1,
        ColdCode::CBOR,
        ColdCode::MGPK2,
        ColdCode::CtOpB2,
    ];
    let mut expected: u8 = 1;
    for code in all {
        assert_eq!(code.tritet(), expected);
        assert_eq!(ColdCode::from_tritet(expected).unwrap(), code);
        expected += 1;
    }
    assert!(matches!(ColdCode::from_tritet(0), Err(ParsideError::Classification(_))));
    assert!(matches!(ColdCode::from_tritet(8), Err(ParsideError::Classification(_))));
    assert!(matches!(ColdCode::from_tritet(255), Err(ParsideError::Classification(_))));
}

#[test]
fn domains_of_cold_codes() {
    assert_eq!(ColdCode::CtB64.domain(), Some(Domain::Text));
    assert_eq!(ColdCode::OpB64.domain(), Some(Domain::Text));
    assert_eq!(ColdCode::CtOpB2.domain(), Some(Domain::Binary));
    assert_eq!(ColdCode::JSON.domain(), None);
    assert_eq!(ColdCode::MGPK1.domain(), None);
    assert_eq!(ColdCode::CBOR.domain(), None);
    assert_eq!(ColdCode::MGPK2.domain(), None);
}
