use parside::error::ParsideError;
use parside::message::cold_code::{ColdCode, Domain};
use parside::message::counter::{limit_of, Counter};

#[test]
fn counter_is_made_of_code_and_count() {
    let counter = Counter::new_with_code_and_count("-A", 1).unwrap();
    assert_eq!(counter.code(), "-A");
    assert_eq!(counter.count(), 1);
    assert_eq!(counter.qb64(), "-AAB");
    assert_eq!(counter.qb64b(), b"-AAB".to_vec());
    assert_eq!(counter.qb2(), vec![0xf8, 0x00, 0x01]);
    assert_eq!(counter.full_size(), 4);
    assert_eq!(counter.size_in(Domain::Text), 4);
    assert_eq!(counter.size_in(Domain::Binary), 3);
}

#[test]
fn counter_agrees_with_the_codec() {
    for (code, count) in [("-A", 0u32), ("-I", 2), ("-V", 4095), ("-0V", 1024), ("--AAA", 7)] {
        let ours = Counter::new_with_code_and_count(code, count).unwrap();
        let theirs = cesride::Counter::new_with_code_and_count(code, count).unwrap();
        assert_eq!(ours.code(), theirs.code());
        assert_eq!(ours.count(), theirs.count());
        assert_eq!(ours.qb64(), theirs.qb64().unwrap());
        assert_eq!(ours.qb64b(), theirs.qb64b().unwrap());
        assert_eq!(ours.qb2(), theirs.qb2().unwrap());
        assert_eq!(ours.full_size(), theirs.full_size().unwrap());
    }
}

#[test]
fn big_counter_has_eight_characters() {
    let counter = Counter::new_with_code_and_count("-0V", 1024).unwrap();
    assert_eq!(counter.qb64(), "-0VAAAQA");
    assert_eq!(counter.full_size(), 8);
    assert_eq!(counter.size_in(Domain::Binary), 6);
}

#[test]
fn count_beyond_the_field_is_a_framing_error() {
    assert!(Counter::new_with_code_and_count("-A", 4095).is_ok());
    assert!(matches!(
        Counter::new_with_code_and_count("-A", 4096),
        Err(ParsideError::Framing(_))
    ));
    assert!(Counter::new_with_code_and_count("-0V", 1_073_741_823).is_ok());
    assert!(matches!(
        Counter::new_with_code_and_count("-0V", 1_073_741_824),
        Err(ParsideError::Framing(_))
    ));
    assert!(Counter::new_with_code_and_count("--AAA", 262_143).is_ok());
    assert!(matches!(
        Counter::new_with_code_and_count("--AAA", 262_144),
        Err(ParsideError::Framing(_))
    ));
    assert!(matches!(
        Counter::new_with_code_and_count("-A", u32::MAX),
        Err(ParsideError::Framing(_))
    ));
}

#[test]
fn unknown_code_is_a_framing_error() {
    for code in ["", "-", "-M", "-Z", "A", "CESR", "-0A", "--AAB", "-AA", "\u{e9}A"] {
        assert!(matches!(
            Counter::new_with_code_and_count(code, 1),
            Err(ParsideError::Framing(_))
        ));
    }
}

#[test]
fn limits_follow_the_width_of_the_count_field() {
    for letter in "ABCDEFGHIJKLV".chars() {
        let code = format!("-{letter}");
        assert_eq!(limit_of(&code), Some(64 * 64 - 1));
        assert!(Counter::new_with_code_and_count(&code, 64 * 64 - 1).is_ok());
    }
    assert_eq!(limit_of("-0V"), Some(64 * 64 * 64 * 64 * 64 - 1));
    assert_eq!(limit_of("--AAA"), Some(64 * 64 * 64 - 1));
    for code in ["", "-", "-M", "-U", "-W", "-a", "-0", "-0W", "--AA", "--AAAA", "-\u{e9}"] {
        assert_eq!(limit_of(code), None);
    }
}

#[test]
fn counter_is_read_from_text() {
    let (rest, counter) = Counter::from_stream_bytes(b"-AAFrest", &ColdCode::CtB64).unwrap();
    assert_eq!(rest, b"rest");
    assert_eq!(counter.code(), "-A");
    assert_eq!(counter.count(), 5);
    assert_eq!(counter.qb64(), "-AAF");
    assert_eq!(counter.qb2(), cesride::Counter::new_with_qb64("-AAF").unwrap().qb2().unwrap());
}

#[test]
fn counter_is_read_from_binary() {
    let theirs = cesride::Counter::new_with_code_and_count("-0V", 1024).unwrap();
    let mut stream = theirs.qb2().unwrap();
    stream.extend_from_slice(&[0xff, 0x00, 0x80]);
    let (rest, counter) = Counter::from_stream_bytes(&stream, &ColdCode::CtOpB2).unwrap();
    assert_eq!(rest, &[0xff, 0x00, 0x80]);
    assert_eq!(counter.code(), "-0V");
    assert_eq!(counter.count(), 1024);
    assert_eq!(counter.qb64(), "-0VAAAQA");
    assert_eq!(counter.qb2(), theirs.qb2().unwrap());
}

#[test]
fn counter_is_read_before_bytes_that_are_no_text() {
    let mut stream = b"-IAC".to_vec();
    stream.extend_from_slice(&[0xc3, 0xa9, 0xff, 0xfe]);
    let (rest, counter) = Counter::from_stream_bytes(&stream, &ColdCode::OpB64).unwrap();
    assert_eq!(rest, &[0xc3, 0xa9, 0xff, 0xfe]);
    assert_eq!(counter.code(), "-I");
    assert_eq!(counter.count(), 2);
}

#[test]
fn malformed_counter_is_a_framing_error() {
    for stream in [&b""[..], b"-", b"-A", b"-AA", b"AAAB", b"-MAB", b"-A#B", b"-0VAAAQ", b"\xc3\xa9AB"] {
        assert!(matches!(
            Counter::from_stream_bytes(stream, &ColdCode::CtB64),
            Err(ParsideError::Framing(_))
        ));
    }
    for stream in [&[][..], &[0xf8], &[0xf8, 0x00], &[0x00, 0x00, 0x01], &[0xfb, 0x00, 0x01]] {
        assert!(matches!(
            Counter::from_stream_bytes(stream, &ColdCode::CtOpB2),
            Err(ParsideError::Framing(_))
        ));
    }
}

#[test]
fn no_counter_is_read_in_a_message_body() {
    for cold_code in [ColdCode::JSON, ColdCode::MGPK1, ColdCode::CBOR, ColdCode::MGPK2] {
        assert!(matches!(
            Counter::from_stream_bytes(b"-AAB", &cold_code),
            Err(ParsideError::UnsupportedOperation(_))
        ));
    }
}

#[test]
fn counter_copies_are_equal_in_every_form() {
    let counter = Counter::new_with_code_and_count("-I", 3).unwrap();
    let copy = counter.clone();
    assert_eq!(copy.code(), counter.code());
    assert_eq!(copy.count(), counter.count());
    assert_eq!(copy.qb64(), counter.qb64());
    assert_eq!(copy.qb2(), counter.qb2());
}
