use cesride::{Indexer, Matter};
use parside::error::ParsideError;
use parside::message::codec::Rendering;
use parside::message::cold_code::{ColdCode, Domain};
use parside::message::parsers::Parsers;
use parside::message::primitives::{ascii_prefix_len, Prefixer, Saider, Seqner, Siger};

const SIGER: &str =
    "AABg3q8uNg1A2jhEAdbKGf-QupQhNnmZQx3zIyPLWBe6qqLT5ynytivf9EwJhxyhy87a0x2cezDdil4SsM2xxs0O";

fn their_prefixer() -> cesride::Prefixer {
    cesride::Prefixer::new_with_raw(&[1u8; 32], Some(cesride::matter::Codex::Ed25519)).unwrap()
}

fn their_seqner() -> cesride::Seqner {
    cesride::Seqner::new_with_sn(5).unwrap()
}

fn their_saider() -> cesride::Saider {
    cesride::Saider::new_with_raw(&[2u8; 32], Some(cesride::matter::Codex::Blake3_256)).unwrap()
}

#[test]
fn siger_is_read_from_text() {
    let theirs = cesride::Siger::new_with_qb64(SIGER, None).unwrap();
    let stream = format!("{SIGER}-AAB");
    let (rest, siger) = Parsers::siger_parser(&ColdCode::CtB64, stream.as_bytes()).unwrap();
    assert_eq!(rest, b"-AAB");
    assert_eq!(siger.code(), "A");
    assert_eq!(siger.code(), theirs.code());
    assert_eq!(siger.qb64(), SIGER);
    assert_eq!(siger.qb64b(), SIGER.as_bytes().to_vec());
    assert_eq!(siger.qb2(), theirs.qb2().unwrap());
    assert_eq!(siger.full_size(), 88);
    assert_eq!(siger.size_in(Domain::Text), 88);
    assert_eq!(siger.size_in(Domain::Binary), 66);
}

#[test]
fn siger_is_read_from_binary() {
    let theirs = cesride::Siger::new_with_qb64(SIGER, None).unwrap();
    let mut stream = theirs.qb2().unwrap();
    assert_eq!(stream.len(), 66);
    stream.extend_from_slice(&[0xf8, 0x00, 0x01]);
    let (rest, siger) = Parsers::siger_parser(&ColdCode::CtOpB2, &stream).unwrap();
    assert_eq!(rest, &[0xf8, 0x00, 0x01]);
    assert_eq!(siger.code(), "A");
    assert_eq!(siger.qb64(), SIGER);
    assert_eq!(siger.qb2(), theirs.qb2().unwrap());
}

#[test]
fn prefixer_is_read_from_text() {
    let theirs = their_prefixer();
    let text = theirs.qb64().unwrap();
    let stream = format!("{text}tail");
    let (rest, prefixer) = Parsers::prefixer_parser(&ColdCode::CtB64, stream.as_bytes()).unwrap();
    assert_eq!(rest, b"tail");
    assert_eq!(prefixer.code(), "D");
    assert_eq!(prefixer.qb64(), text);
    assert_eq!(prefixer.qb2(), theirs.qb2().unwrap());
    assert_eq!(prefixer.full_size(), 44);
}

#[test]
fn prefixer_is_read_from_binary() {
    let theirs = their_prefixer();
    let mut stream = theirs.qb2().unwrap();
    stream.push(0x2a);
    let (rest, prefixer) = Parsers::prefixer_parser(&ColdCode::CtOpB2, &stream).unwrap();
    assert_eq!(rest, &[0x2a]);
    assert_eq!(prefixer.code(), theirs.code());
    assert_eq!(prefixer.qb64(), theirs.qb64().unwrap());
    assert_eq!(prefixer.qb2(), theirs.qb2().unwrap());
    assert_eq!(prefixer.size_in(Domain::Binary), 33);
}

#[test]
fn seqner_is_read_from_text() {
    let theirs = their_seqner();
    let text = theirs.qb64().unwrap();
    assert_eq!(text, "0AAAAAAAAAAAAAAAAAAAAAAF");
    let (rest, seqner) = Parsers::seqner_parser(&ColdCode::OpB64, text.as_bytes()).unwrap();
    assert!(rest.is_empty());
    assert_eq!(seqner.code(), "0A");
    assert_eq!(seqner.qb64(), text);
    assert_eq!(seqner.qb2(), theirs.qb2().unwrap());
    assert_eq!(seqner.full_size(), 24);
}

#[test]
fn seqner_is_read_from_binary() {
    let theirs = their_seqner();
    let stream = theirs.qb2().unwrap();
    let (rest, seqner) = Parsers::seqner_parser(&ColdCode::CtOpB2, &stream).unwrap();
    assert!(rest.is_empty());
    assert_eq!(seqner.code(), "0A");
    assert_eq!(seqner.qb64(), "0AAAAAAAAAAAAAAAAAAAAAAF");
    assert_eq!(seqner.qb2(), stream);
}

#[test]
fn saider_is_read_from_text() {
    let theirs = their_saider();
    let text = theirs.qb64().unwrap();
    let stream = format!("{text}{text}");
    let (rest, saider) = Parsers::saider_parser(&ColdCode::CtB64, stream.as_bytes()).unwrap();
    assert_eq!(rest, text.as_bytes());
    assert_eq!(saider.code(), "E");
    assert_eq!(saider.qb64(), text);
    assert_eq!(saider.qb2(), theirs.qb2().unwrap());
}

#[test]
fn saider_is_read_from_binary() {
    let theirs = their_saider();
    let stream = theirs.qb2().unwrap();
    let (rest, saider) = Parsers::saider_parser(&ColdCode::CtOpB2, &stream).unwrap();
    assert!(rest.is_empty());
    assert_eq!(saider.code(), "E");
    assert_eq!(saider.qb64(), theirs.qb64().unwrap());
    assert_eq!(saider.qb2(), stream);
}

#[test]
fn generic_parser_reads_the_kind_it_is_asked_for() {
    let text = their_saider().qb64().unwrap();
    let (rest, saider): (&[u8], Saider) =
        Parsers::primitive_parser(&ColdCode::CtB64, text.as_bytes()).unwrap();
    assert!(rest.is_empty());
    assert_eq!(saider.qb64(), text);
    let sequence: Result<(&[u8], Seqner), ParsideError> =
        Parsers::primitive_parser(&ColdCode::CtB64, text.as_bytes());
    assert!(matches!(sequence, Err(ParsideError::PrimitiveDecode(_))));
}

#[test]
fn primitive_of_another_kind_is_a_decoding_error() {
    let prefix = their_prefixer().qb64().unwrap();
    let sequence = their_seqner().qb64().unwrap();
    assert!(matches!(
        Parsers::seqner_parser(&ColdCode::CtB64, prefix.as_bytes()),
        Err(ParsideError::PrimitiveDecode(_))
    ));
    assert!(matches!(
        Parsers::saider_parser(&ColdCode::CtB64, sequence.as_bytes()),
        Err(ParsideError::PrimitiveDecode(_))
    ));
    assert!(matches!(
        Parsers::siger_parser(&ColdCode::CtB64, sequence.as_bytes()),
        Err(ParsideError::PrimitiveDecode(_))
    ));
    assert!(matches!(
        Parsers::prefixer_parser(&ColdCode::CtB64, b"-AAB"),
        Err(ParsideError::PrimitiveDecode(_))
    ));
}

#[test]
fn truncated_primitive_is_a_decoding_error() {
    for cut in [0usize, 1, 2, 43, 87] {
        assert!(matches!(
            Parsers::siger_parser(&ColdCode::CtB64, &SIGER.as_bytes()[..cut]),
            Err(ParsideError::PrimitiveDecode(_))
        ));
    }
    let binary = their_prefixer().qb2().unwrap();
    for cut in [0usize, 1, 2, 32] {
        assert!(matches!(
            Parsers::prefixer_parser(&ColdCode::CtOpB2, &binary[..cut]),
            Err(ParsideError::PrimitiveDecode(_))
        ));
    }
}

#[test]
fn malformed_primitive_is_a_decoding_error() {
    let mut broken = SIGER.as_bytes().to_vec();
    broken[10] = b'#';
    assert!(matches!(
        Parsers::siger_parser(&ColdCode::CtB64, &broken),
        Err(ParsideError::PrimitiveDecode(_))
    ));
    broken[10] = 0xe9;
    assert!(matches!(
        Parsers::siger_parser(&ColdCode::CtB64, &broken),
        Err(ParsideError::PrimitiveDecode(_))
    ));
}

#[test]
fn counted_material_is_no_prefix_sequence_or_digest() {
    let texts: [&[u8]; 8] = [
        b"4AAA",
        b"5AAA",
        b"6AAA",
        b"5BAA",
        b"7AAAAAAA",
        b"8AAAAAAA",
        b"9AABAAAA",
        b"4AABabcd",
    ];
    for text in texts {
        assert!(matches!(
            Parsers::prefixer_parser(&ColdCode::CtB64, text),
            Err(ParsideError::PrimitiveDecode(_))
        ));
        assert!(matches!(
            Parsers::seqner_parser(&ColdCode::CtB64, text),
            Err(ParsideError::PrimitiveDecode(_))
        ));
        assert!(matches!(
            Parsers::saider_parser(&ColdCode::CtB64, text),
            Err(ParsideError::PrimitiveDecode(_))
        ));
    }
    let binaries: [&[u8]; 6] = [
        &[0xe0, 0x00, 0x00],
        &[0xe4, 0x00, 0x00],
        &[0xe8, 0x10, 0x00],
        &[0xec, 0x00, 0x00, 0x00, 0x00, 0x00],
        &[0xf0, 0x00, 0x00, 0x00, 0x00, 0x00],
        &[0xf4, 0x00, 0x01, 0x00, 0x00, 0x00],
    ];
    for binary in binaries {
        assert!(matches!(
            Parsers::prefixer_parser(&ColdCode::CtOpB2, binary),
            Err(ParsideError::PrimitiveDecode(_))
        ));
        assert!(matches!(
            Parsers::seqner_parser(&ColdCode::CtOpB2, binary),
            Err(ParsideError::PrimitiveDecode(_))
        ));
        assert!(matches!(
            Parsers::saider_parser(&ColdCode::CtOpB2, binary),
            Err(ParsideError::PrimitiveDecode(_))
        ));
    }
}

#[test]
fn primitive_is_read_before_bytes_that_are_no_text() {
    let mut stream = SIGER.as_bytes().to_vec();
    stream.extend_from_slice("\u{e9}t\u{e9}".as_bytes());
    stream.push(0xff);
    let (rest, siger) = Parsers::siger_parser(&ColdCode::CtB64, &stream).unwrap();
    assert_eq!(rest.len(), 6);
    assert_eq!(rest, &stream[88..]);
    assert_eq!(siger.qb64(), SIGER);
}

#[test]
fn no_primitive_is_read_in_a_message_body() {
    for cold_code in [ColdCode::JSON, ColdCode::MGPK1, ColdCode::CBOR, ColdCode::MGPK2] {
        assert!(matches!(
            Parsers::siger_parser(&cold_code, SIGER.as_bytes()),
            Err(ParsideError::UnsupportedOperation(_))
        ));
        assert!(matches!(
            Parsers::prefixer_parser(&cold_code, SIGER.as_bytes()),
            Err(ParsideError::UnsupportedOperation(_))
        ));
        assert!(matches!(
            Parsers::seqner_parser(&cold_code, SIGER.as_bytes()),
            Err(ParsideError::UnsupportedOperation(_))
        ));
        assert!(matches!(
            Parsers::saider_parser(&cold_code, SIGER.as_bytes()),
            Err(ParsideError::UnsupportedOperation(_))
        ));
    }
}

#[test]
fn primitive_is_admitted_from_aligned_forms_only() {
    let theirs = their_prefixer();
    let admitted = Prefixer::new(Rendering {
        code: theirs.code(),
        text: theirs.qb64().unwrap(),
        binary: theirs.qb2().unwrap(),
    })
    .unwrap();
    assert_eq!(admitted.qb64(), theirs.qb64().unwrap());
    assert_eq!(admitted.qb2(), theirs.qb2().unwrap());
    assert_eq!(admitted.code(), "D");

    let empty = Rendering { code: "D".to_string(), text: String::new(), binary: Vec::new() };
    assert!(matches!(Prefixer::new(empty), Err(ParsideError::PrimitiveDecode(_))));
    let ragged = Rendering { code: "D".to_string(), text: "DAAAA".to_string(), binary: vec![0; 3] };
    assert!(matches!(Prefixer::new(ragged), Err(ParsideError::PrimitiveDecode(_))));
    let short = Rendering { code: "D".to_string(), text: "DAAA".to_string(), binary: vec![0; 2] };
    assert!(matches!(Prefixer::new(short), Err(ParsideError::PrimitiveDecode(_))));
    let long = Rendering { code: "D".to_string(), text: "DAAA".to_string(), binary: vec![0; 4] };
    assert!(matches!(Prefixer::new(long), Err(ParsideError::PrimitiveDecode(_))));
    let foreign =
        Rendering { code: "D".to_string(), text: "D\u{e9}A".to_string(), binary: vec![0; 3] };
    assert!(matches!(Prefixer::new(foreign), Err(ParsideError::PrimitiveDecode(_))));
    let quadlet = Rendering { code: "M".to_string(), text: "MAAA".to_string(), binary: vec![0; 3] };
    assert!(Siger::new(quadlet).is_ok());
}

#[test]
fn copies_of_a_primitive_are_equal_in_every_form() {
    let (_, siger) = Parsers::siger_parser(&ColdCode::CtB64, SIGER.as_bytes()).unwrap();
    let copy = siger.clone();
    assert_eq!(copy.code(), siger.code());
    assert_eq!(copy.qb64(), siger.qb64());
    assert_eq!(copy.qb2(), siger.qb2());
}

#[test]
fn ascii_prefix_ends_at_the_first_byte_that_is_no_ascii() {
    assert_eq!(ascii_prefix_len(b""), 0);
    assert_eq!(ascii_prefix_len(b"abc"), 3);
    assert_eq!(ascii_prefix_len(&[0x41, 0x7f, 0x80, 0x41]), 2);
    assert_eq!(ascii_prefix_len(&[0xff, 0x41]), 0);
}
