use cesride::Matter;
use parside::error::ParsideError;
use parside::message::cold_code::{ColdCode, Domain};
use parside::message::counter::Counter;
use parside::message::groups::seal_source_triples::{SealSourceTriple, SealSourceTriples};
use parside::message::parsers::Parsers;
use parside::message::{Group, GroupItem};

fn prefix_text(fill: u8) -> String {
    cesride::Prefixer::new_with_raw(&[fill; 32], Some(cesride::matter::Codex::Ed25519))
        .unwrap()
        .qb64()
        .unwrap()
}

fn sequence_text(number: u128) -> String {
    cesride::Seqner::new_with_sn(number).unwrap().qb64().unwrap()
}

fn digest_text(fill: u8) -> String {
    cesride::Saider::new_with_raw(&[fill; 32], Some(cesride::matter::Codex::Blake3_256))
        .unwrap()
        .qb64()
        .unwrap()
}

fn triple(fill: u8, number: u128) -> SealSourceTriple {
    let (_, prefixer) =
        Parsers::prefixer_parser(&ColdCode::CtB64, prefix_text(fill).as_bytes()).unwrap();
    let (_, seqner) =
        Parsers::seqner_parser(&ColdCode::CtB64, sequence_text(number).as_bytes()).unwrap();
    let (_, saider) =
        Parsers::saider_parser(&ColdCode::CtB64, digest_text(fill).as_bytes()).unwrap();
    SealSourceTriple::new(prefixer, seqner, saider)
}

#[test]
fn code_of_the_group_is_the_codecs() {
    assert_eq!(SealSourceTriples::CODE, cesride::counter::Codex::SealSourceTriples);
    assert_eq!(SealSourceTriples::CODE, "-I");
    assert_eq!(SealSourceTriples::code(), SealSourceTriples::CODE);
}

#[test]
fn two_triples_are_read_in_field_order() {
    let stream = format!(
        "{}{}{}{}{}{}-AABtrailing",
        prefix_text(1),
        sequence_text(5),
        digest_text(2),
        prefix_text(3),
        sequence_text(6),
        digest_text(4),
    );
    let counter = Counter::new_with_code_and_count(SealSourceTriples::CODE, 2).unwrap();
    let (rest, group) =
        SealSourceTriples::from_stream_bytes(stream.as_bytes(), &counter, &ColdCode::CtB64)
            .unwrap();
    assert_eq!(rest, b"-AABtrailing");
    assert_eq!(group.value.len(), 2);
    assert_eq!(group.value[0].prefixer.qb64(), prefix_text(1));
    assert_eq!(group.value[0].seqner.qb64(), sequence_text(5));
    assert_eq!(group.value[0].saider.qb64(), digest_text(2));
    assert_eq!(group.value[1].prefixer.qb64(), prefix_text(3));
    assert_eq!(group.value[1].seqner.qb64(), sequence_text(6));
    assert_eq!(group.value[1].saider.qb64(), digest_text(4));
    assert_eq!(group.value[0].prefixer.code(), "D");
    assert_eq!(group.value[0].seqner.code(), "0A");
    assert_eq!(group.value[0].saider.code(), "E");
}

#[test]
fn fields_out_of_order_are_a_decoding_error() {
    let stream = format!("{}{}{}", sequence_text(5), prefix_text(1), digest_text(2));
    let counter = Counter::new_with_code_and_count(SealSourceTriples::CODE, 1).unwrap();
    assert!(matches!(
        SealSourceTriples::from_stream_bytes(stream.as_bytes(), &counter, &ColdCode::CtB64),
        Err(ParsideError::PrimitiveDecode(_))
    ));
}

#[test]
fn triple_is_written_as_its_fields_in_order() {
    let item = triple(1, 5);
    let text = format!("{}{}{}", prefix_text(1), sequence_text(5), digest_text(1));
    assert_eq!(item.qb64().unwrap(), text);
    assert_eq!(item.qb64b().unwrap(), text.as_bytes().to_vec());
    let mut binary = item.prefixer.qb2();
    binary.extend(item.seqner.qb2());
    binary.extend(item.saider.qb2());
    assert_eq!(item.qb2().unwrap(), binary);
}

#[test]
fn full_size_of_a_triple_is_the_sum_of_its_fields() {
    let item = triple(9, 77);
    assert_eq!(item.full_size().unwrap(), 44 + 24 + 44);
    assert_eq!(
        item.full_size().unwrap(),
        item.prefixer.full_size() + item.seqner.full_size() + item.saider.full_size()
    );
    assert_eq!(item.qb64b().unwrap().len(), item.full_size().unwrap());
}

#[test]
fn binary_fields_start_at_three_quarters_of_the_text_before_them() {
    let item = triple(7, 300);
    let binary = item.qb2().unwrap();
    let first = item.prefixer.full_size() / 4 * 3;
    let second = (item.prefixer.full_size() + item.seqner.full_size()) / 4 * 3;
    let whole = item.full_size().unwrap() / 4 * 3;
    assert_eq!(first, 33);
    assert_eq!(second, 51);
    assert_eq!(whole, 84);
    assert_eq!(binary.len(), whole);
    assert_eq!(&binary[..first], item.prefixer.qb2().as_slice());
    assert_eq!(&binary[first..second], item.seqner.qb2().as_slice());
    assert_eq!(&binary[second..], item.saider.qb2().as_slice());
}

#[test]
fn triple_is_read_from_binary() {
    let item = triple(1, 5);
    let mut stream = item.qb2().unwrap();
    stream.extend_from_slice(&[1, 2, 3]);
    let (rest, read) = SealSourceTriple::from_stream_bytes(&stream, Domain::Binary).unwrap();
    assert_eq!(rest, &[1, 2, 3]);
    assert_eq!(read.qb64().unwrap(), item.qb64().unwrap());
    assert_eq!(read.qb2().unwrap(), item.qb2().unwrap());
}

#[test]
fn group_of_triples_goes_round_in_text() {
    let group = SealSourceTriples::new(vec![triple(1, 5), triple(3, 6), triple(8, 0)]);
    let text = group.qb64b().unwrap();
    assert_eq!(&text[..4], b"-IAD");
    assert_eq!(group.qb64().unwrap().as_bytes(), text.as_slice());
    assert_eq!(group.full_size().unwrap(), 4 + 3 * 112);
    assert_eq!(text.len(), group.full_size().unwrap());

    let (rest, read) = SealSourceTriples::from_stream(&text).unwrap();
    assert!(rest.is_empty());
    assert_eq!(read.value.len(), 3);
    assert_eq!(read.qb64b().unwrap(), text);
    assert_eq!(read.value[2].seqner.qb64(), sequence_text(0));
}

#[test]
fn group_of_triples_goes_round_in_binary() {
    let group = SealSourceTriples::new(vec![triple(1, 5), triple(3, 6)]);
    let mut binary = group.qb2().unwrap();
    assert_eq!(binary.len(), (4 + 2 * 112) / 4 * 3);
    binary.extend_from_slice(&[0x7b, 0x7d]);

    let (rest, read) = SealSourceTriples::from_stream(&binary).unwrap();
    assert_eq!(rest, &[0x7b, 0x7d]);
    assert_eq!(read.value.len(), 2);
    assert_eq!(read.qb2().unwrap(), group.qb2().unwrap());
    assert_eq!(read.qb64().unwrap(), group.qb64().unwrap());
    for (ours, theirs) in read.value.iter().zip(group.value.iter()) {
        assert_eq!(ours.prefixer.qb64(), theirs.prefixer.qb64());
        assert_eq!(ours.seqner.qb64(), theirs.seqner.qb64());
        assert_eq!(ours.saider.qb64(), theirs.saider.qb64());
    }
}

#[test]
fn triples_cut_short_are_a_decoding_error() {
    let group = SealSourceTriples::new(vec![triple(1, 5), triple(3, 6)]);
    let text = group.qb64b().unwrap();
    for cut in [4usize, 5, 47, 48, 72, 115, 116, 117, 160, 227] {
        assert!(matches!(
            SealSourceTriples::from_stream(&text[..cut]),
            Err(ParsideError::PrimitiveDecode(_))
        ));
    }
    let counter = Counter::new_with_code_and_count(SealSourceTriples::CODE, 3).unwrap();
    assert!(matches!(
        SealSourceTriples::from_stream_bytes(&text[4..], &counter, &ColdCode::CtB64),
        Err(ParsideError::PrimitiveDecode(_))
    ));
}

#[test]
fn copy_of_a_triple_is_written_alike() {
    let item = triple(4, 4);
    let copy = item.clone();
    assert_eq!(copy.qb64().unwrap(), item.qb64().unwrap());
    assert_eq!(copy.qb2().unwrap(), item.qb2().unwrap());
}
