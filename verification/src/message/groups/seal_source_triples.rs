//! Groups of the triples that point at the event in which a seal is anchored.

use crate::error::{ParsideError, ParsideResult};
use crate::message::codec::RenderingView;
use crate::message::cold_code::{ColdCode, Domain};
use crate::message::counter::Counter;
use crate::message::primitives::{
    aligned, decoded, encoded, lemma_ascii_bytes_concat, lemma_decoded_starts, Prefix, Prefixer,
    Said, Saider, Seqner, Sequence,
};
use crate::message::{items_decoded, items_encoded, parse_group, views, Group, GroupItem};
use vstd::prelude::*;
use vstd::string::StringExecFns;
use vstd::utf8::is_ascii_chars_concat;

verus! {

/// One item of the group: the prefix of the source, the sequence number of
/// its event and the digest of that event, written in this order.
#[derive(Debug)]
pub struct SealSourceTriple {
    pub prefixer: Prefixer,
    pub seqner: Seqner,
    pub saider: Saider,
}

/// The mathematical value of a [`SealSourceTriple`].
pub struct SealSourceTripleView {
    pub prefixer: RenderingView,
    pub seqner: RenderingView,
    pub saider: RenderingView,
}

impl View for SealSourceTriple {
    type V = SealSourceTripleView;

    open spec fn view(&self) -> SealSourceTripleView {
        SealSourceTripleView {
            prefixer: self.prefixer@,
            seqner: self.seqner@,
            saider: self.saider@,
        }
    }
}

impl Clone for SealSourceTriple {
    fn clone(&self) -> (copy: Self)
        ensures
            copy@ == self@,
    {
        SealSourceTriple {
            prefixer: self.prefixer.clone(),
            seqner: self.seqner.clone(),
            saider: self.saider.clone(),
        }
    }
}

impl SealSourceTripleView {
    /// The three fields are aligned.
    pub open spec fn aligned(self) -> bool {
        aligned(self.prefixer) && aligned(self.seqner) && aligned(self.saider)
    }

    /// The offset at which the binary form of the sequence number starts in
    /// the binary form of the triple: three quarters of the length of the
    /// text that precedes it.
    pub open spec fn seqner_offset(self) -> nat {
        self.prefixer.text.len() / 4 * 3
    }

    /// The offset at which the binary form of the digest starts in the binary
    /// form of the triple.
    pub open spec fn saider_offset(self) -> nat {
        (self.prefixer.text.len() + self.seqner.text.len()) / 4 * 3
    }

    /// The length of the text form of the triple.
    pub open spec fn text_len(self) -> nat {
        self.prefixer.text.len() + self.seqner.text.len() + self.saider.text.len()
    }
}

/// Size additivity: the text of a triple is as long as the texts of its
/// three fields together.
pub proof fn lemma_triple_size(triple: SealSourceTripleView)
    ensures
        SealSourceTriple::item_encoded(triple, Domain::Text).len() == triple.text_len(),
{
}

/// In the binary form of an aligned triple each field starts at three
/// quarters of the length of the text before it, and the whole has three
/// quarters of the length of the whole text.
pub proof fn lemma_binary_segments(triple: SealSourceTripleView)
    requires
        triple.aligned(),
    ensures
        SealSourceTriple::item_encoded(triple, Domain::Binary).len() == triple.text_len() / 4 * 3,
        SealSourceTriple::item_encoded(triple, Domain::Binary).subrange(
            0,
            triple.seqner_offset() as int,
        ) == triple.prefixer.binary,
        SealSourceTriple::item_encoded(triple, Domain::Binary).subrange(
            triple.seqner_offset() as int,
            triple.saider_offset() as int,
        ) == triple.seqner.binary,
        SealSourceTriple::item_encoded(triple, Domain::Binary).subrange(
            triple.saider_offset() as int,
            (triple.text_len() / 4 * 3) as int,
        ) == triple.saider.binary,
{
    let whole = SealSourceTriple::item_encoded(triple, Domain::Binary);
    assert(whole.subrange(0, triple.seqner_offset() as int) =~= triple.prefixer.binary);
    assert(whole.subrange(triple.seqner_offset() as int, triple.saider_offset() as int)
        =~= triple.seqner.binary);
    assert(whole.subrange(triple.saider_offset() as int, (triple.text_len() / 4 * 3) as int)
        =~= triple.saider.binary);
}

/// The room that the three parts of a form take together, for the buffer
/// that holds the form to be made once; none is set aside where the sum is
/// out of range.
fn room_for(first: &Vec<u8>, second: &Vec<u8>, third: &Vec<u8>) -> (room: usize)
    ensures
        room == if first@.len() + second@.len() + third@.len() <= usize::MAX {
            first@.len() + second@.len() + third@.len()
        } else {
            0
        },
{
    match first.len().checked_add(second.len()) {
        Some(sum) => match sum.checked_add(third.len()) {
            Some(sum) => sum,
            None => 0,
        },
        None => 0,
    }
}

impl SealSourceTriple {
    /// The triple of the given fields.
    pub fn new(prefixer: Prefixer, seqner: Seqner, saider: Saider) -> (item: Self)
        ensures
            item.prefixer == prefixer,
            item.seqner == seqner,
            item.saider == saider,
    {
        Self { prefixer, seqner, saider }
    }
}

impl GroupItem for SealSourceTriple {
    open spec fn item_encoded(value: SealSourceTripleView, domain: Domain) -> Seq<u8> {
        encoded(value.prefixer, domain) + encoded(value.seqner, domain) + encoded(
            value.saider,
            domain,
        )
    }

    open spec fn item_decoded(domain: Domain, bytes: Seq<u8>) -> Option<SealSourceTripleView> {
        match decoded::<Prefix>(domain, bytes) {
            None => None,
            Some(prefixer) => {
                let after_prefixer = bytes.skip(encoded(prefixer, domain).len() as int);
                match decoded::<Sequence>(domain, after_prefixer) {
                    None => None,
                    Some(seqner) => {
                        let after_seqner = after_prefixer.skip(
                            encoded(seqner, domain).len() as int,
                        );
                        match decoded::<Said>(domain, after_seqner) {
                            None => None,
                            Some(saider) => Some(SealSourceTripleView { prefixer, seqner, saider }),
                        }
                    },
                }
            },
        }
    }

    proof fn lemma_decoded_fits(domain: Domain, bytes: Seq<u8>) {
        lemma_decoded_starts::<Prefix>(domain, bytes);
        match decoded::<Prefix>(domain, bytes) {
            Some(prefixer) => {
                let first = encoded(prefixer, domain);
                let after_prefixer = bytes.skip(first.len() as int);
                lemma_decoded_starts::<Sequence>(domain, after_prefixer);
                match decoded::<Sequence>(domain, after_prefixer) {
                    Some(seqner) => {
                        let second = encoded(seqner, domain);
                        let after_seqner = after_prefixer.skip(second.len() as int);
                        lemma_decoded_starts::<Said>(domain, after_seqner);
                        match decoded::<Said>(domain, after_seqner) {
                            Some(saider) => {
                                let third = encoded(saider, domain);
                                let rest = after_seqner.skip(third.len() as int);
                                assert(bytes =~= first + second + third + rest);
                                assert((first + second + third) =~= bytes.subrange(
                                    0,
                                    (first + second + third).len() as int,
                                ));
                            },
                            None => {},
                        }
                    },
                    None => {},
                }
            },
            None => {},
        }
    }

    fn qb64(&self) -> (outcome: ParsideResult<String>) {
        let prefixer = self.prefixer.qb64();
        let seqner = self.seqner.qb64();
        let saider = self.saider.qb64();
        let mut out = String::new();
        out.append(prefixer.as_str());
        out.append(seqner.as_str());
        out.append(saider.as_str());
        proof {
            assert(out@ =~= prefixer@ + seqner@ + saider@);
            is_ascii_chars_concat(prefixer@ + seqner@, prefixer@, seqner@);
            is_ascii_chars_concat(out@, prefixer@ + seqner@, saider@);
            lemma_ascii_bytes_concat(prefixer@, seqner@);
            lemma_ascii_bytes_concat(prefixer@ + seqner@, saider@);
        }
        Ok(out)
    }

    fn qb64b(&self) -> (outcome: ParsideResult<Vec<u8>>) {
        let mut prefixer = self.prefixer.qb64b();
        let mut seqner = self.seqner.qb64b();
        let mut saider = self.saider.qb64b();
        let mut out: Vec<u8> = Vec::with_capacity(room_for(&prefixer, &seqner, &saider));
        out.append(&mut prefixer);
        out.append(&mut seqner);
        out.append(&mut saider);
        Ok(out)
    }

    fn qb2(&self) -> (outcome: ParsideResult<Vec<u8>>)
        ensures
            outcome matches Ok(bytes) ==> {
                &&& bytes@.len() == self@.text_len() / 4 * 3
                &&& bytes@.subrange(0, self@.seqner_offset() as int) == self.prefixer@.binary
                &&& bytes@.subrange(self@.seqner_offset() as int, self@.saider_offset() as int)
                    == self.seqner@.binary
                &&& bytes@.subrange(self@.saider_offset() as int, bytes@.len() as int)
                    == self.saider@.binary
            },
    {
        let mut prefixer = self.prefixer.qb2();
        let mut seqner = self.seqner.qb2();
        let mut saider = self.saider.qb2();
        let mut out: Vec<u8> = Vec::with_capacity(room_for(&prefixer, &seqner, &saider));
        out.append(&mut prefixer);
        out.append(&mut seqner);
        out.append(&mut saider);
        proof {
            lemma_binary_segments(self@);
        }
        Ok(out)
    }

    fn full_size(&self) -> (outcome: ParsideResult<usize>)
        ensures
            outcome matches Ok(size) ==> size == self.prefixer@.text.len() + self.seqner@.text.len()
                + self.saider@.text.len(),
    {
        let sum = self.prefixer.full_size().checked_add(self.seqner.full_size());
        let sum = match sum {
            Some(sum) => sum.checked_add(self.saider.full_size()),
            None => None,
        };
        match sum {
            Some(size) => Ok(size),
            None => Err(
                ParsideError::UnsupportedOperation("the size of the triple is out of range".to_string()),
            ),
        }
    }

    fn from_stream_bytes<'a>(bytes: &'a [u8], domain: Domain) -> (outcome: ParsideResult<
        (&'a [u8], Self),
    >) {
        let (rest, prefixer) = match Prefixer::from_stream_bytes(bytes, domain) {
            Ok(found) => found,
            Err(error) => {
                return Err(error);
            },
        };
        let (rest, seqner) = match Seqner::from_stream_bytes(rest, domain) {
            Ok(found) => found,
            Err(error) => {
                return Err(error);
            },
        };
        let (rest, saider) = match Saider::from_stream_bytes(rest, domain) {
            Ok(found) => found,
            Err(error) => {
                return Err(error);
            },
        };
        proof {
            let first = encoded(prefixer@, domain);
            let second = encoded(seqner@, domain);
            let third = encoded(saider@, domain);
            assert(bytes@ =~= first + second + third + rest@);
            assert(rest@ =~= bytes@.skip((first + second + third).len() as int));
        }
        Ok((rest, SealSourceTriple { prefixer, seqner, saider }))
    }
}

/// A group of seal source triples.
#[derive(Debug, Clone)]
pub struct SealSourceTriples {
    pub value: Vec<SealSourceTriple>,
}

impl View for SealSourceTriples {
    type V = Seq<<SealSourceTriple as View>::V>;

    open spec fn view(&self) -> Self::V {
        views(self.value@)
    }
}

impl Default for SealSourceTriples {
    fn default() -> (group: Self)
        ensures
            group.value@.len() == 0,
    {
        Self { value: Vec::new() }
    }
}

impl Group<SealSourceTriple> for SealSourceTriples {
    open spec fn spec_code() -> Seq<char> {
        Self::CODE@
    }

    fn code() -> (code: &'static str) {
        Self::CODE
    }

    open spec fn items(&self) -> Seq<SealSourceTriple> {
        self.value@
    }

    fn new(value: Vec<SealSourceTriple>) -> (group: Self) {
        Self { value }
    }

    fn value(&self) -> (value: &Vec<SealSourceTriple>) {
        &self.value
    }
}

impl SealSourceTriples {
    /// The code of the counter that stands before the items of the group.
    pub const CODE: &'static str = "-I";

    /// Reads the items of the group from a stream whose counter has been
    /// read: as many as the counter says, in the domain that the cold code
    /// stands for. Returns the group with the rest of the stream, which is
    /// the bytes of the items followed by the rest. A cold code that
    /// announces a message body is an unsupported operation; an item that
    /// cannot be read is a decoding error, as in every stream that has fewer
    /// than three bytes for each item.
    pub fn from_stream_bytes<'a>(bytes: &'a [u8], counter: &Counter, cold_code: &ColdCode) -> (outcome:
        ParsideResult<(&'a [u8], SealSourceTriples)>)
        ensures
            match outcome {
                Ok((rest, group)) => {
                    &&& cold_code.spec_domain() matches Some(domain)
                    &&& group.value@.len() == counter@.count
                    &&& rest@.len() <= bytes@.len()
                    &&& rest@ == bytes@.skip(bytes@.len() - rest@.len())
                    &&& bytes@ == items_encoded::<SealSourceTriple>(group@, domain) + rest@
                    &&& items_decoded::<SealSourceTriple>(domain, bytes@, counter@.count as nat)
                        == Some((group@, bytes@.len() - rest@.len()))
                },
                Err(error) => match cold_code.spec_domain() {
                    None => error is UnsupportedOperation,
                    Some(domain) => items_decoded::<SealSourceTriple>(
                        domain,
                        bytes@,
                        counter@.count as nat,
                    ) is None && error is PrimitiveDecode,
                },
            },
            bytes@.len() < 3 * counter@.count ==> outcome is Err,
    {
        parse_group::<SealSourceTriple, SealSourceTriples>(bytes, counter, cold_code)
    }
}

} // verus!
