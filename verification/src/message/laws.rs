//! What holds of reading and writing groups, whatever the codec decides.
//!
//! Which bytes decode to which primitive is the codec's matter. The laws here
//! say what the framing adds: that items are counted, that sizes add up, that
//! a stream too short for its count is refused, and that a group can be read
//! back from what was written of it as soon as each of its parts can.

use crate::message::codec::RenderingView;
use crate::message::cold_code::Domain;
use crate::message::counter::{count_limit, decoded_counter, made, CounterView};
use crate::message::groups::controller_idx_sigs::{ControllerIdxSig, ControllerIdxSigs};
use crate::message::groups::seal_source_triples::{
    SealSourceTriple, SealSourceTripleView, SealSourceTriples,
};
use crate::message::primitives::{
    decoded, encoded, lemma_prefix_of_readable, Kind, Prefix, Said, Sequence, Signature,
};
use crate::message::{
    announced, group_decoded, group_encoded, items_decoded, items_encoded, Group, GroupItem,
    Reading,
};
use vstd::prelude::*;

verus! {

/// The lengths of the items of a run, added up.
pub open spec fn sizes_sum<T: GroupItem>(values: Seq<T::V>, domain: Domain) -> nat
    decreases values.len(),
{
    if values.len() == 0 {
        0
    } else {
        sizes_sum::<T>(values.drop_last(), domain) + T::item_encoded(values.last(), domain).len()
    }
}

/// Sizes add up: a run of items takes as many bytes as its items take
/// together. In text the size of an item is its full size.
pub proof fn lemma_sizes_add_up<T: GroupItem>(values: Seq<T::V>, domain: Domain)
    ensures
        items_encoded::<T>(values, domain).len() == sizes_sum::<T>(values, domain),
    decreases values.len(),
{
    if values.len() > 0 {
        lemma_sizes_add_up::<T>(values.drop_last(), domain);
    }
}

/// Count fidelity: where `count` items are read from a stream, there are
/// exactly `count` of them, and the stream is the bytes of these items, one
/// after the other, followed by what remains. The bytes taken are as many as
/// the sizes of the items add up to, at least three for each item, and no
/// more than the stream has.
pub proof fn lemma_items_counted<T: GroupItem>(domain: Domain, bytes: Seq<u8>, count: nat)
    ensures
        items_decoded::<T>(domain, bytes, count) matches Some((values, used)) ==> {
            &&& values.len() == count
            &&& used == sizes_sum::<T>(values, domain)
            &&& used == items_encoded::<T>(values, domain).len()
            &&& 3 * count <= used <= bytes.len()
            &&& bytes == items_encoded::<T>(values, domain) + bytes.skip(used)
        },
    decreases count,
{
    if count > 0 {
        lemma_items_counted::<T>(domain, bytes, (count - 1) as nat);
        match items_decoded::<T>(domain, bytes, (count - 1) as nat) {
            Some((values, used)) => {
                T::lemma_decoded_fits(domain, bytes.skip(used));
                match T::item_decoded(domain, bytes.skip(used)) {
                    Some(value) => {
                        let size = T::item_encoded(value, domain).len() as int;
                        assert(values.push(value).drop_last() =~= values);
                        assert(bytes.skip(used) =~= T::item_encoded(value, domain) + bytes.skip(
                            used,
                        ).skip(size));
                        assert(bytes.skip(used).skip(size) =~= bytes.skip(used + size));
                        assert(bytes =~= items_encoded::<T>(values, domain) + T::item_encoded(
                            value,
                            domain,
                        ) + bytes.skip(used + size));
                    },
                    None => {},
                }
            },
            None => {},
        }
    } else {
        assert(bytes =~= Seq::<u8>::empty() + bytes.skip(0));
    }
}

/// Truncation is refused: from a stream that has fewer than three bytes for
/// each item of the count, the items cannot be read.
pub proof fn lemma_short_stream_refused<T: GroupItem>(domain: Domain, bytes: Seq<u8>, count: nat)
    requires
        bytes.len() < 3 * count,
    ensures
        items_decoded::<T>(domain, bytes, count) is None,
{
    lemma_items_counted::<T>(domain, bytes, count);
}

/// Truncation is refused: a stream that is shorter than a run of items is
/// not read as that run.
pub proof fn lemma_cut_stream_differs<T: GroupItem>(
    domain: Domain,
    bytes: Seq<u8>,
    values: Seq<T::V>,
)
    requires
        bytes.len() < items_encoded::<T>(values, domain).len(),
    ensures
        items_decoded::<T>(domain, bytes, values.len()) matches Some((found, _)) ==> found
            != values,
{
    lemma_items_counted::<T>(domain, bytes, values.len());
}

/// An item reads back in a domain where every stream that starts with the
/// bytes of the item starts with the item.
pub open spec fn reads_back<T: GroupItem>(value: T::V, domain: Domain) -> bool {
    forall|rest: Seq<u8>| #[trigger]
        T::item_decoded(domain, T::item_encoded(value, domain) + rest) == Some(value)
}

/// Every item of a run reads back.
pub open spec fn all_read_back<T: GroupItem>(values: Seq<T::V>, domain: Domain) -> bool {
    forall|i: int| 0 <= i < values.len() ==> reads_back::<T>(#[trigger] values[i], domain)
}

/// A run of items that read back is read back whole: from the bytes of the
/// run, followed by anything, the items are read in order, and what followed
/// is what remains.
pub proof fn lemma_items_read_back<T: GroupItem>(values: Seq<T::V>, domain: Domain, rest: Seq<u8>)
    requires
        all_read_back::<T>(values, domain),
    ensures
        items_decoded::<T>(domain, items_encoded::<T>(values, domain) + rest, values.len())
            == Some((values, items_encoded::<T>(values, domain).len() as int)),
        (items_encoded::<T>(values, domain) + rest).skip(
            items_encoded::<T>(values, domain).len() as int,
        ) == rest,
    decreases values.len(),
{
    let whole = items_encoded::<T>(values, domain);
    assert((whole + rest).skip(whole.len() as int) =~= rest);
    if values.len() > 0 {
        let before = values.drop_last();
        let last = values.last();
        let head = items_encoded::<T>(before, domain);
        let tail = T::item_encoded(last, domain);
        assert(all_read_back::<T>(before, domain)) by {
            assert forall|i: int| 0 <= i < before.len() implies reads_back::<T>(
                #[trigger] before[i],
                domain,
            ) by {
                assert(before[i] == values[i]);
            }
        }
        lemma_items_read_back::<T>(before, domain, tail + rest);
        assert(head + (tail + rest) =~= whole + rest);
        assert((whole + rest).skip(head.len() as int) =~= tail + rest);
        assert(reads_back::<T>(values[values.len() - 1], domain));
        assert(T::item_decoded(domain, tail + rest) == Some(last));
        assert(before.push(last) =~= values);
    }
}

/// A counter reads back in a domain where every stream that starts with the
/// bytes of the counter announces the domain and starts with the counter.
pub open spec fn counter_reads_back(counter: CounterView, domain: Domain) -> bool {
    &&& forall|rest: Seq<u8>| #[trigger]
        announced(encoded(counter.rendering, domain) + rest) == Some(domain)
    &&& forall|rest: Seq<u8>| #[trigger]
        decoded_counter(domain, encoded(counter.rendering, domain) + rest) == Some(counter)
}

/// Round trip: a group whose counter and items read back in a domain is read
/// back whole from what was written of it in that domain, followed by
/// anything. The items read are the items written, so what is written of
/// them again is byte for byte what was written before; as many bytes are
/// taken as were written: the size of the counter and the sizes of the items.
pub proof fn lemma_group_reads_back<T: GroupItem>(
    code: Seq<char>,
    values: Seq<T::V>,
    domain: Domain,
    rest: Seq<u8>,
)
    requires
        values.len() <= u32::MAX,
        made(code, values.len() as u32) matches Some(counter) && counter_reads_back(
            counter,
            domain,
        ),
        all_read_back::<T>(values, domain),
    ensures
        group_encoded::<T>(code, values, domain) matches Some(bytes) && {
            &&& group_decoded::<T>(code, bytes + rest) == Reading::Read(values, bytes.len() as int)
            &&& (bytes + rest).skip(bytes.len() as int) == rest
            &&& bytes.len() == encoded(made(code, values.len() as u32)->0.rendering, domain).len()
                + sizes_sum::<T>(values, domain)
        },
{
    let counter = made(code, values.len() as u32)->0;
    let head = encoded(counter.rendering, domain);
    let body = items_encoded::<T>(values, domain);
    let bytes = head + body;
    assert(bytes + rest =~= head + (body + rest));
    assert(announced(head + (body + rest)) == Some(domain));
    assert(decoded_counter(domain, head + (body + rest)) == Some(counter));
    assert((bytes + rest).skip(head.len() as int) =~= body + rest);
    lemma_items_read_back::<T>(values, domain, rest);
    lemma_sizes_add_up::<T>(values, domain);
    assert((bytes + rest).skip(bytes.len() as int) =~= rest);
}

/// Domain independence: a group whose counter and items read back in text
/// and in binary is read as the same items from its text and from its binary
/// form, different as the bytes are.
pub proof fn lemma_domains_agree<T: GroupItem>(
    code: Seq<char>,
    values: Seq<T::V>,
    after_text: Seq<u8>,
    after_binary: Seq<u8>,
)
    requires
        values.len() <= u32::MAX,
        made(code, values.len() as u32) matches Some(counter) && counter_reads_back(
            counter,
            Domain::Text,
        ) && counter_reads_back(counter, Domain::Binary),
        all_read_back::<T>(values, Domain::Text),
        all_read_back::<T>(values, Domain::Binary),
    ensures
        group_encoded::<T>(code, values, Domain::Text) matches Some(text) && group_encoded::<T>(
            code,
            values,
            Domain::Binary,
        ) matches Some(binary) && group_decoded::<T>(code, text + after_text)
            matches Reading::Read(from_text, _) && group_decoded::<T>(code, binary + after_binary)
            matches Reading::Read(from_binary, _) && from_text == values && from_binary == values,
{
    lemma_group_reads_back::<T>(code, values, Domain::Text, after_text);
    lemma_group_reads_back::<T>(code, values, Domain::Binary, after_binary);
}

/// Size additivity for whole groups, and writing as it was read: where a
/// group is read from a stream, the stream is what the group is written as in
/// the domain of the stream, followed by what remains. The bytes taken are
/// those of the counter and those that the sizes of the items add up to.
pub proof fn lemma_group_written_as_read<T: GroupItem>(code: Seq<char>, bytes: Seq<u8>)
    ensures
        group_decoded::<T>(code, bytes) matches Reading::Read(values, used) ==> {
            &&& announced(bytes) matches Some(domain)
            &&& decoded_counter(domain, bytes) matches Some(counter)
            &&& made(code, values.len() as u32) == Some(counter)
            &&& values.len() == counter.count
            &&& used == encoded(counter.rendering, domain).len() + sizes_sum::<T>(values, domain)
            &&& used <= bytes.len()
            &&& group_encoded::<T>(code, values, domain) matches Some(written)
            &&& written.len() == used
            &&& bytes == written + bytes.skip(used)
        },
{
    match announced(bytes) {
        Some(domain) => match decoded_counter(domain, bytes) {
            Some(counter) => {
                let head = encoded(counter.rendering, domain);
                let behind = bytes.skip(head.len() as int);
                lemma_prefix_of_readable(head, bytes, domain);
                lemma_items_counted::<T>(domain, behind, counter.count as nat);
                match items_decoded::<T>(domain, behind, counter.count as nat) {
                    Some((values, used)) => {
                        assert(behind.skip(used) =~= bytes.skip(head.len() + used));
                        assert(bytes =~= (head + items_encoded::<T>(values, domain)) + bytes.skip(
                            head.len() + used,
                        ));
                    },
                    None => {},
                }
            },
            None => {},
        },
        None => {},
    }
}

/// A primitive of kind `K` reads back in a domain where every stream that
/// starts with the bytes of the primitive starts with the primitive.
pub open spec fn primitive_reads_back<K: Kind>(value: RenderingView, domain: Domain) -> bool {
    forall|rest: Seq<u8>| #[trigger]
        decoded::<K>(domain, encoded(value, domain) + rest) == Some(value)
}

/// An indexed signature that reads back makes an item that reads back.
pub proof fn lemma_signature_item_reads_back(value: RenderingView, domain: Domain)
    requires
        primitive_reads_back::<Signature>(value, domain),
    ensures
        reads_back::<ControllerIdxSig>(value, domain),
{
    assert forall|rest: Seq<u8>| #[trigger]
        ControllerIdxSig::item_decoded(domain, ControllerIdxSig::item_encoded(value, domain) + rest)
            == Some(value) by {
        assert(decoded::<Signature>(domain, encoded(value, domain) + rest) == Some(value));
    }
}

/// A prefix, a sequence number and a digest that read back make a triple
/// that reads back: the fields are found one behind the other, in the order
/// in which they were written.
pub proof fn lemma_triple_reads_back(triple: SealSourceTripleView, domain: Domain)
    requires
        primitive_reads_back::<Prefix>(triple.prefixer, domain),
        primitive_reads_back::<Sequence>(triple.seqner, domain),
        primitive_reads_back::<Said>(triple.saider, domain),
    ensures
        reads_back::<SealSourceTriple>(triple, domain),
{
    let first = encoded(triple.prefixer, domain);
    let second = encoded(triple.seqner, domain);
    let third = encoded(triple.saider, domain);
    assert forall|rest: Seq<u8>| #[trigger]
        SealSourceTriple::item_decoded(domain, SealSourceTriple::item_encoded(triple, domain) + rest)
            == Some(triple) by {
        let whole = first + second + third + rest;
        assert(whole =~= first + (second + third + rest));
        assert(decoded::<Prefix>(domain, first + (second + third + rest)) == Some(triple.prefixer));
        let after_first = whole.skip(first.len() as int);
        assert(after_first =~= second + (third + rest));
        assert(decoded::<Sequence>(domain, second + (third + rest)) == Some(triple.seqner));
        let after_second = after_first.skip(second.len() as int);
        assert(after_second =~= third + rest);
        assert(decoded::<Said>(domain, third + rest) == Some(triple.saider));
    }
}

/// The codes of the two groups name groups: a counter of either code holds
/// any count up to 4095.
pub proof fn lemma_codes_name_groups()
    ensures
        ControllerIdxSigs::spec_code() == seq!['-', 'A'],
        SealSourceTriples::spec_code() == seq!['-', 'I'],
        count_limit(ControllerIdxSigs::spec_code()) == Some(4095nat),
        count_limit(SealSourceTriples::spec_code()) == Some(4095nat),
{
    reveal_strlit("-A");
    reveal_strlit("-I");
    assert(ControllerIdxSigs::CODE@ =~= seq!['-', 'A']);
    assert(SealSourceTriples::CODE@ =~= seq!['-', 'I']);
}

} // verus!
