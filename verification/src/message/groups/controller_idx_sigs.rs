//! Groups of the indexed signatures of a controller.

use crate::error::ParsideResult;
use crate::message::codec::RenderingView;
use crate::message::cold_code::{ColdCode, Domain};
use crate::message::counter::Counter;
use crate::message::primitives::{decoded, encoded, lemma_decoded_starts, Siger, Signature};
use crate::message::{items_decoded, items_encoded, parse_group, views, Group, GroupItem};
use vstd::prelude::*;

verus! {

/// One item of the group: an indexed signature.
#[derive(Debug)]
pub struct ControllerIdxSig {
    pub siger: Siger,
}

impl View for ControllerIdxSig {
    type V = RenderingView;

    open spec fn view(&self) -> RenderingView {
        self.siger@
    }
}

impl Clone for ControllerIdxSig {
    fn clone(&self) -> (copy: Self)
        ensures
            copy@ == self@,
    {
        ControllerIdxSig { siger: self.siger.clone() }
    }
}

impl ControllerIdxSig {
    /// The item that holds the given signature.
    pub fn new(siger: Siger) -> (item: Self)
        ensures
            item@ == siger@,
            item.siger == siger,
    {
        Self { siger }
    }
}

impl GroupItem for ControllerIdxSig {
    open spec fn item_encoded(value: RenderingView, domain: Domain) -> Seq<u8> {
        encoded(value, domain)
    }

    open spec fn item_decoded(domain: Domain, bytes: Seq<u8>) -> Option<RenderingView> {
        decoded::<Signature>(domain, bytes)
    }

    proof fn lemma_decoded_fits(domain: Domain, bytes: Seq<u8>) {
        lemma_decoded_starts::<Signature>(domain, bytes);
    }

    fn qb64(&self) -> (outcome: ParsideResult<String>) {
        Ok(self.siger.qb64())
    }

    fn qb64b(&self) -> (outcome: ParsideResult<Vec<u8>>) {
        Ok(self.siger.qb64b())
    }

    fn qb2(&self) -> (outcome: ParsideResult<Vec<u8>>) {
        Ok(self.siger.qb2())
    }

    fn full_size(&self) -> (outcome: ParsideResult<usize>) {
        Ok(self.siger.full_size())
    }

    fn from_stream_bytes<'a>(bytes: &'a [u8], domain: Domain) -> (outcome: ParsideResult<
        (&'a [u8], Self),
    >) {
        match Siger::from_stream_bytes(bytes, domain) {
            Ok((rest, siger)) => Ok((rest, ControllerIdxSig { siger })),
            Err(error) => Err(error),
        }
    }
}

/// A group of the indexed signatures of a controller.
#[derive(Debug, Clone)]
pub struct ControllerIdxSigs {
    pub value: Vec<ControllerIdxSig>,
}

impl View for ControllerIdxSigs {
    type V = Seq<<ControllerIdxSig as View>::V>;

    open spec fn view(&self) -> Self::V {
        views(self.value@)
    }
}

impl Default for ControllerIdxSigs {
    fn default() -> (group: Self)
        ensures
            group.value@.len() == 0,
    {
        Self { value: Vec::new() }
    }
}

impl Group<ControllerIdxSig> for ControllerIdxSigs {
    open spec fn spec_code() -> Seq<char> {
        Self::CODE@
    }

    fn code() -> (code: &'static str) {
        Self::CODE
    }

    open spec fn items(&self) -> Seq<ControllerIdxSig> {
        self.value@
    }

    fn new(value: Vec<ControllerIdxSig>) -> (group: Self) {
        Self { value }
    }

    fn value(&self) -> (value: &Vec<ControllerIdxSig>) {
        &self.value
    }
}

impl ControllerIdxSigs {
    /// The code of the counter that stands before the items of the group.
    pub const CODE: &'static str = "-A";

    /// Reads the items of the group from a stream whose counter has been
    /// read: as many as the counter says, in the domain that the cold code
    /// stands for. Returns the group with the rest of the stream, which is
    /// the bytes of the items followed by the rest. A cold code that
    /// announces a message body is an unsupported operation; an item that
    /// cannot be read is a decoding error, as in every stream that has fewer
    /// than three bytes for each item.
    pub fn from_stream_bytes<'a>(bytes: &'a [u8], counter: &Counter, cold_code: &ColdCode) -> (outcome:
        ParsideResult<(&'a [u8], ControllerIdxSigs)>)
        ensures
            match outcome {
                Ok((rest, group)) => {
                    &&& cold_code.spec_domain() matches Some(domain)
                    &&& group.value@.len() == counter@.count
                    &&& rest@.len() <= bytes@.len()
                    &&& rest@ == bytes@.skip(bytes@.len() - rest@.len())
                    &&& bytes@ == items_encoded::<ControllerIdxSig>(group@, domain) + rest@
                    &&& items_decoded::<ControllerIdxSig>(domain, bytes@, counter@.count as nat)
                        == Some((group@, bytes@.len() - rest@.len()))
                },
                Err(error) => match cold_code.spec_domain() {
                    None => error is UnsupportedOperation,
                    Some(domain) => items_decoded::<ControllerIdxSig>(
                        domain,
                        bytes@,
                        counter@.count as nat,
                    ) is None && error is PrimitiveDecode,
                },
            },
            bytes@.len() < 3 * counter@.count ==> outcome is Err,
    {
        parse_group::<ControllerIdxSig, ControllerIdxSigs>(bytes, counter, cold_code)
    }
}

} // verus!
