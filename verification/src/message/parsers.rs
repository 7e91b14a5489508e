//! One parser for each kind of primitive, set up by the cold code of the
//! stream.

use crate::error::{ParsideError, ParsideResult};
use crate::message::cold_code::ColdCode;
use crate::message::primitives::{
    decoded, encoded, Kind, Prefix, Prefixer, Primitive, Said, Saider, Seqner, Sequence, Siger,
    Signature,
};
use vstd::prelude::*;

verus! {

/// The parsers of the primitives. Each takes the cold code of the stream and
/// reads one primitive from the head of the stream in the domain that the
/// cold code stands for; each returns the primitive with the rest of the
/// stream.
pub struct Parsers {}

impl Parsers {
    /// Reads one primitive of kind `K`. A cold code that announces a message
    /// body is an unsupported operation; a stream that does not start with a
    /// whole primitive of the kind is a decoding error.
    pub fn primitive_parser<'a, K: Kind>(cold_code: &ColdCode, bytes: &'a [u8]) -> (outcome:
        ParsideResult<(&'a [u8], Primitive<K>)>)
        ensures
            match outcome {
                Ok((rest, primitive)) => {
                    &&& cold_code.spec_domain() matches Some(domain)
                    &&& decoded::<K>(domain, bytes@) == Some(primitive@)
                    &&& encoded(primitive@, domain).len() <= bytes@.len()
                    &&& rest@ == bytes@.skip(encoded(primitive@, domain).len() as int)
                },
                Err(error) => match cold_code.spec_domain() {
                    None => error is UnsupportedOperation,
                    Some(domain) => decoded::<K>(domain, bytes@) is None && error
                        is PrimitiveDecode,
                },
            },
    {
        match cold_code.domain() {
            Some(domain) => Primitive::<K>::from_stream_bytes(bytes, domain),
            None => Err(
                ParsideError::UnsupportedOperation(
                    "no primitive is read in a message body".to_string(),
                ),
            ),
        }
    }

    /// Reads one indexed signature.
    pub fn siger_parser<'a>(cold_code: &ColdCode, bytes: &'a [u8]) -> (outcome: ParsideResult<
        (&'a [u8], Siger),
    >)
        ensures
            match outcome {
                Ok((rest, primitive)) => {
                    &&& cold_code.spec_domain() matches Some(domain)
                    &&& decoded::<Signature>(domain, bytes@) == Some(
                        primitive@,
                    )
                    &&& encoded(primitive@, domain).len() <= bytes@.len()
                    &&& rest@ == bytes@.skip(encoded(primitive@, domain).len() as int)
                },
                Err(error) => match cold_code.spec_domain() {
                    None => error is UnsupportedOperation,
                    Some(domain) => decoded::<Signature>(
                        domain,
                        bytes@,
                    ) is None && error is PrimitiveDecode,
                },
            },
    {
        Self::primitive_parser(cold_code, bytes)
    }

    /// Reads one identifier prefix.
    pub fn prefixer_parser<'a>(cold_code: &ColdCode, bytes: &'a [u8]) -> (outcome: ParsideResult<
        (&'a [u8], Prefixer),
    >)
        ensures
            match outcome {
                Ok((rest, primitive)) => {
                    &&& cold_code.spec_domain() matches Some(domain)
                    &&& decoded::<Prefix>(domain, bytes@) == Some(
                        primitive@,
                    )
                    &&& encoded(primitive@, domain).len() <= bytes@.len()
                    &&& rest@ == bytes@.skip(encoded(primitive@, domain).len() as int)
                },
                Err(error) => match cold_code.spec_domain() {
                    None => error is UnsupportedOperation,
                    Some(domain) => decoded::<Prefix>(domain, bytes@)
                        is None && error is PrimitiveDecode,
                },
            },
    {
        Self::primitive_parser(cold_code, bytes)
    }

    /// Reads one sequence number.
    pub fn seqner_parser<'a>(cold_code: &ColdCode, bytes: &'a [u8]) -> (outcome: ParsideResult<
        (&'a [u8], Seqner),
    >)
        ensures
            match outcome {
                Ok((rest, primitive)) => {
                    &&& cold_code.spec_domain() matches Some(domain)
                    &&& decoded::<Sequence>(domain, bytes@) == Some(
                        primitive@,
                    )
                    &&& encoded(primitive@, domain).len() <= bytes@.len()
                    &&& rest@ == bytes@.skip(encoded(primitive@, domain).len() as int)
                },
                Err(error) => match cold_code.spec_domain() {
                    None => error is UnsupportedOperation,
                    Some(domain) => decoded::<Sequence>(
                        domain,
                        bytes@,
                    ) is None && error is PrimitiveDecode,
                },
            },
    {
        Self::primitive_parser(cold_code, bytes)
    }

    /// Reads one self-addressing identifier.
    pub fn saider_parser<'a>(cold_code: &ColdCode, bytes: &'a [u8]) -> (outcome: ParsideResult<
        (&'a [u8], Saider),
    >)
        ensures
            match outcome {
                Ok((rest, primitive)) => {
                    &&& cold_code.spec_domain() matches Some(domain)
                    &&& decoded::<Said>(domain, bytes@) == Some(
                        primitive@,
                    )
                    &&& encoded(primitive@, domain).len() <= bytes@.len()
                    &&& rest@ == bytes@.skip(encoded(primitive@, domain).len() as int)
                },
                Err(error) => match cold_code.spec_domain() {
                    None => error is UnsupportedOperation,
                    Some(domain) => decoded::<Said>(domain, bytes@)
                        is None && error is PrimitiveDecode,
                },
            },
    {
        Self::primitive_parser(cold_code, bytes)
    }
}

} // verus!
