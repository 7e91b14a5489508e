//! Telling from its first byte what a stream holds.

use crate::error::{ParsideError, ParsideResult};
use vstd::prelude::*;

verus! {

/// What the three leading bits of a stream announce.
#[derive(Debug, Clone, Copy, PartialEq, Eq, Structural)]
pub enum ColdCode {
    /// `001`: a count code in text.
    CtB64,
    /// `010`: an operation code in text.
    OpB64,
    /// `011`: a JSON message.
    JSON,
    /// `100`: a MessagePack map of fixed size.
    MGPK1,
    /// `101`: a CBOR message.
    CBOR,
    /// `110`: a MessagePack map of 16 or 32 bits.
    MGPK2,
    /// `111`: a count code or an operation code in binary.
    CtOpB2,
}

/// The two encodings that a group and its primitives can be written in.
#[derive(Debug, Clone, Copy, PartialEq, Eq, Structural)]
pub enum Domain {
    /// Four characters of the URL-safe Base64 alphabet for three bytes.
    Text,
    /// The bytes themselves.
    Binary,
}

/// The three leading bits of a byte, as a number from 0 to 7.
pub open spec fn tritet(byte: u8) -> u8 {
    byte / 32
}

impl ColdCode {
    /// The cold code that a tritet stands for. `000` stands for none.
    pub open spec fn of_tritet(tritet: u8) -> Option<ColdCode> {
        if tritet == 1 {
            Some(ColdCode::CtB64)
        } else if tritet == 2 {
            Some(ColdCode::OpB64)
        } else if tritet == 3 {
            Some(ColdCode::JSON)
        } else if tritet == 4 {
            Some(ColdCode::MGPK1)
        } else if tritet == 5 {
            Some(ColdCode::CBOR)
        } else if tritet == 6 {
            Some(ColdCode::MGPK2)
        } else if tritet == 7 {
            Some(ColdCode::CtOpB2)
        } else {
            None
        }
    }

    /// What the first byte of a stream announces; nothing for an empty stream.
    pub open spec fn classified(bytes: Seq<u8>) -> Option<ColdCode> {
        if bytes.len() == 0 {
            None
        } else {
            Self::of_tritet(tritet(bytes[0]))
        }
    }

    /// The domain in which groups and primitives are read under this code;
    /// nothing for the codes that announce a message body.
    pub open spec fn spec_domain(&self) -> Option<Domain> {
        match self {
            ColdCode::CtB64 | ColdCode::OpB64 => Some(Domain::Text),
            ColdCode::CtOpB2 => Some(Domain::Binary),
            _ => None,
        }
    }

    /// The number of the three bits that announce this code.
    pub open spec fn spec_tritet(&self) -> u8 {
        match self {
            ColdCode::CtB64 => 1,
            ColdCode::OpB64 => 2,
            ColdCode::JSON => 3,
            ColdCode::MGPK1 => 4,
            ColdCode::CBOR => 5,
            ColdCode::MGPK2 => 6,
            ColdCode::CtOpB2 => 7,
        }
    }

    /// The cold code of a tritet, or a classification error for a number
    /// that stands for none.
    pub fn from_tritet(tritet: u8) -> (outcome: ParsideResult<ColdCode>)
        ensures
            match outcome {
                Ok(code) => Self::of_tritet(tritet) == Some(code),
                Err(error) => Self::of_tritet(tritet) is None && error is Classification,
            },
    {
        match tritet {
            1 => Ok(ColdCode::CtB64),
            2 => Ok(ColdCode::OpB64),
            3 => Ok(ColdCode::JSON),
            4 => Ok(ColdCode::MGPK1),
            5 => Ok(ColdCode::CBOR),
            6 => Ok(ColdCode::MGPK2),
            7 => Ok(ColdCode::CtOpB2),
            _ => Err(ParsideError::Classification("unexpected tritet at stream start".to_string())),
        }
    }

    /// Classifies a stream by its first byte without consuming anything. An
    /// empty stream, and one whose leading bits are `000`, is a
    /// classification error.
    pub fn sniff(bytes: &[u8]) -> (outcome: ParsideResult<ColdCode>)
        ensures
            match outcome {
                Ok(code) => Self::classified(bytes@) == Some(code),
                Err(error) => Self::classified(bytes@) is None && error is Classification,
            },
    {
        if bytes.len() == 0 {
            return Err(ParsideError::Classification("empty stream".to_string()));
        }
        let first: u8 = bytes[0];
        let leading: u8 = first >> 5;
        assert(first >> 5 == first / 32) by (bit_vector);
        Self::from_tritet(leading)
    }

    /// The number of the three bits that announce this code.
    pub fn tritet(&self) -> (number: u8)
        ensures
            number == self.spec_tritet(),
            Self::of_tritet(number) == Some(*self),
    {
        match self {
            ColdCode::CtB64 => 1,
            ColdCode::OpB64 => 2,
            ColdCode::JSON => 3,
            ColdCode::MGPK1 => 4,
            ColdCode::CBOR => 5,
            ColdCode::MGPK2 => 6,
            ColdCode::CtOpB2 => 7,
        }
    }

    /// The domain in which groups and primitives are read under this code;
    /// nothing for the codes that announce a message body.
    #[verifier::when_used_as_spec(spec_domain)]
    pub fn domain(&self) -> (outcome: Option<Domain>)
        ensures
            outcome == self.spec_domain(),
    {
        match self {
            ColdCode::CtB64 | ColdCode::OpB64 => Some(Domain::Text),
            ColdCode::CtOpB2 => Some(Domain::Binary),
            _ => None,
        }
    }
}

} // verus!
