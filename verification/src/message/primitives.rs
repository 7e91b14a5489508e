//! The primitives that groups are made of.
//!
//! A primitive is known to this library by what it answers when asked for its
//! code, its text and its binary form. The codec decides which bytes decode to
//! which primitive; the library keeps the answers and checks, for each value
//! it admits, that the two forms have the lengths that framing relies on.

use crate::error::{ParsideError, ParsideResult};
use crate::message::codec::{
    all_ascii, counted_binary, counted_text, decode_prefixer_binary, decode_prefixer_text,
    decode_saider_binary, decode_saider_text, decode_seqner_binary, decode_seqner_text,
    decode_siger_binary, decode_siger_text, decoded_prefixer_binary, decoded_prefixer_text,
    decoded_saider_binary, decoded_saider_text, decoded_seqner_binary, decoded_seqner_text,
    decoded_siger_binary, decoded_siger_text, Rendering, RenderingView,
};
use crate::message::cold_code::Domain;
use core::marker::PhantomData;
use vstd::prelude::*;
use vstd::slice::{slice_subrange, slice_to_vec};
use vstd::string::is_ascii_spec_bytes;
use vstd::utf8::is_ascii_chars;

verus! {

/// The bytes of a text whose characters are all ASCII.
pub open spec fn ascii_bytes(text: Seq<char>) -> Seq<u8> {
    Seq::new(text.len(), |i: int| text[i] as u8)
}

/// The bytes of a text are those of its parts, one after the other.
pub proof fn lemma_ascii_bytes_concat(first: Seq<char>, second: Seq<char>)
    ensures
        ascii_bytes(first + second) == ascii_bytes(first) + ascii_bytes(second),
{
    assert(ascii_bytes(first + second) =~= ascii_bytes(first) + ascii_bytes(second));
}

/// The text is ASCII and made of whole groups of four characters, of which
/// there is at least one, and the binary form has three bytes for every four
/// characters of the text.
pub open spec fn aligned(value: RenderingView) -> bool {
    &&& is_ascii_chars(value.text)
    &&& value.text.len() > 0
    &&& value.text.len() % 4 == 0
    &&& value.binary.len() * 4 == value.text.len() * 3
}

/// The bytes that stand for a value in a stream of the given domain.
pub open spec fn encoded(value: RenderingView, domain: Domain) -> Seq<u8> {
    match domain {
        Domain::Text => ascii_bytes(value.text),
        Domain::Binary => value.binary,
    }
}

/// The index of the first byte at or after `from` that is not ASCII, or the
/// length of the bytes where all of them are.
pub open spec fn ascii_run(bytes: Seq<u8>, from: int) -> int
    decreases bytes.len() - from,
{
    if from < 0 || from >= bytes.len() || bytes[from] >= 128 {
        from
    } else {
        ascii_run(bytes, from + 1)
    }
}

/// The part of a stream that is handed to the codec: in text, the bytes up
/// to the first one that is not ASCII; in binary, all of them.
pub open spec fn readable(bytes: Seq<u8>, domain: Domain) -> Seq<u8> {
    match domain {
        Domain::Text => bytes.take(ascii_run(bytes, 0)),
        Domain::Binary => bytes,
    }
}

/// The run of ASCII bytes ends inside the bytes, holds only ASCII, and is
/// followed by a byte that is not ASCII or by nothing.
pub proof fn lemma_ascii_run(bytes: Seq<u8>, from: int)
    requires
        0 <= from <= bytes.len(),
    ensures
        from <= ascii_run(bytes, from) <= bytes.len(),
        forall|i: int| from <= i < ascii_run(bytes, from) ==> bytes[i] < 128,
        ascii_run(bytes, from) < bytes.len() ==> bytes[ascii_run(bytes, from)] >= 128,
    decreases bytes.len() - from,
{
    if from < bytes.len() && bytes[from] < 128 {
        lemma_ascii_run(bytes, from + 1);
    }
}

/// The length of the run of ASCII bytes that a stream starts with.
pub fn ascii_prefix_len(bytes: &[u8]) -> (length: usize)
    ensures
        length == ascii_run(bytes@, 0),
        length <= bytes@.len(),
        all_ascii(bytes@.take(length as int)),
{
    let mut at: usize = 0;
    while at < bytes.len() && bytes[at] < 128
        invariant
            at <= bytes@.len(),
            ascii_run(bytes@, 0) == ascii_run(bytes@, at as int),
        decreases bytes@.len() - at,
    {
        at = at + 1;
    }
    proof {
        lemma_ascii_run(bytes@, 0);
    }
    at
}

/// Whether bytes start with the bytes of a prefix.
pub fn starts_with(bytes: &[u8], prefix: &[u8]) -> (starts: bool)
    ensures
        starts == prefix@.is_prefix_of(bytes@),
{
    if prefix.len() > bytes.len() {
        return false;
    }
    let mut at: usize = 0;
    while at < prefix.len()
        invariant
            at <= prefix@.len() <= bytes@.len(),
            forall|i: int| 0 <= i < at ==> bytes@[i] == prefix@[i],
        decreases prefix@.len() - at,
    {
        if bytes[at] != prefix[at] {
            assert(prefix@[at as int] != bytes@.subrange(0, prefix@.len() as int)[at as int]);
            return false;
        }
        at = at + 1;
    }
    assert(prefix@ =~= bytes@.subrange(0, prefix@.len() as int));
    true
}

/// One kind of primitive: what the codec decodes for it, in either domain.
pub trait Kind: Sized {
    /// What the codec makes of the input it is handed for this kind: nothing
    /// where the input is refused.
    spec fn decoding(domain: Domain, input: Seq<u8>) -> Option<RenderingView>;

    /// Asks the codec to decode one primitive of this kind from the head of
    /// the input.
    fn decode(domain: Domain, input: &[u8]) -> (outcome: Result<Rendering, String>)
        requires
            domain == Domain::Text ==> all_ascii(input@),
        ensures
            outcome is Ok <==> Self::decoding(domain, input@) is Some,
            outcome matches Ok(rendering) ==> Self::decoding(domain, input@) == Some(rendering@),
    ;
}

/// What a stream decodes to for a kind: the codec's answer for the readable
/// part of the stream, where that answer is aligned and the stream starts
/// with the very bytes that stand for it in the stream's domain; nothing
/// otherwise.
pub open spec fn decoded<K: Kind>(domain: Domain, bytes: Seq<u8>) -> Option<RenderingView> {
    match K::decoding(domain, readable(bytes, domain)) {
        Some(value) => if aligned(value) && encoded(value, domain).is_prefix_of(
            readable(bytes, domain),
        ) {
            Some(value)
        } else {
            None
        },
        None => None,
    }
}

/// What starts the readable part of a stream starts the stream.
pub proof fn lemma_prefix_of_readable(prefix: Seq<u8>, bytes: Seq<u8>, domain: Domain)
    requires
        prefix.is_prefix_of(readable(bytes, domain)),
    ensures
        prefix.is_prefix_of(bytes),
        bytes == prefix + bytes.skip(prefix.len() as int),
{
    lemma_ascii_run(bytes, 0);
    assert(prefix =~= bytes.subrange(0, prefix.len() as int));
    assert(bytes =~= prefix + bytes.skip(prefix.len() as int));
}

/// A stream is the bytes of the primitive that it starts with, followed by
/// the rest of the stream; and these bytes are no fewer than three.
pub proof fn lemma_decoded_starts<K: Kind>(domain: Domain, bytes: Seq<u8>)
    ensures
        decoded::<K>(domain, bytes) matches Some(value) ==> {
            &&& aligned(value)
            &&& encoded(value, domain).is_prefix_of(bytes)
            &&& 3 <= encoded(value, domain).len()
            &&& bytes == encoded(value, domain) + bytes.skip(encoded(value, domain).len() as int)
        },
{
    match decoded::<K>(domain, bytes) {
        Some(value) => {
            lemma_prefix_of_readable(encoded(value, domain), bytes, domain);
        },
        None => {},
    }
}

/// A primitive of kind `K`: a code and the two forms in which it is written.
#[derive(Debug)]
pub struct Primitive<K: Kind> {
    rendering: Rendering,
    kind: PhantomData<K>,
}

impl<K: Kind> View for Primitive<K> {
    type V = RenderingView;

    closed spec fn view(&self) -> RenderingView {
        self.rendering@
    }
}

impl<K: Kind> Clone for Primitive<K> {
    fn clone(&self) -> (copy: Self)
        ensures
            copy@ == self@,
    {
        proof {
            use_type_invariant(self);
        }
        Primitive { rendering: self.rendering.clone(), kind: PhantomData }
    }
}

impl<K: Kind> Primitive<K> {
    #[verifier::type_invariant]
    spec fn is_aligned(self) -> bool {
        aligned(self.rendering@)
    }

    /// Admits a code and two forms as a primitive where they are aligned;
    /// anything else is a decoding error.
    pub fn new(rendering: Rendering) -> (outcome: ParsideResult<Self>)
        ensures
            match outcome {
                Ok(primitive) => aligned(rendering@) && primitive@ == rendering@,
                Err(error) => !aligned(rendering@) && error is PrimitiveDecode,
            },
    {
        let text = rendering.text.as_str();
        let text_len = text.as_bytes().len();
        let ascii = text.is_ascii();
        proof {
            if ascii {
                is_ascii_spec_bytes(text);
            }
        }
        if ascii && text_len > 0 && text_len % 4 == 0 && rendering.binary.len() == text_len / 4
            * 3 {
            Ok(Primitive { rendering, kind: PhantomData })
        } else {
            Err(ParsideError::PrimitiveDecode("the two forms are not aligned".to_string()))
        }
    }

    /// The code that tells what the primitive is.
    pub fn code(&self) -> (code: String)
        ensures
            code@ == self@.code,
    {
        self.rendering.code.clone()
    }

    /// The text form.
    pub fn qb64(&self) -> (text: String)
        ensures
            text@ == self@.text,
            ascii_bytes(text@) == encoded(self@, Domain::Text),
            aligned(self@),
    {
        proof {
            use_type_invariant(self);
        }
        self.rendering.text.clone()
    }

    /// The bytes of the text form.
    pub fn qb64b(&self) -> (bytes: Vec<u8>)
        ensures
            bytes@ == encoded(self@, Domain::Text),
            aligned(self@),
    {
        let text = self.rendering.text.as_str();
        proof {
            use_type_invariant(self);
            is_ascii_spec_bytes(text);
        }
        slice_to_vec(text.as_bytes())
    }

    /// The binary form.
    pub fn qb2(&self) -> (bytes: Vec<u8>)
        ensures
            bytes@ == encoded(self@, Domain::Binary),
            aligned(self@),
    {
        proof {
            use_type_invariant(self);
        }
        self.rendering.binary.clone()
    }

    /// The length of the text form, in bytes: a multiple of four.
    pub fn full_size(&self) -> (size: usize)
        ensures
            size == self@.text.len(),
            size == encoded(self@, Domain::Text).len(),
            aligned(self@),
    {
        let text = self.rendering.text.as_str();
        proof {
            use_type_invariant(self);
            is_ascii_spec_bytes(text);
        }
        text.as_bytes().len()
    }

    /// The length of the form that the primitive has in the given domain: the
    /// full size in text, three quarters of it in binary.
    pub fn size_in(&self, domain: Domain) -> (size: usize)
        ensures
            size == encoded(self@, domain).len(),
            domain == Domain::Text ==> size == self@.text.len(),
            domain == Domain::Binary ==> size == self@.text.len() / 4 * 3,
            aligned(self@),
    {
        proof {
            use_type_invariant(self);
        }
        match domain {
            Domain::Text => self.full_size(),
            Domain::Binary => self.full_size() / 4 * 3,
        }
    }

    /// The form that the primitive has in the given domain.
    pub fn bytes_in(&self, domain: Domain) -> (bytes: Vec<u8>)
        ensures
            bytes@ == encoded(self@, domain),
            aligned(self@),
    {
        match domain {
            Domain::Text => self.qb64b(),
            Domain::Binary => self.qb2(),
        }
    }

    /// Reads one primitive from the head of a stream and returns it with the
    /// rest of the stream. The primitive is the one that the codec decodes,
    /// and it is admitted only if the stream starts with the very bytes that
    /// the primitive is written as: what was read can be written again byte
    /// for byte. A stream that does not start with such a primitive of this
    /// kind is a decoding error.
    pub fn from_stream_bytes<'a>(bytes: &'a [u8], domain: Domain) -> (outcome: ParsideResult<
        (&'a [u8], Self),
    >)
        ensures
            match outcome {
                Ok((rest, primitive)) => {
                    &&& decoded::<K>(domain, bytes@) == Some(primitive@)
                    &&& bytes@ == encoded(primitive@, domain) + rest@
                    &&& rest@ == bytes@.skip(encoded(primitive@, domain).len() as int)
                },
                Err(error) => decoded::<K>(domain, bytes@) is None && error is PrimitiveDecode,
            },
    {
        let input = match domain {
            Domain::Text => slice_subrange(bytes, 0, ascii_prefix_len(bytes)),
            Domain::Binary => bytes,
        };
        assert(input@ == readable(bytes@, domain));
        match K::decode(domain, input) {
            Err(message) => Err(ParsideError::PrimitiveDecode(message)),
            Ok(rendering) => match Self::new(rendering) {
                Err(error) => Err(error),
                Ok(primitive) => {
                    let written = primitive.bytes_in(domain);
                    if starts_with(input, written.as_slice()) {
                        proof {
                            lemma_prefix_of_readable(written@, bytes@, domain);
                        }
                        Ok((slice_subrange(bytes, written.len(), bytes.len()), primitive))
                    } else {
                        Err(
                            ParsideError::PrimitiveDecode(
                                "the stream does not start with what was decoded".to_string(),
                            ),
                        )
                    }
                },
            },
        }
    }
}

/// The kind of indexed signatures.
#[derive(Debug, Clone, Copy)]
pub struct Signature;

/// The kind of identifier prefixes.
#[derive(Debug, Clone, Copy)]
pub struct Prefix;

/// The kind of sequence numbers.
#[derive(Debug, Clone, Copy)]
pub struct Sequence;

/// The kind of self-addressing identifiers.
#[derive(Debug, Clone, Copy)]
pub struct Said;

/// An indexed signature.
pub type Siger = Primitive<Signature>;

/// An identifier prefix.
pub type Prefixer = Primitive<Prefix>;

/// A sequence number.
pub type Seqner = Primitive<Sequence>;

/// A self-addressing identifier.
pub type Saider = Primitive<Said>;

/// Whether a text starts with a selector for counted material.
fn starts_counted_text(input: &[u8]) -> (counted: bool)
    ensures
        counted == counted_text(input@),
{
    input.len() > 0 && 0x34 <= input[0] && input[0] <= 0x39
}

/// Whether a binary input starts with a selector for counted material.
fn starts_counted_binary(input: &[u8]) -> (counted: bool)
    ensures
        counted == counted_binary(input@),
{
    input.len() > 0 && 0xe0 <= input[0] && input[0] <= 0xf7
}

impl Kind for Signature {
    open spec fn decoding(domain: Domain, input: Seq<u8>) -> Option<RenderingView> {
        match domain {
            Domain::Text => decoded_siger_text(input),
            Domain::Binary => decoded_siger_binary(input),
        }
    }

    fn decode(domain: Domain, input: &[u8]) -> (outcome: Result<Rendering, String>) {
        match domain {
            Domain::Text => decode_siger_text(input),
            Domain::Binary => decode_siger_binary(input),
        }
    }
}

impl Kind for Prefix {
    /// No prefix is counted material, so input that announces such material
    /// is refused before the codec sees it.
    open spec fn decoding(domain: Domain, input: Seq<u8>) -> Option<RenderingView> {
        match domain {
            Domain::Text => if counted_text(input) {
                None
            } else {
                decoded_prefixer_text(input)
            },
            Domain::Binary => if counted_binary(input) {
                None
            } else {
                decoded_prefixer_binary(input)
            },
        }
    }

    fn decode(domain: Domain, input: &[u8]) -> (outcome: Result<Rendering, String>) {
        match domain {
            Domain::Text => if starts_counted_text(input) {
                Err("counted material is no prefix".to_string())
            } else {
                decode_prefixer_text(input)
            },
            Domain::Binary => if starts_counted_binary(input) {
                Err("counted material is no prefix".to_string())
            } else {
                decode_prefixer_binary(input)
            },
        }
    }
}

impl Kind for Sequence {
    /// No sequence number is counted material, so input that announces such
    /// material is refused before the codec sees it.
    open spec fn decoding(domain: Domain, input: Seq<u8>) -> Option<RenderingView> {
        match domain {
            Domain::Text => if counted_text(input) {
                None
            } else {
                decoded_seqner_text(input)
            },
            Domain::Binary => if counted_binary(input) {
                None
            } else {
                decoded_seqner_binary(input)
            },
        }
    }

    fn decode(domain: Domain, input: &[u8]) -> (outcome: Result<Rendering, String>) {
        match domain {
            Domain::Text => if starts_counted_text(input) {
                Err("counted material is no sequence number".to_string())
            } else {
                decode_seqner_text(input)
            },
            Domain::Binary => if starts_counted_binary(input) {
                Err("counted material is no sequence number".to_string())
            } else {
                decode_seqner_binary(input)
            },
        }
    }
}

impl Kind for Said {
    /// No self-addressing identifier is counted material, so input that
    /// announces such material is refused before the codec sees it.
    open spec fn decoding(domain: Domain, input: Seq<u8>) -> Option<RenderingView> {
        match domain {
            Domain::Text => if counted_text(input) {
                None
            } else {
                decoded_saider_text(input)
            },
            Domain::Binary => if counted_binary(input) {
                None
            } else {
                decoded_saider_binary(input)
            },
        }
    }

    fn decode(domain: Domain, input: &[u8]) -> (outcome: Result<Rendering, String>) {
        match domain {
            Domain::Text => if starts_counted_text(input) {
                Err("counted material is no self-addressing identifier".to_string())
            } else {
                decode_saider_text(input)
            },
            Domain::Binary => if starts_counted_binary(input) {
                Err("counted material is no self-addressing identifier".to_string())
            } else {
                decode_saider_binary(input)
            },
        }
    }
}

} // verus!
