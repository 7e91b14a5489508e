//! The boundary to the cesride codec.
//!
//! Everything in this file that is marked `external_body` is believed, not
//! proved: each such function makes one decoding or one construction in
//! cesride and hands back plain values. What cesride answers is a function of
//! the bytes it is given, so each answer has a name here, and the contracts of
//! the rest of the library are stated over those names.

use cesride::{Indexer, Matter};
use vstd::prelude::*;

verus! {

/// What the codec reports of one element: its code, its text rendering and
/// its binary rendering.
#[derive(Debug)]
pub struct Rendering {
    pub code: String,
    pub text: String,
    pub binary: Vec<u8>,
}

/// The mathematical value of a [`Rendering`].
pub struct RenderingView {
    pub code: Seq<char>,
    pub text: Seq<char>,
    pub binary: Seq<u8>,
}

impl View for Rendering {
    type V = RenderingView;

    open spec fn view(&self) -> RenderingView {
        RenderingView { code: self.code@, text: self.text@, binary: self.binary@ }
    }
}

impl Clone for Rendering {
    fn clone(&self) -> (copy: Self)
        ensures
            copy@ == self@,
    {
        Rendering {
            code: self.code.clone(),
            text: self.text.clone(),
            binary: self.binary.clone(),
        }
    }
}

/// Every byte is below 128.
pub open spec fn all_ascii(bytes: Seq<u8>) -> bool {
    forall|i: int| 0 <= i < bytes.len() ==> bytes[i] < 128
}

/// The text starts with one of the selectors `4` to `9`, which announce
/// material whose length is written in the code itself.
pub open spec fn counted_text(bytes: Seq<u8>) -> bool {
    bytes.len() > 0 && 0x34 <= bytes[0] <= 0x39
}

/// The first six bits are one of the selectors `4` to `9` (56 to 61).
pub open spec fn counted_binary(bytes: Seq<u8>) -> bool {
    bytes.len() > 0 && 0xe0 <= bytes[0] <= 0xf7
}

/// What `cesride::Siger::new_with_qb64b` makes of the bytes: nothing where it
/// refuses them or cannot render what it decoded, else the code and the two
/// renderings of the decoded value.
pub uninterp spec fn decoded_siger_text(bytes: Seq<u8>) -> Option<RenderingView>;

/// Decodes an indexed signature from the head of text with
/// `cesride::Siger::new_with_qb64b`, then asks the decoded value for `code()`,
/// `qb64()` and `qb2()`. Believed: the outcome is the one that
/// [`decoded_siger_text`] names, and an error exactly where that is nothing.
/// Left out of the inputs: bytes that are not ASCII, because cesride cuts the
/// text at byte offsets.
#[verifier::external_body]
pub(crate) fn decode_siger_text(bytes: &[u8]) -> (outcome: Result<Rendering, String>)
    requires
        all_ascii(bytes@),
    ensures
        outcome is Ok <==> decoded_siger_text(bytes@) is Some,
        outcome matches Ok(rendering) ==> decoded_siger_text(bytes@) == Some(rendering@),
{
    let decoded = cesride::Siger::new_with_qb64b(bytes, None);
    let rendered =
        decoded.and_then(|p| Ok(Rendering { code: p.code(), text: p.qb64()?, binary: p.qb2()? }));
    rendered.map_err(|e| e.to_string())
}

/// What `cesride::Siger::new_with_qb2` makes of the bytes: nothing where it
/// refuses them or cannot render what it decoded, else the code and the two
/// renderings of the decoded value.
pub uninterp spec fn decoded_siger_binary(bytes: Seq<u8>) -> Option<RenderingView>;

/// Decodes an indexed signature from the head of binary with
/// `cesride::Siger::new_with_qb2`, then asks the decoded value for `code()`,
/// `qb64()` and `qb2()`. Believed: the outcome is the one that
/// [`decoded_siger_binary`] names, and an error exactly where that is nothing.
#[verifier::external_body]
pub(crate) fn decode_siger_binary(bytes: &[u8]) -> (outcome: Result<Rendering, String>)
    ensures
        outcome is Ok <==> decoded_siger_binary(bytes@) is Some,
        outcome matches Ok(rendering) ==> decoded_siger_binary(bytes@) == Some(rendering@),
{
    let decoded = cesride::Siger::new_with_qb2(bytes, None);
    let rendered =
        decoded.and_then(|p| Ok(Rendering { code: p.code(), text: p.qb64()?, binary: p.qb2()? }));
    rendered.map_err(|e| e.to_string())
}

/// What `cesride::Prefixer::new_with_qb64b` makes of the bytes: nothing where it
/// refuses them or cannot render what it decoded, else the code and the two
/// renderings of the decoded value.
pub uninterp spec fn decoded_prefixer_text(bytes: Seq<u8>) -> Option<RenderingView>;

/// Decodes an identifier prefix from the head of text with
/// `cesride::Prefixer::new_with_qb64b`, then asks the decoded value for `code()`,
/// `qb64()` and `qb2()`. Believed: the outcome is the one that
/// [`decoded_prefixer_text`] names, and an error exactly where that is nothing.
/// Left out of the inputs: bytes that are not ASCII, because cesride cuts the
/// text at byte offsets; input that starts with a selector for counted material,
/// because cesride may index past the end of what it decoded there.
#[verifier::external_body]
pub(crate) fn decode_prefixer_text(bytes: &[u8]) -> (outcome: Result<Rendering, String>)
    requires
        all_ascii(bytes@),
        !counted_text(bytes@),
    ensures
        outcome is Ok <==> decoded_prefixer_text(bytes@) is Some,
        outcome matches Ok(rendering) ==> decoded_prefixer_text(bytes@) == Some(rendering@),
{
    let decoded = cesride::Prefixer::new_with_qb64b(bytes);
    let rendered =
        decoded.and_then(|p| Ok(Rendering { code: p.code(), text: p.qb64()?, binary: p.qb2()? }));
    rendered.map_err(|e| e.to_string())
}

/// What `cesride::Prefixer::new_with_qb2` makes of the bytes: nothing where it
/// refuses them or cannot render what it decoded, else the code and the two
/// renderings of the decoded value.
pub uninterp spec fn decoded_prefixer_binary(bytes: Seq<u8>) -> Option<RenderingView>;

/// Decodes an identifier prefix from the head of binary with
/// `cesride::Prefixer::new_with_qb2`, then asks the decoded value for `code()`,
/// `qb64()` and `qb2()`. Believed: the outcome is the one that
/// [`decoded_prefixer_binary`] names, and an error exactly where that is nothing.
/// Left out of the inputs: input that starts with a selector for counted
/// material, because cesride may index past the end of what it decoded there.
#[verifier::external_body]
pub(crate) fn decode_prefixer_binary(bytes: &[u8]) -> (outcome: Result<Rendering, String>)
    requires
        !counted_binary(bytes@),
    ensures
        outcome is Ok <==> decoded_prefixer_binary(bytes@) is Some,
        outcome matches Ok(rendering) ==> decoded_prefixer_binary(bytes@) == Some(rendering@),
{
    let decoded = cesride::Prefixer::new_with_qb2(bytes);
    let rendered =
        decoded.and_then(|p| Ok(Rendering { code: p.code(), text: p.qb64()?, binary: p.qb2()? }));
    rendered.map_err(|e| e.to_string())
}

/// What `cesride::Seqner::new_with_qb64b` makes of the bytes: nothing where it
/// refuses them or cannot render what it decoded, else the code and the two
/// renderings of the decoded value.
pub uninterp spec fn decoded_seqner_text(bytes: Seq<u8>) -> Option<RenderingView>;

/// Decodes a sequence number from the head of text with
/// `cesride::Seqner::new_with_qb64b`, then asks the decoded value for `code()`,
/// `qb64()` and `qb2()`. Believed: the outcome is the one that
/// [`decoded_seqner_text`] names, and an error exactly where that is nothing.
/// Left out of the inputs: bytes that are not ASCII, because cesride cuts the
/// text at byte offsets; input that starts with a selector for counted material,
/// because cesride may index past the end of what it decoded there.
#[verifier::external_body]
pub(crate) fn decode_seqner_text(bytes: &[u8]) -> (outcome: Result<Rendering, String>)
    requires
        all_ascii(bytes@),
        !counted_text(bytes@),
    ensures
        outcome is Ok <==> decoded_seqner_text(bytes@) is Some,
        outcome matches Ok(rendering) ==> decoded_seqner_text(bytes@) == Some(rendering@),
{
    let decoded = cesride::Seqner::new_with_qb64b(bytes);
    let rendered =
        decoded.and_then(|p| Ok(Rendering { code: p.code(), text: p.qb64()?, binary: p.qb2()? }));
    rendered.map_err(|e| e.to_string())
}

/// What `cesride::Seqner::new_with_qb2` makes of the bytes: nothing where it
/// refuses them or cannot render what it decoded, else the code and the two
/// renderings of the decoded value.
pub uninterp spec fn decoded_seqner_binary(bytes: Seq<u8>) -> Option<RenderingView>;

/// Decodes a sequence number from the head of binary with
/// `cesride::Seqner::new_with_qb2`, then asks the decoded value for `code()`,
/// `qb64()` and `qb2()`. Believed: the outcome is the one that
/// [`decoded_seqner_binary`] names, and an error exactly where that is nothing.
/// Left out of the inputs: input that starts with a selector for counted
/// material, because cesride may index past the end of what it decoded there.
#[verifier::external_body]
pub(crate) fn decode_seqner_binary(bytes: &[u8]) -> (outcome: Result<Rendering, String>)
    requires
        !counted_binary(bytes@),
    ensures
        outcome is Ok <==> decoded_seqner_binary(bytes@) is Some,
        outcome matches Ok(rendering) ==> decoded_seqner_binary(bytes@) == Some(rendering@),
{
    let decoded = cesride::Seqner::new_with_qb2(bytes);
    let rendered =
        decoded.and_then(|p| Ok(Rendering { code: p.code(), text: p.qb64()?, binary: p.qb2()? }));
    rendered.map_err(|e| e.to_string())
}

/// What `cesride::Saider::new_with_qb64b` makes of the bytes: nothing where it
/// refuses them or cannot render what it decoded, else the code and the two
/// renderings of the decoded value.
pub uninterp spec fn decoded_saider_text(bytes: Seq<u8>) -> Option<RenderingView>;

/// Decodes a self-addressing identifier from the head of text with
/// `cesride::Saider::new_with_qb64b`, then asks the decoded value for `code()`,
/// `qb64()` and `qb2()`. Believed: the outcome is the one that
/// [`decoded_saider_text`] names, and an error exactly where that is nothing.
/// Left out of the inputs: bytes that are not ASCII, because cesride cuts the
/// text at byte offsets; input that starts with a selector for counted material,
/// because cesride may index past the end of what it decoded there.
#[verifier::external_body]
pub(crate) fn decode_saider_text(bytes: &[u8]) -> (outcome: Result<Rendering, String>)
    requires
        all_ascii(bytes@),
        !counted_text(bytes@),
    ensures
        outcome is Ok <==> decoded_saider_text(bytes@) is Some,
        outcome matches Ok(rendering) ==> decoded_saider_text(bytes@) == Some(rendering@),
{
    let decoded = cesride::Saider::new_with_qb64b(bytes);
    let rendered =
        decoded.and_then(|p| Ok(Rendering { code: p.code(), text: p.qb64()?, binary: p.qb2()? }));
    rendered.map_err(|e| e.to_string())
}

/// What `cesride::Saider::new_with_qb2` makes of the bytes: nothing where it
/// refuses them or cannot render what it decoded, else the code and the two
/// renderings of the decoded value.
pub uninterp spec fn decoded_saider_binary(bytes: Seq<u8>) -> Option<RenderingView>;

/// Decodes a self-addressing identifier from the head of binary with
/// `cesride::Saider::new_with_qb2`, then asks the decoded value for `code()`,
/// `qb64()` and `qb2()`. Believed: the outcome is the one that
/// [`decoded_saider_binary`] names, and an error exactly where that is nothing.
/// Left out of the inputs: input that starts with a selector for counted
/// material, because cesride may index past the end of what it decoded there.
#[verifier::external_body]
pub(crate) fn decode_saider_binary(bytes: &[u8]) -> (outcome: Result<Rendering, String>)
    requires
        !counted_binary(bytes@),
    ensures
        outcome is Ok <==> decoded_saider_binary(bytes@) is Some,
        outcome matches Ok(rendering) ==> decoded_saider_binary(bytes@) == Some(rendering@),
{
    let decoded = cesride::Saider::new_with_qb2(bytes);
    let rendered =
        decoded.and_then(|p| Ok(Rendering { code: p.code(), text: p.qb64()?, binary: p.qb2()? }));
    rendered.map_err(|e| e.to_string())
}

/// What `cesride::Counter::new_with_qb64b` makes of the bytes: nothing where
/// it refuses them or cannot render what it decoded, else the code, the two
/// renderings and the count of the decoded counter.
pub uninterp spec fn decoded_counter_text(bytes: Seq<u8>) -> Option<(RenderingView, u32)>;

/// Decodes a counter from the head of text with
/// `cesride::Counter::new_with_qb64b`, then asks the decoded value for
/// `code()`, `qb64()`, `qb2()` and `count()`. Believed: the outcome is the one
/// that [`decoded_counter_text`] names, and an error exactly where that is nothing.
/// Left out of the inputs: bytes that are not ASCII, because cesride cuts the
/// text at byte offsets; a single byte, because cesride takes the first two
/// of any text that is not empty.
#[verifier::external_body]
pub(crate) fn decode_counter_text(bytes: &[u8]) -> (outcome: Result<(Rendering, u32), String>)
    requires
        all_ascii(bytes@),
        bytes@.len() != 1,
    ensures
        outcome is Ok <==> decoded_counter_text(bytes@) is Some,
        outcome matches Ok(found) ==> decoded_counter_text(bytes@) == Some((found.0@, found.1)),
{
    let decoded = cesride::Counter::new_with_qb64b(bytes);
    let rendered = decoded.and_then(
        |c| Ok((Rendering { code: c.code(), text: c.qb64()?, binary: c.qb2()? }, c.count())),
    );
    rendered.map_err(|e| e.to_string())
}

/// What `cesride::Counter::new_with_qb2` makes of the bytes: nothing where it
/// refuses them or cannot render what it decoded, else the code, the two
/// renderings and the count of the decoded counter.
pub uninterp spec fn decoded_counter_binary(bytes: Seq<u8>) -> Option<(RenderingView, u32)>;

/// Decodes a counter from the head of binary with
/// `cesride::Counter::new_with_qb2`, then asks the decoded value for `code()`,
/// `qb64()`, `qb2()` and `count()`. Believed: the outcome is the one that
/// [`decoded_counter_binary`] names, and an error exactly where that is nothing.
#[verifier::external_body]
pub(crate) fn decode_counter_binary(bytes: &[u8]) -> (outcome: Result<(Rendering, u32), String>)
    ensures
        outcome is Ok <==> decoded_counter_binary(bytes@) is Some,
        outcome matches Ok(found) ==> decoded_counter_binary(bytes@) == Some((found.0@, found.1)),
{
    let decoded = cesride::Counter::new_with_qb2(bytes);
    let rendered = decoded.and_then(
        |c| Ok((Rendering { code: c.code(), text: c.qb64()?, binary: c.qb2()? }, c.count())),
    );
    rendered.map_err(|e| e.to_string())
}

/// What `cesride::Counter::new_with_code_and_count` makes of a code and a
/// count: nothing where it refuses them or cannot render the counter, else
/// the code and the two renderings of the counter.
pub uninterp spec fn rendered_counter(code: Seq<char>, count: u32) -> Option<RenderingView>;

/// Makes a counter with `cesride::Counter::new_with_code_and_count`, then
/// asks it for `code()`, `qb64()` and `qb2()`. Believed: the outcome is the
/// one that [`rendered_counter`] names, and an error exactly where that is
/// nothing.
#[verifier::external_body]
pub(crate) fn render_counter(code: &str, count: u32) -> (outcome: Result<Rendering, String>)
    ensures
        outcome is Ok <==> rendered_counter(code@, count) is Some,
        outcome matches Ok(rendering) ==> rendered_counter(code@, count) == Some(rendering@),
{
    let made = cesride::Counter::new_with_code_and_count(code, count);
    let rendered =
        made.and_then(|c| Ok(Rendering { code: c.code(), text: c.qb64()?, binary: c.qb2()? }));
    rendered.map_err(|e| e.to_string())
}

} // verus!
