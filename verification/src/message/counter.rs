//! The header that names a group and says how many items follow.

use crate::error::{ParsideError, ParsideResult};
use crate::message::codec::{
    decode_counter_binary, decode_counter_text, decoded_counter_binary, decoded_counter_text,
    render_counter, rendered_counter, Rendering, RenderingView,
};
use crate::message::cold_code::{ColdCode, Domain};
use crate::message::primitives::{
    aligned, ascii_bytes, ascii_prefix_len, encoded, lemma_prefix_of_readable, readable,
    starts_with,
};
use vstd::prelude::*;
use vstd::slice::{slice_subrange, slice_to_vec};
use vstd::string::is_ascii_spec_bytes;

verus! {

/// A group's code with the number of items that the group holds, and the two
/// forms in which the pair is written.
#[derive(Debug)]
pub struct Counter {
    rendering: Rendering,
    count: u32,
}

/// The mathematical value of a [`Counter`].
pub struct CounterView {
    pub rendering: RenderingView,
    pub count: u32,
}

impl View for Counter {
    type V = CounterView;

    closed spec fn view(&self) -> CounterView {
        CounterView { rendering: self.rendering@, count: self.count }
    }
}

impl Clone for Counter {
    fn clone(&self) -> (copy: Self)
        ensures
            copy@ == self@,
    {
        proof {
            use_type_invariant(self);
        }
        Counter { rendering: self.rendering.clone(), count: self.count }
    }
}

/// The second character of the two-character group codes: `A` to `L`, and `V`.
pub open spec fn short_group_letter(letter: char) -> bool {
    ('A' <= letter && letter <= 'L') || letter == 'V'
}

/// The largest count that a counter of the given code can hold, and nothing
/// for a code that names no group. The two-character codes leave two
/// characters of six bits each for the count, `-0V` five and `--AAA` three.
pub open spec fn count_limit(code: Seq<char>) -> Option<nat> {
    if code.len() == 2 && code[0] == '-' && short_group_letter(code[1]) {
        Some(4095)
    } else if code =~= seq!['-', '0', 'V'] {
        Some(1_073_741_823)
    } else if code =~= seq!['-', '-', 'A', 'A', 'A'] {
        Some(262_143)
    } else {
        None
    }
}

impl CounterView {
    /// The two forms are aligned, the code names a group, and the count is
    /// one that the count field of the code holds.
    pub open spec fn framed(self) -> bool {
        &&& aligned(self.rendering)
        &&& count_limit(self.rendering.code) matches Some(limit) && self.count <= limit
    }

    /// What holds of every counter: it is the one that is made of its code
    /// and its count.
    pub open spec fn wf(self) -> bool {
        made(self.rendering.code, self.count) == Some(self)
    }
}

/// The counter that the codec makes of a code and a count, where it makes
/// one that is framed and carries the code it was asked for.
pub open spec fn made(code: Seq<char>, count: u32) -> Option<CounterView> {
    match rendered_counter(code, count) {
        Some(rendering) => if rendering.code == code && (CounterView { rendering, count }).framed() {
            Some(CounterView { rendering, count })
        } else {
            None
        },
        None => None,
    }
}

/// The largest count that a counter of the given code can hold, and nothing
/// for a code that names no group.
pub fn limit_of(code: &str) -> (limit: Option<u32>)
    ensures
        match limit {
            Some(limit) => count_limit(code@) == Some(limit as nat),
            None => count_limit(code@) is None,
        },
{
    if !code.is_ascii() {
        return None;
    }
    let bytes = code.as_bytes();
    proof {
        is_ascii_spec_bytes(code);
    }
    let length = bytes.len();
    if length == 2 && bytes[0] == 0x2d && ((0x41 <= bytes[1] && bytes[1] <= 0x4c) || bytes[1]
        == 0x56) {
        Some(4095)
    } else if length == 3 && bytes[0] == 0x2d && bytes[1] == 0x30 && bytes[2] == 0x56 {
        assert(code@ =~= seq!['-', '0', 'V']);
        Some(1_073_741_823)
    } else if length == 5 && bytes[0] == 0x2d && bytes[1] == 0x2d && bytes[2] == 0x41 && bytes[3]
        == 0x41 && bytes[4] == 0x41 {
        assert(code@ =~= seq!['-', '-', 'A', 'A', 'A']);
        Some(262_143)
    } else {
        None
    }
}

/// What the codec makes of the input it is handed for a counter. A text of
/// one byte is refused before the codec sees it: no counter is that short.
pub open spec fn counter_decoding(domain: Domain, input: Seq<u8>) -> Option<(RenderingView, u32)> {
    match domain {
        Domain::Text => if input.len() == 1 {
            None
        } else {
            decoded_counter_text(input)
        },
        Domain::Binary => decoded_counter_binary(input),
    }
}

/// The counter that a stream starts with: the codec's answer for the
/// readable part of the stream, where that answer is the counter that is
/// made of its own code and count, and the stream starts with the very bytes
/// that stand for it in the stream's domain; nothing otherwise.
pub open spec fn decoded_counter(domain: Domain, bytes: Seq<u8>) -> Option<CounterView> {
    match counter_decoding(domain, readable(bytes, domain)) {
        Some((rendering, count)) => if (CounterView { rendering, count }).wf() && encoded(
            rendering,
            domain,
        ).is_prefix_of(readable(bytes, domain)) {
            Some(CounterView { rendering, count })
        } else {
            None
        },
        None => None,
    }
}

/// Whether two runs of bytes are the same.
fn same_bytes(one: &[u8], other: &[u8]) -> (same: bool)
    ensures
        same == (one@ == other@),
{
    let same = one.len() == other.len() && starts_with(one, other);
    proof {
        if same {
            assert(one@ =~= other@);
        }
    }
    same
}

impl Counter {
    #[verifier::type_invariant]
    spec fn is_made(self) -> bool {
        self@.wf()
    }

    /// Makes the counter of a group code and a count. A code that names no
    /// group, and a count that the code's count field cannot hold, is a
    /// framing error.
    pub fn new_with_code_and_count(code: &str, count: u32) -> (outcome: ParsideResult<Counter>)
        ensures
            match outcome {
                Ok(counter) => {
                    &&& made(code@, count) == Some(counter@)
                    &&& counter@.count == count
                    &&& counter@.rendering.code == code@
                    &&& count_limit(code@) matches Some(limit) && count <= limit
                },
                Err(error) => made(code@, count) is None && error is Framing,
            },
            count_limit(code@) is None ==> outcome is Err,
            count_limit(code@) matches Some(limit) && count > limit ==> outcome is Err,
    {
        let fits = match limit_of(code) {
            Some(limit) => count <= limit,
            None => false,
        };
        if !fits {
            return Err(ParsideError::Framing("the count is out of the code's range".to_string()));
        }
        match render_counter(code, count) {
            Err(message) => Err(ParsideError::Framing(message)),
            Ok(rendering) => {
                let text = rendering.text.as_str();
                let text_len = text.as_bytes().len();
                let ascii = text.is_ascii();
                proof {
                    if ascii {
                        is_ascii_spec_bytes(text);
                    }
                }
                let asked: String = code.to_owned();
                let same_code = rendering.code == asked;
                if ascii && text_len > 0 && text_len % 4 == 0 && rendering.binary.len()
                    == text_len / 4 * 3 && same_code {
                    Ok(Counter { rendering, count })
                } else {
                    Err(ParsideError::Framing("the counter is not aligned".to_string()))
                }
            },
        }
    }

    /// The code of the group.
    pub fn code(&self) -> (code: String)
        ensures
            code@ == self@.rendering.code,
    {
        self.rendering.code.clone()
    }

    /// The number of items that the group holds.
    pub fn count(&self) -> (count: u32)
        ensures
            count == self@.count,
            self@.wf(),
            self@.framed(),
    {
        proof {
            use_type_invariant(self);
        }
        self.count
    }

    /// The text form.
    pub fn qb64(&self) -> (text: String)
        ensures
            text@ == self@.rendering.text,
            ascii_bytes(text@) == encoded(self@.rendering, Domain::Text),
            aligned(self@.rendering),
    {
        proof {
            use_type_invariant(self);
        }
        self.rendering.text.clone()
    }

    /// The bytes of the text form.
    pub fn qb64b(&self) -> (bytes: Vec<u8>)
        ensures
            bytes@ == encoded(self@.rendering, Domain::Text),
            aligned(self@.rendering),
    {
        let text = self.rendering.text.as_str();
        proof {
            use_type_invariant(self);
            is_ascii_spec_bytes(text);
        }
        slice_to_vec(text.as_bytes())
    }

    /// The binary form.
    pub fn qb2(&self) -> (bytes: Vec<u8>)
        ensures
            bytes@ == encoded(self@.rendering, Domain::Binary),
            aligned(self@.rendering),
    {
        proof {
            use_type_invariant(self);
        }
        self.rendering.binary.clone()
    }

    /// The length of the text form, in bytes: a multiple of four.
    pub fn full_size(&self) -> (size: usize)
        ensures
            size == self@.rendering.text.len(),
            size == encoded(self@.rendering, Domain::Text).len(),
            aligned(self@.rendering),
    {
        let text = self.rendering.text.as_str();
        proof {
            use_type_invariant(self);
            is_ascii_spec_bytes(text);
        }
        text.as_bytes().len()
    }

    /// The length of the form that the counter has in the given domain: the
    /// full size in text, three quarters of it in binary.
    pub fn size_in(&self, domain: Domain) -> (size: usize)
        ensures
            size == encoded(self@.rendering, domain).len(),
            domain == Domain::Text ==> size == self@.rendering.text.len(),
            domain == Domain::Binary ==> size == self@.rendering.text.len() / 4 * 3,
            aligned(self@.rendering),
    {
        proof {
            use_type_invariant(self);
        }
        match domain {
            Domain::Text => self.full_size(),
            Domain::Binary => self.full_size() / 4 * 3,
        }
    }

    /// The form that the counter has in the given domain.
    pub fn bytes_in(&self, domain: Domain) -> (bytes: Vec<u8>)
        ensures
            bytes@ == encoded(self@.rendering, domain),
            aligned(self@.rendering),
    {
        match domain {
            Domain::Text => self.qb64b(),
            Domain::Binary => self.qb2(),
        }
    }

    /// Reads the counter that a stream starts with and returns it with the
    /// rest of the stream. The counter is the one that the codec decodes, and
    /// it is admitted only if it is the counter that is made of its code and
    /// count, and the stream starts with the very bytes that the counter is
    /// written as: what was read can be written again byte for byte. A stream
    /// that does not start with such a counter is a framing error; a cold
    /// code that announces a message body is an unsupported operation.
    pub fn from_stream_bytes<'a>(bytes: &'a [u8], cold_code: &ColdCode) -> (outcome: ParsideResult<
        (&'a [u8], Counter),
    >)
        ensures
            match outcome {
                Ok((rest, counter)) => {
                    &&& cold_code.spec_domain() matches Some(domain)
                    &&& decoded_counter(domain, bytes@) == Some(counter@)
                    &&& bytes@ == encoded(counter@.rendering, domain) + rest@
                    &&& rest@ == bytes@.skip(encoded(counter@.rendering, domain).len() as int)
                },
                Err(error) => match cold_code.spec_domain() {
                    None => error is UnsupportedOperation,
                    Some(domain) => decoded_counter(domain, bytes@) is None && error is Framing,
                },
            },
    {
        let domain = match cold_code.domain() {
            Some(domain) => domain,
            None => {
                return Err(
                    ParsideError::UnsupportedOperation(
                        "no counter is read in a message body".to_string(),
                    ),
                );
            },
        };
        let input = match domain {
            Domain::Text => slice_subrange(bytes, 0, ascii_prefix_len(bytes)),
            Domain::Binary => bytes,
        };
        assert(input@ == readable(bytes@, domain));
        let found = match domain {
            Domain::Text => if input.len() == 1 {
                Err("a counter has more than one character".to_string())
            } else {
                decode_counter_text(input)
            },
            Domain::Binary => decode_counter_binary(input),
        };
        let (rendering, count) = match found {
            Ok(found) => found,
            Err(message) => {
                return Err(ParsideError::Framing(message));
            },
        };
        let counter = match Self::new_with_code_and_count(rendering.code.as_str(), count) {
            Ok(counter) => counter,
            Err(error) => {
                return Err(error);
            },
        };
        let same = counter.rendering.text == rendering.text && same_bytes(
            counter.rendering.binary.as_slice(),
            rendering.binary.as_slice(),
        );
        if !same {
            return Err(
                ParsideError::Framing("the counter is not the one of its code and count".to_string()),
            );
        }
        let written = counter.bytes_in(domain);
        if starts_with(input, written.as_slice()) {
            proof {
                lemma_prefix_of_readable(written@, bytes@, domain);
            }
            Ok((slice_subrange(bytes, written.len(), bytes.len()), counter))
        } else {
            Err(ParsideError::Framing("the stream does not start with what was decoded".to_string()))
        }
    }
}

} // verus!
