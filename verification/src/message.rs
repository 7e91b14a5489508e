//! Counted groups of primitives and the streams that carry them.
//!
//! An item is whatever can be written in text and in binary and read back
//! from the head of a stream. A group is a counter followed by as many items
//! as the counter says. The reading of a counted run of items, and the
//! writing of a group, are defined here once for every kind of item.

pub mod codec;
pub mod cold_code;
pub mod counter;
pub mod groups;
pub mod laws;
pub mod parsers;
pub mod primitives;

use crate::error::{ParsideError, ParsideResult};
use crate::message::cold_code::{ColdCode, Domain};
use crate::message::counter::{decoded_counter, made, Counter};
use crate::message::primitives::{ascii_bytes, encoded};
use vstd::prelude::*;
use vstd::string::StringExecFns;
use vstd::utf8::{is_ascii_chars, is_ascii_chars_concat};

verus! {

/// The mathematical values of a sequence of items.
pub open spec fn views<T: View>(items: Seq<T>) -> Seq<T::V> {
    Seq::new(items.len(), |i: int| items[i]@)
}

/// What every item of a group can do: write itself in text and in binary,
/// tell its size, and read itself from the head of a stream.
pub trait GroupItem: Sized + View {
    /// The bytes that stand for an item in a stream of the given domain.
    spec fn item_encoded(value: Self::V, domain: Domain) -> Seq<u8>;

    /// The item that a stream of the given domain starts with, if it starts
    /// with one.
    spec fn item_decoded(domain: Domain, bytes: Seq<u8>) -> Option<Self::V>;

    /// A stream starts with the very bytes of the item that it starts with,
    /// and these are no fewer than three: the least that four characters
    /// stand for.
    proof fn lemma_decoded_fits(domain: Domain, bytes: Seq<u8>)
        ensures
            Self::item_decoded(domain, bytes) matches Some(value) ==> {
                &&& Self::item_encoded(value, domain).is_prefix_of(bytes)
                &&& 3 <= Self::item_encoded(value, domain).len()
            },
    ;

    /// The text form.
    fn qb64(&self) -> (outcome: ParsideResult<String>)
        ensures
            outcome matches Ok(text) && is_ascii_chars(text@) && ascii_bytes(text@)
                == Self::item_encoded(self@, Domain::Text),
    ;

    /// The bytes of the text form.
    fn qb64b(&self) -> (outcome: ParsideResult<Vec<u8>>)
        ensures
            outcome matches Ok(bytes) && bytes@ == Self::item_encoded(self@, Domain::Text),
    ;

    /// The binary form.
    fn qb2(&self) -> (outcome: ParsideResult<Vec<u8>>)
        ensures
            outcome matches Ok(bytes) && bytes@ == Self::item_encoded(self@, Domain::Binary),
    ;

    /// The length of the text form, in bytes. A length that no `usize` holds
    /// is an unsupported operation.
    fn full_size(&self) -> (outcome: ParsideResult<usize>)
        ensures
            match outcome {
                Ok(size) => size == Self::item_encoded(self@, Domain::Text).len(),
                Err(error) => Self::item_encoded(self@, Domain::Text).len() > usize::MAX
                    && error is UnsupportedOperation,
            },
    ;

    /// Reads one item from the head of a stream and returns it with the rest
    /// of the stream: the stream is the bytes of the item, then the rest. A
    /// stream that does not start with a whole item is a decoding error.
    fn from_stream_bytes<'a>(bytes: &'a [u8], domain: Domain) -> (outcome: ParsideResult<
        (&'a [u8], Self),
    >)
        ensures
            match outcome {
                Ok((rest, item)) => {
                    &&& Self::item_decoded(domain, bytes@) == Some(item@)
                    &&& bytes@ == Self::item_encoded(item@, domain) + rest@
                    &&& rest@ == bytes@.skip(Self::item_encoded(item@, domain).len() as int)
                },
                Err(error) => Self::item_decoded(domain, bytes@) is None && error
                    is PrimitiveDecode,
            },
    ;
}

/// The bytes of a run of items, one after the other with nothing between.
pub open spec fn items_encoded<T: GroupItem>(values: Seq<T::V>, domain: Domain) -> Seq<u8>
    decreases values.len(),
{
    if values.len() == 0 {
        Seq::empty()
    } else {
        items_encoded::<T>(values.drop_last(), domain) + T::item_encoded(values.last(), domain)
    }
}

/// The first `count` items of a stream and the number of bytes they take:
/// each item starts where the one before it ended. Nothing where one of them
/// cannot be read.
pub open spec fn items_decoded<T: GroupItem>(domain: Domain, bytes: Seq<u8>, count: nat) -> Option<
    (Seq<T::V>, int),
>
    decreases count,
{
    if count == 0 {
        Some((Seq::empty(), 0))
    } else {
        match items_decoded::<T>(domain, bytes, (count - 1) as nat) {
            None => None,
            Some((values, used)) => match T::item_decoded(domain, bytes.skip(used)) {
                None => None,
                Some(value) => Some(
                    (values.push(value), used + T::item_encoded(value, domain).len()),
                ),
            },
        }
    }
}

/// Where the first items of a stream cannot be read, no larger number of
/// them can.
pub proof fn lemma_failure_stays<T: GroupItem>(
    domain: Domain,
    bytes: Seq<u8>,
    fewer: nat,
    more: nat,
)
    requires
        fewer <= more,
        items_decoded::<T>(domain, bytes, fewer) is None,
    ensures
        items_decoded::<T>(domain, bytes, more) is None,
    decreases more,
{
    if fewer < more {
        lemma_failure_stays::<T>(domain, bytes, fewer, (more - 1) as nat);
    }
}

/// Reads items from the head of a stream, each where the one before it
/// ended, until `count` of them are read or one cannot be read. Returns the
/// items read, the rest of the stream behind them, and the error of the item
/// that could not be read, if there was one.
fn read_items<'a, T: GroupItem>(bytes: &'a [u8], count: usize, domain: Domain) -> (outcome: (
    Vec<T>,
    &'a [u8],
    Option<ParsideError>,
))
    ensures
        ({
            let (items, rest, failure) = outcome;
            &&& items@.len() <= count
            &&& rest@.len() <= bytes@.len()
            &&& rest@ == bytes@.skip(bytes@.len() - rest@.len())
            &&& bytes@ == items_encoded::<T>(views(items@), domain) + rest@
            &&& 3 * items@.len() <= bytes@.len() - rest@.len()
            &&& items_decoded::<T>(domain, bytes@, items@.len() as nat) == Some(
                (views(items@), bytes@.len() - rest@.len()),
            )
            &&& match failure {
                None => items@.len() == count,
                Some(error) => {
                    &&& items@.len() < count
                    &&& items_decoded::<T>(domain, bytes@, (items@.len() + 1) as nat) is None
                    &&& items_decoded::<T>(domain, bytes@, count as nat) is None
                    &&& error is PrimitiveDecode
                },
            }
        }),
{
    let mut items: Vec<T> = Vec::new();
    let mut rest: &'a [u8] = bytes;
    let mut done: usize = 0;
    assert(views(items@) =~= Seq::<T::V>::empty());
    assert(bytes@.skip(0) =~= bytes@);
    assert(bytes@ =~= Seq::<u8>::empty() + bytes@);
    while done < count
        invariant
            done <= count,
            items@.len() == done,
            rest@.len() <= bytes@.len(),
            rest@ == bytes@.skip(bytes@.len() - rest@.len()),
            bytes@ == items_encoded::<T>(views(items@), domain) + rest@,
            3 * done <= bytes@.len() - rest@.len(),
            items_decoded::<T>(domain, bytes@, done as nat) == Some(
                (views(items@), bytes@.len() - rest@.len()),
            ),
        decreases count - done,
    {
        let ghost before = views(items@);
        let ghost used = bytes@.len() - rest@.len();
        proof {
            T::lemma_decoded_fits(domain, rest@);
        }
        match T::from_stream_bytes(rest, domain) {
            Err(error) => {
                proof {
                    assert(items_decoded::<T>(domain, bytes@, (done + 1) as nat) is None);
                    lemma_failure_stays::<T>(domain, bytes@, (done + 1) as nat, count as nat);
                }
                return (items, rest, Some(error));
            },
            Ok((next, item)) => {
                proof {
                    let size = T::item_encoded(item@, domain).len() as int;
                    assert(next@ == bytes@.skip(used).skip(size));
                    assert(bytes@.skip(used).skip(size) =~= bytes@.skip(used + size));
                    assert(before.push(item@) =~= views(items@.push(item)));
                    lemma_items_encoded_push::<T>(before, item@, domain);
                    assert(bytes@ =~= (items_encoded::<T>(before, domain) + T::item_encoded(
                        item@,
                        domain,
                    )) + next@);
                }
                items.push(item);
                rest = next;
                done = done + 1;
            },
        }
    }
    (items, rest, None)
}

/// Reads `count` items from the head of a stream, each where the one before
/// it ended, and returns them in order with the rest of the stream: the
/// stream is the bytes of the items, then the rest. If one of the items
/// cannot be read, nothing is returned but its decoding error; that is so
/// whenever the stream has fewer than three bytes for each item.
pub fn parse_items<'a, T: GroupItem>(bytes: &'a [u8], count: usize, domain: Domain) -> (outcome:
    ParsideResult<(&'a [u8], Vec<T>)>)
    ensures
        match outcome {
            Ok((rest, items)) => {
                &&& items@.len() == count
                &&& rest@.len() <= bytes@.len()
                &&& rest@ == bytes@.skip(bytes@.len() - rest@.len())
                &&& bytes@ == items_encoded::<T>(views(items@), domain) + rest@
                &&& items_decoded::<T>(domain, bytes@, count as nat) == Some(
                    (views(items@), bytes@.len() - rest@.len()),
                )
            },
            Err(error) => items_decoded::<T>(domain, bytes@, count as nat) is None && error
                is PrimitiveDecode,
        },
        bytes@.len() < 3 * count ==> outcome is Err,
{
    let (items, rest, failure) = read_items::<T>(bytes, count, domain);
    match failure {
        Some(error) => Err(error),
        None => Ok((rest, items)),
    }
}

/// Tells where the reading of `count` items from a stream stops: nothing if
/// all of them can be read, else the number of the items that can be read
/// before the one that cannot, and the offset in the stream at which that
/// one would start.
pub fn first_unreadable<T: GroupItem>(bytes: &[u8], count: usize, domain: Domain) -> (found: Option<
    (usize, usize),
>)
    ensures
        match found {
            None => items_decoded::<T>(domain, bytes@, count as nat) is Some,
            Some((item, offset)) => {
                &&& item < count
                &&& offset <= bytes@.len()
                &&& items_decoded::<T>(domain, bytes@, item as nat) matches Some((_, used))
                    && used == offset
                &&& items_decoded::<T>(domain, bytes@, (item + 1) as nat) is None
                &&& items_decoded::<T>(domain, bytes@, count as nat) is None
            },
        },
{
    let (items, rest, failure) = read_items::<T>(bytes, count, domain);
    match failure {
        Some(_) => Some((items.len(), bytes.len() - rest.len())),
        None => None,
    }
}

/// The bytes of a run of items grow by the bytes of an item added at its end.
pub proof fn lemma_items_encoded_push<T: GroupItem>(
    values: Seq<T::V>,
    value: T::V,
    domain: Domain,
)
    ensures
        items_encoded::<T>(values.push(value), domain) == items_encoded::<T>(values, domain)
            + T::item_encoded(value, domain),
{
    assert(values.push(value).drop_last() =~= values);
}

/// The text of a run of items, written behind a text that is given.
pub(crate) fn items_qb64<T: GroupItem>(items: &Vec<T>, head: String) -> (outcome: ParsideResult<String>)
    requires
        is_ascii_chars(head@),
    ensures
        outcome matches Ok(text) && is_ascii_chars(text@) && ascii_bytes(text@) == ascii_bytes(
            head@,
        ) + items_encoded::<T>(views(items@), Domain::Text),
{
    let mut out = head;
    let mut at: usize = 0;
    assert(views(items@).take(0) =~= Seq::<T::V>::empty());
    assert(ascii_bytes(head@) + Seq::<u8>::empty() =~= ascii_bytes(head@));
    while at < items.len()
        invariant
            at <= items@.len(),
            is_ascii_chars(out@),
            ascii_bytes(out@) == ascii_bytes(head@) + items_encoded::<T>(
                views(items@).take(at as int),
                Domain::Text,
            ),
        decreases items@.len() - at,
    {
        let text = match items[at].qb64() {
            Ok(text) => text,
            Err(error) => {
                return Err(error);
            },
        };
        let ghost before = out@;
        out.append(text.as_str());
        proof {
            let values = views(items@);
            assert(values.take(at + 1) =~= values.take(at as int).push(values[at as int]));
            lemma_items_encoded_push::<T>(values.take(at as int), values[at as int], Domain::Text);
            is_ascii_chars_concat(out@, before, text@);
            assert(ascii_bytes(before + text@) =~= ascii_bytes(before) + ascii_bytes(text@));
            assert((ascii_bytes(head@) + items_encoded::<T>(
                values.take(at as int),
                Domain::Text,
            )) + ascii_bytes(text@) =~= ascii_bytes(head@) + (items_encoded::<T>(
                values.take(at as int),
                Domain::Text,
            ) + ascii_bytes(text@)));
        }
        at = at + 1;
    }
    assert(views(items@).take(at as int) =~= views(items@));
    Ok(out)
}

/// The bytes of a run of items in the given domain, written behind bytes that
/// are given.
pub(crate) fn items_bytes<T: GroupItem>(items: &Vec<T>, head: Vec<u8>, domain: Domain) -> (outcome:
    ParsideResult<Vec<u8>>)
    ensures
        outcome matches Ok(bytes) && bytes@ == head@ + items_encoded::<T>(views(items@), domain),
{
    let mut out = head;
    let mut at: usize = 0;
    assert(views(items@).take(0) =~= Seq::<T::V>::empty());
    assert(head@ + Seq::<u8>::empty() =~= head@);
    while at < items.len()
        invariant
            at <= items@.len(),
            out@ == head@ + items_encoded::<T>(views(items@).take(at as int), domain),
        decreases items@.len() - at,
    {
        let rendered = match domain {
            Domain::Text => items[at].qb64b(),
            Domain::Binary => items[at].qb2(),
        };
        let mut part = match rendered {
            Ok(part) => part,
            Err(error) => {
                return Err(error);
            },
        };
        proof {
            let values = views(items@);
            assert(values.take(at + 1) =~= values.take(at as int).push(values[at as int]));
            lemma_items_encoded_push::<T>(values.take(at as int), values[at as int], domain);
            assert((head@ + items_encoded::<T>(values.take(at as int), domain)) + part@ =~= head@
                + (items_encoded::<T>(values.take(at as int), domain) + part@));
        }
        out.append(&mut part);
        at = at + 1;
    }
    assert(views(items@).take(at as int) =~= views(items@));
    Ok(out)
}

/// The length of the text of a run of items, added to a length that is
/// given. A sum that no `usize` holds is an unsupported operation.
pub(crate) fn items_full_size<T: GroupItem>(items: &Vec<T>, head: usize) -> (outcome: ParsideResult<
    usize,
>)
    ensures
        match outcome {
            Ok(size) => size == head + items_encoded::<T>(views(items@), Domain::Text).len(),
            Err(error) => head + items_encoded::<T>(views(items@), Domain::Text).len()
                > usize::MAX && error is UnsupportedOperation,
        },
{
    let mut sum: usize = head;
    let mut at: usize = 0;
    assert(views(items@).take(0) =~= Seq::<T::V>::empty());
    while at < items.len()
        invariant
            at <= items@.len(),
            sum == head + items_encoded::<T>(views(items@).take(at as int), Domain::Text).len(),
        decreases items@.len() - at,
    {
        proof {
            let values = views(items@);
            assert(values.take(at + 1) =~= values.take(at as int).push(values[at as int]));
            lemma_items_encoded_push::<T>(values.take(at as int), values[at as int], Domain::Text);
            lemma_items_encoded_grows::<T>(values, at + 1, Domain::Text);
        }
        let size = match items[at].full_size() {
            Ok(size) => size,
            Err(error) => {
                return Err(error);
            },
        };
        sum = match sum.checked_add(size) {
            Some(sum) => sum,
            None => {
                return Err(
                    ParsideError::UnsupportedOperation(
                        "the size of the items is out of range".to_string(),
                    ),
                );
            },
        };
        at = at + 1;
    }
    assert(views(items@).take(at as int) =~= views(items@));
    Ok(sum)
}

/// The bytes of the first items of a run are no more than the bytes of all
/// of them.
pub proof fn lemma_items_encoded_grows<T: GroupItem>(values: Seq<T::V>, first: int, domain: Domain)
    requires
        0 <= first <= values.len(),
    ensures
        items_encoded::<T>(values.take(first), domain).len() <= items_encoded::<T>(
            values,
            domain,
        ).len(),
    decreases values.len(),
{
    if first == values.len() {
        assert(values.take(first) =~= values);
    } else {
        assert(values.drop_last().take(first) =~= values.take(first));
        lemma_items_encoded_grows::<T>(values.drop_last(), first, domain);
    }
}

/// The bytes of a whole group: its counter, then its items. Nothing where
/// no counter can hold the code with the number of the items.
pub open spec fn group_encoded<T: GroupItem>(
    code: Seq<char>,
    values: Seq<T::V>,
    domain: Domain,
) -> Option<Seq<u8>> {
    if values.len() > u32::MAX {
        None
    } else {
        match made(code, values.len() as u32) {
            None => None,
            Some(counter) => Some(
                encoded(counter.rendering, domain) + items_encoded::<T>(values, domain),
            ),
        }
    }
}

/// The domain that the first byte of a stream announces, if it announces one.
pub open spec fn announced(bytes: Seq<u8>) -> Option<Domain> {
    match ColdCode::classified(bytes) {
        None => None,
        Some(cold_code) => cold_code.spec_domain(),
    }
}

/// How far the reading of a whole group gets.
pub enum Reading<V> {
    /// The first byte announces no known encoding.
    Unclassified,
    /// The first byte announces a message body, in which no group is read.
    NoDomain,
    /// The stream does not start with a whole counter of the code asked for.
    NoCounter,
    /// One of the items that the counter announces cannot be read.
    NoItems,
    /// The items of the group, and the number of bytes that the counter and
    /// the items take together.
    Read(Seq<V>, int),
}

/// The group of the given code that a stream starts with: the stream is
/// classified by its first byte, its counter is read in the domain found,
/// and as many items as the counter says are read behind it.
pub open spec fn group_decoded<T: GroupItem>(code: Seq<char>, bytes: Seq<u8>) -> Reading<T::V> {
    match ColdCode::classified(bytes) {
        None => Reading::Unclassified,
        Some(cold_code) => match cold_code.spec_domain() {
            None => Reading::NoDomain,
            Some(domain) => match decoded_counter(domain, bytes) {
                None => Reading::NoCounter,
                Some(counter) => if counter.rendering.code != code {
                    Reading::NoCounter
                } else {
                    let head = encoded(counter.rendering, domain).len() as int;
                    match items_decoded::<T>(domain, bytes.skip(head), counter.count as nat) {
                        None => Reading::NoItems,
                        Some((values, used)) => Reading::Read(values, head + used),
                    }
                },
            },
        },
    }
}

/// A group: items of one type under the code that names the group.
pub trait Group<T: GroupItem>: Sized {
    /// The characters of the code of the counter that stands before the
    /// items.
    spec fn spec_code() -> Seq<char>;

    /// The code of the counter that stands before the items.
    fn code() -> (code: &'static str)
        ensures
            code@ == Self::spec_code(),
    ;

    /// The items of the group, in order.
    spec fn items(&self) -> Seq<T>;

    /// The group of the given items.
    fn new(value: Vec<T>) -> (group: Self)
        ensures
            group.items() == value@,
    ;

    /// The items of the group.
    fn value(&self) -> (value: &Vec<T>)
        ensures
            value@ == self.items(),
    ;

    /// The counter that stands before the items: the code of the group with
    /// the number of its items. A number that the counter cannot hold is a
    /// framing error.
    fn counter(&self) -> (outcome: ParsideResult<Counter>)
        ensures
            match outcome {
                Ok(counter) => self.items().len() <= u32::MAX && made(
                    Self::spec_code(),
                    self.items().len() as u32,
                ) == Some(counter@),
                Err(error) => (self.items().len() > u32::MAX || made(
                    Self::spec_code(),
                    self.items().len() as u32,
                ) is None) && error is Framing,
            },
    {
        let count = self.value().len();
        if count > u32::MAX as usize {
            return Err(ParsideError::Framing("too many items for a counter".to_string()));
        }
        Counter::new_with_code_and_count(Self::code(), count as u32)
    }

    /// The text form of the group: the text of its counter, then the text of
    /// each item.
    fn qb64(&self) -> (outcome: ParsideResult<String>)
        ensures
            match outcome {
                Ok(text) => is_ascii_chars(text@) && group_encoded::<T>(
                    Self::spec_code(),
                    views(self.items()),
                    Domain::Text,
                ) == Some(ascii_bytes(text@)),
                Err(error) => group_encoded::<T>(Self::spec_code(), views(self.items()), Domain::Text)
                    is None && error is Framing,
            },
    {
        let counter = self.counter()?;
        items_qb64(self.value(), counter.qb64())
    }

    /// The bytes of the text form of the group.
    fn qb64b(&self) -> (outcome: ParsideResult<Vec<u8>>)
        ensures
            match outcome {
                Ok(bytes) => group_encoded::<T>(Self::spec_code(), views(self.items()), Domain::Text)
                    == Some(bytes@),
                Err(error) => group_encoded::<T>(Self::spec_code(), views(self.items()), Domain::Text)
                    is None && error is Framing,
            },
    {
        let counter = self.counter()?;
        items_bytes(self.value(), counter.qb64b(), Domain::Text)
    }

    /// The binary form of the group: the binary form of its counter, then
    /// that of each item.
    fn qb2(&self) -> (outcome: ParsideResult<Vec<u8>>)
        ensures
            match outcome {
                Ok(bytes) => group_encoded::<T>(Self::spec_code(), views(self.items()), Domain::Binary)
                    == Some(bytes@),
                Err(error) => group_encoded::<T>(
                    Self::spec_code(),
                    views(self.items()),
                    Domain::Binary,
                ) is None && error is Framing,
            },
    {
        let counter = self.counter()?;
        items_bytes(self.value(), counter.qb2(), Domain::Binary)
    }

    /// The length of the text form of the group, in bytes: the full size of
    /// the counter and of every item. A group that no counter stands for is
    /// a framing error; a length that no `usize` holds is an unsupported
    /// operation.
    fn full_size(&self) -> (outcome: ParsideResult<usize>)
        ensures
            match outcome {
                Ok(size) => group_encoded::<T>(Self::spec_code(), views(self.items()), Domain::Text)
                    matches Some(bytes) && size == bytes.len(),
                Err(error) => match group_encoded::<T>(
                    Self::spec_code(),
                    views(self.items()),
                    Domain::Text,
                ) {
                    None => error is Framing,
                    Some(bytes) => bytes.len() > usize::MAX && error is UnsupportedOperation,
                },
            },
    {
        let counter = self.counter()?;
        items_full_size(self.value(), counter.full_size())
    }

    /// Reads a whole group from the head of a stream and returns it with the
    /// rest of the stream: the stream is classified by its first byte, its
    /// counter is read and must carry the code of this group, and as many
    /// items as the counter says are read behind it. The stream is what the
    /// group is written as in the domain of the stream, followed by the rest.
    /// Nothing is returned of a group that cannot be read whole.
    fn from_stream<'a>(bytes: &'a [u8]) -> (outcome: ParsideResult<(&'a [u8], Self)>)
        ensures
            match outcome {
                Ok((rest, group)) => {
                    &&& rest@.len() <= bytes@.len()
                    &&& rest@ == bytes@.skip(bytes@.len() - rest@.len())
                    &&& group_decoded::<T>(Self::spec_code(), bytes@) == Reading::Read(
                        views(group.items()),
                        bytes@.len() - rest@.len(),
                    )
                    &&& announced(bytes@) matches Some(domain) && group_encoded::<T>(
                        Self::spec_code(),
                        views(group.items()),
                        domain,
                    ) matches Some(written) && bytes@ == written + rest@
                },
                Err(error) => match group_decoded::<T>(Self::spec_code(), bytes@) {
                    Reading::Unclassified => error is Classification,
                    Reading::NoDomain => error is UnsupportedOperation,
                    Reading::NoCounter => error is Framing,
                    Reading::NoItems => error is PrimitiveDecode,
                    Reading::Read(_, _) => false,
                },
            },
    {
        let cold_code = ColdCode::sniff(bytes)?;
        let domain = match cold_code.domain() {
            Some(domain) => domain,
            None => {
                return Err(
                    ParsideError::UnsupportedOperation(
                        "no group is read in a message body".to_string(),
                    ),
                );
            },
        };
        let (behind, counter) = Counter::from_stream_bytes(bytes, &cold_code)?;
        let wanted: String = Self::code().to_owned();
        if counter.code() != wanted {
            return Err(ParsideError::Framing("the counter is of another group".to_string()));
        }
        let (rest, items) = parse_items::<T>(behind, counter.count() as usize, domain)?;
        proof {
            let head = bytes@.len() - behind@.len();
            let used = behind@.len() - rest@.len();
            assert(bytes@.skip(head).skip(used) =~= bytes@.skip(head + used));
            assert(bytes@ =~= (encoded(counter@.rendering, domain) + items_encoded::<T>(
                views(items@),
                domain,
            )) + rest@);
        }
        Ok((rest, Self::new(items)))
    }
}

/// Reads the items of a group whose counter has been read: as many items
/// as the counter says, in the domain that the cold code stands for, each
/// where the one before it ended. Returns the group with the rest of the
/// stream. A cold code that announces a message body is an unsupported
/// operation; an item that cannot be read is a decoding error, and nothing
/// is returned of the items before it.
pub fn parse_group<'a, T: GroupItem, G: Group<T>>(
    bytes: &'a [u8],
    counter: &Counter,
    cold_code: &ColdCode,
) -> (outcome: ParsideResult<(&'a [u8], G)>)
    ensures
        match outcome {
            Ok((rest, group)) => {
                &&& cold_code.spec_domain() matches Some(domain)
                &&& group.items().len() == counter@.count
                &&& rest@.len() <= bytes@.len()
                &&& rest@ == bytes@.skip(bytes@.len() - rest@.len())
                &&& bytes@ == items_encoded::<T>(views(group.items()), domain) + rest@
                &&& items_decoded::<T>(domain, bytes@, counter@.count as nat) == Some(
                    (views(group.items()), bytes@.len() - rest@.len()),
                )
            },
            Err(error) => match cold_code.spec_domain() {
                None => error is UnsupportedOperation,
                Some(domain) => items_decoded::<T>(domain, bytes@, counter@.count as nat)
                    is None && error is PrimitiveDecode,
            },
        },
        bytes@.len() < 3 * counter@.count ==> outcome is Err,
{
    let domain = match cold_code.domain() {
        Some(domain) => domain,
        None => {
            return Err(
                ParsideError::UnsupportedOperation(
                    "no group is read in a message body".to_string(),
                ),
            );
        },
    };
    let (rest, items) = parse_items::<T>(bytes, counter.count() as usize, domain)?;
    Ok((rest, G::new(items)))
}

} // verus!
