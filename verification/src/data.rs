//! What a value must offer to be written out, and how the parts of a JSON
//! text are put together.

use crate::error::Error;
use vstd::prelude::*;
use vstd::string::StringExecFns;

verus! {

/// A value that can be written as JSON, as CESR text and as CESR binary.
/// A form that a value does not have is an error, never an empty result.
pub trait Data {
    /// The value as JSON.
    fn to_json(&self) -> Result<String, Error>;

    /// The value as CESR text.
    fn to_cesr(&self) -> Result<String, Error>;

    /// The value as CESR binary.
    fn to_cesrb(&self) -> Result<Vec<u8>, Error>;
}

/// The texts of a sequence of strings.
pub open spec fn texts(strings: Seq<String>) -> Seq<Seq<char>> {
    Seq::new(strings.len(), |i: int| strings[i]@)
}

/// The parts one after the other, with a comma between each two.
pub open spec fn comma_separated(parts: Seq<Seq<char>>) -> Seq<char>
    decreases parts.len(),
{
    if parts.len() == 0 {
        Seq::empty()
    } else if parts.len() == 1 {
        parts[0]
    } else {
        comma_separated(parts.drop_last()) + seq![','] + parts.last()
    }
}

/// A JSON array of elements that are JSON texts already.
pub open spec fn array_text(elements: Seq<Seq<char>>) -> Seq<char> {
    seq!['['] + comma_separated(elements) + seq![']']
}

/// A member of a JSON object: a key and a value that are JSON texts
/// already, with a colon between them.
pub open spec fn member_text(key: Seq<char>, value: Seq<char>) -> Seq<char> {
    key + seq![':'] + value
}

/// A JSON object of members that are written already.
pub open spec fn object_text(members: Seq<Seq<char>>) -> Seq<char> {
    seq!['{'] + comma_separated(members) + seq!['}']
}

/// Writes the parts behind the text that is given, with a comma between
/// each two.
fn append_comma_separated(out: &mut String, parts: &Vec<String>)
    ensures
        final(out)@ == old(out)@ + comma_separated(texts(parts@)),
{
    let ghost head = out@;
    let mut at: usize = 0;
    assert(texts(parts@).take(0) =~= Seq::<Seq<char>>::empty());
    assert(head + Seq::<char>::empty() =~= head);
    while at < parts.len()
        invariant
            at <= parts@.len(),
            out@ == head + comma_separated(texts(parts@).take(at as int)),
        decreases parts@.len() - at,
    {
        let ghost before = out@;
        let ghost done = texts(parts@).take(at as int);
        let ghost next = texts(parts@).take(at + 1);
        proof {
            reveal_strlit(",");
            assert(next.drop_last() =~= done);
            assert(next.last() == parts@[at as int]@);
        }
        if at > 0 {
            out.append(",");
            assert(","@ =~= seq![',']);
        }
        out.append(parts[at].as_str());
        proof {
            if at > 0 {
                assert(out@ =~= head + (comma_separated(done) + seq![','] + parts@[at as int]@));
            } else {
                assert(out@ =~= head + parts@[at as int]@);
            }
        }
        at = at + 1;
    }
    assert(texts(parts@).take(at as int) =~= texts(parts@));
}

/// The JSON array of the elements, each of which is a JSON text already.
pub fn json_array(elements: &Vec<String>) -> (text: String)
    ensures
        text@ == array_text(texts(elements@)),
{
    let mut out = "[".to_string();
    append_comma_separated(&mut out, elements);
    out.append("]");
    proof {
        reveal_strlit("[");
        reveal_strlit("]");
        assert("["@ =~= seq!['[']);
        assert("]"@ =~= seq![']']);
    }
    out
}

/// The member of a JSON object that has the given key and value, both of
/// which are JSON texts already.
pub fn json_member(key: &str, value: &str) -> (text: String)
    ensures
        text@ == member_text(key@, value@),
{
    let mut out = key.to_string();
    out.append(":");
    out.append(value);
    proof {
        reveal_strlit(":");
        assert(":"@ =~= seq![':']);
    }
    out
}

/// The JSON object of the members, each of which is written already.
pub fn json_object(members: &Vec<String>) -> (text: String)
    ensures
        text@ == object_text(texts(members@)),
{
    let mut out = "{".to_string();
    append_comma_separated(&mut out, members);
    out.append("}");
    proof {
        reveal_strlit("{");
        reveal_strlit("}");
        assert("{"@ =~= seq!['{']);
        assert("}"@ =~= seq!['}']);
    }
    out
}

} // verus!
