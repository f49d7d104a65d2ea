//! Small helpers for building text.

use vstd::prelude::*;
use vstd::string::*;

verus! {

/// Appends one character to a string.
///
/// Wraps `String::push`, which puts the given character at the end of the
/// string and leaves what was there before in place.
#[verifier::external_body]
pub(crate) fn push_char(s: &mut String, c: char)
    ensures
        final(s)@ == old(s)@.push(c),
{
    s.push(c)
}

/// The parts joined by `/`, with no separator before the first or after the
/// last.
pub open spec fn joined(parts: Seq<Seq<char>>) -> Seq<char>
    decreases parts.len(),
{
    if parts.len() == 0 {
        Seq::empty()
    } else if parts.len() == 1 {
        parts[0]
    } else {
        joined(parts.drop_last()) + seq!['/'] + parts.last()
    }
}

/// The views of the strings of `parts`, in order.
pub open spec fn views_of(parts: Seq<String>) -> Seq<Seq<char>> {
    Seq::new(parts.len(), |i: int| parts[i]@)
}

/// Joining one more part: a separator goes before it unless it is the first.
pub proof fn lemma_joined_push(parts: Seq<Seq<char>>, part: Seq<char>)
    ensures
        joined(parts.push(part)) == if parts.len() == 0 {
            part
        } else {
            joined(parts) + seq!['/'] + part
        },
{
    assert(parts.push(part).drop_last() == parts);
    assert(parts.push(part).last() == part);
}

/// A slash, then the parts with a slash between each two.
pub(crate) fn slash_joined(parts: &Vec<String>) -> (s: String)
    ensures
        s@ == seq!['/'] + joined(views_of(parts@)),
{
    let mut s = String::new();
    push_char(&mut s, '/');
    assert(s@ == seq!['/']);
    let mut i: usize = 0;
    assert(views_of(parts@).subrange(0, 0) == Seq::<Seq<char>>::empty());
    assert(seq!['/'] + Seq::<char>::empty() == seq!['/']);
    while i < parts.len()
        invariant
            i <= parts.len(),
            s@ == seq!['/'] + joined(views_of(parts@).subrange(0, i as int)),
        decreases parts.len() - i,
    {
        let ghost before = views_of(parts@).subrange(0, i as int);
        let ghost part = parts@[i as int]@;
        proof {
            lemma_joined_push(before, part);
            assert(views_of(parts@).subrange(0, i + 1) == before.push(part));
        }
        if i > 0 {
            push_char(&mut s, '/');
            assert(s@ == seq!['/'] + joined(before) + seq!['/']) by {
                assert((seq!['/'] + joined(before)).push('/') == seq!['/'] + joined(before)
                    + seq!['/']);
            }
        }
        s.append(parts[i].as_str());
        assert(s@ == seq!['/'] + joined(before.push(part))) by {
            if i > 0 {
                assert(seq!['/'] + joined(before) + seq!['/'] + part == seq!['/'] + (joined(before)
                    + seq!['/'] + part));
            } else {
                assert(joined(before) == Seq::<char>::empty());
                assert(seq!['/'] + Seq::<char>::empty() == seq!['/']);
            }
        }
        i += 1;
    }
    assert(views_of(parts@).subrange(0, parts@.len() as int) == views_of(parts@));
    s
}

} // verus!
