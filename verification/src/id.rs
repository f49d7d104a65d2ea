//! Identifiers of supervisors, children groups and children.

use crate::text::push_char;
use vstd::prelude::*;

verus! {

/// A 128-bit identifier, unique among the elements of a running system.
///
/// The value zero is reserved (see [`nil_id`]): it names the root
/// supervisor and the dead-letters group, and no freshly drawn identifier
/// has it.
#[derive(Clone, Copy, Debug, PartialEq, Eq, Hash, Structural)]
pub struct QuipId(pub u128);

/// The bits of the reserved identifier.
pub const NIL_BITS: u128 = 0;

/// The reserved identifier.
pub open spec fn nil_id() -> QuipId {
    QuipId(0)
}

/// The character that stands for one hexadecimal digit, in lower case.
pub open spec fn hex_digit(d: int) -> char {
    if d == 0 {
        '0'
    } else if d == 1 {
        '1'
    } else if d == 2 {
        '2'
    } else if d == 3 {
        '3'
    } else if d == 4 {
        '4'
    } else if d == 5 {
        '5'
    } else if d == 6 {
        '6'
    } else if d == 7 {
        '7'
    } else if d == 8 {
        '8'
    } else if d == 9 {
        '9'
    } else if d == 10 {
        'a'
    } else if d == 11 {
        'b'
    } else if d == 12 {
        'c'
    } else if d == 13 {
        'd'
    } else if d == 14 {
        'e'
    } else {
        'f'
    }
}

/// The `count` lowest hexadecimal digits of `value`, most significant first.
pub open spec fn hex_digits(value: nat, count: nat) -> Seq<char>
    decreases count,
{
    if count == 0 {
        Seq::empty()
    } else {
        hex_digits(value / 16, (count - 1) as nat).push(hex_digit((value % 16) as int))
    }
}

/// The text of an identifier: its 32 hexadecimal digits in groups of 8, 4,
/// 4, 4 and 12, separated by hyphens.
pub open spec fn id_text(value: u128) -> Seq<char> {
    let d = hex_digits(value as nat, 32);
    d.subrange(0, 8) + seq!['-'] + d.subrange(8, 12) + seq!['-'] + d.subrange(12, 16) + seq!['-']
        + d.subrange(16, 20) + seq!['-'] + d.subrange(20, 32)
}

proof fn lemma_hex_digits_len(value: nat, count: nat)
    ensures
        hex_digits(value, count).len() == count,
    decreases count,
{
    if count > 0 {
        lemma_hex_digits_len(value / 16, (count - 1) as nat);
    }
}

/// Draws 128 random bits in the layout of a version-4 UUID.
///
/// Wraps `uuid::Uuid::new_v4` and `Uuid::as_u128`. The first masks random
/// bits and then sets the version and variant bits, so the value is never
/// zero; nothing else is known of it.
#[verifier::external_body]
fn random_id_bits() -> (bits: u128)
    ensures
        bits != 0,
{
    uuid::Uuid::new_v4().as_u128()
}

fn hex_digit_char(d: u8) -> (c: char)
    requires
        d < 16,
    ensures
        c == hex_digit(d as int),
{
    if d == 0 {
        '0'
    } else if d == 1 {
        '1'
    } else if d == 2 {
        '2'
    } else if d == 3 {
        '3'
    } else if d == 4 {
        '4'
    } else if d == 5 {
        '5'
    } else if d == 6 {
        '6'
    } else if d == 7 {
        '7'
    } else if d == 8 {
        '8'
    } else if d == 9 {
        '9'
    } else if d == 10 {
        'a'
    } else if d == 11 {
        'b'
    } else if d == 12 {
        'c'
    } else if d == 13 {
        'd'
    } else if d == 14 {
        'e'
    } else {
        'f'
    }
}

/// The 32 hexadecimal digits of `value`, most significant first.
fn digits_of(value: u128) -> (digits: Vec<char>)
    ensures
        digits@ == hex_digits(value as nat, 32),
{
    let mut digits: Vec<char> = Vec::new();
    let mut n: usize = 0;
    while n < 32
        invariant
            n <= 32,
            digits@.len() == n,
        decreases 32 - n,
    {
        digits.push('0');
        n += 1;
    }
    let ghost all = hex_digits(value as nat, 32);
    proof {
        lemma_hex_digits_len(value as nat, 32);
    }
    let mut rest: u128 = value;
    let mut left: usize = 32;
    while left > 0
        invariant
            left <= 32,
            digits@.len() == 32,
            all == hex_digits(value as nat, 32),
            all.len() == 32,
            all.subrange(0, left as int) == hex_digits(rest as nat, left as nat),
            forall|j: int| left <= j < 32 ==> digits@[j] == all[j],
        decreases left,
    {
        let d: u8 = (rest % 16) as u8;
        let c = hex_digit_char(d);
        proof {
            let shorter = hex_digits((rest / 16) as nat, (left - 1) as nat);
            lemma_hex_digits_len((rest / 16) as nat, (left - 1) as nat);
            assert(hex_digits(rest as nat, left as nat) == shorter.push(c));
            assert(all[left - 1] == all.subrange(0, left as int)[left - 1]);
            assert(all.subrange(0, left - 1) == shorter) by {
                assert(all.subrange(0, left - 1) == all.subrange(0, left as int).subrange(
                    0,
                    left - 1,
                ));
                assert(shorter.push(c).subrange(0, left - 1) == shorter);
            }
        }
        left -= 1;
        digits.set(left, c);
        rest = rest / 16;
    }
    assert(digits@ == all);
    digits
}

fn push_digits(s: &mut String, digits: &Vec<char>, from: usize, to: usize)
    requires
        from <= to <= digits@.len(),
    ensures
        final(s)@ == old(s)@ + digits@.subrange(from as int, to as int),
{
    let mut i: usize = from;
    assert(digits@.subrange(from as int, from as int) == Seq::<char>::empty());
    while i < to
        invariant
            from <= i <= to <= digits@.len(),
            s@ == old(s)@ + digits@.subrange(from as int, i as int),
        decreases to - i,
    {
        push_char(s, digits[i]);
        i += 1;
        assert(s@ == old(s)@ + digits@.subrange(from as int, i as int)) by {
            assert(digits@.subrange(from as int, i as int) == digits@.subrange(
                from as int,
                i - 1,
            ).push(digits@[i - 1]));
            assert((old(s)@ + digits@.subrange(from as int, i - 1)).push(digits@[i - 1]) == old(
                s,
            )@ + digits@.subrange(from as int, i - 1).push(digits@[i - 1]));
        }
    }
}

impl QuipId {
    /// A fresh identifier, drawn at random. It is never the reserved one.
    pub fn new() -> (id: Self)
        ensures
            id != nil_id(),
    {
        QuipId(random_id_bits())
    }

    /// The reserved identifier.
    pub fn nil() -> (id: Self)
        ensures
            id == nil_id(),
    {
        QuipId(NIL_BITS)
    }

    /// The identifier with the given 128 bits.
    pub fn from_u128(value: u128) -> (id: Self)
        ensures
            id == QuipId(value),
    {
        QuipId(value)
    }

    /// The 128 bits of the identifier.
    pub fn as_u128(&self) -> (value: u128)
        ensures
            value == self.0,
    {
        self.0
    }

    /// Whether this is the reserved identifier.
    pub fn is_nil(&self) -> (nil: bool)
        ensures
            nil == (*self == nil_id()),
    {
        self.0 == NIL_BITS
    }

    /// The text of the identifier, as a specification value.
    pub open spec fn text(&self) -> Seq<char> {
        id_text(self.0)
    }

    /// The text of the identifier: 32 lower-case hexadecimal digits in
    /// hyphenated groups of 8, 4, 4, 4 and 12.
    pub fn to_string(&self) -> (s: String)
        ensures
            s@ == self.text(),
    {
        let digits = digits_of(self.0);
        proof {
            lemma_hex_digits_len(self.0 as nat, 32);
        }
        let mut s = String::new();
        push_digits(&mut s, &digits, 0, 8);
        push_char(&mut s, '-');
        push_digits(&mut s, &digits, 8, 12);
        push_char(&mut s, '-');
        push_digits(&mut s, &digits, 12, 16);
        push_char(&mut s, '-');
        push_digits(&mut s, &digits, 16, 20);
        push_char(&mut s, '-');
        push_digits(&mut s, &digits, 20, 32);
        assert(s@ == self.text()) by {
            let d = digits@;
            assert(Seq::<char>::empty() + d.subrange(0, 8) == d.subrange(0, 8));
            assert(forall|a: Seq<char>, c: char| a.push(c) == a + seq![c]);
        }
        s
    }
}

} // verus!
