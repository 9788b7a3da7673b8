//! Text helpers: upper-casing a string by Unicode rules.

use vstd::prelude::*;

verus! {

/// The upper-case mapping of one character. Unicode maps some
/// characters to more than one, so the image is a sequence.
pub uninterp spec fn upper_of(c: char) -> Seq<char>;

/// Relies on `char::to_uppercase` of std: the upper-case mapping of a
/// character, depending on the character alone.
#[verifier::external_body]
fn char_to_upper(c: char) -> (r: String)
    ensures
        r@ == upper_of(c),
{
    c.to_uppercase().to_string()
}

/// The concatenation of the upper-case mappings of a sequence.
pub open spec fn upper_seq(s: Seq<char>) -> Seq<char>
    decreases s.len(),
{
    if s.len() == 0 {
        Seq::empty()
    } else {
        upper_seq(s.drop_last()) + upper_of(s.last())
    }
}

/// Upper-cases a string, character by character.
pub fn uppercase(src: &str) -> (r: String)
    ensures
        r@ == upper_seq(src@),
{
    let len = src.unicode_len();
    let mut destination = String::new();
    let mut i: usize = 0;
    while i < len
        invariant
            i <= len,
            len == src@.len(),
            destination@ == upper_seq(src@.subrange(0, i as int)),
        decreases len - i,
    {
        let up = char_to_upper(src.get_char(i));
        destination.append(up.as_str());
        proof {
            let pre1 = src@.subrange(0, i as int + 1);
            assert(pre1.drop_last() =~= src@.subrange(0, i as int));
            assert(pre1.last() == src@[i as int]);
        }
        i = i + 1;
    }
    proof {
        assert(src@.subrange(0, len as int) =~= src@);
    }
    destination
}

} // verus!
