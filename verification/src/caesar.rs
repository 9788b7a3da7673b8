//! A Caesar cipher: letters rotate within their case by a fixed shift,
//! every other character stays as it is.

use vstd::prelude::*;

use crate::codec::push_char;

verus! {

/// The shift applied when the caller gives none.
pub const DEFAULT_SHIFT: i32 = 5;

/// One character shifted by `s` positions: upper-case and lower-case
/// letters rotate within their own alphabet, the rest are unchanged.
pub open spec fn shift_char_spec(c: char, s: int) -> char {
    if 65 <= c as int && c as int <= 90 {
        (((65 + (c as int - 65 + s) % 26)) as u8) as char
    } else if 97 <= c as int && c as int <= 122 {
        (((97 + (c as int - 97 + s) % 26)) as u8) as char
    } else {
        c
    }
}

/// A whole line shifted character by character.
pub open spec fn shift_seq_spec(line: Seq<char>, s: int) -> Seq<char> {
    line.map_values(|c: char| shift_char_spec(c, s))
}

/// The effective shift of an optional argument.
pub open spec fn effective_shift(shift_by: Option<i32>) -> int {
    match shift_by {
        Option::Some(s) => s as int,
        Option::None => DEFAULT_SHIFT as int,
    }
}

/// Reduces a shift to its least nonnegative residue modulo 26.
fn mod26(x: i32) -> (r: u32)
    ensures
        r == x as int % 26,
        r < 26,
{
    let m = x.checked_rem_euclid(26);
    m.unwrap() as u32
}

/// Shifts one character, wrapping within its alphabet.
fn shift_char(c: char, shift_by: i32) -> (r: char)
    ensures
        r == shift_char_spec(c, shift_by as int),
{
    let u = c as u32;
    let s = mod26(shift_by);
    proof {
        vstd::arithmetic::div_mod::lemma_add_mod_noop(u as int - 65, shift_by as int, 26);
        vstd::arithmetic::div_mod::lemma_add_mod_noop(u as int - 97, shift_by as int, 26);
        vstd::arithmetic::div_mod::lemma_mod_twice(u as int - 65, 26);
        vstd::arithmetic::div_mod::lemma_mod_twice(u as int - 97, 26);
        vstd::arithmetic::div_mod::lemma_add_mod_noop(u as int - 65, shift_by as int % 26, 26);
        vstd::arithmetic::div_mod::lemma_add_mod_noop(u as int - 97, shift_by as int % 26, 26);
    }
    if 65 <= u && u <= 90 {
        let n = 65 + (u - 65 + s) % 26;
        proof {
            vstd::arithmetic::div_mod::lemma_mod_twice(u as int - 65 + shift_by as int % 26, 26);
        }
        (n as u8) as char
    } else if 97 <= u && u <= 122 {
        let n = 97 + (u - 97 + s) % 26;
        proof {
            vstd::arithmetic::div_mod::lemma_mod_twice(u as int - 97 + shift_by as int % 26, 26);
        }
        (n as u8) as char
    } else {
        c
    }
}

/// Shifts every character of one line.
fn shift(shift_by: i32, line: &String) -> (r: String)
    ensures
        r@ == shift_seq_spec(line@, shift_by as int),
{
    let text = line.as_str();
    let len = text.unicode_len();
    let mut out = String::new();
    let mut i: usize = 0;
    while i < len
        invariant
            i <= len,
            len == line@.len(),
            text@ == line@,
            out@.len() == i,
            forall|ii: int|
                0 <= ii < i ==> out@[ii] == shift_char_spec(#[trigger] line@[ii], shift_by as int),
        decreases len - i,
    {
        let c = shift_char(text.get_char(i), shift_by);
        push_char(&mut out, c);
        i = i + 1;
    }
    proof {
        assert forall|ii: int| 0 <= ii < out@.len() implies out@[ii] == shift_seq_spec(
            line@,
            shift_by as int,
        )[ii] by {
            assert(shift_seq_spec(line@, shift_by as int)[ii] == shift_char_spec(
                line@[ii],
                shift_by as int,
            ));
        }
        assert(out@ =~= shift_seq_spec(line@, shift_by as int));
    }
    out
}

/// Applies the Caesar cipher to a list of lines, using
/// [`DEFAULT_SHIFT`] when no shift is given. Each output line is the
/// input line with every letter rotated by the shift within its case.
pub fn caesar_shift(shift_by: Option<i32>, lines: Vec<String>) -> (r: Vec<String>)
    ensures
        r@.len() == lines@.len(),
        forall|i: int|
            0 <= i < lines@.len() ==> (#[trigger] r@[i])@ == shift_seq_spec(
                lines@[i]@,
                effective_shift(shift_by),
            ),
{
    let s = match shift_by {
        Some(s) => s,
        None => DEFAULT_SHIFT,
    };
    let mut r: Vec<String> = Vec::new();
    let mut i: usize = 0;
    while i < lines.len()
        invariant
            i <= lines@.len(),
            r@.len() == i,
            s as int == effective_shift(shift_by),
            forall|ii: int|
                0 <= ii < i ==> (#[trigger] r@[ii])@ == shift_seq_spec(
                    lines@[ii]@,
                    effective_shift(shift_by),
                ),
        decreases lines@.len() - i,
    {
        r.push(shift(s, &lines[i]));
        i = i + 1;
    }
    r
}

} // verus!
