//! Conversion between cell coordinates and their canonical string keys.
//!
//! A key is the column written in base-26 letters with no zero digit
//! (`A` = 1 … `Z` = 26, `AA` = 27 …) followed by the one-based row number
//! in decimal, e.g. coordinate (0, 0) is `A1`. Encoding and parsing form
//! an inverse pair on every coordinate, and encoding is injective.

use vstd::prelude::*;

verus! {

/// A cell coordinate: zero-based column and row indices.
#[derive(Clone, Copy, PartialEq, Eq, Structural, Debug)]
pub struct CellCoord {
    pub col: u32,
    pub row: u32,
}

/// The packed form of a coordinate, used as the key of every store.
pub open spec fn key_of(c: CellCoord) -> u64 {
    (c.col as int * 0x1_0000_0000 + c.row as int) as u64
}

/// Packs a coordinate into a single integer key.
pub fn cell_key(c: &CellCoord) -> (k: u64)
    ensures
        k == key_of(*c),
{
    c.col as u64 * 0x1_0000_0000u64 + c.row as u64
}

/// Packing loses nothing: distinct coordinates get distinct keys.
pub proof fn lemma_key_of_injective(a: CellCoord, b: CellCoord)
    ensures
        key_of(a) == key_of(b) ==> a == b,
{
    if key_of(a) == key_of(b) {
        assert((a.col as int - b.col as int) * 0x1_0000_0000 == b.row as int - a.row as int);
    }
}

/// The column letter standing for digit `d` of the no-zero base-26 code.
pub open spec fn letter_char(d: nat) -> char {
    ((65 + d) as u8) as char
}

/// The decimal digit character for `d`.
pub open spec fn digit_char(d: nat) -> char {
    ((48 + d) as u8) as char
}

/// The base-26 letter code of a positive column number; empty for zero.
pub open spec fn col_letters(n: nat) -> Seq<char>
    decreases n,
{
    if n == 0 {
        Seq::empty()
    } else {
        col_letters(((n - 1) as nat) / 26) + seq![letter_char(((n - 1) as nat) % 26)]
    }
}

/// The decimal digit string of a positive number; empty for zero.
pub open spec fn dec_digits(n: nat) -> Seq<char>
    decreases n,
{
    if n == 0 {
        Seq::empty()
    } else {
        dec_digits(n / 10) + seq![digit_char(n % 10)]
    }
}

/// The canonical key of a coordinate: column letters, then one-based row.
pub open spec fn key_chars(c: CellCoord) -> Seq<char> {
    col_letters(c.col as nat + 1) + dec_digits(c.row as nat + 1)
}

/// Relies on `String::push` of std: appends exactly one character.
#[verifier::external_body]
pub(crate) fn push_char(s: &mut String, c: char)
    ensures
        final(s)@ == old(s)@.push(c),
{
    s.push(c);
}

/// Builds the base-26 letter code of `n` by structural recursion.
fn letters_exec(n: u64) -> (r: String)
    ensures
        r@ == col_letters(n as nat),
    decreases n,
{
    if n == 0 {
        String::new()
    } else {
        let mut r = letters_exec((n - 1) / 26);
        let d: u64 = (n - 1) % 26;
        push_char(&mut r, (65 + d as u8) as char);
        proof {
            assert(col_letters(n as nat) =~= col_letters(((n - 1) as nat) / 26).push(
                letter_char(((n - 1) as nat) % 26),
            ));
        }
        r
    }
}

/// Builds the decimal digit string of `n` by structural recursion.
fn digits_exec(n: u64) -> (r: String)
    ensures
        r@ == dec_digits(n as nat),
    decreases n,
{
    if n == 0 {
        String::new()
    } else {
        let mut r = digits_exec(n / 10);
        let d: u64 = n % 10;
        push_char(&mut r, (48 + d as u8) as char);
        proof {
            assert(dec_digits(n as nat) =~= dec_digits((n as nat) / 10).push(
                digit_char((n as nat) % 10),
            ));
        }
        r
    }
}

/// Converts a zero-based column number to its letter code
/// (0 is `A`, 25 is `Z`, 26 is `AA`).
pub fn col_number_to_letters(col: u32) -> (r: String)
    ensures
        r@ == col_letters(col as nat + 1),
{
    letters_exec(col as u64 + 1)
}

/// Converts a coordinate to its canonical string key (e.g. `A1`, `B2`).
pub fn cell_id_to_string(id: &CellCoord) -> (r: String)
    ensures
        r@ == key_chars(*id),
{
    let mut r = col_number_to_letters(id.col);
    let digits = digits_exec(id.row as u64 + 1);
    r.append(digits.as_str());
    r
}

/// Whether `c` is an ASCII letter, of either case.
pub open spec fn is_letter(c: char) -> bool {
    (65 <= c as int && c as int <= 90) || (97 <= c as int && c as int <= 122)
}

/// Whether `c` is an ASCII decimal digit.
pub open spec fn is_digit(c: char) -> bool {
    48 <= c as int && c as int <= 57
}

/// The base-26 value of a column letter: `A` and `a` are 1, `Z` and `z` 26.
pub open spec fn letter_val(c: char) -> int {
    if c as int <= 90 {
        c as int - 64
    } else {
        c as int - 96
    }
}

/// The letters of `s`, in order.
pub open spec fn letters_of(s: Seq<char>) -> Seq<char>
    decreases s.len(),
{
    if s.len() == 0 {
        Seq::empty()
    } else if is_letter(s.last()) {
        letters_of(s.drop_last()) + seq![s.last()]
    } else {
        letters_of(s.drop_last())
    }
}

/// The characters of `s` that are not letters, in order.
pub open spec fn others_of(s: Seq<char>) -> Seq<char>
    decreases s.len(),
{
    if s.len() == 0 {
        Seq::empty()
    } else if is_letter(s.last()) {
        others_of(s.drop_last())
    } else {
        others_of(s.drop_last()) + seq![s.last()]
    }
}

/// The column number named by a letter sequence, folded left to right.
pub open spec fn col_acc(s: Seq<char>) -> int
    decreases s.len(),
{
    if s.len() == 0 {
        0
    } else {
        col_acc(s.drop_last()) * 26 + letter_val(s.last())
    }
}

/// The number named by a digit sequence, folded left to right.
pub open spec fn dec_acc(s: Seq<char>) -> int
    decreases s.len(),
{
    if s.len() == 0 {
        0
    } else {
        dec_acc(s.drop_last()) * 10 + (s.last() as int - 48)
    }
}

/// Whether every letter of the token comes before every non-letter:
/// the column letters first, then the row digits, never interleaved.
pub open spec fn letters_first(s: Seq<char>) -> bool {
    forall|i: int, j: int|
        0 <= i < j < s.len() && is_letter(#[trigger] s[j]) ==> is_letter(#[trigger] s[i])
}

/// Whether a token parses as a cell key: its letters come first and
/// name a column in range, the digits after them name a row in range,
/// both parts are present, and nothing else appears.
pub open spec fn parse_ok(s: Seq<char>) -> bool {
    let ls = letters_of(s);
    let ds = others_of(s);
    &&& letters_first(s)
    &&& ls.len() >= 1
    &&& ds.len() >= 1
    &&& (forall|j: int| 0 <= j < ds.len() ==> is_digit(#[trigger] ds[j]))
    &&& col_acc(ls) <= 0x1_0000_0000
    &&& 1 <= dec_acc(ds) <= 0x1_0000_0000
}

/// The coordinate a well-formed token names.
pub open spec fn parse_result(s: Seq<char>) -> CellCoord {
    CellCoord {
        col: (col_acc(letters_of(s)) - 1) as u32,
        row: (dec_acc(others_of(s)) - 1) as u32,
    }
}

/// Parses a token like `A1` into a coordinate. The column letters come
/// first and may be lower case; the row digits follow; a token with a
/// letter after a digit, or with any character that is neither, is
/// malformed. Returns `None` exactly on tokens [`parse_ok`] rejects.
pub fn parse_cell_id(s: &str) -> (r: Option<CellCoord>)
    ensures
        r is Some <==> parse_ok(s@),
        r matches Some(c) ==> c == parse_result(s@),
{
    let len = s.unicode_len();
    let mut i: usize = 0;
    // Accumulators are clamped at one past the largest admissible value,
    // so an oversized column or row is still detected exactly.
    let mut col: u64 = 0;
    let mut row: u64 = 0;
    let mut bad: bool = false;
    let mut shape_ok: bool = true;
    let mut seen_other: bool = false;
    while i < len
        invariant
            i <= len,
            len == s@.len(),
            shape_ok == letters_first(s@.subrange(0, i as int)),
            seen_other <==> exists|ii: int| 0 <= ii < i && !is_letter(#[trigger] s@[ii]),
            ({
                let ls = letters_of(s@.subrange(0, i as int));
                &&& col_acc(ls) >= 0
                &&& (col_acc(ls) == 0 <==> ls.len() == 0)
                &&& col == if col_acc(ls) > 0x1_0000_0001 {
                    0x1_0000_0001u64
                } else {
                    col_acc(ls) as u64
                }
            }),
            ({
                let ds = others_of(s@.subrange(0, i as int));
                &&& bad <==> exists|j: int| 0 <= j < ds.len() && !is_digit(#[trigger] ds[j])
                &&& !bad ==> dec_acc(ds) >= 0
                &&& !bad ==> (row == if dec_acc(ds) > 0x1_0000_0001 {
                    0x1_0000_0001u64
                } else {
                    dec_acc(ds) as u64
                })
                &&& !bad ==> (row == 0 && ds.len() > 0 ==> dec_acc(ds) == 0)
                &&& row == 0 ==> ds.len() == 0 || bad || dec_acc(ds) == 0
                &&& row > 0 ==> ds.len() > 0
            }),
        decreases len - i,
    {
        let c = s.get_char(i);
        let u = c as u32;
        let ghost pre = s@.subrange(0, i as int);
        let ghost pre1 = s@.subrange(0, i as int + 1);
        proof {
            assert(pre1.drop_last() =~= pre);
            assert(pre1.last() == s@[i as int]);
        }
        if (65 <= u && u <= 90) || (97 <= u && u <= 122) {
            let v: u64 = if u <= 90 {
                (u - 64) as u64
            } else {
                (u - 96) as u64
            };
            let t: u64 = col * 26 + v;
            col = if t > 0x1_0000_0001 {
                0x1_0000_0001
            } else {
                t
            };
            proof {
                assert(letters_of(pre1) =~= letters_of(pre) + seq![c]);
                assert(others_of(pre1) =~= others_of(pre));
                assert(letters_of(pre1).drop_last() =~= letters_of(pre));
                assert(letters_of(pre1).last() == c);
                assert(is_letter(c));
                if shape_ok && !seen_other {
                    assert forall|a: int, b: int|
                        0 <= a < b < pre1.len() && is_letter(#[trigger] pre1[b]) implies is_letter(
                        #[trigger] pre1[a],
                    ) by {
                        if b < pre.len() {
                            assert(pre1[b] == pre[b]);
                            assert(pre1[a] == pre[a]);
                        } else {
                            assert(pre1[a] == s@[a]);
                        }
                    }
                    assert(letters_first(pre1));
                } else if !shape_ok {
                    let (a, b) = choose|a: int, b: int|
                        0 <= a < b < pre.len() && is_letter(#[trigger] pre[b]) && !is_letter(
                            #[trigger] pre[a],
                        );
                    assert(pre1[b] == pre[b]);
                    assert(pre1[a] == pre[a]);
                    assert(!letters_first(pre1));
                } else {
                    let ii = choose|ii: int| 0 <= ii < i && !is_letter(#[trigger] s@[ii]);
                    assert(pre1[ii] == s@[ii]);
                    assert(pre1[i as int] == c);
                    assert(!letters_first(pre1));
                }
            }
            shape_ok = shape_ok && !seen_other;
        } else if 48 <= u && u <= 57 {
            if !bad {
                let t: u64 = row * 10 + (u - 48) as u64;
                row = if t > 0x1_0000_0001 {
                    0x1_0000_0001
                } else {
                    t
                };
            }
            proof {
                assert(letters_of(pre1) =~= letters_of(pre));
                assert(others_of(pre1) =~= others_of(pre) + seq![c]);
                assert(others_of(pre1).drop_last() =~= others_of(pre));
                assert(others_of(pre1).last() == c);
                assert(forall|j: int|
                    0 <= j < others_of(pre).len() ==> others_of(pre1)[j] == #[trigger] others_of(
                        pre,
                    )[j]);
                assert(!is_letter(s@[i as int]));
                if shape_ok {
                    assert forall|a: int, b: int|
                        0 <= a < b < pre1.len() && is_letter(#[trigger] pre1[b]) implies is_letter(
                        #[trigger] pre1[a],
                    ) by {
                        if b < pre.len() {
                            assert(pre1[b] == pre[b]);
                            assert(pre1[a] == pre[a]);
                        } else {
                            assert(pre1[b] == c);
                        }
                    }
                    assert(letters_first(pre1));
                } else {
                    let (a, b) = choose|a: int, b: int|
                        0 <= a < b < pre.len() && is_letter(#[trigger] pre[b]) && !is_letter(
                            #[trigger] pre[a],
                        );
                    assert(pre1[b] == pre[b]);
                    assert(pre1[a] == pre[a]);
                    assert(!letters_first(pre1));
                }
            }
            seen_other = true;
        } else {
            bad = true;
            proof {
                assert(letters_of(pre1) =~= letters_of(pre));
                assert(others_of(pre1) =~= others_of(pre) + seq![c]);
                let k = others_of(pre).len() as int;
                assert(others_of(pre1)[k] == c);
                assert(!is_digit(others_of(pre1)[k]));
                assert(!is_letter(s@[i as int]));
                if shape_ok {
                    assert forall|a: int, b: int|
                        0 <= a < b < pre1.len() && is_letter(#[trigger] pre1[b]) implies is_letter(
                        #[trigger] pre1[a],
                    ) by {
                        if b < pre.len() {
                            assert(pre1[b] == pre[b]);
                            assert(pre1[a] == pre[a]);
                        } else {
                            assert(pre1[b] == c);
                        }
                    }
                    assert(letters_first(pre1));
                } else {
                    let (a, b) = choose|a: int, b: int|
                        0 <= a < b < pre.len() && is_letter(#[trigger] pre[b]) && !is_letter(
                            #[trigger] pre[a],
                        );
                    assert(pre1[b] == pre[b]);
                    assert(pre1[a] == pre[a]);
                    assert(!letters_first(pre1));
                }
            }
            seen_other = true;
        }
        i = i + 1;
    }
    proof {
        assert(s@.subrange(0, len as int) =~= s@);
    }
    if bad || !shape_ok || col == 0 || col > 0x1_0000_0000 || row == 0 || row > 0x1_0000_0000 {
        None
    } else {
        Some(CellCoord { col: (col - 1) as u32, row: (row - 1) as u32 })
    }
}

/// Whether a token is exactly the canonical key of the coordinate it
/// parses to: no lower-case letters, no leading zeros, letters first.
pub open spec fn canonical_name(s: Seq<char>) -> bool {
    parse_ok(s) && s == key_chars(parse_result(s))
}

/// The horizontal run of coordinates on `row` from column `c1` to `c2`
/// inclusive; empty when `c2 < c1`.
pub open spec fn run_cols(row: u32, c1: int, c2: int) -> Seq<CellCoord> {
    Seq::new(
        if c2 >= c1 {
            (c2 - c1 + 1) as nat
        } else {
            0
        },
        |i: int| CellCoord { col: (c1 + i) as u32, row },
    )
}

/// The vertical run of coordinates in column `col` from row `r1` to `r2`
/// inclusive; empty when `r2 < r1`.
pub open spec fn run_rows(col: u32, r1: int, r2: int) -> Seq<CellCoord> {
    Seq::new(
        if r2 >= r1 {
            (r2 - r1 + 1) as nat
        } else {
            0
        },
        |i: int| CellCoord { col, row: (r1 + i) as u32 },
    )
}

/// The first `nrows` rows of the rectangle spanned by `a` and `b`,
/// row-major: each row is a full horizontal run.
pub open spec fn rect_upto(a: CellCoord, b: CellCoord, nrows: nat) -> Seq<CellCoord>
    decreases nrows,
{
    if nrows == 0 {
        Seq::empty()
    } else {
        rect_upto(a, b, (nrows - 1) as nat) + run_cols(
            (a.row + nrows - 1) as u32,
            a.col as int,
            b.col as int,
        )
    }
}

/// The coordinates a range from `a` to `b` covers: a horizontal run when
/// the rows agree, a vertical run when the columns agree, and otherwise
/// the full rectangle in row-major order.
pub open spec fn range_coords(a: CellCoord, b: CellCoord) -> Seq<CellCoord> {
    if a.row == b.row {
        run_cols(a.row, a.col as int, b.col as int)
    } else if a.col == b.col {
        run_rows(a.col, a.row as int, b.row as int)
    } else if b.row >= a.row {
        rect_upto(a, b, (b.row - a.row + 1) as nat)
    } else {
        Seq::empty()
    }
}

/// Builds one horizontal run of coordinates.
fn run_cols_exec(row: u32, c1: u32, c2: u32) -> (r: Vec<CellCoord>)
    ensures
        r@ == run_cols(row, c1 as int, c2 as int),
{
    let mut r: Vec<CellCoord> = Vec::new();
    let mut c: u64 = c1 as u64;
    while c <= c2 as u64
        invariant
            c1 as int <= c as int <= vstd::math::max(c2 as int + 1, c1 as int),
            r@.len() == c - c1,
            forall|i: int|
                0 <= i < r@.len() ==> r@[i] == (CellCoord { col: (c1 + i) as u32, row }),
        decreases c2 as int + 1 - c as int,
    {
        r.push(CellCoord { col: c as u32, row });
        c = c + 1;
    }
    proof {
        assert(r@ =~= run_cols(row, c1 as int, c2 as int));
    }
    r
}

/// Builds one vertical run of coordinates.
fn run_rows_exec(col: u32, r1: u32, r2: u32) -> (r: Vec<CellCoord>)
    ensures
        r@ == run_rows(col, r1 as int, r2 as int),
{
    let mut r: Vec<CellCoord> = Vec::new();
    let mut w: u64 = r1 as u64;
    while w <= r2 as u64
        invariant
            r1 as int <= w as int <= vstd::math::max(r2 as int + 1, r1 as int),
            r@.len() == w - r1,
            forall|i: int|
                0 <= i < r@.len() ==> r@[i] == (CellCoord { col, row: (r1 + i) as u32 }),
        decreases r2 as int + 1 - w as int,
    {
        r.push(CellCoord { col, row: w as u32 });
        w = w + 1;
    }
    proof {
        assert(r@ =~= run_rows(col, r1 as int, r2 as int));
    }
    r
}

/// Expands a range into the explicit ordered list of coordinates it
/// covers, row-major for two-dimensional spans.
pub fn expand_range(a: &CellCoord, b: &CellCoord) -> (r: Vec<CellCoord>)
    ensures
        r@ == range_coords(*a, *b),
{
    if a.row == b.row {
        run_cols_exec(a.row, a.col, b.col)
    } else if a.col == b.col {
        run_rows_exec(a.col, a.row, b.row)
    } else {
        let mut r: Vec<CellCoord> = Vec::new();
        let mut w: u64 = a.row as u64;
        while w <= b.row as u64
            invariant
                a.row as int <= w as int <= vstd::math::max(b.row as int + 1, a.row as int),
                r@ == rect_upto(*a, *b, (w - a.row) as nat),
            decreases b.row as int + 1 - w as int,
        {
            let mut run = run_cols_exec(w as u32, a.col, b.col);
            r.append(&mut run);
            w = w + 1;
        }
        proof {
            if b.row < a.row {
                assert(r@ =~= range_coords(*a, *b));
            }
        }
        r
    }
}

/// The index of the first underscore in `s` at or after `i`, or -1.
pub open spec fn scan_uscore(s: Seq<char>, i: int) -> int
    decreases s.len() - i,
{
    if i < 0 || i >= s.len() {
        -1
    } else if s[i] == '_' {
        i
    } else {
        scan_uscore(s, i + 1)
    }
}

/// The index of the first underscore in `s`, or -1 when there is none.
pub open spec fn first_uscore(s: Seq<char>) -> int {
    scan_uscore(s, 0)
}

/// What a `START_END` range token denotes: the token must hold exactly
/// one underscore, and both halves must parse as cell keys.
pub open spec fn range_token_spec(s: Seq<char>) -> Option<(CellCoord, CellCoord)> {
    let p = first_uscore(s);
    if p < 0 {
        Option::None
    } else if scan_uscore(s, p + 1) >= 0 {
        Option::None
    } else {
        let lhs = s.subrange(0, p);
        let rhs = s.subrange(p + 1, s.len() as int);
        if parse_ok(lhs) && parse_ok(rhs) {
            Option::Some((parse_result(lhs), parse_result(rhs)))
        } else {
            Option::None
        }
    }
}

/// Finds the first underscore at or after `from`.
fn find_uscore(s: &str, from: usize) -> (r: Option<usize>)
    requires
        from <= s@.len(),
    ensures
        match r {
            Some(p) => from <= p < s@.len() && scan_uscore(s@, from as int) == p,
            None => scan_uscore(s@, from as int) == -1,
        },
{
    let len = s.unicode_len();
    let mut i: usize = from;
    while i < len
        invariant
            from <= i <= len,
            len == s@.len(),
            scan_uscore(s@, from as int) == scan_uscore(s@, i as int),
        decreases len - i,
    {
        if s.get_char(i) == '_' {
            return Some(i);
        }
        i = i + 1;
    }
    None
}

/// Whether the token holds an underscore, marking it as a range token.
pub fn has_uscore(s: &str) -> (r: bool)
    ensures
        r == (first_uscore(s@) >= 0),
{
    match find_uscore(s, 0) {
        Some(_) => true,
        None => false,
    }
}

/// Splits a `START_END` range token into its two endpoint coordinates,
/// per [`range_token_spec`].
pub fn split_range_token(s: &str) -> (r: Option<(CellCoord, CellCoord)>)
    ensures
        r == range_token_spec(s@),
{
    let len = s.unicode_len();
    let p = match find_uscore(s, 0) {
        Some(p) => p,
        None => {
            return None;
        },
    };
    if let Some(_) = find_uscore(s, p + 1) {
        return None;
    }
    let lhs = s.substring_char(0, p);
    let rhs = s.substring_char(p + 1, len);
    match (parse_cell_id(lhs), parse_cell_id(rhs)) {
        (Some(a), Some(b)) => Some((a, b)),
        _ => None,
    }
}

proof fn lemma_col_letters_are_letters(n: nat)
    ensures
        forall|i: int|
            0 <= i < col_letters(n).len() ==> is_letter(#[trigger] col_letters(n)[i])
                && col_letters(n)[i] as int <= 90,
    decreases n,
{
    if n > 0 {
        let q = ((n - 1) as nat) / 26;
        let d = ((n - 1) as nat) % 26;
        lemma_col_letters_are_letters(q);
        assert(letter_char(d) as int == 65 + d);
        assert(forall|i: int|
            0 <= i < col_letters(q).len() ==> #[trigger] col_letters(n)[i] == col_letters(q)[i]);
        assert(col_letters(n)[col_letters(q).len() as int] == letter_char(d));
    }
}

proof fn lemma_dec_digits_are_digits(n: nat)
    ensures
        forall|i: int| 0 <= i < dec_digits(n).len() ==> is_digit(#[trigger] dec_digits(n)[i]),
    decreases n,
{
    if n > 0 {
        let q = n / 10;
        let d = n % 10;
        lemma_dec_digits_are_digits(q);
        assert(digit_char(d) as int == 48 + d);
        assert(forall|i: int|
            0 <= i < dec_digits(q).len() ==> #[trigger] dec_digits(n)[i] == dec_digits(q)[i]);
        assert(dec_digits(n)[dec_digits(q).len() as int] == digit_char(d));
    }
}

proof fn lemma_split_append(a: Seq<char>, b: Seq<char>)
    ensures
        letters_of(a + b) == letters_of(a) + letters_of(b),
        others_of(a + b) == others_of(a) + others_of(b),
    decreases b.len(),
{
    if b.len() == 0 {
        assert(a + b =~= a);
        assert(letters_of(a) + letters_of(b) =~= letters_of(a));
        assert(others_of(a) + others_of(b) =~= others_of(a));
    } else {
        lemma_split_append(a, b.drop_last());
        assert((a + b).drop_last() =~= a + b.drop_last());
        assert((a + b).last() == b.last());
        if is_letter(b.last()) {
            assert(letters_of(a + b) =~= letters_of(a) + letters_of(b));
            assert(others_of(a + b) =~= others_of(a) + others_of(b));
        } else {
            assert(letters_of(a + b) =~= letters_of(a) + letters_of(b));
            assert(others_of(a + b) =~= others_of(a) + others_of(b));
        }
    }
}

proof fn lemma_split_all_letters(s: Seq<char>)
    requires
        forall|i: int| 0 <= i < s.len() ==> is_letter(#[trigger] s[i]),
    ensures
        letters_of(s) == s,
        others_of(s) == Seq::<char>::empty(),
    decreases s.len(),
{
    if s.len() > 0 {
        lemma_split_all_letters(s.drop_last());
        assert(letters_of(s) =~= s);
    }
}

proof fn lemma_split_no_letters(s: Seq<char>)
    requires
        forall|i: int| 0 <= i < s.len() ==> !is_letter(#[trigger] s[i]),
    ensures
        letters_of(s) == Seq::<char>::empty(),
        others_of(s) == s,
    decreases s.len(),
{
    if s.len() > 0 {
        lemma_split_no_letters(s.drop_last());
        assert(others_of(s) =~= s);
    }
}

proof fn lemma_col_acc_letters(n: nat)
    ensures
        col_acc(col_letters(n)) == n,
    decreases n,
{
    if n > 0 {
        let q = ((n - 1) as nat) / 26;
        let d = ((n - 1) as nat) % 26;
        lemma_col_acc_letters(q);
        assert(col_letters(n).drop_last() =~= col_letters(q));
        assert(col_letters(n).last() == letter_char(d));
        assert(letter_char(d) as int == 65 + d);
        assert(letter_val(letter_char(d)) == d + 1);
        vstd::arithmetic::div_mod::lemma_fundamental_div_mod((n - 1) as int, 26);
    }
}

proof fn lemma_dec_acc_digits(n: nat)
    ensures
        dec_acc(dec_digits(n)) == n,
    decreases n,
{
    if n > 0 {
        let q = n / 10;
        let d = n % 10;
        lemma_dec_acc_digits(q);
        assert(dec_digits(n).drop_last() =~= dec_digits(q));
        assert(dec_digits(n).last() == digit_char(d));
        assert(digit_char(d) as int == 48 + d);
        vstd::arithmetic::div_mod::lemma_fundamental_div_mod(n as int, 10);
    }
}

/// Round trip: the canonical key of any coordinate parses back to
/// exactly that coordinate.
pub proof fn lemma_key_roundtrip(c: CellCoord)
    ensures
        parse_ok(key_chars(c)),
        parse_result(key_chars(c)) == c,
{
    let ls = col_letters(c.col as nat + 1);
    let ds = dec_digits(c.row as nat + 1);
    lemma_col_letters_are_letters(c.col as nat + 1);
    lemma_dec_digits_are_digits(c.row as nat + 1);
    assert(forall|i: int| 0 <= i < ds.len() ==> !is_letter(#[trigger] ds[i]));
    lemma_split_append(ls, ds);
    lemma_split_all_letters(ls);
    lemma_split_no_letters(ds);
    assert(letters_of(key_chars(c)) =~= ls);
    assert(others_of(key_chars(c)) =~= ds);
    lemma_col_acc_letters(c.col as nat + 1);
    lemma_dec_acc_digits(c.row as nat + 1);
    assert forall|a: int, b: int|
        0 <= a < b < key_chars(c).len() && is_letter(#[trigger] key_chars(c)[b]) implies is_letter(
        #[trigger] key_chars(c)[a],
    ) by {
        if b < ls.len() {
            assert(key_chars(c)[a] == ls[a]);
            assert(key_chars(c)[b] == ls[b]);
        } else {
            assert(key_chars(c)[b] == ds[b - ls.len()]);
            assert(is_digit(ds[b - ls.len()]));
        }
    }
    assert(letters_first(key_chars(c)));
}

/// Encoding is injective: distinct coordinates have distinct keys.
pub proof fn lemma_encode_injective(a: CellCoord, b: CellCoord)
    ensures
        key_chars(a) == key_chars(b) ==> a == b,
{
    lemma_key_roundtrip(a);
    lemma_key_roundtrip(b);
}

} // verus!
