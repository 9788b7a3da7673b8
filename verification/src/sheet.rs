//! The spreadsheet stores and the operations sessions and the scheduler
//! perform on them.
//!
//! Four maps, all keyed by the packed coordinate of a cell: its current
//! value, the formula text last assigned, whether the value reflects that
//! formula, and the expanded list of keys the formula reads. A `set`
//! stores the formula, marks the cell not ready and records its
//! dependencies; the scheduler then gathers the bindings the formula
//! reads, has the expression engine evaluate it, records the outcome and
//! re-signals every dependent. The caller drives the engine itself and
//! hands the outcome to [`Sheet::record_result`], since an evaluation may
//! deliberately sleep.

use std::collections::HashMap;
use vstd::prelude::*;

use crate::codec::{
    canonical_name, cell_id_to_string, cell_key, expand_range, first_uscore, has_uscore, key_chars,
    key_of, parse_cell_id, parse_result, range_coords, range_token_spec, split_range_token,
    CellCoord,
};
use crate::values::{
    dep_error_string, dep_error_text, dep_error_value, values_view, view_is_dep_error, ArgView,
    CellArgument, CellValue, ValueView,
};
use vstd::std_specs::hash::spec_hash_map_iter;
use vstd::std_specs::iter::IteratorSpec;

verus! {

broadcast use vstd::std_specs::hash::group_hash_axioms;

/// The set of packed keys one variable name stands for: a canonical cell
/// key names its own cell; a well-formed range token names every cell of
/// its span; anything else names nothing.
pub open spec fn name_key_set(name: Seq<char>) -> Set<u64> {
    if first_uscore(name) < 0 {
        if canonical_name(name) {
            Set::empty().insert(key_of(parse_result(name)))
        } else {
            Set::empty()
        }
    } else {
        match range_token_spec(name) {
            Option::Some((a, b)) => Set::new(
                |k: u64|
                    exists|i: int|
                        0 <= i < range_coords(a, b).len() && k == key_of(
                            #[trigger] range_coords(a, b)[i],
                        ),
            ),
            Option::None => Set::empty(),
        }
    }
}

/// The set of packed keys a list of variable names stands for.
pub open spec fn names_key_set(names: Seq<Seq<char>>) -> Set<u64>
    decreases names.len(),
{
    if names.len() == 0 {
        Set::empty()
    } else {
        names_key_set(names.drop_last()).union(name_key_set(names.last()))
    }
}

/// The variable names the expression engine finds in a formula text.
pub uninterp spec fn referenced_names_of(s: Seq<char>) -> Seq<Seq<char>>;

/// Relies on `rsheet_lib::cell_expr::CellExpr::find_variable_names`: the
/// variable names found in a formula depend on the formula text alone.
#[verifier::external_body]
fn find_variable_names(formula: &str) -> (r: Vec<String>)
    ensures
        r@.map_values(|n: String| n@) == referenced_names_of(formula@),
{
    rsheet_lib::cell_expr::CellExpr::new(formula).find_variable_names()
}

/// Decides whether a sequence already holds `x`.
fn vec_contains(v: &Vec<u64>, x: u64) -> (r: bool)
    ensures
        r == v@.contains(x),
{
    let mut i: usize = 0;
    while i < v.len()
        invariant
            i <= v@.len(),
            forall|j: int| 0 <= j < i ==> v@[j] != x,
        decreases v@.len() - i,
    {
        if v[i] == x {
            return true;
        }
        i = i + 1;
    }
    false
}

/// Appends `x` unless it is already present, keeping the list free of
/// duplicates while growing its set of elements by `x`.
fn push_unique(v: &mut Vec<u64>, x: u64)
    ensures
        final(v)@.to_set() == old(v)@.to_set().insert(x),
        old(v)@.no_duplicates() ==> final(v)@.no_duplicates(),
{
    if !vec_contains(v, x) {
        v.push(x);
        proof {
            let s0 = old(v)@;
            let s1 = final(v)@;
            assert(s1[s0.len() as int] == x);
            assert forall|y: u64| s1.contains(y) implies s0.contains(y) || y == x by {
                let i = choose|i: int| 0 <= i < s1.len() && s1[i] == y;
                if i < s0.len() {
                    assert(s0[i] == y);
                }
            }
            assert forall|y: u64| s0.contains(y) implies s1.contains(y) by {
                let i = choose|i: int| 0 <= i < s0.len() && s0[i] == y;
                assert(s1[i] == y);
            }
            assert(s1.contains(x));
            assert(s1.to_set() =~= s0.to_set().insert(x));
        }
    } else {
        proof {
            assert(final(v)@.to_set() =~= old(v)@.to_set().insert(x));
        }
    }
}

proof fn lemma_push_contains(s: Seq<u64>, x: u64)
    ensures
        forall|y: u64| #[trigger] s.push(x).contains(y) <==> s.contains(y) || y == x,
{
    assert(s.push(x)[s.len() as int] == x);
    assert forall|y: u64| s.push(x).contains(y) implies s.contains(y) || y == x by {
        let i = choose|i: int| 0 <= i < s.push(x).len() && s.push(x)[i] == y;
        if i < s.len() {
            assert(s[i] == y);
        }
    }
    assert forall|y: u64| s.contains(y) implies s.push(x).contains(y) by {
        let i = choose|i: int| 0 <= i < s.len() && s[i] == y;
        assert(s.push(x)[i] == y);
    }
}

/// Whether `needle` occurs contiguously inside `hay`.
pub open spec fn contains_seq(hay: Seq<char>, needle: Seq<char>) -> bool {
    exists|i: int|
        0 <= i <= hay.len() - needle.len() && #[trigger] hay.subrange(i, i + needle.len())
            == needle
}

/// Decides whether `needle` matches `hay` at position `i`.
fn matches_at(hay: &str, needle: &str, i: usize) -> (r: bool)
    requires
        i + needle@.len() <= hay@.len(),
    ensures
        r == (hay@.subrange(i as int, i as int + needle@.len() as int) == needle@),
{
    let nl = needle.unicode_len();
    let hl = hay.unicode_len();
    let mut j: usize = 0;
    while j < nl
        invariant
            j <= nl,
            nl == needle@.len(),
            hl == hay@.len(),
            i + nl <= hl,
            forall|jj: int| 0 <= jj < j ==> hay@[i + jj] == #[trigger] needle@[jj],
        decreases nl - j,
    {
        if hay.get_char(i + j) != needle.get_char(j) {
            proof {
                if hay@.subrange(i as int, i as int + nl as int) == needle@ {
                    assert(hay@.subrange(i as int, i as int + nl as int)[j as int] == hay@[i + j]);
                }
            }
            return false;
        }
        j = j + 1;
    }
    proof {
        assert(hay@.subrange(i as int, i as int + nl as int) =~= needle@);
    }
    true
}

/// Decides whether `needle` occurs contiguously inside `hay`.
fn contains_str(hay: &str, needle: &str) -> (r: bool)
    ensures
        r == contains_seq(hay@, needle@),
{
    let hl = hay.unicode_len();
    let nl = needle.unicode_len();
    if nl > hl {
        return false;
    }
    if nl == 0 {
        proof {
            assert(hay@.subrange(0, 0 + needle@.len() as int) =~= needle@);
        }
        return true;
    }
    let mut i: usize = 0;
    while i <= hl - nl
        invariant
            hl == hay@.len(),
            nl == needle@.len(),
            1 <= nl <= hl,
            i <= hl - nl + 1,
            forall|ii: int|
                0 <= ii < i ==> #[trigger] hay@.subrange(ii, ii + needle@.len()) != needle@,
        decreases hl - nl + 1 - i,
    {
        if matches_at(hay, needle, i) {
            return true;
        }
        i = i + 1;
    }
    false
}

/// The scheduler class of a formula text: formulas invoking the
/// deliberate-delay primitive go to the delayed queue.
#[derive(Clone, Copy, PartialEq, Eq, Structural, Debug)]
pub enum SignalClass {
    Immediate,
    Delayed,
}

/// The class a formula text belongs to.
pub open spec fn spec_classify(formula: Seq<char>) -> SignalClass {
    if contains_seq(formula, "sleep_then"@) {
        SignalClass::Delayed
    } else {
        SignalClass::Immediate
    }
}

/// A reply to a `get`: the cell's key and value, or an error message.
pub enum Reply {
    Value(String, CellValue),
    Error(String),
}

/// The value stored under a packed key; empty when absent.
pub open spec fn stored_value(m: Map<u64, CellValue>, k: u64) -> ValueView {
    if m.contains_key(k) {
        m[k]@
    } else {
        ValueView::Empty
    }
}

/// The readiness stored under a packed key; a key never set is ready.
pub open spec fn stored_ready(m: Map<u64, bool>, k: u64) -> bool {
    if m.contains_key(k) {
        m[k]
    } else {
        true
    }
}

/// The cells of a dependency table whose recorded dependencies hold `k`.
pub open spec fn map_dependents(deps: Map<u64, Vec<u64>>, k: u64) -> Set<u64> {
    Set::new(|c: u64| deps.contains_key(c) && deps[c]@.contains(k))
}

/// The value a coordinate holds in a value store; empty when absent.
pub open spec fn value_in(m: Map<u64, CellValue>, c: CellCoord) -> ValueView {
    stored_value(m, key_of(c))
}

/// The values a run of coordinates holds, in order.
pub open spec fn row_values(m: Map<u64, CellValue>, coords: Seq<CellCoord>) -> Seq<ValueView> {
    coords.map_values(|c: CellCoord| value_in(m, c))
}

/// The row-major grid of values the rectangle spanned by `a` and `b`
/// holds: one row of values per spreadsheet row.
pub open spec fn grid_values(m: Map<u64, CellValue>, a: CellCoord, b: CellCoord) -> Seq<
    Seq<ValueView>,
> {
    Seq::new(
        if b.row >= a.row {
            (b.row - a.row + 1) as nat
        } else {
            0
        },
        |r: int|
            row_values(m, crate::codec::run_cols((a.row + r) as u32, a.col as int, b.col as int)),
    )
}

/// The image of a binding list: names and argument views, in order.
pub open spec fn bindings_view(out: Seq<(String, CellArgument)>) -> Seq<(Seq<char>, ArgView)> {
    out.map_values(|p: (String, CellArgument)| (p.0@, p.1@))
}

/// What one variable name binds to, given the current values. A plain
/// name binds its cell's single value — an empty value when the token is
/// not a canonical key, since such a token can name no cell that was
/// ever written. A range token whose endpoints share a row or a column
/// binds the run of values it covers; any other well-formed range binds
/// the grid of values, row-major; a malformed range token binds nothing.
pub open spec fn extract_spec(m: Map<u64, CellValue>, name: Seq<char>) -> Option<ArgView> {
    if first_uscore(name) < 0 {
        Option::Some(
            ArgView::Value(
                if canonical_name(name) {
                    value_in(m, parse_result(name))
                } else {
                    ValueView::Empty
                },
            ),
        )
    } else {
        match range_token_spec(name) {
            Option::Some((a, b)) => Option::Some(
                if a.row == b.row || a.col == b.col {
                    ArgView::Vector(row_values(m, range_coords(a, b)))
                } else {
                    ArgView::Matrix(grid_values(m, a, b))
                },
            ),
            Option::None => Option::None,
        }
    }
}

/// What a name list binds to, in order, names that bind nothing left out.
pub open spec fn gather_spec(m: Map<u64, CellValue>, names: Seq<Seq<char>>) -> Seq<
    (Seq<char>, ArgView),
>
    decreases names.len(),
{
    if names.len() == 0 {
        Seq::empty()
    } else {
        gather_spec(m, names.drop_last()) + match extract_spec(m, names.last()) {
            Option::Some(av) => seq![(names.last(), av)],
            Option::None => Seq::empty(),
        }
    }
}

/// The shared mutable state of one spreadsheet.
pub struct Sheet {
    values: HashMap<u64, CellValue>,
    formulas: HashMap<u64, String>,
    ready: HashMap<u64, bool>,
    deps: HashMap<u64, Vec<u64>>,
}

impl Sheet {
    /// The cell-value store.
    pub closed spec fn values_map(&self) -> Map<u64, CellValue> {
        self.values@
    }

    /// The formula store.
    pub closed spec fn formula_map(&self) -> Map<u64, String> {
        self.formulas@
    }

    /// The readiness store.
    pub closed spec fn ready_map(&self) -> Map<u64, bool> {
        self.ready@
    }

    /// The dependency table: per cell, the expanded keys its formula reads.
    pub closed spec fn deps_map(&self) -> Map<u64, Vec<u64>> {
        self.deps@
    }

    /// The value of a cell; a cell never written is empty.
    pub open spec fn value_at(&self, k: u64) -> ValueView {
        stored_value(self.values_map(), k)
    }

    /// The formula of a cell; a cell never set has the empty formula.
    pub open spec fn formula_at(&self, k: u64) -> Seq<char> {
        if self.formula_map().contains_key(k) {
            self.formula_map()[k]@
        } else {
            Seq::empty()
        }
    }

    /// Whether a cell's value reflects its formula; a cell never set is
    /// ready by design, so a dependency on it is not an error.
    pub open spec fn ready_at(&self, k: u64) -> bool {
        stored_ready(self.ready_map(), k)
    }

    /// The recorded dependency keys of a cell.
    pub open spec fn dep_keys(&self, k: u64) -> Seq<u64> {
        if self.deps_map().contains_key(k) {
            self.deps_map()[k]@
        } else {
            Seq::empty()
        }
    }

    /// The cells whose recorded dependencies include `k`.
    pub open spec fn spec_dependents(&self, k: u64) -> Set<u64> {
        map_dependents(self.deps_map(), k)
    }

    /// A fresh sheet with nothing set.
    pub fn new() -> (s: Sheet)
        ensures
            s.values_map() == Map::<u64, CellValue>::empty(),
            s.formula_map() == Map::<u64, String>::empty(),
            s.ready_map() == Map::<u64, bool>::empty(),
            s.deps_map() == Map::<u64, Vec<u64>>::empty(),
    {
        Sheet {
            values: HashMap::new(),
            formulas: HashMap::new(),
            ready: HashMap::new(),
            deps: HashMap::new(),
        }
    }

    /// Reads the current value of a cell; unknown cells read as empty.
    pub fn get_value(&self, id: &CellCoord) -> (r: CellValue)
        ensures
            r@ == self.value_at(key_of(*id)),
    {
        let k = cell_key(id);
        match self.values.get(&k) {
            Some(v) => v.duplicate(),
            None => CellValue::Empty,
        }
    }

    /// Reads the formula last assigned to a cell; empty if none was.
    pub fn get_formula(&self, id: &CellCoord) -> (r: String)
        ensures
            r@ == self.formula_at(key_of(*id)),
    {
        let k = cell_key(id);
        match self.formulas.get(&k) {
            Some(t) => t.clone(),
            None => String::new(),
        }
    }

    /// Whether the cell's value reflects its current formula.
    pub fn is_ready(&self, id: &CellCoord) -> (r: bool)
        ensures
            r == self.ready_at(key_of(*id)),
    {
        let k = cell_key(id);
        match self.ready.get(&k) {
            Some(b) => *b,
            None => true,
        }
    }

    /// Stores a formula: records its text, marks the cell not ready, and
    /// replaces the cell's dependency entry with the expanded, duplicate-free
    /// set of keys the formula's variable names cover. The cell's value is
    /// untouched until the scheduler records an evaluation.
    pub fn set_formula(&mut self, id: &CellCoord, text: String)
        ensures
            final(self).formula_map() == old(self).formula_map().insert(key_of(*id), text),
            final(self).ready_map() == old(self).ready_map().insert(key_of(*id), false),
            final(self).values_map() == old(self).values_map(),
            final(self).deps_map().contains_key(key_of(*id)),
            final(self).dep_keys(key_of(*id)).to_set() == names_key_set(
                referenced_names_of(text@),
            ),
            final(self).dep_keys(key_of(*id)).no_duplicates(),
            forall|k2: u64|
                k2 != key_of(*id) ==> final(self).deps_map().contains_key(k2) == old(
                    self,
                ).deps_map().contains_key(k2) && (old(self).deps_map().contains_key(k2)
                    ==> final(self).deps_map()[k2] == old(self).deps_map()[k2]),
    {
        let key = cell_key(id);
        let names = find_variable_names(text.as_str());
        let ghost names_v = names@.map_values(|n: String| n@);
        let mut dl: Vec<u64> = Vec::new();
        let mut i: usize = 0;
        while i < names.len()
            invariant
                i <= names@.len(),
                names_v == names@.map_values(|n: String| n@),
                names_v.len() == names@.len(),
                dl@.no_duplicates(),
                dl@.to_set() == names_key_set(names_v.subrange(0, i as int)),
            decreases names@.len() - i,
        {
            let name = &names[i];
            let ghost pre = names_v.subrange(0, i as int);
            let ghost pre1 = names_v.subrange(0, i as int + 1);
            proof {
                assert(pre1.drop_last() =~= pre);
                assert(pre1.last() == names_v[i as int]);
                assert(names_v[i as int] == name@);
            }
            if !has_uscore(name.as_str()) {
                match parse_cell_id(name.as_str()) {
                    Some(c) => {
                        let enc = cell_id_to_string(&c);
                        if enc == *name {
                            push_unique(&mut dl, cell_key(&c));
                            proof {
                                assert(dl@.to_set() =~= names_key_set(pre1));
                            }
                        } else {
                            proof {
                                assert(name_key_set(name@) =~= Set::<u64>::empty());
                                assert(dl@.to_set() =~= names_key_set(pre1));
                            }
                        }
                    },
                    None => {
                        proof {
                            assert(name_key_set(name@) =~= Set::<u64>::empty());
                            assert(dl@.to_set() =~= names_key_set(pre1));
                        }
                    },
                }
            } else {
                match split_range_token(name.as_str()) {
                    Some((a, b)) => {
                        let coords = expand_range(&a, &b);
                        let mut j: usize = 0;
                        while j < coords.len()
                            invariant
                                j <= coords@.len(),
                                coords@ == range_coords(a, b),
                                range_token_spec(name@) == Option::Some((a, b)),
                                first_uscore(name@) >= 0,
                                dl@.no_duplicates(),
                                dl@.to_set() == names_key_set(pre).union(
                                    Set::new(
                                        |k: u64|
                                            exists|jj: int|
                                                0 <= jj < j && k == key_of(
                                                    #[trigger] range_coords(a, b)[jj],
                                                ),
                                    ),
                                ),
                            decreases coords@.len() - j,
                        {
                            push_unique(&mut dl, cell_key(&coords[j]));
                            proof {
                                assert(dl@.to_set() =~= names_key_set(pre).union(
                                    Set::new(
                                        |k: u64|
                                            exists|jj: int|
                                                0 <= jj < j + 1 && k == key_of(
                                                    #[trigger] range_coords(a, b)[jj],
                                                ),
                                    ),
                                ));
                            }
                            j = j + 1;
                        }
                        proof {
                            assert(dl@.to_set() =~= names_key_set(pre1));
                        }
                    },
                    None => {
                        proof {
                            assert(name_key_set(name@) =~= Set::<u64>::empty());
                            assert(dl@.to_set() =~= names_key_set(pre1));
                        }
                    },
                }
            }
            i = i + 1;
        }
        proof {
            assert(names_v.subrange(0, names_v.len() as int) =~= names_v);
        }
        self.formulas.insert(key, text);
        self.ready.insert(key, false);
        self.deps.insert(key, dl);
    }

    /// Records the outcome of evaluating a cell's formula: the value on
    /// success, the dependency-error sentinel on failure. Either way the
    /// cell becomes ready; nothing else changes.
    pub fn record_result(&mut self, id: &CellCoord, outcome: Result<CellValue, ()>)
        ensures
            final(self).values_map().contains_key(key_of(*id)),
            outcome matches Ok(v) ==> final(self).value_at(key_of(*id)) == v@,
            outcome is Err ==> final(self).value_at(key_of(*id)) == ValueView::Error(
                dep_error_text(),
            ),
            forall|k2: u64|
                k2 != key_of(*id) ==> final(self).values_map().contains_key(k2) == old(
                    self,
                ).values_map().contains_key(k2) && (old(self).values_map().contains_key(k2)
                    ==> final(self).values_map()[k2] == old(self).values_map()[k2]),
            final(self).ready_map() == old(self).ready_map().insert(key_of(*id), true),
            final(self).formula_map() == old(self).formula_map(),
            final(self).deps_map() == old(self).deps_map(),
    {
        let key = cell_key(id);
        let v = match outcome {
            Ok(v) => v,
            Err(_) => dep_error_value(),
        };
        self.values.insert(key, v);
        self.ready.insert(key, true);
    }

    /// Finds every cell whose recorded dependencies include `id`, by
    /// scanning the forward dependency table. These are the cells to
    /// re-signal after `id` is re-evaluated.
    pub fn dependents_of(&self, id: &CellCoord) -> (r: Vec<u64>)
        ensures
            forall|c: u64|
                #[trigger] r@.contains(c) <==> self.spec_dependents(key_of(*id)).contains(c),
    {
        let k = cell_key(id);
        let mut r: Vec<u64> = Vec::new();
        for kv in it: self.deps.iter()
            invariant
                forall|c: u64|
                    #[trigger] r@.contains(c) <==> exists|j: int|
                        0 <= j < it.index() && *(#[trigger] it.seq()[j]).0 == c
                            && it.seq()[j].1@.contains(k),
        {
            let (cell, dl) = kv;
            if vec_contains(dl, k) {
                proof {
                    lemma_push_contains(r@, *cell);
                }
                r.push(*cell);
            }
        }
        proof {
            let pairs = spec_hash_map_iter(&self.deps).remaining();
            assert forall|c: u64| r@.contains(c) implies self.spec_dependents(
                key_of(*id),
            ).contains(c) by {
                let j = choose|j: int|
                    0 <= j < pairs.len() && *(#[trigger] pairs[j]).0 == c && pairs[j].1@.contains(
                        k,
                    );
                assert(self.deps@.contains_key(*pairs[j].0));
                assert(self.deps@[*pairs[j].0] == *pairs[j].1);
            }
            assert forall|c: u64| self.spec_dependents(key_of(*id)).contains(c) implies r@.contains(
                c,
            ) by {
                assert(self.deps@.contains_key(c));
                assert(pairs.contains((&c, &self.deps@[c])));
                let j = choose|j: int| 0 <= j < pairs.len() && pairs[j] == (&c, &self.deps@[c]);
                assert(*pairs[j].0 == c && pairs[j].1@.contains(k));
            }
        }
        r
    }

    /// Reads the current values of a list of coordinates, in order.
    fn gather_values(&self, coords: &Vec<CellCoord>) -> (r: Vec<CellValue>)
        ensures
            values_view(r@) == row_values(self.values_map(), coords@),
    {
        let mut r: Vec<CellValue> = Vec::new();
        let mut j: usize = 0;
        while j < coords.len()
            invariant
                j <= coords@.len(),
                r@.len() == j,
                forall|ii: int|
                    0 <= ii < j ==> (#[trigger] r@[ii])@ == value_in(
                        self.values_map(),
                        coords@[ii],
                    ),
            decreases coords@.len() - j,
        {
            r.push(self.get_value(&coords[j]));
            j = j + 1;
        }
        proof {
            assert forall|ii: int| 0 <= ii < coords@.len() implies values_view(r@)[ii]
                == row_values(self.values_map(), coords@)[ii] by {
                assert(row_values(self.values_map(), coords@)[ii] == value_in(
                    self.values_map(),
                    coords@[ii],
                ));
                assert(values_view(r@)[ii] == r@[ii]@);
            }
            assert(values_view(r@) =~= row_values(self.values_map(), coords@));
        }
        r
    }

    /// Extracts what one variable name binds to: the single value of a
    /// plain cell key, the run of values of a one-dimensional range, or
    /// the row-major grid of a two-dimensional range, each missing cell
    /// contributing an empty value. Returns `None` exactly when the name
    /// is a malformed range token, per [`extract_spec`].
    pub fn extract_variable(&self, name: &String) -> (r: Option<CellArgument>)
        ensures
            match r {
                Some(arg) => extract_spec(self.values_map(), name@) matches Option::Some(av)
                    && arg@ == av,
                None => extract_spec(self.values_map(), name@) is None,
            },
    {
        if !has_uscore(name.as_str()) {
            match parse_cell_id(name.as_str()) {
                Some(c) => {
                    let enc = cell_id_to_string(&c);
                    if enc == *name {
                        Some(CellArgument::Value(self.get_value(&c)))
                    } else {
                        Some(CellArgument::Value(CellValue::Empty))
                    }
                },
                None => Some(CellArgument::Value(CellValue::Empty)),
            }
        } else {
            match split_range_token(name.as_str()) {
                None => None,
                Some((a, b)) => {
                    if a.row == b.row || a.col == b.col {
                        let coords = expand_range(&a, &b);
                        let vals = self.gather_values(&coords);
                        Some(CellArgument::Vector(vals))
                    } else {
                        let mut mat: Vec<Vec<CellValue>> = Vec::new();
                        let mut w: u64 = a.row as u64;
                        while w <= b.row as u64
                            invariant
                                a.row as int <= w as int <= vstd::math::max(
                                    b.row as int + 1,
                                    a.row as int,
                                ),
                                mat@.len() == w - a.row,
                                forall|r: int|
                                    0 <= r < mat@.len() ==> values_view((#[trigger] mat@[r])@)
                                        == row_values(
                                        self.values_map(),
                                        crate::codec::run_cols(
                                            (a.row + r) as u32,
                                            a.col as int,
                                            b.col as int,
                                        ),
                                    ),
                            decreases b.row as int + 1 - w as int,
                        {
                            let start = CellCoord { col: a.col, row: w as u32 };
                            let end = CellCoord { col: b.col, row: w as u32 };
                            let coords = expand_range(&start, &end);
                            let row_vals = self.gather_values(&coords);
                            proof {
                                assert(range_coords(start, end) == crate::codec::run_cols(
                                    w as u32,
                                    a.col as int,
                                    b.col as int,
                                ));
                            }
                            mat.push(row_vals);
                            w = w + 1;
                        }
                        proof {
                            let m = self.values_map();
                            let rows = match CellArgument::Matrix(mat)@ {
                                ArgView::Matrix(rs) => rs,
                                _ => Seq::empty(),
                            };
                            assert forall|r: int| 0 <= r < rows.len() implies rows[r]
                                == grid_values(m, a, b)[r] by {
                                assert(rows[r] == values_view(mat@[r]@));
                                assert(grid_values(m, a, b)[r] == row_values(
                                    m,
                                    crate::codec::run_cols(
                                        (a.row + r) as u32,
                                        a.col as int,
                                        b.col as int,
                                    ),
                                ));
                            }
                            assert(rows =~= grid_values(m, a, b));
                        }
                        Some(CellArgument::Matrix(mat))
                    }
                },
            }
        }
    }

    /// Gathers what the scheduler needs to evaluate a cell: the cell's
    /// current formula text, and one binding per variable name the
    /// expression engine finds in it, names that bind nothing left out.
    pub fn gather(&self, id: &CellCoord) -> (r: (String, Vec<(String, CellArgument)>))
        ensures
            r.0@ == self.formula_at(key_of(*id)),
            bindings_view(r.1@) == gather_spec(
                self.values_map(),
                referenced_names_of(self.formula_at(key_of(*id))),
            ),
    {
        let formula = self.get_formula(id);
        let names = find_variable_names(formula.as_str());
        let ghost names_v = names@.map_values(|n: String| n@);
        let mut out: Vec<(String, CellArgument)> = Vec::new();
        let mut i: usize = 0;
        while i < names.len()
            invariant
                i <= names@.len(),
                names_v == names@.map_values(|n: String| n@),
                names_v.len() == names@.len(),
                out@.len() == gather_spec(self.values_map(), names_v.subrange(0, i as int)).len(),
                forall|ii: int|
                    0 <= ii < out@.len() ==> ((#[trigger] out@[ii]).0@, out@[ii].1@) == gather_spec(
                        self.values_map(),
                        names_v.subrange(0, i as int),
                    )[ii],
            decreases names@.len() - i,
        {
            let ghost pre = names_v.subrange(0, i as int);
            let ghost pre1 = names_v.subrange(0, i as int + 1);
            proof {
                assert(pre1.drop_last() =~= pre);
                assert(pre1.last() == names_v[i as int]);
                assert(names_v[i as int] == names@[i as int]@);
            }
            match self.extract_variable(&names[i]) {
                Some(arg) => {
                    let name = names[i].clone();
                    out.push((name, arg));
                },
                None => {},
            }
            i = i + 1;
        }
        proof {
            assert(names_v.subrange(0, names_v.len() as int) =~= names_v);
            let g = gather_spec(self.values_map(), names_v);
            assert forall|ii: int| 0 <= ii < out@.len() implies bindings_view(out@)[ii]
                == g[ii] by {
                assert(bindings_view(out@)[ii] == (out@[ii].0@, out@[ii].1@));
            }
            assert(bindings_view(out@) =~= g);
        }
        (formula, out)
    }

    /// Classifies a signal for `id` by the cell's current formula text.
    pub fn classify(&self, id: &CellCoord) -> (r: SignalClass)
        ensures
            r == spec_classify(self.formula_at(key_of(*id))),
    {
        let f = self.get_formula(id);
        if contains_str(f.as_str(), "sleep_then") {
            SignalClass::Delayed
        } else {
            SignalClass::Immediate
        }
    }

    /// The reply a `get` of this cell receives once the cell is ready:
    /// an error reply when the value is the dependency-error sentinel,
    /// else the cell's canonical key with its current value.
    pub fn get_reply(&self, id: &CellCoord) -> (r: Reply)
        ensures
            view_is_dep_error(self.value_at(key_of(*id))) ==> (r matches Reply::Error(e) && e@
                == dep_error_text()),
            !view_is_dep_error(self.value_at(key_of(*id))) ==> (r matches Reply::Value(
                ktext,
                rv,
            ) && ktext@ == key_chars(*id) && rv@ == self.value_at(key_of(*id))),
    {
        let v = self.get_value(id);
        if v.is_dep_error() {
            Reply::Error(dep_error_string())
        } else {
            Reply::Value(cell_id_to_string(id), v)
        }
    }
}

} // verus!
