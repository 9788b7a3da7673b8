//! Laws tying the store operations together: what a `get` sees after a
//! `set` and a recorded outcome, and how a cell's recorded dependencies
//! bring it back to the scheduler when an upstream cell changes.
//!
//! Each law is stated over the same spec functions the store contracts
//! use, so it composes directly with the `ensures` of
//! [`crate::sheet::Sheet`]'s operations.

use vstd::prelude::*;

use crate::sheet::{map_dependents, name_key_set, names_key_set, stored_ready, stored_value};
use crate::values::CellValue;

verus! {

/// A recorded value is what a `get` of that cell sees, and an operation
/// on any other cell leaves it untouched: writes commute away from the
/// cell read. With [`crate::sheet::Sheet::record_result`]'s `ensures`
/// (recording an outcome for `k` inserts its value at `k`; a formula
/// write touches no value at all), this is why a constant formula's
/// recorded value survives any number of interleaved unrelated `set`s.
pub proof fn lemma_value_survives_unrelated_writes(
    m: Map<u64, CellValue>,
    k: u64,
    v: CellValue,
    k2: u64,
    v2: CellValue,
)
    requires
        k2 != k,
    ensures
        stored_value(m.insert(k, v), k) == v@,
        stored_value(m.insert(k, v).insert(k2, v2), k) == v@,
        stored_value(m.insert(k2, v2), k) == stored_value(m, k),
{
}

/// After a formula is stored for a cell, the cell reads not-ready until
/// an outcome for that very cell is recorded, however many other cells
/// are marked in between; recording the cell's own outcome makes it
/// ready. With the polling `get`, which reads a value only once the
/// readiness flag holds, a `get` issued before the evaluation lands
/// blocks rather than returning a stale or default value.
pub proof fn lemma_get_blocks_until_outcome(ready: Map<u64, bool>, k: u64, k2: u64, b2: bool)
    requires
        k2 != k,
    ensures
        !stored_ready(ready.insert(k, false), k),
        !stored_ready(ready.insert(k, false).insert(k2, b2), k),
        stored_ready(ready.insert(k, false).insert(k, true), k),
{
}

/// Membership in the key set of a name list is membership in the key
/// set of one of its names.
pub proof fn lemma_names_key_set_membership(names: Seq<Seq<char>>, k: u64)
    ensures
        names_key_set(names).contains(k) <==> exists|i: int|
            0 <= i < names.len() && name_key_set(#[trigger] names[i]).contains(k),
    decreases names.len(),
{
    if names.len() > 0 {
        lemma_names_key_set_membership(names.drop_last(), k);
        if names_key_set(names).contains(k) {
            if name_key_set(names.last()).contains(k) {
                assert(name_key_set(names[names.len() - 1]).contains(k));
            } else {
                let i = choose|i: int|
                    0 <= i < names.drop_last().len() && name_key_set(
                        #[trigger] names.drop_last()[i],
                    ).contains(k);
                assert(names.drop_last()[i] == names[i]);
                assert(name_key_set(names[i]).contains(k));
            }
        }
        if exists|i: int| 0 <= i < names.len() && name_key_set(#[trigger] names[i]).contains(k) {
            let i = choose|i: int|
                0 <= i < names.len() && name_key_set(#[trigger] names[i]).contains(k);
            if i < names.len() - 1 {
                assert(names.drop_last()[i] == names[i]);
                assert(name_key_set(names.drop_last()[i]).contains(k));
            }
        }
    }
}

/// Whatever dependency list a `set` records for a cell, every key in
/// its element set finds that cell again in the dependents scan: a
/// later `set` of an upstream cell re-signals this one with no client
/// action. With [`crate::sheet::Sheet::set_formula`]'s `ensures` (the
/// recorded list's element set is the key set of the formula's
/// referenced names), a formula that references an upstream cell is
/// re-evaluated whenever that cell is re-set.
pub proof fn lemma_reset_resignals_dependents(
    deps: Map<u64, Vec<u64>>,
    c: u64,
    dl: Vec<u64>,
    names: Seq<Seq<char>>,
    k: u64,
)
    requires
        dl@.to_set() == names_key_set(names),
        names_key_set(names).contains(k),
    ensures
        map_dependents(deps.insert(c, dl), k).contains(c),
{
    assert(dl@.to_set().contains(k));
}

} // verus!
