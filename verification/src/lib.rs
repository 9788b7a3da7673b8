//! A verified core for a reactive spreadsheet server, with a handful of
//! smaller verified companions sharing the crate.
//!
//! The spreadsheet core is the heart: [`codec`] converts between cell
//! coordinates and their canonical string keys and expands range
//! tokens; [`sheet`] keeps the four stores — values, formulas,
//! readiness and dependencies — and offers every operation a session
//! handler and the evaluation scheduler need; [`sched`] is the
//! two-lane work queue that serves immediate work ahead of delayed
//! work; [`laws`] states and proves how those operations compose.
//! Formula parsing and evaluation belong to the expression engine of
//! `rsheet_lib`: the variable names a formula reads are fetched through
//! a trusted wrapper, and the evaluation itself — which may
//! deliberately sleep — is driven by the caller, who hands the outcome
//! back to [`sheet::Sheet::record_result`].
//!
//! The companions are independent verified modules: poker-hand
//! classification ([`cards`]), a Caesar cipher ([`caesar`]), chained
//! digit arithmetic ([`arith`]), the tribonacci sequence
//! ([`tribonacci`]), a light tree ([`lights`]), text upper-casing
//! ([`textops`]), dice ([`dice`]), a universe lookup ([`universe`]),
//! and a reference-counted box ([`rc`]).

pub mod arith;
pub mod caesar;
pub mod cards;
pub mod codec;
pub mod dice;
pub mod laws;
pub mod lights;
pub mod rc;
pub mod sched;
pub mod sheet;
pub mod textops;
pub mod tribonacci;
pub mod universe;
pub mod values;
