use std::collections::HashMap;

use rsheet::codec::CellCoord;
use rsheet::sched::WorkQueue;
use rsheet::sheet::{Reply, Sheet, SignalClass};
use rsheet::values::{CellArgument, CellValue};

use rsheet_lib::cell_expr::{CellArgument as ExtArgument, CellExpr};
use rsheet_lib::cell_value::CellValue as ExtValue;

fn coord(col: u32, row: u32) -> CellCoord {
    CellCoord { col, row }
}

fn coord_of_key(k: u64) -> CellCoord {
    CellCoord { col: (k >> 32) as u32, row: (k & 0xFFFF_FFFF) as u32 }
}

fn to_ext_value(v: &CellValue) -> ExtValue {
    match v {
        CellValue::Int(i) => ExtValue::Int(*i),
        CellValue::Text(s) => ExtValue::String(s.clone()),
        CellValue::Error(e) => ExtValue::Error(e.clone()),
        CellValue::Empty => ExtValue::None,
    }
}

fn from_ext_value(v: ExtValue) -> CellValue {
    match v {
        ExtValue::Int(i) => CellValue::Int(i),
        ExtValue::String(s) => CellValue::Text(s),
        ExtValue::Error(e) => CellValue::Error(e),
        ExtValue::None => CellValue::Empty,
    }
}

fn to_ext_argument(a: &CellArgument) -> ExtArgument {
    match a {
        CellArgument::Value(v) => ExtArgument::Value(to_ext_value(v)),
        CellArgument::Vector(vs) => ExtArgument::Vector(vs.iter().map(to_ext_value).collect()),
        CellArgument::Matrix(m) => {
            ExtArgument::Matrix(m.iter().map(|row| row.iter().map(to_ext_value).collect()).collect())
        }
    }
}

/// One scheduler step: gather, evaluate through the expression engine,
/// record the outcome.
fn evaluate_cell(sheet: &mut Sheet, c: &CellCoord) {
    let (formula, binds) = sheet.gather(c);
    let mut ctx: HashMap<String, ExtArgument> = HashMap::new();
    for (name, arg) in binds.iter() {
        ctx.insert(name.clone(), to_ext_argument(arg));
    }
    let outcome = match CellExpr::new(&formula).evaluate(&ctx) {
        Ok(v) => Ok(from_ext_value(v)),
        Err(_) => Err(()),
    };
    sheet.record_result(c, outcome);
}

/// Drains the queue the way the worker does, re-signaling dependents.
fn pump(sheet: &mut Sheet, q: &mut WorkQueue) {
    while let Some(k) = q.pop() {
        let c = coord_of_key(k);
        evaluate_cell(sheet, &c);
        for d in sheet.dependents_of(&c) {
            let dc = coord_of_key(d);
            let class = sheet.classify(&dc);
            q.enqueue(d, class);
        }
    }
}

fn signal(sheet: &Sheet, q: &mut WorkQueue, c: &CellCoord, k: u64) {
    let class = sheet.classify(c);
    q.enqueue(k, class);
}

fn set_and_signal(sheet: &mut Sheet, q: &mut WorkQueue, c: &CellCoord, formula: &str) {
    sheet.set_formula(c, formula.to_string());
    let k = rsheet::codec::cell_key(c);
    signal(sheet, q, c, k);
}

#[test]
fn constant_formula_survives_unrelated_sets() {
    let mut sheet = Sheet::new();
    let mut q = WorkQueue::new();
    let a1 = coord(0, 0);
    set_and_signal(&mut sheet, &mut q, &a1, "7");
    assert!(!sheet.is_ready(&a1));
    // Unrelated cells are set and evaluated in between.
    for row in 1..20 {
        set_and_signal(&mut sheet, &mut q, &coord(3, row), "1");
    }
    pump(&mut sheet, &mut q);
    assert!(sheet.is_ready(&a1));
    assert!(matches!(sheet.get_value(&a1), CellValue::Int(7)));
    match sheet.get_reply(&a1) {
        Reply::Value(key, CellValue::Int(7)) => assert_eq!(key, "A1"),
        other => panic!("unexpected reply: {:?}", to_ext_value(&reply_value(other))),
    }
}

fn reply_value(r: Reply) -> CellValue {
    match r {
        Reply::Value(_, v) => v,
        Reply::Error(e) => CellValue::Error(e),
    }
}

#[test]
fn dependent_cell_becomes_ready_with_the_correct_sum() {
    let mut sheet = Sheet::new();
    let mut q = WorkQueue::new();
    let a1 = coord(0, 0);
    let a2 = coord(0, 1);
    let a3 = coord(0, 2);
    set_and_signal(&mut sheet, &mut q, &a1, "1");
    set_and_signal(&mut sheet, &mut q, &a2, "2");
    set_and_signal(&mut sheet, &mut q, &a3, "A1 + A2");
    // Before the scheduler runs, the sum must read not-ready: a get
    // blocks rather than returning a stale or default value.
    assert!(!sheet.is_ready(&a3));
    pump(&mut sheet, &mut q);
    assert!(sheet.is_ready(&a3));
    assert!(matches!(sheet.get_value(&a3), CellValue::Int(3)));
}

#[test]
fn resetting_a_dependency_updates_the_dependent() {
    let mut sheet = Sheet::new();
    let mut q = WorkQueue::new();
    let a1 = coord(0, 0);
    let a2 = coord(0, 1);
    let a3 = coord(0, 2);
    set_and_signal(&mut sheet, &mut q, &a1, "1");
    set_and_signal(&mut sheet, &mut q, &a2, "2");
    set_and_signal(&mut sheet, &mut q, &a3, "A1 + A2");
    pump(&mut sheet, &mut q);
    assert!(matches!(sheet.get_value(&a3), CellValue::Int(3)));
    // Re-set A1 only; nothing is issued for A3.
    set_and_signal(&mut sheet, &mut q, &a1, "5");
    let a3_key = rsheet::codec::cell_key(&a3);
    assert!(sheet.dependents_of(&a1).contains(&a3_key));
    pump(&mut sheet, &mut q);
    assert!(matches!(sheet.get_value(&a3), CellValue::Int(7)));
}

#[test]
fn range_binding_is_the_row_major_grid() {
    let mut sheet = Sheet::new();
    let mut q = WorkQueue::new();
    set_and_signal(&mut sheet, &mut q, &coord(0, 0), "1");
    set_and_signal(&mut sheet, &mut q, &coord(1, 0), "2");
    set_and_signal(&mut sheet, &mut q, &coord(0, 1), "3");
    pump(&mut sheet, &mut q);
    // B2 was never set: it contributes an empty value, not an error.
    match sheet.extract_variable(&"A1_B2".to_string()) {
        Some(CellArgument::Matrix(rows)) => {
            assert_eq!(rows.len(), 2);
            assert!(matches!(rows[0][0], CellValue::Int(1)));
            assert!(matches!(rows[0][1], CellValue::Int(2)));
            assert!(matches!(rows[1][0], CellValue::Int(3)));
            assert!(matches!(rows[1][1], CellValue::Empty));
        }
        _ => panic!("expected a matrix binding"),
    }
    // One-dimensional spans bind runs of values.
    match sheet.extract_variable(&"A1_B1".to_string()) {
        Some(CellArgument::Vector(vs)) => {
            assert_eq!(vs.len(), 2);
            assert!(matches!(vs[0], CellValue::Int(1)));
            assert!(matches!(vs[1], CellValue::Int(2)));
        }
        _ => panic!("expected a vector binding"),
    }
    // A malformed range token binds nothing.
    assert!(sheet.extract_variable(&"A1_B2_C3".to_string()).is_none());
}

#[test]
fn range_sum_reads_the_grid() {
    let mut sheet = Sheet::new();
    let mut q = WorkQueue::new();
    set_and_signal(&mut sheet, &mut q, &coord(0, 0), "1");
    set_and_signal(&mut sheet, &mut q, &coord(1, 0), "2");
    set_and_signal(&mut sheet, &mut q, &coord(0, 1), "3");
    set_and_signal(&mut sheet, &mut q, &coord(1, 1), "4");
    set_and_signal(&mut sheet, &mut q, &coord(2, 5), "sum(A1_B2)");
    pump(&mut sheet, &mut q);
    assert!(matches!(sheet.get_value(&coord(2, 5)), CellValue::Int(10)));
}

#[test]
fn failed_evaluation_yields_an_error_reply_and_spares_others() {
    let mut sheet = Sheet::new();
    let mut q = WorkQueue::new();
    let a1 = coord(0, 0);
    let b1 = coord(1, 0);
    let c1 = coord(2, 0);
    // A1 itself evaluates to an error value; B1 reads it and fails.
    set_and_signal(&mut sheet, &mut q, &a1, "asdf");
    set_and_signal(&mut sheet, &mut q, &b1, "A1 + 1");
    set_and_signal(&mut sheet, &mut q, &c1, "2");
    pump(&mut sheet, &mut q);
    match sheet.get_reply(&b1) {
        Reply::Error(e) => assert_eq!(e, "Dependency error"),
        Reply::Value(k, v) => panic!("expected an error reply, got {} = {:?}", k, to_ext_value(&v)),
    }
    // The failure neither blocks nor poisons the other cells.
    assert!(sheet.is_ready(&c1));
    assert!(matches!(sheet.get_value(&c1), CellValue::Int(2)));
}

#[test]
fn immediate_work_overtakes_earlier_delayed_work() {
    let mut q = WorkQueue::new();
    q.enqueue(10, SignalClass::Delayed);
    q.enqueue(11, SignalClass::Delayed);
    q.enqueue(12, SignalClass::Immediate);
    assert_eq!(q.pop(), Some(12));
    assert_eq!(q.pop(), Some(10));
    assert_eq!(q.pop(), Some(11));
    assert_eq!(q.pop(), None);
    assert!(q.is_empty());
}

#[test]
fn formulas_calling_the_delay_primitive_classify_as_delayed() {
    let mut sheet = Sheet::new();
    let d1 = coord(3, 0);
    let d2 = coord(3, 1);
    sheet.set_formula(&d1, "sleep_then(10, 5)".to_string());
    sheet.set_formula(&d2, "5".to_string());
    assert_eq!(sheet.classify(&d1), SignalClass::Delayed);
    assert_eq!(sheet.classify(&d2), SignalClass::Immediate);
    // A cell never set classifies as immediate: its formula is empty.
    assert_eq!(sheet.classify(&coord(9, 9)), SignalClass::Immediate);
}

#[test]
fn delayed_evaluation_still_lands() {
    let mut sheet = Sheet::new();
    let mut q = WorkQueue::new();
    let d1 = coord(3, 0);
    set_and_signal(&mut sheet, &mut q, &d1, "sleep_then(10, 41)");
    pump(&mut sheet, &mut q);
    assert!(matches!(sheet.get_value(&d1), CellValue::Int(41)));
}
