use fib_circuit::circuit::{build_witness, FibCircuit};
use fib_circuit::cs::ConstraintSystem;
use fib_circuit::error::Error;
use fib_circuit::expr::{Column, ColumnKind};
use fib_circuit::field::{Felt, Value};
use fib_circuit::layouter::{Layouter, Mode};

fn known(v: u64) -> Value {
    Value::Known(Felt { v })
}

#[test]
fn unknown_seed_fails_synthesis() {
    let r = build_witness(Value::Unknown, known(1), 9, 9);
    assert_eq!(r.err(), Some(Error::SynthesisError));
    let r = build_witness(known(1), Value::Unknown, 9, 9);
    assert_eq!(r.err(), Some(Error::SynthesisError));
}

#[test]
fn unknown_seed_fails_before_assignment() {
    let mut cs = ConstraintSystem::new();
    let cf = FibCircuit::configure(&mut cs).unwrap();
    let circuit = FibCircuit { a: Value::Unknown, b: known(1) };
    let mut l = Layouter::new(&cs, 9, Mode::Witness);
    let r = circuit.synthesize(cf, &cs, &mut l, 9);
    assert_eq!(r, Err(Error::SynthesisError));
    assert_eq!(l.cursor, 0);
    assert_eq!(l.copies.len(), 0);
    for col in &l.advice {
        for v in col {
            assert_eq!(*v, Value::Unknown);
        }
    }
}

#[test]
fn shape_analysis_accepts_unknown_seeds() {
    let mut cs = ConstraintSystem::new();
    let cf = FibCircuit::configure(&mut cs).unwrap();
    let circuit = FibCircuit { a: known(1), b: known(1) };
    let shape = circuit.without_witnesses();
    assert_eq!(shape.a, Value::Unknown);
    let mut l = Layouter::new(&cs, 9, Mode::Shape);
    let r = shape.synthesize(cf, &cs, &mut l, 9);
    assert_eq!(r, Ok(()));
    assert_eq!(l.cursor, 9);
}

#[test]
fn allocation_after_freeze_is_rejected() {
    let mut cs = ConstraintSystem::new();
    let cf = FibCircuit::configure(&mut cs).unwrap();
    assert_eq!(cs.allocate_advice_column().err(), Some(Error::ConfigurationError));
    assert_eq!(cs.allocate_fixed_column().err(), Some(Error::ConfigurationError));
    assert_eq!(cs.allocate_instance_column().err(), Some(Error::ConfigurationError));
    assert_eq!(cs.allocate_selector().err(), Some(Error::ConfigurationError));
    assert_eq!(cs.enable_equality(cf.col_a).err(), Some(Error::ConfigurationError));
}

#[test]
fn configure_on_frozen_system_is_rejected() {
    let mut cs = ConstraintSystem::new();
    FibCircuit::configure(&mut cs).unwrap();
    assert_eq!(FibCircuit::configure(&mut cs).err(), Some(Error::ConfigurationError));
}

#[test]
fn enable_equality_on_missing_column_is_rejected() {
    let mut cs = ConstraintSystem::new();
    let col = cs.allocate_advice_column().unwrap();
    assert_eq!(col.index, 0);
    let ghost_col = Column { index: 7, kind: ColumnKind::Advice };
    assert_eq!(cs.enable_equality(ghost_col).err(), Some(Error::ColumnMismatch));
}

#[test]
fn empty_and_invalid_gates_are_rejected() {
    let mut cs = ConstraintSystem::new();
    let _col = cs.allocate_advice_column().unwrap();
    assert_eq!(cs.create_gate("empty", Vec::new()).err(), Some(Error::ConfigurationError));
    let bad_query = fib_circuit::expr::Expr::Query(Column { index: 9, kind: ColumnKind::Advice }, 0);
    assert_eq!(cs.create_gate("bad", vec![bad_query]).err(), Some(Error::ConfigurationError));
    assert_eq!(cs.gates.len(), 0);
}

#[test]
fn region_protocol_errors() {
    let mut cs = ConstraintSystem::new();
    let cf = FibCircuit::configure(&mut cs).unwrap();
    let mut l = Layouter::new(&cs, 4, Mode::Witness);
    assert_eq!(l.assign_advice(cf.col_a, 0, known(1)).err(), Some(Error::RegionClosed));
    assert_eq!(l.enable_selector(cf.selector, 0).err(), Some(Error::RegionClosed));
    assert_eq!(l.close_region().err(), Some(Error::RegionClosed));
    l.open_region("test region");
    let off_table = Column { index: 5, kind: ColumnKind::Advice };
    assert_eq!(l.assign_advice(off_table, 0, known(1)).err(), Some(Error::ColumnMismatch));
    assert_eq!(l.assign_advice(cf.col_a, 9, known(1)).err(), Some(Error::ColumnMismatch));
    let cell = l.assign_advice(cf.col_a, 0, known(1)).unwrap();
    assert_eq!(cell.cell.row, 0);
    assert_eq!(l.assign_advice(cf.col_a, 0, known(2)).err(), Some(Error::AlreadyAssigned));
    assert_eq!(l.assign_advice(cf.col_a, 0, known(1)).map(|c| c.value), Ok(known(1)));
    assert_eq!(l.assign_advice(cf.col_a, 1, Value::Unknown).err(), Some(Error::SynthesisError));
    assert_eq!(l.close_region(), Ok(()));
    assert_eq!(l.assign_advice(cf.col_a, 1, known(3)).err(), Some(Error::RegionClosed));
}

#[test]
fn copy_without_equality_is_rejected() {
    let mut cs = ConstraintSystem::new();
    let col_x = cs.allocate_advice_column().unwrap();
    let col_y = cs.allocate_advice_column().unwrap();
    let mut l = Layouter::new(&cs, 4, Mode::Witness);
    l.open_region("test region");
    let cell = l.assign_advice(col_x, 0, known(5)).unwrap();
    assert_eq!(l.copy_advice(&cell, col_y, 1).err(), Some(Error::EqualityNotEnabled));
}
