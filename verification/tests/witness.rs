use fib_circuit::checker::{collect_violations, is_satisfied};
use fib_circuit::circuit::build_witness;
use fib_circuit::field::{Felt, Value, MODULUS};

fn known(v: u64) -> Value {
    Value::Known(Felt { v })
}

fn col_values(l: &fib_circuit::layouter::Layouter, col: usize, rows: usize) -> Vec<u64> {
    let mut out = Vec::new();
    for r in 0..rows {
        match l.advice[col][r] {
            Value::Known(f) => out.push(f.v),
            Value::Unknown => panic!("cell {}:{} unassigned", col, r),
        }
    }
    out
}

#[test]
fn nine_rows_sequence() {
    let (cs, cf, l) = build_witness(known(1), known(1), 9, 9).unwrap();
    let c = col_values(&l, cf.col_c.index, 9);
    assert_eq!(c, vec![2, 3, 5, 8, 13, 21, 34, 55, 89]);
    let a = col_values(&l, cf.col_a.index, 9);
    assert_eq!(a, vec![1, 1, 2, 3, 5, 8, 13, 21, 34]);
    let b = col_values(&l, cf.col_b.index, 9);
    assert_eq!(b, vec![1, 2, 3, 5, 8, 13, 21, 34, 55]);
    assert!(is_satisfied(&cs, &l));
    assert!(collect_violations(&cs, &l).is_empty());
}

#[test]
fn seed_row_only() {
    let (cs, cf, l) = build_witness(known(1), known(1), 1, 2).unwrap();
    assert!(is_satisfied(&cs, &l));
    let c = col_values(&l, cf.col_c.index, 1);
    assert_eq!(c, vec![2]);
    assert!(l.selectors[cf.selector.index][0]);
    assert!(!l.selectors[cf.selector.index][1]);
    assert_eq!(l.copies.len(), 0);
}

#[test]
fn general_recurrence_holds() {
    let (cs, cf, l) = build_witness(known(3), known(4), 6, 6).unwrap();
    let a = col_values(&l, cf.col_a.index, 6);
    let b = col_values(&l, cf.col_b.index, 6);
    let c = col_values(&l, cf.col_c.index, 6);
    for i in 0..6 {
        assert_eq!(c[i], (a[i] + b[i]) % MODULUS);
    }
    for i in 2..6 {
        assert_eq!(c[i], (c[i - 1] + c[i - 2]) % MODULUS);
    }
    assert_eq!(c[0], 7);
    assert_eq!(c[5], 3 * 8 + 4 * 13);
    assert!(is_satisfied(&cs, &l));
}

#[test]
fn slack_rows_do_not_count() {
    let (cs, _cf, l) = build_witness(known(1), known(1), 3, 16).unwrap();
    assert!(is_satisfied(&cs, &l));
    assert!(collect_violations(&cs, &l).is_empty());
}

#[test]
fn sums_reduce_modulo_the_field() {
    let (cs, cf, l) = build_witness(known(MODULUS - 1), known(1), 2, 2).unwrap();
    let c = col_values(&l, cf.col_c.index, 2);
    assert_eq!(c[0], 0);
    assert_eq!(c[1], 1);
    assert!(is_satisfied(&cs, &l));
}
