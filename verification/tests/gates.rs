use fib_circuit::checker::{collect_violations, is_satisfied, Violation};
use fib_circuit::cs::ConstraintSystem;
use fib_circuit::expr::Expr;
use fib_circuit::field::{Felt, Value};
use fib_circuit::layouter::{Layouter, Mode};

fn known(v: u64) -> Value {
    Value::Known(Felt { v })
}

#[test]
fn rotated_query_wraps_around() {
    let mut cs = ConstraintSystem::new();
    let col = cs.allocate_advice_column().unwrap();
    let sel = cs.allocate_selector().unwrap();
    // selector * (col[row + 1] - col[row]): every enabled row must equal
    // the one after it, the query past the last row wrapping to the first.
    let shift = Expr::Prod(
        Box::new(Expr::Sel(sel)),
        Box::new(Expr::Sum(
            Box::new(Expr::Query(col, 1)),
            Box::new(Expr::Neg(Box::new(Expr::Query(col, 0)))),
        )),
    );
    cs.create_gate("shift", vec![shift]).unwrap();
    let mut l = Layouter::new(&cs, 2, Mode::Witness);
    l.open_region("first");
    l.enable_selector(sel, 0).unwrap();
    l.assign_advice(col, 0, known(5)).unwrap();
    l.close_region().unwrap();
    l.open_region("second");
    l.enable_selector(sel, 0).unwrap();
    l.assign_advice(col, 0, known(5)).unwrap();
    l.close_region().unwrap();
    assert!(is_satisfied(&cs, &l));
    l.override_advice(col, 1, known(6)).unwrap();
    let v = collect_violations(&cs, &l);
    assert_eq!(v.len(), 2);
    assert_eq!(v[0], Violation::Gate { gate: 0, poly: 0, row: 0 });
    assert_eq!(v[1], Violation::Gate { gate: 0, poly: 0, row: 1 });
}

#[test]
fn constants_and_products_evaluate() {
    let mut cs = ConstraintSystem::new();
    let col = cs.allocate_advice_column().unwrap();
    let sel = cs.allocate_selector().unwrap();
    // selector * (2 * col[row] - col[row] - col[row]) vanishes everywhere.
    let double = Expr::Prod(
        Box::new(Expr::Sel(sel)),
        Box::new(Expr::Sum(
            Box::new(Expr::Prod(
                Box::new(Expr::Const(Felt { v: 2 })),
                Box::new(Expr::Query(col, 0)),
            )),
            Box::new(Expr::Sum(
                Box::new(Expr::Neg(Box::new(Expr::Query(col, 0)))),
                Box::new(Expr::Neg(Box::new(Expr::Query(col, 0)))),
            )),
        )),
    );
    cs.create_gate("double", vec![double]).unwrap();
    let mut l = Layouter::new(&cs, 1, Mode::Witness);
    l.open_region("only");
    l.enable_selector(sel, 0).unwrap();
    l.assign_advice(col, 0, known(7)).unwrap();
    l.close_region().unwrap();
    assert!(is_satisfied(&cs, &l));
}

#[test]
fn disabled_selector_masks_unassigned_cells() {
    let mut cs = ConstraintSystem::new();
    let col = cs.allocate_advice_column().unwrap();
    let sel = cs.allocate_selector().unwrap();
    let probe = Expr::Prod(
        Box::new(Expr::Sel(sel)),
        Box::new(Expr::Query(col, 0)),
    );
    cs.create_gate("probe", vec![probe]).unwrap();
    // Nothing assigned, selector never enabled: the product with the known
    // zero selector masks the unknown cells, so the empty table satisfies.
    let l = Layouter::new(&cs, 4, Mode::Witness);
    assert!(is_satisfied(&cs, &l));
    // Enabling the selector over an unassigned cell breaks satisfaction.
    let mut l2 = Layouter::new(&cs, 4, Mode::Witness);
    l2.open_region("armed");
    l2.enable_selector(sel, 0).unwrap();
    l2.close_region().unwrap();
    assert!(!is_satisfied(&cs, &l2));
    let v = collect_violations(&cs, &l2);
    assert_eq!(v, vec![Violation::Gate { gate: 0, poly: 0, row: 0 }]);
}
