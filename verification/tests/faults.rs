use fib_circuit::checker::{collect_violations, is_satisfied, Violation};
use fib_circuit::chip::FiboChip;
use fib_circuit::circuit::{build_witness, FibCircuit};
use fib_circuit::cs::ConstraintSystem;
use fib_circuit::field::{Felt, Value};
use fib_circuit::layouter::{Layouter, Mode};

fn known(v: u64) -> Value {
    Value::Known(Felt { v })
}

#[test]
fn forced_wrong_row_five_gives_one_violation() {
    let mut cs = ConstraintSystem::new();
    let cf = FibCircuit::configure(&mut cs).unwrap();
    let chip = FiboChip::construct(cf);
    let mut l = Layouter::new(&cs, 9, Mode::Witness);
    let (_a, b_cell, c_cell) = chip.assign_first_row(&mut l, known(1), known(1)).unwrap();
    let mut prev_b = b_cell;
    let mut prev_c = c_cell;
    for i in 1..9 {
        let new_c = if i == 5 {
            // Wire the row like any other, but force column C to a wrong
            // sum; the carried handle keeps later rows consistent with it.
            l.open_region("test region");
            l.enable_selector(cf.selector, 0).unwrap();
            l.copy_advice(&prev_b, cf.col_a, 0).unwrap();
            l.copy_advice(&prev_c, cf.col_b, 0).unwrap();
            let wrong = match (prev_b.value, prev_c.value) {
                (Value::Known(x), Value::Known(y)) => known(x.v + y.v + 1),
                _ => unreachable!(),
            };
            let cell = l.assign_advice(cf.col_c, 0, wrong).unwrap();
            l.close_region().unwrap();
            cell
        } else {
            chip.assign_row(&mut l, &prev_b, &prev_c).unwrap()
        };
        prev_b = prev_c;
        prev_c = new_c;
    }
    let violations = collect_violations(&cs, &l);
    assert_eq!(violations.len(), 1);
    assert_eq!(violations[0], Violation::Gate { gate: 0, poly: 0, row: 5 });
    assert_eq!(cs.gates[0].name.as_str(), "add");
    assert!(!is_satisfied(&cs, &l));
}

#[test]
fn mutated_copy_source_is_detected() {
    let (cs, cf, mut l) = build_witness(known(1), known(1), 9, 9).unwrap();
    assert!(is_satisfied(&cs, &l));
    // Damage the source of a copy constraint without updating its target:
    // row 5's column-C cell feeds row 6's column-B cell.
    l.override_advice(cf.col_c, 5, known(999)).unwrap();
    let violations = collect_violations(&cs, &l);
    assert!(!violations.is_empty());
    assert!(!is_satisfied(&cs, &l));
    let mut copy_hit_row_five = false;
    for v in &violations {
        if let Violation::Equality { index, src, dst } = v {
            assert_eq!(l.copies[*index].src, *src);
            assert_eq!(l.copies[*index].dst, *dst);
            if src.column == cf.col_c && src.row == 5 {
                copy_hit_row_five = true;
            }
        }
    }
    assert!(copy_hit_row_five);
    assert!(violations.contains(&Violation::Gate { gate: 0, poly: 0, row: 5 }));
}

#[test]
fn configuring_twice_is_idempotent() {
    let mut cs1 = ConstraintSystem::new();
    let cf1 = FibCircuit::configure(&mut cs1).unwrap();
    let mut cs2 = ConstraintSystem::new();
    let cf2 = FibCircuit::configure(&mut cs2).unwrap();
    assert_eq!(cf1, cf2);
    assert_eq!(cs1.advice_eq.len(), cs2.advice_eq.len());
    assert_eq!(cs1.advice_eq, cs2.advice_eq);
    assert_eq!(cs1.fixed_eq.len(), cs2.fixed_eq.len());
    assert_eq!(cs1.instance_eq.len(), cs2.instance_eq.len());
    assert_eq!(cs1.num_selectors, cs2.num_selectors);
    assert_eq!(cs1.gates.len(), cs2.gates.len());
    assert_eq!(cs1.gates[0].name, cs2.gates[0].name);
    assert_eq!(cs1.gates[0].polys.len(), cs2.gates[0].polys.len());
}
