//! The satisfaction checker: evaluates every gate polynomial on every row of
//! a finished witness and checks every recorded copy constraint, reporting a
//! structured list of violations.
//!
//! A gate polynomial is satisfied at a row when it evaluates to the known
//! zero.  A product with a factor that is known to be zero is zero even if
//! the other factor is unknown: a disabled selector masks its gate, so rows
//! the circuit never touched do not count against the witness.  A copy
//! constraint is satisfied when both cells hold the same known value.

use vstd::prelude::*;
use crate::cs::ConstraintSystem;
use crate::expr::{expr_wf, Expr};
use crate::field::{known_zero, v_add, v_mul, v_neg, Felt, Value};
use crate::layouter::{CellRef, Layouter};

verus! {

/// The value of a gate polynomial on row `row` of the table: constants and
/// selector values are known, advice cells are read from the witness with
/// the query's rotation (wrapping past the bottom of the table), and a
/// product with a known-zero factor is known zero.
pub open spec fn eval(e: Expr, l: Layouter, row: int) -> Value
    decreases e,
{
    match e {
        Expr::Const(f) => Value::Known(f),
        Expr::Query(col, rot) => l.advice@[col.index as int]@[(row + rot) % (l.n_rows as int)],
        Expr::Sel(s) => if l.selectors@[s.index as int]@[row] {
            Value::Known(Felt { v: 1 })
        } else {
            Value::Known(Felt { v: 0 })
        },
        Expr::Neg(x) => v_neg(eval(*x, l, row)),
        Expr::Sum(x, y) => v_add(eval(*x, l, row), eval(*y, l, row)),
        Expr::Prod(x, y) => {
            let a = eval(*x, l, row);
            let b = eval(*y, l, row);
            if a == known_zero() || b == known_zero() {
                known_zero()
            } else {
                v_mul(a, b)
            }
        },
    }
}

/// Executable mirror of [`eval`].
pub fn eval_expr(e: &Expr, l: &Layouter, row: usize) -> (r: Value)
    requires
        l.wf(),
        l.n_rows >= 1,
        row < l.n_rows,
        expr_wf(*e, l.num_advice(), l.num_selectors()),
    ensures
        r == eval(*e, *l, row as int),
        r.wf(),
    decreases *e,
{
    match e {
        Expr::Const(f) => Value::Known(*f),
        Expr::Query(col, rot) => {
            let wrapped: usize = (((row as u128) + (*rot as u128)) % (l.n_rows as u128)) as usize;
            l.advice[col.index][wrapped]
        },
        Expr::Sel(s) => if l.selectors[s.index][row] {
            Value::Known(Felt { v: 1 })
        } else {
            Value::Known(Felt { v: 0 })
        },
        Expr::Neg(x) => eval_expr(&**x, l, row).neg(),
        Expr::Sum(x, y) => {
            let a = eval_expr(&**x, l, row);
            let b = eval_expr(&**y, l, row);
            a.add(b)
        },
        Expr::Prod(x, y) => {
            let a = eval_expr(&**x, l, row);
            let b = eval_expr(&**y, l, row);
            if a.is_known_zero() || b.is_known_zero() {
                Value::Known(Felt { v: 0 })
            } else {
                a.mul(b)
            }
        },
    }
}

/// One unsatisfied constraint: either gate `gate`'s polynomial `poly` does
/// not vanish on `row`, or the copy constraint with the given index in the
/// layouter's record does not hold between the two named cells.
#[derive(Clone, Copy, Debug, PartialEq, Eq, Structural)]
pub enum Violation {
    Gate { gate: usize, poly: usize, row: usize },
    Equality { index: usize, src: CellRef, dst: CellRef },
}

/// Whether polynomial `j` of gate `g` vanishes on row `r`.
pub open spec fn gate_ok(cs: ConstraintSystem, l: Layouter, g: int, j: int, r: int) -> bool {
    eval(cs.gates@[g].polys@[j], l, r) == known_zero()
}

/// Whether copy constraint `k` holds: both cells carry the same known value.
pub open spec fn copy_ok(l: Layouter, k: int) -> bool {
    let cp = l.copies@[k];
    &&& l.advice@[cp.src.column.index as int]@[cp.src.row as int] is Known
    &&& l.advice@[cp.src.column.index as int]@[cp.src.row as int] == l.advice@[
        cp.dst.column.index as int]@[cp.dst.row as int]
}

/// A witness satisfies a constraint system when every polynomial of every
/// gate vanishes on every row and every copy constraint holds.
pub open spec fn satisfied(cs: ConstraintSystem, l: Layouter) -> bool {
    &&& forall|g: int, j: int, r: int|
        0 <= g < cs.gates@.len() && 0 <= j < cs.gates@[g].polys@.len() && 0 <= r < l.n_rows
            ==> #[trigger] gate_ok(cs, l, g, j, r)
    &&& forall|k: int| 0 <= k < l.copies@.len() ==> #[trigger] copy_ok(l, k)
}

/// The violations of polynomial `j` of gate `g` over rows `0 .. upto`,
/// in row order.
pub open spec fn poly_viols(cs: ConstraintSystem, l: Layouter, g: int, j: int, upto: int) -> Seq<
    Violation,
>
    decreases upto,
{
    if upto <= 0 {
        Seq::empty()
    } else {
        poly_viols(cs, l, g, j, upto - 1) + if gate_ok(cs, l, g, j, upto - 1) {
            Seq::empty()
        } else {
            seq![Violation::Gate { gate: g as usize, poly: j as usize, row: (upto - 1) as usize }]
        }
    }
}

/// The violations of gate `g` over its polynomials `0 .. upto`, all rows.
pub open spec fn gate_viols(cs: ConstraintSystem, l: Layouter, g: int, upto: int) -> Seq<Violation>
    decreases upto,
{
    if upto <= 0 {
        Seq::empty()
    } else {
        gate_viols(cs, l, g, upto - 1) + poly_viols(cs, l, g, upto - 1, l.n_rows as int)
    }
}

/// Gate violations of gates `0 .. upto`.
pub open spec fn gates_viols(cs: ConstraintSystem, l: Layouter, upto: int) -> Seq<Violation>
    decreases upto,
{
    if upto <= 0 {
        Seq::empty()
    } else {
        gates_viols(cs, l, upto - 1) + gate_viols(
            cs,
            l,
            upto - 1,
            cs.gates@[upto - 1].polys@.len() as int,
        )
    }
}

/// The violations among copy constraints `0 .. upto`.
pub open spec fn copy_viols(l: Layouter, upto: int) -> Seq<Violation>
    decreases upto,
{
    if upto <= 0 {
        Seq::empty()
    } else {
        copy_viols(l, upto - 1) + if copy_ok(l, upto - 1) {
            Seq::empty()
        } else {
            seq![
                Violation::Equality {
                    index: (upto - 1) as usize,
                    src: l.copies@[upto - 1].src,
                    dst: l.copies@[upto - 1].dst,
                },
            ]
        }
    }
}

/// Every violation of the witness, gates first (in gate, polynomial, row
/// order), then copy constraints in record order.
pub open spec fn all_violations(cs: ConstraintSystem, l: Layouter) -> Seq<Violation> {
    gates_viols(cs, l, cs.gates@.len() as int) + copy_viols(l, l.copies@.len() as int)
}

proof fn lemma_poly_viols_empty(cs: ConstraintSystem, l: Layouter, g: int, j: int, upto: int)
    ensures
        poly_viols(cs, l, g, j, upto).len() == 0 <==> forall|r: int|
            0 <= r < upto ==> #[trigger] gate_ok(cs, l, g, j, r),
    decreases upto,
{
    if upto > 0 {
        lemma_poly_viols_empty(cs, l, g, j, upto - 1);
    }
}

proof fn lemma_gate_viols_empty(cs: ConstraintSystem, l: Layouter, g: int, upto: int)
    ensures
        gate_viols(cs, l, g, upto).len() == 0 <==> forall|j: int, r: int|
            0 <= j < upto && 0 <= r < l.n_rows ==> #[trigger] gate_ok(cs, l, g, j, r),
    decreases upto,
{
    if upto > 0 {
        lemma_gate_viols_empty(cs, l, g, upto - 1);
        lemma_poly_viols_empty(cs, l, g, upto - 1, l.n_rows as int);
    }
}

proof fn lemma_gates_viols_empty(cs: ConstraintSystem, l: Layouter, upto: int)
    ensures
        gates_viols(cs, l, upto).len() == 0 <==> forall|g: int, j: int, r: int|
            0 <= g < upto && 0 <= j < cs.gates@[g].polys@.len() && 0 <= r < l.n_rows
                ==> #[trigger] gate_ok(cs, l, g, j, r),
    decreases upto,
{
    if upto > 0 {
        lemma_gates_viols_empty(cs, l, upto - 1);
        lemma_gate_viols_empty(cs, l, upto - 1, cs.gates@[upto - 1].polys@.len() as int);
    }
}

proof fn lemma_copy_viols_empty(l: Layouter, upto: int)
    ensures
        copy_viols(l, upto).len() == 0 <==> forall|k: int| 0 <= k < upto ==> #[trigger] copy_ok(
            l,
            k,
        ),
    decreases upto,
{
    if upto > 0 {
        lemma_copy_viols_empty(l, upto - 1);
    }
}

/// A witness is satisfied exactly when the checker's violation list is
/// empty.
pub proof fn lemma_satisfied_iff_empty(cs: ConstraintSystem, l: Layouter)
    ensures
        satisfied(cs, l) <==> all_violations(cs, l).len() == 0,
{
    lemma_gates_viols_empty(cs, l, cs.gates@.len() as int);
    lemma_copy_viols_empty(l, l.copies@.len() as int);
}

proof fn lemma_copy_viols_contains(l: Layouter, k: int, upto: int)
    requires
        0 <= k < upto,
        !copy_ok(l, k),
    ensures
        copy_viols(l, upto).contains(
            Violation::Equality { index: k as usize, src: l.copies@[k].src, dst: l.copies@[k].dst },
        ),
    decreases upto,
{
    let target = Violation::Equality {
        index: k as usize,
        src: l.copies@[k].src,
        dst: l.copies@[k].dst,
    };
    if k == upto - 1 {
        let tail = seq![target];
        assert(copy_viols(l, upto) == copy_viols(l, upto - 1) + tail);
        assert(copy_viols(l, upto)[copy_viols(l, upto - 1).len() as int] == target);
    } else {
        lemma_copy_viols_contains(l, k, upto - 1);
        let pre = copy_viols(l, upto - 1);
        let i = choose|i: int| 0 <= i < pre.len() && pre[i] == target;
        assert(copy_viols(l, upto)[i] == target);
    }
}

/// A broken copy constraint is always reported: the checker's list contains
/// the equality violation with that constraint's index, and the witness is
/// not satisfied.  Damaging the source cell of a copy after assignment,
/// without updating the target, therefore surfaces as an
/// unsatisfied-constraint diagnostic.
pub proof fn lemma_copy_violation_reported(cs: ConstraintSystem, l: Layouter, k: int)
    requires
        0 <= k < l.copies@.len(),
        !copy_ok(l, k),
    ensures
        all_violations(cs, l).contains(
            Violation::Equality { index: k as usize, src: l.copies@[k].src, dst: l.copies@[k].dst },
        ),
        all_violations(cs, l).len() > 0,
        !satisfied(cs, l),
{
    let target = Violation::Equality {
        index: k as usize,
        src: l.copies@[k].src,
        dst: l.copies@[k].dst,
    };
    lemma_copy_viols_contains(l, k, l.copies@.len() as int);
    let cv = copy_viols(l, l.copies@.len() as int);
    let gv = gates_viols(cs, l, cs.gates@.len() as int);
    let i = choose|i: int| 0 <= i < cv.len() && cv[i] == target;
    assert(all_violations(cs, l)[gv.len() + i] == target);
    lemma_satisfied_iff_empty(cs, l);
}

/// Runs the checker: the returned vector is exactly [`all_violations`], so
/// it is empty precisely when the witness satisfies every gate and copy
/// constraint.
pub fn collect_violations(cs: &ConstraintSystem, l: &Layouter) -> (r: Vec<Violation>)
    requires
        cs.wf(),
        l.wf(),
        l.matches_cs(*cs),
        l.n_rows >= 1,
    ensures
        r@ == all_violations(*cs, *l),
{
    let ghost gcs = *cs;
    let ghost gl = *l;
    let mut out: Vec<Violation> = Vec::new();
    let mut g: usize = 0;
    while g < cs.gates.len()
        invariant
            gcs == *cs,
            gl == *l,
            cs.wf(),
            l.wf(),
            l.matches_cs(*cs),
            l.n_rows >= 1,
            g <= cs.gates@.len(),
            out@ == gates_viols(*cs, *l, g as int),
        decreases cs.gates@.len() - g,
    {
        let polys_len = cs.gates[g].polys.len();
        let mut j: usize = 0;
        while j < polys_len
            invariant
                gcs == *cs,
                gl == *l,
                cs.wf(),
                l.wf(),
                l.matches_cs(*cs),
                l.n_rows >= 1,
                g < cs.gates@.len(),
                polys_len == cs.gates@[g as int].polys@.len(),
                j <= polys_len,
                out@ == gates_viols(*cs, *l, g as int) + gate_viols(*cs, *l, g as int, j as int),
            decreases polys_len - j,
        {
            let mut row: usize = 0;
            while row < l.n_rows
                invariant
                    gcs == *cs,
                    gl == *l,
                    cs.wf(),
                    l.wf(),
                    l.matches_cs(*cs),
                    l.n_rows >= 1,
                    g < cs.gates@.len(),
                    polys_len == cs.gates@[g as int].polys@.len(),
                    j < polys_len,
                    row <= l.n_rows,
                    out@ == gates_viols(*cs, *l, g as int) + gate_viols(
                        *cs,
                        *l,
                        g as int,
                        j as int,
                    ) + poly_viols(*cs, *l, g as int, j as int, row as int),
                decreases l.n_rows - row,
            {
                let v = eval_expr(&cs.gates[g].polys[j], l, row);
                let ghost prev = out@;
                if !v.is_known_zero() {
                    out.push(Violation::Gate { gate: g, poly: j, row });
                }
                proof {
                    if !gate_ok(*cs, *l, g as int, j as int, row as int) {
                        assert(out@ =~= prev + seq![
                            Violation::Gate { gate: g, poly: j, row },
                        ]);
                    }
                    assert(out@ =~= gates_viols(*cs, *l, g as int) + gate_viols(
                        *cs,
                        *l,
                        g as int,
                        j as int,
                    ) + poly_viols(*cs, *l, g as int, j as int, row as int + 1));
                }
                row = row + 1;
            }
            proof {
                assert(out@ =~= gates_viols(*cs, *l, g as int) + gate_viols(
                    *cs,
                    *l,
                    g as int,
                    j as int + 1,
                ));
            }
            j = j + 1;
        }
        proof {
            assert(out@ =~= gates_viols(*cs, *l, g as int + 1));
        }
        g = g + 1;
    }
    let ghost gate_part = out@;
    let mut k: usize = 0;
    while k < l.copies.len()
        invariant
            gcs == *cs,
            gl == *l,
            cs.wf(),
            l.wf(),
            l.n_rows >= 1,
            k <= l.copies@.len(),
            gate_part == gates_viols(*cs, *l, cs.gates@.len() as int),
            out@ == gate_part + copy_viols(*l, k as int),
        decreases l.copies@.len() - k,
    {
        let cp = l.copies[k];
        let src_val = l.advice[cp.src.column.index][cp.src.row];
        let dst_val = l.advice[cp.dst.column.index][cp.dst.row];
        let ghost prev = out@;
        if !(src_val.is_known() && src_val == dst_val) {
            out.push(Violation::Equality { index: k, src: cp.src, dst: cp.dst });
        }
        proof {
            if !copy_ok(*l, k as int) {
                assert(out@ =~= prev + seq![
                    Violation::Equality { index: k, src: cp.src, dst: cp.dst },
                ]);
            }
            assert(out@ =~= gate_part + copy_viols(*l, k as int + 1));
        }
        k = k + 1;
    }
    proof {
        assert(out@ =~= all_violations(*cs, *l));
    }
    out
}

/// Whether the witness satisfies the whole constraint system.
pub fn is_satisfied(cs: &ConstraintSystem, l: &Layouter) -> (b: bool)
    requires
        cs.wf(),
        l.wf(),
        l.matches_cs(*cs),
        l.n_rows >= 1,
    ensures
        b == satisfied(*cs, *l),
{
    let v = collect_violations(cs, l);
    proof {
        lemma_satisfied_iff_empty(*cs, *l);
    }
    v.len() == 0
}

} // verus!
