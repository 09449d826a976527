//! The circuit driver: configures the Fibonacci chip once, then drives it
//! through the row sequence, sliding a two-cell window over the last two
//! produced cells so that every row's column-C value is the sum of the two
//! before it.

use vstd::prelude::*;
use vstd::arithmetic::div_mod::lemma_small_mod;
use crate::checker::{copy_ok, eval, gate_ok, satisfied};
use crate::chip::{chip_fits, is_add_gate, is_fib_cs, FiboChip, FiboConfig};
use crate::cs::ConstraintSystem;
use crate::error::Error;
use crate::expr::Expr;
use crate::field::{known_zero, lemma_sum_cancels, v_add, v_neg, Value};
use crate::layouter::{AssignedCell, CellRef, CopyPair, Layouter, Mode};

verus! {

/// The three advice values of logical row `r` for seeds `a`, `b`: row `0`
/// holds the seeds and their sum, and every later row slides the window,
/// so `vrow(r) = (t(r), t(r+1), t(r+2))` for the sequence `t` with
/// `t(0) = a`, `t(1) = b`, `t(k) = t(k-1) + t(k-2)`.
pub open spec fn vrow(a: Value, b: Value, r: int) -> (Value, Value, Value)
    decreases r,
{
    if r <= 0 {
        (a, b, v_add(a, b))
    } else {
        let p = vrow(a, b, r - 1);
        (p.1, p.2, v_add(p.1, p.2))
    }
}

/// With two known seeds, every cell of every row is known.
pub proof fn lemma_vrow_known(a: Value, b: Value, r: int)
    requires
        a is Known,
        b is Known,
        r >= 0,
    ensures
        vrow(a, b, r).0 is Known,
        vrow(a, b, r).1 is Known,
        vrow(a, b, r).2 is Known,
    decreases r,
{
    if r > 0 {
        lemma_vrow_known(a, b, r - 1);
    }
}

/// Row values are reduced field elements whenever the seeds are.
pub proof fn lemma_vrow_wf(a: Value, b: Value, r: int)
    requires
        a.wf(),
        b.wf(),
        r >= 0,
    ensures
        vrow(a, b, r).0.wf(),
        vrow(a, b, r).1.wf(),
        vrow(a, b, r).2.wf(),
    decreases r,
{
    if r > 0 {
        lemma_vrow_wf(a, b, r - 1);
    }
}

/// The recurrence of the produced column-C values: from the third row on,
/// each equals the sum of the two preceding ones.
pub proof fn lemma_c_recurrence(a: Value, b: Value, i: int)
    requires
        i >= 2,
    ensures
        vrow(a, b, i).2 == v_add(vrow(a, b, i - 2).2, vrow(a, b, i - 1).2),
{
    assert(vrow(a, b, i).0 == vrow(a, b, i - 1).1);
    assert(vrow(a, b, i - 1).1 == vrow(a, b, i - 2).2);
}

/// A completely untouched table: nothing assigned, nothing enabled,
/// no copies, cursor at the top.
pub open spec fn fresh_layouter(l: Layouter) -> bool {
    &&& l.cursor == 0
    &&& !l.in_region
    &&& l.height == 0
    &&& forall|c: int, r: int|
        #![trigger l.advice@[c]@[r]]
        0 <= c < l.num_advice() && 0 <= r < l.n_rows ==> l.advice@[c]@[r] == Value::Unknown
    &&& forall|s: int, r: int|
        #![trigger l.selectors@[s]@[r]]
        0 <= s < l.num_selectors() && 0 <= r < l.n_rows ==> !l.selectors@[s]@[r]
    &&& l.copies@.len() == 0
}

/// The facts the synthesis loop maintains of every recorded copy pair:
/// both cells lie in already-closed rows, hold the same value, and (during
/// witness generation) that value is known.
pub open spec fn chained_copy_ok(l: Layouter, cp: CopyPair, upto: int) -> bool {
    &&& cp.src.row < upto
    &&& cp.dst.row < upto
    &&& l.advice@[cp.src.column.index as int]@[cp.src.row as int] == l.advice@[
        cp.dst.column.index as int]@[cp.dst.row as int]
    &&& l.mode == Mode::Witness ==> l.advice@[cp.src.column.index as int]@[
        cp.src.row as int] is Known
}

/// The chip's gate polynomial vanishes on any row where either its selector
/// is off, or the three cells hold known values with `c = a + b`.
proof fn lemma_add_gate_row(e: Expr, cf: FiboConfig, l: Layouter, r: int)
    requires
        l.wf(),
        l.n_rows >= 1,
        0 <= r < l.n_rows,
        is_add_gate(e, cf),
        cf.col_a.index < l.num_advice(),
        cf.col_b.index < l.num_advice(),
        cf.col_c.index < l.num_advice(),
        cf.selector.index < l.num_selectors(),
        l.sel(cf.selector.index as int, r) ==> {
            &&& l.cell(cf.col_a.index as int, r) is Known
            &&& l.cell(cf.col_b.index as int, r) is Known
            &&& l.cell(cf.col_c.index as int, r) == v_add(
                l.cell(cf.col_a.index as int, r),
                l.cell(cf.col_b.index as int, r),
            )
        },
    ensures
        eval(e, l, r) == known_zero(),
{
    match e {
        Expr::Prod(s0, sum1) => {
            let sv = eval(*s0, l, r);
            assert(sv == eval(Expr::Sel(cf.selector), l, r));
            if !l.sel(cf.selector.index as int, r) {
                assert(sv == known_zero());
                assert(eval(e, l, r) == known_zero());
            } else {
                assert(sv == Value::Known(crate::field::Felt { v: 1 }));
                match *sum1 {
                    Expr::Sum(qa, sum2) => {
                        match *sum2 {
                            Expr::Sum(qb, negc) => {
                                match *negc {
                                    Expr::Neg(qc) => {
                                        lemma_small_mod(r as nat, l.n_rows as nat);
                                        assert(eval(*qa, l, r) == l.cell(
                                            cf.col_a.index as int,
                                            r,
                                        ));
                                        assert(eval(*qb, l, r) == l.cell(
                                            cf.col_b.index as int,
                                            r,
                                        ));
                                        assert(eval(*qc, l, r) == l.cell(
                                            cf.col_c.index as int,
                                            r,
                                        ));
                                        let va = l.cell(cf.col_a.index as int, r);
                                        let vb = l.cell(cf.col_b.index as int, r);
                                        let vc = l.cell(cf.col_c.index as int, r);
                                        let fa = va->Known_0;
                                        let fb = vb->Known_0;
                                        let fc = vc->Known_0;
                                        assert(fa.wf() && fb.wf());
                                        lemma_sum_cancels(fa, fb, fc);
                                        assert(eval(*negc, l, r) == v_neg(vc));
                                        assert(eval(*sum2, l, r) == v_add(vb, v_neg(vc)));
                                        assert(eval(*sum1, l, r) == v_add(
                                            va,
                                            v_add(vb, v_neg(vc)),
                                        ));
                                        assert(eval(*sum1, l, r) == known_zero());
                                        assert(eval(e, l, r) == known_zero());
                                    },
                                    _ => {
                                        assert(false);
                                    },
                                }
                            },
                            _ => {
                                assert(false);
                            },
                        }
                    },
                    _ => {
                        assert(false);
                    },
                }
            }
        },
        _ => {
            assert(false);
        },
    }
}

/// The circuit: the two seed values.  `Unknown` seeds describe the shape of
/// the circuit without any witness.
#[derive(Clone, Copy, Debug, PartialEq, Eq, Structural)]
pub struct FibCircuit {
    pub a: Value,
    pub b: Value,
}

impl FibCircuit {
    /// The same circuit with every witness value removed: what the shape
    /// analysis phase runs on.
    pub fn without_witnesses(&self) -> (r: FibCircuit)
        ensures
            r.a == Value::Unknown,
            r.b == Value::Unknown,
    {
        FibCircuit { a: Value::Unknown, b: Value::Unknown }
    }

    /// Builds the circuit's constraint system: delegates to the chip.
    /// Runs once per circuit type, independent of any witness.
    pub fn configure(cs: &mut ConstraintSystem) -> (r: Result<FiboConfig, Error>)
        requires
            old(cs).wf(),
        ensures
            final(cs).wf(),
            (old(cs).frozen() || old(cs).num_selectors == usize::MAX) ==> r == Err::<
                FiboConfig,
                Error,
            >(Error::ConfigurationError) && *final(cs) == *old(cs),
            !(old(cs).frozen() || old(cs).num_selectors == usize::MAX) ==> {
                &&& r is Ok
                &&& is_fib_cs(*final(cs), r->Ok_0)
                &&& final(cs).num_advice() == old(cs).num_advice() + 3
                &&& final(cs).num_selectors == old(cs).num_selectors + 1
                &&& final(cs).gates@.len() == 1
                &&& final(cs).gates@[0].name@ == "add"@
                &&& r->Ok_0 == (FiboConfig {
                    col_a: crate::expr::Column {
                        index: old(cs).num_advice() as usize,
                        kind: crate::expr::ColumnKind::Advice,
                    },
                    col_b: crate::expr::Column {
                        index: (old(cs).num_advice() + 1) as usize,
                        kind: crate::expr::ColumnKind::Advice,
                    },
                    col_c: crate::expr::Column {
                        index: (old(cs).num_advice() + 2) as usize,
                        kind: crate::expr::ColumnKind::Advice,
                    },
                    selector: crate::expr::Selector { index: old(cs).num_selectors },
                })
            },
    {
        FiboChip::configure(cs)
    }

    /// Fills the witness for `rows` rows of the table: the seed row, then
    /// `rows - 1` chained rows, each copy-constrained to the two cells
    /// before it.  Runs once per proving instance on a fresh table.
    ///
    /// On success during witness generation, the produced witness satisfies
    /// every gate on every row of the table and every recorded copy
    /// constraint, and the column-C values follow the recurrence
    /// `c[i] = c[i-1] + c[i-2]`.  During witness generation an unknown seed
    /// fails with `SynthesisError` before anything is assigned.
    pub fn synthesize(&self, config: FiboConfig, cs: &ConstraintSystem, l: &mut Layouter, rows: usize) -> (r: Result<(), Error>)
        requires
            is_fib_cs(*cs, config),
            old(l).wf(),
            old(l).matches_cs(*cs),
            fresh_layouter(*old(l)),
            1 <= rows <= old(l).n_rows,
            self.a.wf(),
            self.b.wf(),
        ensures
            final(l).wf(),
            (r is Ok) <==> (old(l).mode == Mode::Shape || (self.a is Known && self.b is Known)),
            r is Err ==> r == Err::<(), Error>(Error::SynthesisError) && *final(l) == *old(l),
            r is Ok ==> {
                &&& final(l).matches_cs(*cs)
                &&& final(l).n_rows == old(l).n_rows
                &&& final(l).mode == old(l).mode
                &&& final(l).cursor == rows
                &&& !final(l).in_region
                &&& forall|i: int|
                    0 <= i < rows ==> #[trigger] final(l).cell(config.col_a.index as int, i)
                        == vrow(self.a, self.b, i).0
                &&& forall|i: int|
                    0 <= i < rows ==> #[trigger] final(l).cell(config.col_b.index as int, i)
                        == vrow(self.a, self.b, i).1
                &&& forall|i: int|
                    0 <= i < rows ==> #[trigger] final(l).cell(config.col_c.index as int, i)
                        == vrow(self.a, self.b, i).2
                &&& forall|i: int|
                    2 <= i < rows ==> #[trigger] final(l).cell(config.col_c.index as int, i)
                        == v_add(
                        final(l).cell(config.col_c.index as int, i - 2),
                        final(l).cell(config.col_c.index as int, i - 1),
                    )
                &&& forall|s: int, rr: int|
                    0 <= s < final(l).num_selectors() && 0 <= rr < final(l).n_rows ==> (
                    #[trigger] final(l).sel(s, rr) <==> (s == config.selector.index && rr < rows))
                &&& final(l).copies@.len() == 2 * (rows - 1)
                &&& old(l).mode == Mode::Witness ==> satisfied(*cs, *final(l))
            },
    {
        let chip = FiboChip::construct(config);
        let ghost l0 = *old(l);
        let ghost sa = self.a;
        let ghost sb = self.b;
        proof {
            assert(chip_fits(config, l0));
        }
        let first = chip.assign_first_row(l, self.a, self.b);
        let (mut prev_b, mut prev_c) = match first {
            Ok(t) => (t.1, t.2),
            Err(e) => {
                return Err(e);
            },
        };
        proof {
            let l1 = *l;
            assert forall|c: int, t: int|
                0 <= c < l1.num_advice() && 0 <= t < l1.n_rows && !(t < 1 && (c
                    == config.col_a.index || c == config.col_b.index || c
                    == config.col_c.index)) implies l1.advice@[c]@[t] == Value::Unknown by {
                assert(l1.cell(c, t) == l0.cell(c, t));
            }
        }
        let mut i: usize = 1;
        while i < rows
            invariant
                is_fib_cs(*cs, config),
                chip.config == config,
                sa == self.a,
                sb == self.b,
                sa.wf(),
                sb.wf(),
                1 <= i <= rows,
                rows <= l.n_rows,
                l.wf(),
                l.matches_cs(*cs),
                chip_fits(config, *l),
                l.n_rows == l0.n_rows,
                l.mode == l0.mode,
                l0.mode == Mode::Witness ==> (sa is Known && sb is Known),
                l.cursor == i,
                !l.in_region,
                forall|t: int|
                    0 <= t < i ==> #[trigger] l.cell(config.col_a.index as int, t) == vrow(
                        sa,
                        sb,
                        t,
                    ).0,
                forall|t: int|
                    0 <= t < i ==> #[trigger] l.cell(config.col_b.index as int, t) == vrow(
                        sa,
                        sb,
                        t,
                    ).1,
                forall|t: int|
                    0 <= t < i ==> #[trigger] l.cell(config.col_c.index as int, t) == vrow(
                        sa,
                        sb,
                        t,
                    ).2,
                forall|c: int, t: int|
                    #![trigger l.advice@[c]@[t]]
                    0 <= c < l.num_advice() && 0 <= t < l.n_rows && !(t < i && (c
                        == config.col_a.index || c == config.col_b.index || c
                        == config.col_c.index)) ==> l.advice@[c]@[t] == Value::Unknown,
                forall|s: int, t: int|
                    0 <= s < l.num_selectors() && 0 <= t < l.n_rows ==> (#[trigger] l.sel(s, t)
                        <==> (s == config.selector.index && t < i)),
                l.copies@.len() == 2 * (i - 1),
                forall|k: int|
                    0 <= k < l.copies@.len() ==> chained_copy_ok(
                        *l,
                        #[trigger] l.copies@[k],
                        i as int,
                    ),
                prev_b.value == vrow(sa, sb, i - 1).1,
                prev_c.value == vrow(sa, sb, i - 1).2,
                l.cell_ref_ok(prev_b.cell),
                l.cell_ref_ok(prev_c.cell),
                prev_b.cell.row < i,
                prev_c.cell.row < i,
                l.advice_eq@[prev_b.cell.column.index as int],
                l.advice_eq@[prev_c.cell.column.index as int],
                l.cell(prev_b.cell.column.index as int, prev_b.cell.row as int) == prev_b.value,
                l.cell(prev_c.cell.column.index as int, prev_c.cell.row as int) == prev_c.value,
            decreases rows - i,
        {
            let ghost lp = *l;
            proof {
                lemma_vrow_wf(sa, sb, i - 1);
                if l.mode == Mode::Witness {
                    lemma_vrow_known(sa, sb, i - 1);
                }
            }
            let c_cell = match chip.assign_row(l, &prev_b, &prev_c) {
                Ok(c) => c,
                Err(e) => {
                    proof {
                        assert(false);
                    }
                    return Err(e);
                },
            };
            proof {
                assert(vrow(sa, sb, i as int) == (
                    vrow(sa, sb, i - 1).1,
                    vrow(sa, sb, i - 1).2,
                    v_add(vrow(sa, sb, i - 1).1, vrow(sa, sb, i - 1).2),
                ));
                let ln = *l;
                assert(ln.copies@.len() == 2 * (i as int - 1) + 2);
                let p1 = CopyPair {
                    src: prev_b.cell,
                    dst: CellRef { column: config.col_a, row: lp.cursor },
                };
                let p2 = CopyPair {
                    src: prev_c.cell,
                    dst: CellRef { column: config.col_b, row: lp.cursor },
                };
                assert(ln.copies@ =~= lp.copies@ + seq![p1, p2]);
                assert(ln.cell(config.col_a.index as int, i as int) == prev_b.value);
                assert(ln.cell(config.col_b.index as int, i as int) == prev_c.value);
                assert(ln.cell(prev_b.cell.column.index as int, prev_b.cell.row as int)
                    == lp.cell(prev_b.cell.column.index as int, prev_b.cell.row as int));
                assert(ln.cell(prev_c.cell.column.index as int, prev_c.cell.row as int)
                    == lp.cell(prev_c.cell.column.index as int, prev_c.cell.row as int));
                assert forall|k: int| 0 <= k < ln.copies@.len() implies chained_copy_ok(
                    ln,
                    #[trigger] ln.copies@[k],
                    i as int + 1,
                ) by {
                    if k < 2 * (i as int - 1) {
                        assert(ln.copies@[k] == lp.copies@[k]);
                        assert(chained_copy_ok(lp, lp.copies@[k], i as int));
                        let cp = lp.copies@[k];
                        assert(lp.cell_ref_ok(cp.src) && lp.cell_ref_ok(cp.dst));
                        assert(ln.cell(cp.src.column.index as int, cp.src.row as int) == lp.cell(
                            cp.src.column.index as int,
                            cp.src.row as int,
                        ));
                        assert(ln.cell(cp.dst.column.index as int, cp.dst.row as int) == lp.cell(
                            cp.dst.column.index as int,
                            cp.dst.row as int,
                        ));
                    } else if k == 2 * (i as int - 1) {
                        assert(ln.copies@[k] == p1);
                    } else {
                        assert(ln.copies@[k] == p2);
                    }
                }
                assert forall|c: int, t: int|
                    0 <= c < ln.num_advice() && 0 <= t < ln.n_rows && !(t < i as int + 1 && (c
                        == config.col_a.index || c == config.col_b.index || c
                        == config.col_c.index)) implies ln.advice@[c]@[t] == Value::Unknown by {
                    assert(ln.cell(c, t) == lp.cell(c, t));
                }
            }
            prev_b = prev_c;
            prev_c = c_cell;
            i = i + 1;
        }
        proof {
            let lf = *l;
            if l0.mode == Mode::Witness {
                assert forall|g: int, j: int, rr: int|
                    0 <= g < cs.gates@.len() && 0 <= j < cs.gates@[g].polys@.len() && 0 <= rr
                        < lf.n_rows implies #[trigger] gate_ok(*cs, lf, g, j, rr) by {
                    assert(g == 0 && j == 0);
                    if lf.sel(config.selector.index as int, rr) {
                        assert(rr < rows);
                        lemma_vrow_known(sa, sb, rr);
                        assert(lf.cell(config.col_c.index as int, rr) == v_add(
                            lf.cell(config.col_a.index as int, rr),
                            lf.cell(config.col_b.index as int, rr),
                        ));
                    }
                    lemma_add_gate_row(cs.gates@[0].polys@[0], config, lf, rr);
                }
                assert forall|k: int| 0 <= k < lf.copies@.len() implies #[trigger] copy_ok(
                    lf,
                    k,
                ) by {
                    assert(chained_copy_ok(lf, lf.copies@[k], rows as int));
                }
                assert(satisfied(*cs, lf));
            }
        }
        Ok(())
    }
}


/// One-call driver for witness generation: configures a fresh constraint
/// system, builds a fresh table of `n_rows` rows, synthesizes `rows` rows
/// from the two seeds, and hands back system, configuration and witness.
/// Fails with `SynthesisError` exactly when a seed is unknown.
pub fn build_witness(a: Value, b: Value, rows: usize, n_rows: usize) -> (r: Result<
    (ConstraintSystem, FiboConfig, Layouter),
    Error,
>)
    requires
        a.wf(),
        b.wf(),
        1 <= rows <= n_rows,
    ensures
        (r is Ok) <==> (a is Known && b is Known),
        r is Err ==> r == Err::<(ConstraintSystem, FiboConfig, Layouter), Error>(
            Error::SynthesisError,
        ),
        r is Ok ==> {
            let cs = (r->Ok_0).0;
            let cf = (r->Ok_0).1;
            let l = (r->Ok_0).2;
            &&& is_fib_cs(cs, cf)
            &&& l.wf()
            &&& l.matches_cs(cs)
            &&& l.n_rows == n_rows
            &&& l.cursor == rows
            &&& l.mode == Mode::Witness
            &&& satisfied(cs, l)
            &&& forall|i: int|
                0 <= i < rows ==> #[trigger] l.cell(cf.col_a.index as int, i) == vrow(a, b, i).0
            &&& forall|i: int|
                0 <= i < rows ==> #[trigger] l.cell(cf.col_b.index as int, i) == vrow(a, b, i).1
            &&& forall|i: int|
                0 <= i < rows ==> #[trigger] l.cell(cf.col_c.index as int, i) == vrow(a, b, i).2
            &&& forall|i: int|
                2 <= i < rows ==> #[trigger] l.cell(cf.col_c.index as int, i) == v_add(
                    l.cell(cf.col_c.index as int, i - 2),
                    l.cell(cf.col_c.index as int, i - 1),
                )
        },
{
    let mut cs = ConstraintSystem::new();
    let config = match FibCircuit::configure(&mut cs) {
        Ok(c) => c,
        Err(_) => {
            proof {
                assert(false);
            }
            return Err(Error::SynthesisError);
        },
    };
    let circuit = FibCircuit { a, b };
    let mut l = Layouter::new(&cs, n_rows, Mode::Witness);
    proof {
        assert forall|c: int, r: int|
            0 <= c < l.num_advice() && 0 <= r < l.n_rows implies l.advice@[c]@[r]
            == Value::Unknown by {
            assert(l.cell(c, r) == Value::Unknown);
        }
        assert forall|ss: int, r: int|
            0 <= ss < l.num_selectors() && 0 <= r < l.n_rows implies !l.selectors@[ss]@[r] by {
            assert(!l.sel(ss, r));
        }
        assert(fresh_layouter(l));
    }
    match circuit.synthesize(config, &cs, &mut l, rows) {
        Ok(_u) => Ok((cs, config, l)),
        Err(e) => Err(e),
    }
}

/// Configuring the same circuit type twice yields structurally identical
/// constraint systems: two systems that each hold exactly what
/// [`FibCircuit::configure`] builds from an empty system agree in column
/// count, selector count and gate count, carry the same configuration, and
/// their gate polynomials are identical.
pub proof fn lemma_configure_idempotent(
    cs1: ConstraintSystem,
    cf1: FiboConfig,
    cs2: ConstraintSystem,
    cf2: FiboConfig,
)
    requires
        is_fib_cs(cs1, cf1),
        is_fib_cs(cs2, cf2),
        cs1.num_advice() == 3 && cs1.num_selectors == 1,
        cs2.num_advice() == 3 && cs2.num_selectors == 1,
        cf1.col_a.index == 0 && cf1.col_b.index == 1 && cf1.col_c.index == 2
            && cf1.selector.index == 0,
        cf2.col_a.index == 0 && cf2.col_b.index == 1 && cf2.col_c.index == 2
            && cf2.selector.index == 0,
    ensures
        cs1.num_advice() == cs2.num_advice(),
        cs1.num_selectors == cs2.num_selectors,
        cs1.gates@.len() == cs2.gates@.len(),
        cf1 == cf2,
        cs1.gates@[0].polys@[0] == cs2.gates@[0].polys@[0],
{
    assert(cf1 == cf2);
    let e1 = cs1.gates@[0].polys@[0];
    let e2 = cs2.gates@[0].polys@[0];
    match e1 {
        Expr::Prod(s1, r1) => {
            match e2 {
                Expr::Prod(s2, r2) => {
                    assert(*s1 == *s2);
                    match *r1 {
                        Expr::Sum(qa1, t1) => {
                            match *r2 {
                                Expr::Sum(qa2, t2) => {
                                    assert(*qa1 == *qa2);
                                    match *t1 {
                                        Expr::Sum(qb1, n1) => {
                                            match *t2 {
                                                Expr::Sum(qb2, n2) => {
                                                    assert(*qb1 == *qb2);
                                                    match *n1 {
                                                        Expr::Neg(qc1) => {
                                                            match *n2 {
                                                                Expr::Neg(qc2) => {
                                                                    assert(*qc1 == *qc2);
                                                                    assert(*n1 == *n2);
                                                                },
                                                                _ => {
                                                                    assert(false);
                                                                },
                                                            }
                                                        },
                                                        _ => {
                                                            assert(false);
                                                        },
                                                    }
                                                    assert(*t1 == *t2);
                                                },
                                                _ => {
                                                    assert(false);
                                                },
                                            }
                                        },
                                        _ => {
                                            assert(false);
                                        },
                                    }
                                    assert(*r1 == *r2);
                                },
                                _ => {
                                    assert(false);
                                },
                            }
                        },
                        _ => {
                            assert(false);
                        },
                    }
                    assert(e1 == e2);
                },
                _ => {
                    assert(false);
                },
            }
        },
        _ => {
            assert(false);
        },
    }
}

} // verus!

