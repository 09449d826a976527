//! The Fibonacci chip: a three-column, one-selector, one-gate configuration
//! implementing `a + b = c`, with the two assignment operations that fill a
//! seed row and chain every later row to the previous one by copy
//! constraints.

use vstd::prelude::*;
use crate::cs::ConstraintSystem;
use crate::error::Error;
use crate::expr::{Column, ColumnKind, Expr, Selector};
use crate::field::{v_add, Value};
use crate::layouter::{AssignedCell, CellRef, CopyPair, Layouter, Mode};

verus! {

/// The chip's frozen configuration: the three advice columns and the
/// selector of its single `add` gate.
#[derive(Clone, Copy, Debug, PartialEq, Eq, Structural)]
pub struct FiboConfig {
    pub col_a: Column,
    pub col_b: Column,
    pub col_c: Column,
    pub selector: Selector,
}

/// The chip: assignment logic over a [`FiboConfig`].
#[derive(Clone, Copy, Debug)]
pub struct FiboChip {
    pub config: FiboConfig,
}

/// Whether `e` is exactly the chip's gate polynomial
/// `selector * (a + (b + (-c)))`, queried on the current row.
pub open spec fn is_add_gate(e: Expr, cf: FiboConfig) -> bool {
    match e {
        Expr::Prod(s, sum1) => {
            &&& *s == Expr::Sel(cf.selector)
            &&& match *sum1 {
                Expr::Sum(qa, sum2) => {
                    &&& *qa == Expr::Query(cf.col_a, 0)
                    &&& match *sum2 {
                        Expr::Sum(qb, negc) => {
                            &&& *qb == Expr::Query(cf.col_b, 0)
                            &&& match *negc {
                                Expr::Neg(qc) => *qc == Expr::Query(cf.col_c, 0),
                                _ => false,
                            }
                        },
                        _ => false,
                    }
                },
                _ => false,
            }
        },
        _ => false,
    }
}

/// Whether the configuration's columns and selector exist in the table and
/// the three columns are distinct, advice, and equality-eligible.
pub open spec fn chip_fits(cf: FiboConfig, l: Layouter) -> bool {
    &&& cf.col_a.kind == ColumnKind::Advice && cf.col_a.index < l.num_advice()
    &&& cf.col_b.kind == ColumnKind::Advice && cf.col_b.index < l.num_advice()
    &&& cf.col_c.kind == ColumnKind::Advice && cf.col_c.index < l.num_advice()
    &&& cf.col_a.index != cf.col_b.index
    &&& cf.col_a.index != cf.col_c.index
    &&& cf.col_b.index != cf.col_c.index
    &&& cf.selector.index < l.num_selectors()
    &&& l.advice_eq@[cf.col_a.index as int]
    &&& l.advice_eq@[cf.col_b.index as int]
    &&& l.advice_eq@[cf.col_c.index as int]
}

/// Whether the constraint system is exactly the shape this chip configures:
/// three equality-eligible advice columns, one selector, and the single
/// `add` gate over them.
pub open spec fn is_fib_cs(cs: ConstraintSystem, cf: FiboConfig) -> bool {
    &&& cs.wf()
    &&& cf.col_a.kind == ColumnKind::Advice && cf.col_a.index < cs.num_advice()
    &&& cf.col_b.kind == ColumnKind::Advice && cf.col_b.index < cs.num_advice()
    &&& cf.col_c.kind == ColumnKind::Advice && cf.col_c.index < cs.num_advice()
    &&& cf.col_a.index != cf.col_b.index
    &&& cf.col_a.index != cf.col_c.index
    &&& cf.col_b.index != cf.col_c.index
    &&& cf.selector.index < cs.num_selectors
    &&& cs.advice_eq@[cf.col_a.index as int]
    &&& cs.advice_eq@[cf.col_b.index as int]
    &&& cs.advice_eq@[cf.col_c.index as int]
    &&& cs.gates@.len() == 1
    &&& cs.gates@[0].polys@.len() == 1
    &&& is_add_gate(cs.gates@[0].polys@[0], cf)
}

impl FiboChip {
    /// Wraps a configuration into a chip.
    pub fn construct(config: FiboConfig) -> (r: FiboChip)
        ensures
            r.config == config,
    {
        FiboChip { config }
    }

    /// Builds the chip's shape in the given constraint system: allocates the
    /// three advice columns and the selector, marks the columns
    /// equality-eligible, and registers the `add` gate, freezing the shape.
    /// Fails exactly when the system is already frozen (or its selector
    /// count is exhausted), leaving it untouched in that case.
    pub fn configure(cs: &mut ConstraintSystem) -> (r: Result<FiboConfig, Error>)
        requires
            old(cs).wf(),
        ensures
            final(cs).wf(),
            (old(cs).frozen() || old(cs).num_selectors == usize::MAX) ==> r == Err::<
                FiboConfig,
                Error,
            >(Error::ConfigurationError) && *final(cs) == *old(cs),
            !(old(cs).frozen() || old(cs).num_selectors == usize::MAX) ==> {
                &&& r is Ok
                &&& is_fib_cs(*final(cs), r->Ok_0)
                &&& r->Ok_0 == (FiboConfig {
                    col_a: Column { index: old(cs).num_advice() as usize, kind: ColumnKind::Advice },
                    col_b: Column {
                        index: (old(cs).num_advice() + 1) as usize,
                        kind: ColumnKind::Advice,
                    },
                    col_c: Column {
                        index: (old(cs).num_advice() + 2) as usize,
                        kind: ColumnKind::Advice,
                    },
                    selector: Selector { index: old(cs).num_selectors },
                })
                &&& final(cs).advice_eq@ =~= old(cs).advice_eq@ + seq![true, true, true]
                &&& final(cs).fixed_eq == old(cs).fixed_eq
                &&& final(cs).instance_eq == old(cs).instance_eq
                &&& final(cs).num_selectors == old(cs).num_selectors + 1
                &&& final(cs).gates@.len() == 1
                &&& final(cs).gates@[0].name@ == "add"@
            },
    {
        if cs.gates.len() > 0 || cs.num_selectors == usize::MAX {
            return Err(Error::ConfigurationError);
        }
        let col_a = match cs.allocate_advice_column() {
            Ok(c) => c,
            Err(e) => { return Err(e) },
        };
        let col_b = match cs.allocate_advice_column() {
            Ok(c) => c,
            Err(e) => { return Err(e) },
        };
        let col_c = match cs.allocate_advice_column() {
            Ok(c) => c,
            Err(e) => { return Err(e) },
        };
        let selector = match cs.allocate_selector() {
            Ok(s) => s,
            Err(e) => { return Err(e) },
        };
        if let Err(e) = cs.enable_equality(col_a) {
            return Err(e);
        }
        if let Err(e) = cs.enable_equality(col_b) {
            return Err(e);
        }
        if let Err(e) = cs.enable_equality(col_c) {
            return Err(e);
        }
        let total = cs.advice_eq.len();
        proof {
            assert(total == old(cs).num_advice() + 3);
            assert(cs.advice_eq@ =~= old(cs).advice_eq@ + seq![true, true, true]);
        }
        let poly = Expr::Prod(
            Box::new(Expr::Sel(selector)),
            Box::new(
                Expr::Sum(
                    Box::new(Expr::Query(col_a, 0)),
                    Box::new(
                        Expr::Sum(
                            Box::new(Expr::Query(col_b, 0)),
                            Box::new(Expr::Neg(Box::new(Expr::Query(col_c, 0)))),
                        ),
                    ),
                ),
            ),
        );
        let mut polys: Vec<Expr> = Vec::new();
        polys.push(poly);
        let cf = FiboConfig { col_a, col_b, col_c, selector };
        proof {
            reveal_with_fuel(crate::expr::expr_wf, 8);
            assert(is_add_gate(poly, cf));
            assert(cs.gate_acceptable(polys@));
        }
        if let Err(e) = cs.create_gate("add", polys) {
            return Err(e);
        }
        Ok(cf)
    }

    /// Opens a region on the next free row, enables the selector there,
    /// assigns the two seeds into columns A and B, computes and assigns
    /// their sum into column C, and returns handles to the three cells.
    /// During witness generation an unknown seed fails with
    /// `SynthesisError` before anything is assigned; during shape analysis
    /// unknown seeds are recorded as such.
    pub fn assign_first_row(&self, l: &mut Layouter, a: Value, b: Value) -> (r: Result<
        (AssignedCell, AssignedCell, AssignedCell),
        Error,
    >)
        requires
            old(l).wf(),
            a.wf(),
            b.wf(),
            !old(l).in_region,
            old(l).cursor < old(l).n_rows,
            chip_fits(self.config, *old(l)),
            old(l).cell(self.config.col_a.index as int, old(l).cursor as int) == Value::Unknown,
            old(l).cell(self.config.col_b.index as int, old(l).cursor as int) == Value::Unknown,
            old(l).cell(self.config.col_c.index as int, old(l).cursor as int) == Value::Unknown,
        ensures
            final(l).wf(),
            (r is Ok) <==> (old(l).mode == Mode::Shape || (a is Known && b is Known)),
            r is Err ==> r == Err::<(AssignedCell, AssignedCell, AssignedCell), Error>(
                Error::SynthesisError,
            ) && *final(l) == *old(l),
            r is Ok ==> {
                let row = old(l).cursor as int;
                let cf = self.config;
                &&& (r->Ok_0).0 == (AssignedCell {
                    cell: CellRef { column: cf.col_a, row: old(l).cursor },
                    value: a,
                })
                &&& (r->Ok_0).1 == (AssignedCell {
                    cell: CellRef { column: cf.col_b, row: old(l).cursor },
                    value: b,
                })
                &&& (r->Ok_0).2 == (AssignedCell {
                    cell: CellRef { column: cf.col_c, row: old(l).cursor },
                    value: v_add(a, b),
                })
                &&& *final(l) == (Layouter {
                    advice: final(l).advice,
                    selectors: final(l).selectors,
                    region_names: final(l).region_names,
                    cursor: (old(l).cursor + 1) as usize,
                    ..*old(l)
                })
                &&& final(l).region_names@.len() == old(l).region_names@.len() + 1
                &&& final(l).num_advice() == old(l).num_advice()
                &&& final(l).num_selectors() == old(l).num_selectors()
                &&& forall|i: int|
                    0 <= i < old(l).num_advice() ==> (#[trigger] final(l).advice@[i])@.len() == (
                    old(l).advice@[i])@.len()
                &&& forall|i: int|
                    0 <= i < old(l).num_selectors() ==> (#[trigger] final(l).selectors@[i])@.len()
                        == (old(l).selectors@[i])@.len()
                &&& final(l).cell(cf.col_a.index as int, row) == a
                &&& final(l).cell(cf.col_b.index as int, row) == b
                &&& final(l).cell(cf.col_c.index as int, row) == v_add(a, b)
                &&& forall|i: int, rr: int|
                    0 <= i < old(l).num_advice() && 0 <= rr < old(l).n_rows && !(rr == row && (i
                        == cf.col_a.index || i == cf.col_b.index || i == cf.col_c.index))
                        ==> final(l).cell(i, rr) == old(l).cell(i, rr)
                &&& final(l).sel(cf.selector.index as int, row)
                &&& forall|s: int, rr: int|
                    0 <= s < old(l).num_selectors() && 0 <= rr < old(l).n_rows && !(s
                        == cf.selector.index && rr == row) ==> final(l).sel(s, rr) == old(l).sel(
                        s,
                        rr,
                    )
            },
    {
        if matches!(l.mode, Mode::Witness) && !(a.is_known() && b.is_known()) {
            return Err(Error::SynthesisError);
        }
        let ghost l0 = *old(l);
        let ghost cf = self.config;
        let ghost row = l0.cursor as int;
        l.open_region("first row");
        let r1 = l.enable_selector(self.config.selector, 0);
        let ghost l2 = *l;
        proof {
            assert(r1 is Ok);
            assert(l2.cell(cf.col_a.index as int, row) == Value::Unknown);
            assert(l2.cell(cf.col_b.index as int, row) == Value::Unknown);
            assert(l2.cell(cf.col_c.index as int, row) == Value::Unknown);
        }
        let a_cell = match l.assign_advice(self.config.col_a, 0, a) {
            Ok(c) => c,
            Err(_) => { return Err(Error::SynthesisError) },
        };
        let ghost l3 = *l;
        proof {
            assert(l3.cell(cf.col_b.index as int, row) == Value::Unknown);
            assert(l3.cell(cf.col_c.index as int, row) == Value::Unknown);
        }
        let b_cell = match l.assign_advice(self.config.col_b, 0, b) {
            Ok(c) => c,
            Err(_) => { return Err(Error::SynthesisError) },
        };
        let ghost l4 = *l;
        proof {
            assert(l4.cell(cf.col_c.index as int, row) == Value::Unknown);
        }
        let c_val = a.add(b);
        let c_cell = match l.assign_advice(self.config.col_c, 0, c_val) {
            Ok(c) => c,
            Err(_) => { return Err(Error::SynthesisError) },
        };
        let ghost l5 = *l;
        let r2 = l.close_region();
        proof {
            assert(r2 is Ok);
            let lf = *l;
            assert forall|i: int, rr: int|
                0 <= i < l0.num_advice() && 0 <= rr < l0.n_rows && !(rr == row && (i
                    == cf.col_a.index || i == cf.col_b.index || i == cf.col_c.index)) implies lf.cell(
                i,
                rr,
            ) == l0.cell(i, rr) by {
                assert(l2.cell(i, rr) == l0.cell(i, rr));
                assert(l3.cell(i, rr) == l2.cell(i, rr));
                assert(l4.cell(i, rr) == l3.cell(i, rr));
                assert(l5.cell(i, rr) == l4.cell(i, rr));
                assert(lf.cell(i, rr) == l5.cell(i, rr));
            }
            assert forall|ss: int, rr: int|
                0 <= ss < l0.num_selectors() && 0 <= rr < l0.n_rows && !(ss == cf.selector.index
                    && rr == row) implies lf.sel(ss, rr) == l0.sel(ss, rr) by {
                assert(l2.sel(ss, rr) == l0.sel(ss, rr));
                assert(lf.sel(ss, rr) == l2.sel(ss, rr));
            }
            assert(lf.cell(cf.col_a.index as int, row) == a);
            assert(lf.cell(cf.col_b.index as int, row) == b);
            assert(lf.cell(cf.col_c.index as int, row) == v_add(a, b));
            assert(lf.sel(cf.selector.index as int, row));
        }
        Ok((a_cell, b_cell, c_cell))
    }

    /// Opens a region on the next free row, enables the selector there,
    /// copies the two given cells into columns A and B (recording the two
    /// equality constraints), computes and assigns their sum into column C,
    /// and returns the new cell's handle.
    pub fn assign_row(&self, l: &mut Layouter, prev_b: &AssignedCell, prev_c: &AssignedCell) -> (r:
        Result<AssignedCell, Error>)
        requires
            old(l).wf(),
            prev_b.value.wf(),
            prev_c.value.wf(),
            !old(l).in_region,
            old(l).cursor < old(l).n_rows,
            chip_fits(self.config, *old(l)),
            old(l).cell(self.config.col_a.index as int, old(l).cursor as int) == Value::Unknown,
            old(l).cell(self.config.col_b.index as int, old(l).cursor as int) == Value::Unknown,
            old(l).cell(self.config.col_c.index as int, old(l).cursor as int) == Value::Unknown,
            old(l).cell_ref_ok(prev_b.cell),
            old(l).cell_ref_ok(prev_c.cell),
            old(l).advice_eq@[prev_b.cell.column.index as int],
            old(l).advice_eq@[prev_c.cell.column.index as int],
        ensures
            final(l).wf(),
            (r is Ok) <==> (old(l).mode == Mode::Shape || (prev_b.value is Known
                && prev_c.value is Known)),
            r is Err ==> r == Err::<AssignedCell, Error>(Error::SynthesisError) && *final(l)
                == *old(l),
            r is Ok ==> {
                let row = old(l).cursor as int;
                let cf = self.config;
                &&& r->Ok_0 == (AssignedCell {
                    cell: CellRef { column: cf.col_c, row: old(l).cursor },
                    value: v_add(prev_b.value, prev_c.value),
                })
                &&& *final(l) == (Layouter {
                    advice: final(l).advice,
                    selectors: final(l).selectors,
                    copies: final(l).copies,
                    region_names: final(l).region_names,
                    cursor: (old(l).cursor + 1) as usize,
                    ..*old(l)
                })
                &&& final(l).region_names@.len() == old(l).region_names@.len() + 1
                &&& final(l).num_advice() == old(l).num_advice()
                &&& final(l).num_selectors() == old(l).num_selectors()
                &&& forall|i: int|
                    0 <= i < old(l).num_advice() ==> (#[trigger] final(l).advice@[i])@.len() == (
                    old(l).advice@[i])@.len()
                &&& forall|i: int|
                    0 <= i < old(l).num_selectors() ==> (#[trigger] final(l).selectors@[i])@.len()
                        == (old(l).selectors@[i])@.len()
                &&& final(l).cell(cf.col_a.index as int, row) == prev_b.value
                &&& final(l).cell(cf.col_b.index as int, row) == prev_c.value
                &&& final(l).cell(cf.col_c.index as int, row) == v_add(prev_b.value, prev_c.value)
                &&& forall|i: int, rr: int|
                    0 <= i < old(l).num_advice() && 0 <= rr < old(l).n_rows && !(rr == row && (i
                        == cf.col_a.index || i == cf.col_b.index || i == cf.col_c.index))
                        ==> final(l).cell(i, rr) == old(l).cell(i, rr)
                &&& final(l).sel(cf.selector.index as int, row)
                &&& forall|s: int, rr: int|
                    0 <= s < old(l).num_selectors() && 0 <= rr < old(l).n_rows && !(s
                        == cf.selector.index && rr == row) ==> final(l).sel(s, rr) == old(l).sel(
                        s,
                        rr,
                    )
                &&& final(l).copies@ =~= old(l).copies@ + seq![
                    CopyPair { src: prev_b.cell, dst: CellRef { column: cf.col_a, row: old(l).cursor } },
                    CopyPair { src: prev_c.cell, dst: CellRef { column: cf.col_b, row: old(l).cursor } },
                ]
            },
    {
        if matches!(l.mode, Mode::Witness) && !(prev_b.value.is_known() && prev_c.value.is_known()) {
            return Err(Error::SynthesisError);
        }
        let ghost l0 = *old(l);
        let ghost cf = self.config;
        let ghost row = l0.cursor as int;
        l.open_region("next row");
        let r1 = l.enable_selector(self.config.selector, 0);
        let ghost l2 = *l;
        proof {
            assert(r1 is Ok);
            assert(l2.cell(cf.col_a.index as int, row) == Value::Unknown);
            assert(l2.cell(cf.col_b.index as int, row) == Value::Unknown);
            assert(l2.cell(cf.col_c.index as int, row) == Value::Unknown);
            assert(l2.copy_outcome(*prev_b, cf.col_a, 0) is Ok);
        }
        let a_cell = match l.copy_advice(prev_b, self.config.col_a, 0) {
            Ok(c) => c,
            Err(_) => { return Err(Error::SynthesisError) },
        };
        let ghost l3 = *l;
        proof {
            assert(l3.cell(cf.col_b.index as int, row) == Value::Unknown);
            assert(l3.cell(cf.col_c.index as int, row) == Value::Unknown);
            assert(l3.copy_outcome(*prev_c, cf.col_b, 0) is Ok);
        }
        let b_cell = match l.copy_advice(prev_c, self.config.col_b, 0) {
            Ok(c) => c,
            Err(_) => { return Err(Error::SynthesisError) },
        };
        let ghost l4 = *l;
        proof {
            assert(l4.cell(cf.col_c.index as int, row) == Value::Unknown);
        }
        let c_val = prev_b.value.add(prev_c.value);
        let c_cell = match l.assign_advice(self.config.col_c, 0, c_val) {
            Ok(c) => c,
            Err(_) => { return Err(Error::SynthesisError) },
        };
        let ghost l5 = *l;
        let r2 = l.close_region();
        proof {
            assert(r2 is Ok);
            let lf = *l;
            assert forall|i: int, rr: int|
                0 <= i < l0.num_advice() && 0 <= rr < l0.n_rows && !(rr == row && (i
                    == cf.col_a.index || i == cf.col_b.index || i == cf.col_c.index)) implies lf.cell(
                i,
                rr,
            ) == l0.cell(i, rr) by {
                assert(l2.cell(i, rr) == l0.cell(i, rr));
                assert(l3.cell(i, rr) == l2.cell(i, rr));
                assert(l4.cell(i, rr) == l3.cell(i, rr));
                assert(l5.cell(i, rr) == l4.cell(i, rr));
                assert(lf.cell(i, rr) == l5.cell(i, rr));
            }
            assert forall|ss: int, rr: int|
                0 <= ss < l0.num_selectors() && 0 <= rr < l0.n_rows && !(ss == cf.selector.index
                    && rr == row) implies lf.sel(ss, rr) == l0.sel(ss, rr) by {
                assert(l2.sel(ss, rr) == l0.sel(ss, rr));
                assert(lf.sel(ss, rr) == l2.sel(ss, rr));
            }
            assert(l3.cell(cf.col_a.index as int, row) == prev_b.value);
            assert(l4.cell(cf.col_a.index as int, row) == l3.cell(cf.col_a.index as int, row));
            assert(l5.cell(cf.col_a.index as int, row) == l4.cell(cf.col_a.index as int, row));
            assert(lf.cell(cf.col_a.index as int, row) == prev_b.value);
            assert(l4.cell(cf.col_b.index as int, row) == prev_c.value);
            assert(l5.cell(cf.col_b.index as int, row) == l4.cell(cf.col_b.index as int, row));
            assert(lf.cell(cf.col_b.index as int, row) == prev_c.value);
            assert(lf.cell(cf.col_c.index as int, row) == v_add(prev_b.value, prev_c.value));
            assert(lf.sel(cf.selector.index as int, row));
            assert(lf.copies@ =~= l0.copies@ + seq![
                CopyPair { src: prev_b.cell, dst: CellRef { column: cf.col_a, row: l0.cursor } },
                CopyPair { src: prev_c.cell, dst: CellRef { column: cf.col_b, row: l0.cursor } },
            ]);
        }
        Ok(c_cell)
    }
}

} // verus!
