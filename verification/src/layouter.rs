//! The region/layouter abstraction and the witness table it fills.
//!
//! A [`Layouter`] owns the witness being built: one column of cell values per
//! advice column, one boolean column per selector, the recorded copy
//! constraints, and a monotone next-free-row cursor.  Regions are opened one
//! at a time; inside a region, cells are addressed by a local offset that the
//! layouter translates to `cursor + offset`.  Closing a region advances the
//! cursor past every row the region touched, so regions occupy
//! non-overlapping, append-only row ranges.  Cell handles returned from a
//! region stay valid after it closes and are the only way regions
//! communicate.

use vstd::prelude::*;
use crate::cs::ConstraintSystem;
use crate::error::Error;
use crate::expr::{Column, ColumnKind, Selector};
use crate::field::Value;

verus! {

/// Whether synthesis is analysing the circuit shape (unknown values are
/// acceptable) or generating a concrete witness (they are an error).
#[derive(Clone, Copy, Debug, PartialEq, Eq, Structural)]
pub enum Mode {
    Shape,
    Witness,
}

/// The coordinates of one cell: a column and an absolute row.
#[derive(Clone, Copy, Debug, PartialEq, Eq, Structural)]
pub struct CellRef {
    pub column: Column,
    pub row: usize,
}

/// One copy (equality) constraint: the two cells must hold equal values in
/// any valid witness.
#[derive(Clone, Copy, Debug, PartialEq, Eq, Structural)]
pub struct CopyPair {
    pub src: CellRef,
    pub dst: CellRef,
}

/// An opaque handle to an assigned cell: its coordinates plus the value it
/// was given.  Handles are small copyable values, so passing them across
/// regions cannot alias or invalidate earlier data.
#[derive(Clone, Copy, Debug, PartialEq, Eq, Structural)]
pub struct AssignedCell {
    pub cell: CellRef,
    pub value: Value,
}

/// The assignment engine: witness table, selector table, copy constraints
/// and the append-only region cursor.
#[derive(Debug)]
pub struct Layouter {
    /// Shape analysis or concrete witness generation.
    pub mode: Mode,
    /// Number of rows of the table.
    pub n_rows: usize,
    /// `advice[c][r]` is the value of advice column `c` at row `r`.
    pub advice: Vec<Vec<Value>>,
    /// Per advice column: whether it admits copy constraints.
    pub advice_eq: Vec<bool>,
    /// `selectors[s][r]` is whether selector `s` is enabled at row `r`.
    pub selectors: Vec<Vec<bool>>,
    /// Every copy constraint recorded so far, in order.
    pub copies: Vec<CopyPair>,
    /// The name of every region opened so far, in order; diagnostics only.
    pub region_names: Vec<String>,
    /// The next free row: all regions so far occupied rows below it.
    pub cursor: usize,
    /// Whether a region is currently open.
    pub in_region: bool,
    /// Rows touched by the open region (the largest local offset plus one).
    pub height: usize,
}

impl Layouter {
    /// Number of advice columns of the table.
    pub open spec fn num_advice(self) -> nat {
        self.advice@.len()
    }

    /// Number of selectors of the table.
    pub open spec fn num_selectors(self) -> nat {
        self.selectors@.len()
    }

    /// The value of advice column `c` at row `r`.
    pub open spec fn cell(self, c: int, r: int) -> Value {
        self.advice@[c]@[r]
    }

    /// Whether selector `s` is enabled at row `r`.
    pub open spec fn sel(self, s: int, r: int) -> bool {
        self.selectors@[s]@[r]
    }

    /// Whether the coordinates name an advice cell inside the table.
    pub open spec fn cell_ref_ok(self, cr: CellRef) -> bool {
        cr.column.kind == ColumnKind::Advice && cr.column.index < self.num_advice() && cr.row
            < self.n_rows
    }

    /// Well-formedness: every column has exactly `n_rows` rows, every stored
    /// value is a reduced field element, every recorded copy constraint
    /// names cells inside the table, and the cursor never passes the end.
    pub open spec fn wf(self) -> bool {
        &&& self.advice_eq@.len() == self.num_advice()
        &&& forall|c: int|
            0 <= c < self.num_advice() ==> (#[trigger] self.advice@[c])@.len() == self.n_rows
        &&& forall|s: int|
            0 <= s < self.num_selectors() ==> (#[trigger] self.selectors@[s])@.len() == self.n_rows
        &&& forall|c: int, r: int|
            #![trigger self.advice@[c]@[r]]
            0 <= c < self.num_advice() && 0 <= r < self.n_rows ==> self.advice@[c]@[r].wf()
        &&& forall|k: int|
            0 <= k < self.copies@.len() ==> self.cell_ref_ok((#[trigger] self.copies@[k]).src)
                && self.cell_ref_ok(self.copies@[k].dst)
        &&& self.cursor <= self.n_rows
        &&& self.in_region ==> self.cursor + self.height <= self.n_rows
        &&& !self.in_region ==> self.height == 0
    }

    /// Whether this table has the shape of the given constraint system.
    pub open spec fn matches_cs(self, cs: ConstraintSystem) -> bool {
        self.advice_eq@ == cs.advice_eq@ && self.num_selectors() == cs.num_selectors
    }

    /// A fresh, fully unassigned table for the given frozen shape.
    pub fn new(cs: &ConstraintSystem, n_rows: usize, mode: Mode) -> (r: Layouter)
        requires
            n_rows >= 1,
        ensures
            r.wf(),
            r.matches_cs(*cs),
            r.mode == mode,
            r.n_rows == n_rows,
            forall|c: int, rr: int|
                0 <= c < r.num_advice() && 0 <= rr < n_rows ==> r.cell(c, rr) == Value::Unknown,
            forall|s: int, rr: int|
                0 <= s < r.num_selectors() && 0 <= rr < n_rows ==> !r.sel(s, rr),
            r.copies@ =~= Seq::<CopyPair>::empty(),
            r.region_names@ =~= Seq::<String>::empty(),
            r.cursor == 0,
            !r.in_region,
            r.height == 0,
    {
        let num_advice = cs.advice_eq.len();
        let mut advice: Vec<Vec<Value>> = Vec::new();
        let mut advice_eq: Vec<bool> = Vec::new();
        let mut c: usize = 0;
        while c < num_advice
            invariant
                num_advice == cs.advice_eq@.len(),
                c <= num_advice,
                advice@.len() == c,
                advice_eq@.len() == c,
                forall|i: int| 0 <= i < c ==> (#[trigger] advice@[i])@.len() == n_rows,
                forall|i: int, rr: int|
                    #![trigger advice@[i]@[rr]]
                    0 <= i < c && 0 <= rr < n_rows ==> advice@[i]@[rr] == Value::Unknown,
                forall|i: int| 0 <= i < c ==> advice_eq@[i] == cs.advice_eq@[i],
            decreases num_advice - c,
        {
            advice.push(unknown_column(n_rows));
            advice_eq.push(cs.advice_eq[c]);
            c = c + 1;
        }
        let mut selectors: Vec<Vec<bool>> = Vec::new();
        let mut s: usize = 0;
        while s < cs.num_selectors
            invariant
                s <= cs.num_selectors,
                selectors@.len() == s,
                forall|i: int| 0 <= i < s ==> (#[trigger] selectors@[i])@.len() == n_rows,
                forall|i: int, rr: int|
                    #![trigger selectors@[i]@[rr]]
                    0 <= i < s && 0 <= rr < n_rows ==> selectors@[i]@[rr] == false,
            decreases cs.num_selectors - s,
        {
            selectors.push(off_column(n_rows));
            s = s + 1;
        }
        proof {
            assert(advice_eq@ =~= cs.advice_eq@);
        }
        Layouter {
            mode,
            n_rows,
            advice,
            advice_eq,
            selectors,
            copies: Vec::new(),
            region_names: Vec::new(),
            cursor: 0,
            in_region: false,
            height: 0,
        }
    }

    /// Opens the next region under the given diagnostic name.  Regions are
    /// strictly sequential: the one region in flight must be closed before
    /// the next opens.
    pub fn open_region(&mut self, name: &str)
        requires
            old(self).wf(),
            !old(self).in_region,
        ensures
            final(self).wf(),
            *final(self) == (Layouter {
                in_region: true,
                region_names: final(self).region_names,
                ..*old(self)
            }),
            final(self).region_names@.len() == old(self).region_names@.len() + 1,
            final(self).region_names@.last()@ == name@,
            forall|i: int|
                0 <= i < old(self).region_names@.len() ==> final(self).region_names@[i] == old(
                    self,
                ).region_names@[i],
    {
        self.region_names.push(name.to_owned());
        self.in_region = true;
    }

    /// Closes the open region, advancing the cursor past every row it
    /// touched.  Fails with `RegionClosed` when no region is open.
    pub fn close_region(&mut self) -> (r: Result<(), Error>)
        requires
            old(self).wf(),
        ensures
            final(self).wf(),
            !old(self).in_region ==> r == Err::<(), Error>(Error::RegionClosed) && *final(self)
                == *old(self),
            old(self).in_region ==> r == Ok::<(), Error>(()) && *final(self) == (Layouter {
                in_region: false,
                height: 0,
                cursor: (old(self).cursor + old(self).height) as usize,
                ..*old(self)
            }),
    {
        if !self.in_region {
            return Err(Error::RegionClosed);
        }
        self.cursor = self.cursor + self.height;
        self.height = 0;
        self.in_region = false;
        Ok(())
    }

    /// What enabling a selector at a local offset does: the decision chain
    /// of [`Layouter::enable_selector`].
    pub open spec fn enable_outcome(self, sel: Selector, offset: usize) -> Result<(), Error> {
        if !self.in_region {
            Err(Error::RegionClosed)
        } else if sel.index >= self.num_selectors() {
            Err(Error::ColumnMismatch)
        } else if self.cursor + offset >= self.n_rows {
            Err(Error::ColumnMismatch)
        } else {
            Ok(())
        }
    }

    /// Enables a selector at the given local offset of the open region.
    pub fn enable_selector(&mut self, sel: Selector, offset: usize) -> (r: Result<(), Error>)
        requires
            old(self).wf(),
        ensures
            final(self).wf(),
            r == old(self).enable_outcome(sel, offset),
            r is Err ==> *final(self) == *old(self),
            r is Ok ==> {
                &&& *final(self) == (Layouter {
                    selectors: final(self).selectors,
                    height: if offset + 1 > old(self).height {
                        (offset + 1) as usize
                    } else {
                        old(self).height
                    },
                    ..*old(self)
                })
                &&& final(self).num_selectors() == old(self).num_selectors()
                &&& forall|i: int|
                    0 <= i < old(self).num_selectors() ==> (#[trigger] final(self).selectors@[i])@.len() == (old(self).selectors@[i])@.len()
                &&& final(self).sel(sel.index as int, old(self).cursor + offset)
                &&& forall|i: int, rr: int|
                    0 <= i < old(self).num_selectors() && 0 <= rr < old(self).n_rows && !(i
                        == sel.index && rr == old(self).cursor + offset) ==> final(self).sel(i, rr)
                        == old(self).sel(i, rr)
            },
    {
        if !self.in_region {
            return Err(Error::RegionClosed);
        }
        if sel.index >= self.selectors.len() {
            return Err(Error::ColumnMismatch);
        }
        if offset >= self.n_rows - self.cursor {
            return Err(Error::ColumnMismatch);
        }
        let row = self.cursor + offset;
        self.selectors[sel.index].set(row, true);
        if offset + 1 > self.height {
            self.height = offset + 1;
        }
        Ok(())
    }

    /// What assigning a value at a local offset does: the decision chain of
    /// [`Layouter::assign_advice`].  Assignment is write-once: a cell that
    /// already holds a different value is never overwritten.
    pub open spec fn assign_outcome(self, col: Column, offset: usize, v: Value) -> Result<
        AssignedCell,
        Error,
    > {
        if !self.in_region {
            Err(Error::RegionClosed)
        } else if !(col.kind == ColumnKind::Advice && col.index < self.num_advice()) {
            Err(Error::ColumnMismatch)
        } else if self.cursor + offset >= self.n_rows {
            Err(Error::ColumnMismatch)
        } else if self.mode == Mode::Witness && v is Unknown {
            Err(Error::SynthesisError)
        } else if self.cell(col.index as int, self.cursor + offset) != Value::Unknown && self.cell(
            col.index as int,
            self.cursor + offset,
        ) != v {
            Err(Error::AlreadyAssigned)
        } else {
            Ok(
                AssignedCell {
                    cell: CellRef { column: col, row: (self.cursor + offset) as usize },
                    value: v,
                },
            )
        }
    }

    /// How a successful assignment changes the table: exactly one advice
    /// cell is written, the height grows to cover the offset, and
    /// everything else is untouched.
    pub open spec fn assigned_cell_state(pre: Layouter, post: Layouter, col: Column, offset: usize, v: Value) -> bool {
        &&& post == (Layouter {
            advice: post.advice,
            height: if offset + 1 > pre.height {
                (offset + 1) as usize
            } else {
                pre.height
            },
            ..pre
        })
        &&& post.num_advice() == pre.num_advice()
        &&& forall|i: int|
            0 <= i < pre.num_advice() ==> (#[trigger] post.advice@[i])@.len() == (
            pre.advice@[i])@.len()
        &&& post.cell(col.index as int, pre.cursor + offset) == v
        &&& forall|i: int, rr: int|
            0 <= i < pre.num_advice() && 0 <= rr < pre.n_rows && !(i == col.index && rr
                == pre.cursor + offset) ==> post.cell(i, rr) == pre.cell(i, rr)
    }

    /// Assigns a fresh value to an advice cell of the open region.  During
    /// witness generation an `Unknown` value fails with `SynthesisError`;
    /// during shape analysis it is recorded as such.
    pub fn assign_advice(&mut self, col: Column, offset: usize, v: Value) -> (r: Result<
        AssignedCell,
        Error,
    >)
        requires
            old(self).wf(),
            v.wf(),
        ensures
            final(self).wf(),
            r == old(self).assign_outcome(col, offset, v),
            r is Err ==> *final(self) == *old(self),
            r is Ok ==> Layouter::assigned_cell_state(*old(self), *final(self), col, offset, v),
    {
        if !self.in_region {
            return Err(Error::RegionClosed);
        }
        if !(matches!(col.kind, ColumnKind::Advice) && col.index < self.advice.len()) {
            return Err(Error::ColumnMismatch);
        }
        if offset >= self.n_rows - self.cursor {
            return Err(Error::ColumnMismatch);
        }
        if matches!(self.mode, Mode::Witness) && !v.is_known() {
            return Err(Error::SynthesisError);
        }
        let row = self.cursor + offset;
        let existing = self.advice[col.index][row];
        if !matches!(existing, Value::Unknown) && existing != v {
            return Err(Error::AlreadyAssigned);
        }
        self.advice[col.index].set(row, v);
        if offset + 1 > self.height {
            self.height = offset + 1;
        }
        Ok(AssignedCell { cell: CellRef { column: col, row }, value: v })
    }

    /// What copying an existing cell into the open region does: the decision
    /// chain of [`Layouter::copy_advice`].  Both columns must be
    /// equality-eligible, since a copy constraint is recorded.
    pub open spec fn copy_outcome(self, src: AssignedCell, col: Column, offset: usize) -> Result<
        AssignedCell,
        Error,
    > {
        if !self.in_region {
            Err(Error::RegionClosed)
        } else if !(col.kind == ColumnKind::Advice && col.index < self.num_advice()) {
            Err(Error::ColumnMismatch)
        } else if !self.cell_ref_ok(src.cell) {
            Err(Error::ColumnMismatch)
        } else if self.cursor + offset >= self.n_rows {
            Err(Error::ColumnMismatch)
        } else if !(self.advice_eq@[src.cell.column.index as int] && self.advice_eq@[col.index as int]) {
            Err(Error::EqualityNotEnabled)
        } else if self.mode == Mode::Witness && src.value is Unknown {
            Err(Error::SynthesisError)
        } else if self.cell(col.index as int, self.cursor + offset) != Value::Unknown && self.cell(
            col.index as int,
            self.cursor + offset,
        ) != src.value {
            Err(Error::AlreadyAssigned)
        } else {
            Ok(
                AssignedCell {
                    cell: CellRef { column: col, row: (self.cursor + offset) as usize },
                    value: src.value,
                },
            )
        }
    }

    /// Copies an assigned cell into a cell of the open region and records
    /// the equality constraint between the two cells.  The value itself is
    /// carried over from the handle; what is asserted is the constraint.
    pub fn copy_advice(&mut self, src: &AssignedCell, col: Column, offset: usize) -> (r: Result<
        AssignedCell,
        Error,
    >)
        requires
            old(self).wf(),
            src.value.wf(),
        ensures
            final(self).wf(),
            r == old(self).copy_outcome(*src, col, offset),
            r is Err ==> *final(self) == *old(self),
            r is Ok ==> {
                &&& Layouter::assigned_cell_state(
                    Layouter { copies: old(self).copies, ..*old(self) },
                    Layouter { copies: old(self).copies, ..*final(self) },
                    col,
                    offset,
                    src.value,
                )
                &&& final(self).copies@ =~= old(self).copies@.push(
                    CopyPair {
                        src: src.cell,
                        dst: CellRef {
                            column: col,
                            row: (old(self).cursor + offset) as usize,
                        },
                    },
                )
            },
    {
        if !self.in_region {
            return Err(Error::RegionClosed);
        }
        if !(matches!(col.kind, ColumnKind::Advice) && col.index < self.advice.len()) {
            return Err(Error::ColumnMismatch);
        }
        if !(matches!(src.cell.column.kind, ColumnKind::Advice) && src.cell.column.index
            < self.advice.len() && src.cell.row < self.n_rows) {
            return Err(Error::ColumnMismatch);
        }
        if offset >= self.n_rows - self.cursor {
            return Err(Error::ColumnMismatch);
        }
        if !(self.advice_eq[src.cell.column.index] && self.advice_eq[col.index]) {
            return Err(Error::EqualityNotEnabled);
        }
        if matches!(self.mode, Mode::Witness) && !src.value.is_known() {
            return Err(Error::SynthesisError);
        }
        let row = self.cursor + offset;
        let existing = self.advice[col.index][row];
        if !matches!(existing, Value::Unknown) && existing != src.value {
            return Err(Error::AlreadyAssigned);
        }
        self.advice[col.index].set(row, src.value);
        self.copies.push(CopyPair { src: src.cell, dst: CellRef { column: col, row } });
        if offset + 1 > self.height {
            self.height = offset + 1;
        }
        Ok(AssignedCell { cell: CellRef { column: col, row }, value: src.value })
    }

    /// Overwrites one advice cell in place, bypassing the write-once rule
    /// and recording no constraint.  This is a diagnostic hook for fault
    /// injection: it lets a caller damage a finished witness and watch the
    /// satisfaction checker report the damage.
    pub fn override_advice(&mut self, col: Column, row: usize, v: Value) -> (r: Result<(), Error>)
        requires
            old(self).wf(),
            v.wf(),
        ensures
            final(self).wf(),
            !(col.kind == ColumnKind::Advice && col.index < old(self).num_advice() && row < old(self).n_rows) ==> r == Err::<(), Error>(Error::ColumnMismatch) && *final(self) == *old(self),
            (col.kind == ColumnKind::Advice && col.index < old(self).num_advice() && row < old(self).n_rows) ==> {
                &&& r == Ok::<(), Error>(())
                &&& *final(self) == (Layouter { advice: final(self).advice, ..*old(self) })
                &&& final(self).num_advice() == old(self).num_advice()
                &&& forall|i: int|
                    0 <= i < old(self).num_advice() ==> (#[trigger] final(self).advice@[i])@.len()
                        == (old(self).advice@[i])@.len()
                &&& final(self).cell(col.index as int, row as int) == v
                &&& forall|i: int, rr: int|
                    0 <= i < old(self).num_advice() && 0 <= rr < old(self).n_rows && !(i
                        == col.index && rr == row) ==> final(self).cell(i, rr) == old(self).cell(
                        i,
                        rr,
                    )
            },
    {
        if !(matches!(col.kind, ColumnKind::Advice) && col.index < self.advice.len() && row
            < self.n_rows) {
            return Err(Error::ColumnMismatch);
        }
        self.advice[col.index].set(row, v);
        Ok(())
    }
}

/// A column of `n` unassigned cells.
fn unknown_column(n: usize) -> (r: Vec<Value>)
    ensures
        r@.len() == n,
        forall|i: int| 0 <= i < n ==> r@[i] == Value::Unknown,
{
    let mut v: Vec<Value> = Vec::new();
    let mut i: usize = 0;
    while i < n
        invariant
            i <= n,
            v@.len() == i,
            forall|j: int| 0 <= j < i ==> v@[j] == Value::Unknown,
        decreases n - i,
    {
        v.push(Value::Unknown);
        i = i + 1;
    }
    v
}

/// A column of `n` disabled selector slots.
fn off_column(n: usize) -> (r: Vec<bool>)
    ensures
        r@.len() == n,
        forall|i: int| 0 <= i < n ==> r@[i] == false,
    {
    let mut v: Vec<bool> = Vec::new();
    let mut i: usize = 0;
    while i < n
        invariant
            i <= n,
            v@.len() == i,
            forall|j: int| 0 <= j < i ==> v@[j] == false,
        decreases n - i,
    {
        v.push(false);
        i = i + 1;
    }
    v
}

} // verus!
