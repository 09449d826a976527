//! The column registry and constraint system.
//!
//! Columns, selectors and gates are created once, during configuration.
//! Registering the first gate freezes the shape: every later attempt to
//! allocate a column or selector, or to mark a column equality-eligible,
//! fails with [`Error::ConfigurationError`].

use vstd::prelude::*;
use crate::error::Error;
use crate::expr::{check_expr, expr_wf, Column, ColumnKind, Expr, Selector};

verus! {

/// A named polynomial constraint that must vanish wherever its selector is
/// enabled.  Duplicate names are permitted; the name is a diagnostic only.
#[derive(Debug)]
pub struct Gate {
    pub name: String,
    pub polys: Vec<Expr>,
}

/// The frozen description of a circuit's shape: how many columns of each
/// kind exist, which admit copy constraints, and the registered gates.
#[derive(Debug)]
pub struct ConstraintSystem {
    /// One entry per advice column: whether it is equality-eligible.
    pub advice_eq: Vec<bool>,
    /// One entry per fixed column: whether it is equality-eligible.
    pub fixed_eq: Vec<bool>,
    /// One entry per instance column: whether it is equality-eligible.
    pub instance_eq: Vec<bool>,
    /// Number of selectors allocated so far.
    pub num_selectors: usize,
    /// The registered gates, in registration order.
    pub gates: Vec<Gate>,
}

impl ConstraintSystem {
    /// Number of advice columns.
    pub open spec fn num_advice(self) -> nat {
        self.advice_eq@.len()
    }

    /// Number of fixed columns.
    pub open spec fn num_fixed(self) -> nat {
        self.fixed_eq@.len()
    }

    /// Number of instance columns.
    pub open spec fn num_instance(self) -> nat {
        self.instance_eq@.len()
    }

    /// Every registered gate only names columns and selectors that exist.
    pub open spec fn wf(self) -> bool {
        forall|g: int, j: int|
            0 <= g < self.gates@.len() && 0 <= j < self.gates@[g].polys@.len() ==> expr_wf(
                #[trigger] self.gates@[g].polys@[j],
                self.num_advice(),
                self.num_selectors as nat,
            )
    }

    /// The shape is frozen once the first gate has been registered.
    pub open spec fn frozen(self) -> bool {
        self.gates@.len() > 0
    }

    /// An empty constraint system, ready for configuration.
    pub fn new() -> (r: ConstraintSystem)
        ensures
            r.wf(),
            !r.frozen(),
            r.advice_eq@ =~= Seq::<bool>::empty(),
            r.fixed_eq@ =~= Seq::<bool>::empty(),
            r.instance_eq@ =~= Seq::<bool>::empty(),
            r.num_selectors == 0,
            r.gates@ =~= Seq::<Gate>::empty(),
    {
        ConstraintSystem {
            advice_eq: Vec::new(),
            fixed_eq: Vec::new(),
            instance_eq: Vec::new(),
            num_selectors: 0,
            gates: Vec::new(),
        }
    }

    /// Allocates a fresh advice column, not yet equality-eligible.
    /// Fails exactly when the shape is already frozen.
    pub fn allocate_advice_column(&mut self) -> (r: Result<Column, Error>)
        requires
            old(self).wf(),
        ensures
            final(self).wf(),
            old(self).frozen() ==> r == Err::<Column, Error>(Error::ConfigurationError) && *final(self)
                == *old(self),
            !old(self).frozen() ==> {
                &&& r == Ok::<Column, Error>(
                    Column { index: old(self).num_advice() as usize, kind: ColumnKind::Advice },
                )
                &&& final(self).advice_eq@ =~= old(self).advice_eq@.push(false)
                &&& final(self).fixed_eq == old(self).fixed_eq
                &&& final(self).instance_eq == old(self).instance_eq
                &&& final(self).num_selectors == old(self).num_selectors
                &&& final(self).gates == old(self).gates
            },
    {
        if self.gates.len() > 0 {
            return Err(Error::ConfigurationError);
        }
        let index = self.advice_eq.len();
        self.advice_eq.push(false);
        Ok(Column { index, kind: ColumnKind::Advice })
    }

    /// Allocates a fresh fixed column, not yet equality-eligible.
    /// Fails exactly when the shape is already frozen.
    pub fn allocate_fixed_column(&mut self) -> (r: Result<Column, Error>)
        requires
            old(self).wf(),
        ensures
            final(self).wf(),
            old(self).frozen() ==> r == Err::<Column, Error>(Error::ConfigurationError) && *final(self)
                == *old(self),
            !old(self).frozen() ==> {
                &&& r == Ok::<Column, Error>(
                    Column { index: old(self).num_fixed() as usize, kind: ColumnKind::Fixed },
                )
                &&& final(self).fixed_eq@ =~= old(self).fixed_eq@.push(false)
                &&& final(self).advice_eq == old(self).advice_eq
                &&& final(self).instance_eq == old(self).instance_eq
                &&& final(self).num_selectors == old(self).num_selectors
                &&& final(self).gates == old(self).gates
            },
    {
        if self.gates.len() > 0 {
            return Err(Error::ConfigurationError);
        }
        let index = self.fixed_eq.len();
        self.fixed_eq.push(false);
        Ok(Column { index, kind: ColumnKind::Fixed })
    }

    /// Allocates a fresh instance column, not yet equality-eligible.
    /// Fails exactly when the shape is already frozen.
    pub fn allocate_instance_column(&mut self) -> (r: Result<Column, Error>)
        requires
            old(self).wf(),
        ensures
            final(self).wf(),
            old(self).frozen() ==> r == Err::<Column, Error>(Error::ConfigurationError) && *final(self)
                == *old(self),
            !old(self).frozen() ==> {
                &&& r == Ok::<Column, Error>(
                    Column { index: old(self).num_instance() as usize, kind: ColumnKind::Instance },
                )
                &&& final(self).instance_eq@ =~= old(self).instance_eq@.push(false)
                &&& final(self).advice_eq == old(self).advice_eq
                &&& final(self).fixed_eq == old(self).fixed_eq
                &&& final(self).num_selectors == old(self).num_selectors
                &&& final(self).gates == old(self).gates
            },
    {
        if self.gates.len() > 0 {
            return Err(Error::ConfigurationError);
        }
        let index = self.instance_eq.len();
        self.instance_eq.push(false);
        Ok(Column { index, kind: ColumnKind::Instance })
    }

    /// Allocates a fresh selector.  Fails exactly when the shape is already
    /// frozen or the selector count would overflow the machine word.
    pub fn allocate_selector(&mut self) -> (r: Result<Selector, Error>)
        requires
            old(self).wf(),
        ensures
            final(self).wf(),
            (old(self).frozen() || old(self).num_selectors == usize::MAX) ==> r == Err::<
                Selector,
                Error,
            >(Error::ConfigurationError) && *final(self) == *old(self),
            !(old(self).frozen() || old(self).num_selectors == usize::MAX) ==> {
                &&& r == Ok::<Selector, Error>(Selector { index: old(self).num_selectors })
                &&& final(self).num_selectors == old(self).num_selectors + 1
                &&& final(self).advice_eq == old(self).advice_eq
                &&& final(self).fixed_eq == old(self).fixed_eq
                &&& final(self).instance_eq == old(self).instance_eq
                &&& final(self).gates == old(self).gates
            },
    {
        if self.gates.len() > 0 || self.num_selectors == usize::MAX {
            return Err(Error::ConfigurationError);
        }
        let index = self.num_selectors;
        self.num_selectors = self.num_selectors + 1;
        Ok(Selector { index })
    }

    /// Whether the given column is equality-eligible.  A column that does
    /// not exist is not eligible.
    pub open spec fn equality_enabled(self, col: Column) -> bool {
        match col.kind {
            ColumnKind::Advice => col.index < self.num_advice() && self.advice_eq@[col.index as int],
            ColumnKind::Fixed => col.index < self.num_fixed() && self.fixed_eq@[col.index as int],
            ColumnKind::Instance => col.index < self.num_instance()
                && self.instance_eq@[col.index as int],
        }
    }

    /// Marks a column equality-eligible, a precondition of using any cell in
    /// it as the source or target of a copy constraint.  Fails with
    /// `ConfigurationError` once the shape is frozen and with
    /// `ColumnMismatch` when the column was never allocated.
    pub fn enable_equality(&mut self, col: Column) -> (r: Result<(), Error>)
        requires
            old(self).wf(),
        ensures
            final(self).wf(),
            old(self).frozen() ==> r == Err::<(), Error>(Error::ConfigurationError) && *final(self) == *old(
                self,
            ),
            !old(self).frozen() && !(match col.kind {
                ColumnKind::Advice => col.index < old(self).num_advice(),
                ColumnKind::Fixed => col.index < old(self).num_fixed(),
                ColumnKind::Instance => col.index < old(self).num_instance(),
            }) ==> r == Err::<(), Error>(Error::ColumnMismatch) && *final(self) == *old(self),
            !old(self).frozen() && (match col.kind {
                ColumnKind::Advice => col.index < old(self).num_advice(),
                ColumnKind::Fixed => col.index < old(self).num_fixed(),
                ColumnKind::Instance => col.index < old(self).num_instance(),
            }) ==> {
                &&& r == Ok::<(), Error>(())
                &&& final(self).equality_enabled(col)
                &&& match col.kind {
                    ColumnKind::Advice => final(self).advice_eq@ =~= old(self).advice_eq@.update(
                        col.index as int,
                        true,
                    ) && final(self).fixed_eq == old(self).fixed_eq && final(self).instance_eq == old(
                        self,
                    ).instance_eq,
                    ColumnKind::Fixed => final(self).fixed_eq@ =~= old(self).fixed_eq@.update(
                        col.index as int,
                        true,
                    ) && final(self).advice_eq == old(self).advice_eq && final(self).instance_eq == old(
                        self,
                    ).instance_eq,
                    ColumnKind::Instance => final(self).instance_eq@ =~= old(self).instance_eq@.update(
                        col.index as int,
                        true,
                    ) && final(self).advice_eq == old(self).advice_eq && final(self).fixed_eq == old(
                        self,
                    ).fixed_eq,
                }
                &&& final(self).num_selectors == old(self).num_selectors
                &&& final(self).gates == old(self).gates
            },
    {
        if self.gates.len() > 0 {
            return Err(Error::ConfigurationError);
        }
        match col.kind {
            ColumnKind::Advice => {
                if col.index >= self.advice_eq.len() {
                    return Err(Error::ColumnMismatch);
                }
                self.advice_eq.set(col.index, true);
            },
            ColumnKind::Fixed => {
                if col.index >= self.fixed_eq.len() {
                    return Err(Error::ColumnMismatch);
                }
                self.fixed_eq.set(col.index, true);
            },
            ColumnKind::Instance => {
                if col.index >= self.instance_eq.len() {
                    return Err(Error::ColumnMismatch);
                }
                self.instance_eq.set(col.index, true);
            },
        }
        Ok(())
    }

    /// Whether every polynomial of a would-be gate is structurally valid
    /// against this shape, and there is at least one.
    pub open spec fn gate_acceptable(self, polys: Seq<Expr>) -> bool {
        polys.len() > 0 && forall|j: int|
            0 <= j < polys.len() ==> expr_wf(
                #[trigger] polys[j],
                self.num_advice(),
                self.num_selectors as nat,
            )
    }

    /// Registers one named gate: every polynomial handed in must vanish on
    /// every row where its selector is enabled.  A structurally invalid or
    /// empty gate fails with `ConfigurationError`.  Registering a gate is
    /// what freezes the shape; more gates may still be added.
    pub fn create_gate(&mut self, name: &str, polys: Vec<Expr>) -> (r: Result<(), Error>)
        requires
            old(self).wf(),
        ensures
            final(self).wf(),
            !old(self).gate_acceptable(polys@) ==> r == Err::<(), Error>(Error::ConfigurationError)
                && *final(self) == *old(self),
            old(self).gate_acceptable(polys@) ==> {
                &&& r == Ok::<(), Error>(())
                &&& final(self).gates@.len() == old(self).gates@.len() + 1
                &&& final(self).gates@.last().name@ == name@
                &&& final(self).gates@.last().polys == polys
                &&& final(self).gates@ =~= old(self).gates@.push(final(self).gates@.last())
                &&& final(self).advice_eq == old(self).advice_eq
                &&& final(self).fixed_eq == old(self).fixed_eq
                &&& final(self).instance_eq == old(self).instance_eq
                &&& final(self).num_selectors == old(self).num_selectors
            },
    {
        if polys.len() == 0 {
            return Err(Error::ConfigurationError);
        }
        let num_advice = self.advice_eq.len();
        let mut j: usize = 0;
        while j < polys.len()
            invariant
                j <= polys@.len(),
                old(self).wf(),
                *self == *old(self),
                num_advice == self.num_advice(),
                forall|i: int|
                    0 <= i < j ==> expr_wf(
                        #[trigger] polys@[i],
                        self.num_advice(),
                        self.num_selectors as nat,
                    ),
            decreases polys@.len() - j,
        {
            if !check_expr(&polys[j], num_advice, self.num_selectors) {
                return Err(Error::ConfigurationError);
            }
            j = j + 1;
        }
        let ghost gpolys = polys@;
        self.gates.push(Gate { name: name.to_owned(), polys });
        proof {
            assert forall|g: int, jj: int|
                0 <= g < self.gates@.len() && 0 <= jj
                    < self.gates@[g].polys@.len() implies expr_wf(
                #[trigger] self.gates@[g].polys@[jj],
                self.num_advice(),
                self.num_selectors as nat,
            ) by {
                if g < self.gates@.len() - 1 {
                    assert(self.gates@[g] == old(self).gates@[g]);
                } else {
                    assert(self.gates@[g].polys@ == gpolys);
                }
            }
        }
        Ok(())
    }
}

} // verus!
