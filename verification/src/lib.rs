//! A PLONKish arithmetic-circuit builder and witness-assignment engine.
//!
//! The crate lets a caller declare typed columns, selectors and polynomial
//! gates in a [`cs::ConstraintSystem`], fill a witness table region by region
//! through a [`layouter::Layouter`] while recording copy (equality)
//! constraints, and check the finished witness against every gate and copy
//! constraint with the satisfaction checker in [`checker`].  The Fibonacci
//! chip in [`chip`] and the driver in [`circuit`] wire those pieces into a
//! circuit proving that a table of rows follows the recurrence
//! `c = a + b` with cells chained across rows.

pub mod field;
pub mod expr;
pub mod error;
pub mod cs;
pub mod layouter;
pub mod checker;
pub mod chip;
pub mod circuit;
