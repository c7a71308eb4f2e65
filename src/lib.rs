//! An interest-rate calculator's core: currency substitution in expressions,
//! expression evaluation, the focus-aware text of an editable field, the
//! compounding periods and the planning of each edit.

pub mod expr;
pub mod feed;
pub mod field;
pub mod graph;
pub mod period;
pub mod rates;
