//! Physical execution of columnar query plans: a column-batch value model,
//! predicate expressions, pull-based batch streams and the filter operator.
pub mod batch;
pub mod error;
pub mod expr;
pub mod filter;
pub mod plan;
pub mod value;
