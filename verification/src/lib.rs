//! Two pieces of a columnar query engine.
//!
//! * [`group_values`]: group keys that come dictionary-encoded.
//! * [`simplifier`] and [`simplify_expressions`]: simplification of expressions, and above
//!   all the removal of casts from predicates. The expressions are those of [`expr`]; what
//!   only the engine can compute is asked for with the questions of [`answers`].
use vstd::prelude::*;

pub mod answers;
pub mod data_type;
pub mod expr;
pub mod group_values;
pub mod operator;
pub mod simplifier;
pub mod simplify_expressions;
pub mod type_shape;

verus! {

} // verus!
