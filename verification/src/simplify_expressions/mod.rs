//! Rewrites of predicates.
pub mod cast_preimage;
pub mod laws;
