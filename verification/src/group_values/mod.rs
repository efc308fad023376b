//! Columns of group keys: the values by which rows are grouped, one per group.
pub mod array;
pub mod dedup;
pub mod dictionary;
pub mod group_column;
pub mod key_type;
pub mod memory;
pub mod numbering;
