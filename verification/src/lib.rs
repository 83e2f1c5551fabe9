//! Labels the rows of a table of planar points with the designator of the
//! nearest point of a reference table.
//!
//! Distances are handed to this crate as the bit patterns of IEEE 754
//! binary64 numbers. The crate orders them, picks the nearest reference
//! point for each row, and builds the output table.

pub mod dataset;
pub mod distance;
pub mod error;
pub mod label;
pub mod matcher;
pub mod table;
