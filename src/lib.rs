//! Detects drift between the table shape a data model expects and the shape
//! of the table that a live database actually holds.

pub mod audit;
pub mod columns;
pub mod equivalence;
pub mod matcher;
