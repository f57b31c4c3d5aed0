//! Routing-number analysis library.
//!
//! A reference database of bank routing-number records is loaded from
//! comma-separated lines, and a list of routing numbers is checked against it:
//! records registered in an unexpected state are flagged, and routing numbers
//! with no record at all are reported separately. A single-record lookup over
//! the raw database lines is also provided.

pub mod cli;
pub mod database;
pub mod filter;
pub mod lookup;
pub mod record;
pub mod text;
