//! A verified ledger of billable usage sessions for rented stations.
//!
//! A session opens when a customer starts using an instance and closes when
//! they stop; the closed record carries the elapsed time and the final cost.
//! The ledger answers reporting queries over calendar windows and derives
//! catalog projections (known categories, instances, and pairs).

pub mod dates;
pub mod order;
pub mod records;
pub mod sorting;
pub mod store;
pub mod reports;
pub mod active;
pub mod catalog;
pub mod laws;
pub mod parse;
