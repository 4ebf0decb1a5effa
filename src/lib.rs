pub mod store;
pub mod ledger;
pub mod trace;
pub mod context;
pub mod laws;
pub mod schedule;
