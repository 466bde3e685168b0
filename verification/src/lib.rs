//! A single-owner record store for patient health records.
//!
//! Records are created, read, updated and deleted through [`store::RecordStore`];
//! every record is owned by the identity that created it, and only that identity
//! may mutate or delete it. Identifiers come from a monotonic counter and are
//! never reused. Each record carries an append-only medication history.

pub mod laws;
pub mod report;
pub mod store;
pub mod types;
pub mod validation;
