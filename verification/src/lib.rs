//! An event registry for a Soroban ledger: an authoritative catalog of
//! payment-routing records, with a sharded per-organizer index and a
//! capability model that gates every mutation.

pub mod admin;
pub mod consistency;
pub mod host;
pub mod laws;
pub mod model;
pub mod registry;
pub mod storage;
pub mod types;
