//! Verified validators for an append-only, checksum-verified file format kept
//! in ledger records and their witnesses.
pub mod checksum;
pub mod entry;
pub mod error;
pub mod hasher;
pub mod hasher_error;
pub mod hex;
pub mod record;
pub mod tx;
pub mod type_id;
pub mod witness;
