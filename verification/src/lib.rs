//! Medical records kept per account and role, and the ledger of grants by
//! which the owner of a record hands an encrypted key to another account.
//!
//! Both stores are explicit values: every operation takes the store it works
//! on, returns the notification that a successful call gives rise to, and
//! leaves the store untouched when it rejects a call.
//!
//! - `medical_record`: accounts, records, and the one step from an
//!   unverified record to a verified one;
//! - `record_sharing`: the grants, and what the registry asks of a ledger;
//! - `laws`: what holds over several calls;
//! - `bytes`: copies of byte blobs.

pub mod bytes;
pub mod laws;
pub mod medical_record;
pub mod record_sharing;
