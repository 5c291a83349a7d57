//! A minimal governance/voting ledger.
//!
//! Creators open yes/no proposals with a deadline; any actor may cast exactly
//! one vote per proposal before the deadline; tallies are kept transactionally.
//! Every record (per-creator counter, proposal, vote receipt) lives at an
//! address that is a pure function of its logical key, and the store refuses
//! to create a second record at an occupied address: that create-if-absent
//! rule is what makes double-voting and double-initialization structurally
//! impossible rather than merely checked.

pub mod addr;
pub mod laws;
pub mod ledger;
pub mod records;
