//! A single-node ledger: blocks linked by fingerprint, a pool of pending
//! transactions, and a proof-of-work puzzle that gates the sealing of blocks.

pub mod pow;
pub mod clock;
pub mod ledger;
pub mod coordinator;
