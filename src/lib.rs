//! A deterministic ledger state-transition evaluator: canonical RLP encoding of
//! accounts and transactions, a flat keccak commitment over an ordered ledger,
//! an all-or-nothing transaction processor and a batch executor that packages
//! the result as a commitment record.
pub mod primitives;
pub mod rlp;
pub mod ledger;
pub mod processor;
pub mod batch;
pub mod laws;
