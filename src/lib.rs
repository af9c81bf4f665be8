//! A personal finance ledger: signed identity tokens, fail-closed
//! authorization, and the rules of the ledger's queries and mutations.
//! Storage, HTTP and clocks stay with the caller; this crate decides.

pub mod auth;
pub mod bill;
pub mod date;
pub mod error;
pub mod money;
