//! A small ledger with two independent features: a greeting register, in which
//! every account keeps the last greeting it stored, and a single-round
//! election with registered candidates, secret-gated ballots and one ballot
//! per voter.
//!
//! [`rules`] holds what is decided about single entries, [`model`] the ledger
//! as a mathematical value and what each call makes of it, and [`in_memory`]
//! the executable ledger. [`laws`] holds what is proved of every state and of
//! every sequence of calls, and [`census`] the proof that votes and voters
//! add up.

pub mod census;
pub mod in_memory;
pub mod laws;
pub mod model;
pub mod rules;

pub use crate::in_memory::Voting;
pub use crate::rules::VoteError;
