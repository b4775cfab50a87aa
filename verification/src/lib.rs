//! Order change message (OCM) stream state for a Betfair execution client.
//!
//! `OcmState` is what the stream reader and the execution client share about
//! the orders in flight: which client order a stream reference belongs to,
//! which bets are finished, and which replace and quantity updates still wait
//! for the venue. `OcmModel` is its mathematical view. `effects` says what each
//! call does to what the state holds, `laws` what holds across calls, and
//! `histories` what a history of calls leads to.

pub mod collections;
pub mod decimal;
pub mod effects;
pub mod histories;
pub mod laws;
pub mod model;
pub mod state;
pub mod types;
pub mod values;
