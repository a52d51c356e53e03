//! Escrow, prize-splitting and crowdfunding rules of the Geev giveaway and
//! mutual-aid contracts, stated as a verified state machine over plain values.
//!
//! The contract host (ledger storage, clock, randomness, authorisation, token
//! transfers and events) is not part of this crate: every operation takes the
//! values it reads from the host as arguments and returns what the host must
//! carry out (payouts, deposits, events) as plain values.

pub mod admin;
pub mod events;
pub mod giveaway;
pub mod laws;
pub mod mutual_aid;
pub mod selection;
pub mod shares;
pub mod store;
pub mod types;
