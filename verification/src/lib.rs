//! Verified escrow-and-settlement ledger for a peer-to-peer cross-asset
//! payment marketplace.
//!
//! Sellers lock liquidity of some asset as *deposits*; buyers reserve
//! portions of that liquidity by signaling *intents*; a trusted oracle role
//! drives an oracle-mediated *funding workflow* that turns a pledged deposit
//! into live liquidity, and attests that off-chain payment occurred before
//! liquidity is released.
//!
//! The execution host (caller identity, the clock, attached collateral, and
//! durable storage) is outside the library: every operation takes what it
//! needs from the host as plain parameters and returns plain values, so the
//! whole state machine is verified. Each operation is one atomic step on a
//! `&mut Contract`: it either returns `Ok` with the contracted effect or an
//! error with the state untouched.

pub mod admin;
pub mod chains;
pub mod errors;
pub mod escrow;
pub mod funding;
pub mod intents;
pub mod laws;
pub mod listing;
pub mod migrate;
pub mod payparse;
pub mod records;
pub mod registry;
pub mod state;
pub mod text;
pub mod views;
