//! A time-boxed on-chain governance game.
//!
//! Participants submit proposals, stake value to vote on them inside a
//! per-proposal block window, accrue reputation points for taking part, and
//! compete for a scarce reward that unlocks once the game is over.  The crate
//! is the full proposal / vote / score / reward state machine; the host that
//! drives it supplies the caller identity, the current block height and the
//! staked amount as plain values, and performs payment custody, event
//! transport and reward minting itself.
//!
//! Every operation is atomic: it either succeeds and applies all of its
//! effects, or returns an error and leaves the state untouched.

pub mod errors;
pub mod game;
pub mod laws;
pub mod types;
