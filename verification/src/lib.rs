//! Season, staking, leaderboard and reward rules of the LightInDark
//! competitive game, stated over plain values and verified.
//!
//! The on-chain program that loads accounts, reads the clock and performs
//! token transfers lives outside this crate; it hands the rules below plain
//! values (keys as 32 bytes, timestamps, balances) and carries out the
//! [`actions::Action`]s that the rules return.

pub mod actions;
pub mod error;
pub mod instructions;
pub mod keys;
pub mod laws;
pub mod leaderboard;
pub mod rewards;
pub mod state;
