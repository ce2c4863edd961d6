use vstd::prelude::*;
use crate::keys::Key;

verus! {

/// Where a season stands in its life.
#[derive(Clone, Copy, Debug, PartialEq, Eq, Structural)]
pub enum SeasonStatus {
    Registration,
    Active,
    Ended,
}

/// Share of the prize pool, in percent, paid to the first place.
pub const WINNER_1_PCT: u64 = 40;
/// Share of the prize pool, in percent, paid to the second place.
pub const WINNER_2_PCT: u64 = 20;
/// Share of the prize pool, in percent, paid to the third place.
pub const WINNER_3_PCT: u64 = 10;
/// Share of the prize pool, in percent, kept for the next season.
pub const ROLLOVER_PCT: u64 = 15;
/// Share of the prize pool, in percent, paid to the season's creator.
pub const CREATOR_PCT: u64 = 5;
/// Share of the prize pool, in percent, burned.
pub const BURN_PCT: u64 = 10;

/// The state of one season.
#[derive(Clone, Copy, Debug)]
pub struct SeasonConfig {
    pub season_id: u32,
    pub authority: Key,
    /// Receives the creator's cut at the season's end.
    pub creator: Key,
    pub stake_amount: u64,
    pub registration_start: i64,
    pub registration_end: i64,
    pub season_end: i64,
    pub prize_pool: u64,
    pub player_count: u32,
    pub status: SeasonStatus,
    /// The live top three, best first; kept by `commit_run`, read by
    /// `distribute_season_rewards`.
    pub top_players: [Key; 3],
    pub top_times: [u64; 3],
    pub top_deaths: [u32; 3],
    pub bump: u8,
}

impl SeasonConfig {
    /// Size in bytes of the stored account, discriminator included.
    pub const LEN: usize = 8 + 4 + 32 + 32 + 8 + 8 + 8 + 8 + 8 + 4 + 1 + (32 * 3) + (8 * 3) + (4 * 3)
        + 1;
}

/// One player's registration in one season.
#[derive(Clone, Copy, Debug)]
pub struct PlayerEntry {
    pub player: Key,
    pub season_id: u32,
    pub staked_amount: u64,
    pub is_eligible: bool,
    pub best_time_ms: u64,
    pub best_death_count: u32,
    pub run_count: u32,
    pub bump: u8,
}

impl PlayerEntry {
    /// Size in bytes of the stored account, discriminator included.
    pub const LEN: usize = 8 + 32 + 4 + 8 + 1 + 8 + 4 + 4 + 1;
}

/// A player's run in progress.
#[derive(Clone, Copy, Debug)]
pub struct ActiveRun {
    pub player: Key,
    pub season_id: u32,
    pub level_id: u8,
    pub start_time: i64,
    pub elapsed_ms: u64,
    pub death_count: u32,
    pub is_finished: bool,
    pub bump: u8,
}

impl ActiveRun {
    /// Size in bytes of the stored account, discriminator included.
    pub const LEN: usize = 8 + 32 + 4 + 1 + 8 + 8 + 4 + 1 + 1;
}

} // verus!
