use vstd::prelude::*;
use crate::actions::{Action, TokenAccountRole, burned, paid_to, vault_outflow};
use crate::laws::{
    lemma_distribution_ends_season, lemma_distribution_pays_each_part,
    lemma_distribution_within_pool,
    lemma_vault_closing_moves_whole_balance,
};
use crate::error::LightInDarkError;
use crate::keys::{Key, default_key, is_default_key, key_is_default, keys_equal};
use crate::leaderboard::{
    Standing, beats, board, placed, ranked, ranks_ahead, record_personal_best, same_but_board,
};
use crate::rewards::{payout_actions, pool_splittable, share, split_prize_pool};
use crate::state::{
    ActiveRun, PlayerEntry, ROLLOVER_PCT, SeasonConfig, SeasonStatus,
};

verus! {

// ------------------------------------------------------------------
//  Initialize a season (admin)
// ------------------------------------------------------------------

/// `s` is the season just set up by `authority`: it opens in registration,
/// with an empty prize pool, no players, the authority as its creator, and
/// three empty leaderboard slots holding the slowest possible result.
pub open spec fn is_new_season(
    s: SeasonConfig,
    authority: Key,
    bump: u8,
    season_id: u32,
    stake_amount: u64,
    registration_start: i64,
    registration_end: i64,
    season_end: i64,
) -> bool {
    &&& s.season_id == season_id
    &&& s.authority == authority
    &&& s.creator == authority
    &&& s.stake_amount == stake_amount
    &&& s.registration_start == registration_start
    &&& s.registration_end == registration_end
    &&& s.season_end == season_end
    &&& s.prize_pool == 0
    &&& s.player_count == 0
    &&& s.status == SeasonStatus::Registration
    &&& forall|k: int|
        0 <= k < 3 ==> is_default_key(#[trigger] s.top_players[k]) && s.top_times[k] == u64::MAX
            && s.top_deaths[k] == u32::MAX
    &&& s.bump == bump
}

/// Sets up a new season, signed for by `authority`; `bump` is the bump of
/// the season account's address.
pub fn initialize_season(
    authority: Key,
    bump: u8,
    season_id: u32,
    stake_amount: u64,
    registration_start: i64,
    registration_end: i64,
    season_end: i64,
) -> (season: SeasonConfig)
    ensures
        is_new_season(
            season,
            authority,
            bump,
            season_id,
            stake_amount,
            registration_start,
            registration_end,
            season_end,
        ),
        season.creator == authority,
        season.prize_pool == 0,
        season.player_count == 0,
        season.status == SeasonStatus::Registration,
        season.top_times@ == seq![u64::MAX, u64::MAX, u64::MAX],
        season.top_deaths@ == seq![u32::MAX, u32::MAX, u32::MAX],
{
    SeasonConfig {
        season_id,
        authority,
        creator: authority,
        stake_amount,
        registration_start,
        registration_end,
        season_end,
        prize_pool: 0,
        player_count: 0,
        status: SeasonStatus::Registration,
        top_players: [default_key(), default_key(), default_key()],
        top_times: [u64::MAX, u64::MAX, u64::MAX],
        top_deaths: [u32::MAX, u32::MAX, u32::MAX],
        bump,
    }
}

// ------------------------------------------------------------------
//  Stake for a season (player)
// ------------------------------------------------------------------

/// Why a stake at time `now` is refused, if it is.
pub open spec fn stake_error(s: SeasonConfig, now: i64) -> Option<LightInDarkError> {
    if s.status != SeasonStatus::Registration {
        Some(LightInDarkError::RegistrationClosed)
    } else if !(s.registration_start <= now && now <= s.registration_end) {
        Some(LightInDarkError::OutsideRegistrationWindow)
    } else {
        None
    }
}

/// The season after one more player staked: the stake joins the prize pool
/// and the player count grows by one.
pub open spec fn with_stake(s: SeasonConfig) -> SeasonConfig {
    SeasonConfig {
        prize_pool: (s.prize_pool + s.stake_amount) as u64,
        player_count: (s.player_count + 1) as u32,
        ..s
    }
}

/// A stake accepted in season `s` can be counted without overflow.
pub open spec fn stake_fits(s: SeasonConfig) -> bool {
    s.prize_pool + s.stake_amount <= u64::MAX && s.player_count + 1 <= u32::MAX
}

/// `e` is the entry of `player` just registered in season `season_id`:
/// eligible, with the stake paid, no runs and the slowest possible best.
pub open spec fn is_new_entry(
    e: PlayerEntry,
    player: Key,
    bump: u8,
    season_id: u32,
    stake_amount: u64,
) -> bool {
    &&& e.player == player
    &&& e.season_id == season_id
    &&& e.staked_amount == stake_amount
    &&& e.is_eligible
    &&& e.best_time_ms == u64::MAX
    &&& e.best_death_count == u32::MAX
    &&& e.run_count == 0
    &&& e.bump == bump
}

/// A player enters a season at time `now` by staking the season's stake
/// amount into the vault; `bump` is the bump of the new entry's address.
/// Accepted only during registration and within the registration window.
pub fn stake_for_season(
    season: &mut SeasonConfig,
    player: Key,
    bump: u8,
    season_id: u32,
    now: i64,
) -> (r: Result<(PlayerEntry, Vec<Action>), LightInDarkError>)
    requires
        stake_error(*old(season), now) is None ==> stake_fits(*old(season)),
    ensures
        match r {
            Ok((entry, actions)) => {
                &&& stake_error(*old(season), now) is None
                &&& old(season).status == SeasonStatus::Registration
                &&& old(season).registration_start <= now <= old(season).registration_end
                &&& *final(season) == with_stake(*old(season))
                &&& final(season).prize_pool == old(season).prize_pool + old(season).stake_amount
                &&& final(season).player_count == old(season).player_count + 1
                &&& is_new_entry(entry, player, bump, season_id, old(season).stake_amount)
                &&& entry.player == player
                &&& entry.staked_amount == old(season).stake_amount
                &&& entry.is_eligible
                &&& entry.best_time_ms == u64::MAX
                &&& entry.best_death_count == u32::MAX
                &&& entry.run_count == 0
                &&& actions@ == seq![
                    Action::Transfer {
                        from: TokenAccountRole::PlayerTokenAccount,
                        to: TokenAccountRole::Vault,
                        amount: old(season).stake_amount,
                    },
                ]
            },
            Err(e) => {
                &&& stake_error(*old(season), now) == Some(e)
                &&& *final(season) == *old(season)
            },
        },
{
    if season.status != SeasonStatus::Registration {
        return Err(LightInDarkError::RegistrationClosed);
    }
    if !(now >= season.registration_start && now <= season.registration_end) {
        return Err(LightInDarkError::OutsideRegistrationWindow);
    }
    let stake_amount = season.stake_amount;
    let mut actions: Vec<Action> = Vec::new();
    actions.push(
        Action::Transfer {
            from: TokenAccountRole::PlayerTokenAccount,
            to: TokenAccountRole::Vault,
            amount: stake_amount,
        },
    );
    let entry = PlayerEntry {
        player,
        season_id,
        staked_amount: stake_amount,
        is_eligible: true,
        best_time_ms: u64::MAX,
        best_death_count: u32::MAX,
        run_count: 0,
        bump,
    };
    season.prize_pool = season.prize_pool + stake_amount;
    season.player_count = season.player_count + 1;
    Ok((entry, actions))
}

// ------------------------------------------------------------------
//  Check eligibility (player, read only)
// ------------------------------------------------------------------

/// Whether the entry's player may start competitive runs.
pub fn check_eligibility(entry: &PlayerEntry, _season_id: u32) -> (r: Result<bool, LightInDarkError>)
    ensures
        r == Ok::<bool, LightInDarkError>(entry.is_eligible),
{
    Ok(entry.is_eligible)
}


// ------------------------------------------------------------------
//  Start a competitive run (player)
// ------------------------------------------------------------------

/// How often the rollup commits a delegated run, in milliseconds.
pub const RUN_COMMIT_FREQUENCY_MS: u32 = 3_000;

/// Why a run cannot start, if it cannot.
pub open spec fn start_error(season: SeasonConfig, entry: PlayerEntry) -> Option<LightInDarkError> {
    if !entry.is_eligible {
        Some(LightInDarkError::NotEligible)
    } else if season.status != SeasonStatus::Active {
        Some(LightInDarkError::SeasonNotActive)
    } else {
        None
    }
}

/// An eligible player starts a run on level `level_id` at time `now` in an
/// active season; `bump` is the bump of the run account's address. The run
/// account is then delegated to the ephemeral rollup.
pub fn start_competitive_run(
    season: &SeasonConfig,
    entry: &PlayerEntry,
    player: Key,
    bump: u8,
    season_id: u32,
    level_id: u8,
    now: i64,
) -> (r: Result<(ActiveRun, Vec<Action>), LightInDarkError>)
    ensures
        match r {
            Ok((run, actions)) => {
                &&& start_error(*season, *entry) is None
                &&& entry.is_eligible
                &&& season.status == SeasonStatus::Active
                &&& run.player == player
                &&& run.season_id == season_id
                &&& run.level_id == level_id
                &&& run.start_time == now
                &&& run.elapsed_ms == 0
                &&& run.death_count == 0
                &&& !run.is_finished
                &&& run.bump == bump
                &&& actions@ == seq![Action::DelegateRun { commit_frequency_ms: RUN_COMMIT_FREQUENCY_MS }]
            },
            Err(e) => start_error(*season, *entry) == Some(e),
        },
{
    if !entry.is_eligible {
        return Err(LightInDarkError::NotEligible);
    }
    if season.status != SeasonStatus::Active {
        return Err(LightInDarkError::SeasonNotActive);
    }
    let run = ActiveRun {
        player,
        season_id,
        level_id,
        start_time: now,
        elapsed_ms: 0,
        death_count: 0,
        is_finished: false,
        bump,
    };
    let mut actions: Vec<Action> = Vec::new();
    actions.push(Action::DelegateRun { commit_frequency_ms: RUN_COMMIT_FREQUENCY_MS });
    Ok((run, actions))
}

// ------------------------------------------------------------------
//  Update a run (from the rollup)
// ------------------------------------------------------------------

/// Why `player` may not change the run, if they may not.
pub open spec fn run_error(run: ActiveRun, player: Key) -> Option<LightInDarkError> {
    if run.is_finished {
        Some(LightInDarkError::RunAlreadyFinished)
    } else if run.player != player {
        Some(LightInDarkError::Unauthorized)
    } else {
        None
    }
}

/// The run's player reports progress on an unfinished run.
pub fn update_run(run: &mut ActiveRun, player: Key, elapsed_ms: u64, death_count: u32) -> (r: Result<
    (),
    LightInDarkError,
>)
    ensures
        match r {
            Ok(()) => {
                &&& run_error(*old(run), player) is None
                &&& *final(run) == (ActiveRun { elapsed_ms, death_count, ..*old(run) })
            },
            Err(e) => {
                &&& run_error(*old(run), player) == Some(e)
                &&& *final(run) == *old(run)
            },
        },
{
    if run.is_finished {
        return Err(LightInDarkError::RunAlreadyFinished);
    }
    if !keys_equal(&run.player, &player) {
        return Err(LightInDarkError::Unauthorized);
    }
    run.elapsed_ms = elapsed_ms;
    run.death_count = death_count;
    Ok(())
}

// ------------------------------------------------------------------
//  Commit a run (player)
// ------------------------------------------------------------------

/// The result `(t, d)` improves on the entry's personal best.
pub open spec fn improves(entry: PlayerEntry, t: u64, d: u32) -> bool {
    beats((entry.player, t, d), (entry.player, entry.best_time_ms, entry.best_death_count))
}

/// The entry after a committed run with result `(t, d)`: the personal best
/// is replaced when the result improves on it, and the run count grows by
/// one.
pub open spec fn entry_after_commit(entry: PlayerEntry, t: u64, d: u32) -> PlayerEntry {
    if improves(entry, t, d) {
        PlayerEntry {
            best_time_ms: t,
            best_death_count: d,
            run_count: (entry.run_count + 1) as u32,
            ..entry
        }
    } else {
        PlayerEntry { run_count: (entry.run_count + 1) as u32, ..entry }
    }
}

/// The top three after `player` commits a run with result `(t, d)`: a new
/// personal best is recorded on it; any other result leaves it as it was.
pub open spec fn board_after_commit(
    b: Seq<Standing>,
    entry: PlayerEntry,
    player: Key,
    t: u64,
    d: u32,
) -> Seq<Standing> {
    if improves(entry, t, d) {
        ranked(placed(b, player, t, d))
    } else {
        b
    }
}

/// The run's player finishes an unfinished run with final time
/// `final_time_ms` and `final_death_count` deaths. A result better than the
/// player's personal best becomes the new personal best and is recorded on
/// the season's top three. The run account's delegation then ends.
pub fn commit_run(
    run: &mut ActiveRun,
    entry: &mut PlayerEntry,
    season: &mut SeasonConfig,
    player: Key,
    final_time_ms: u64,
    final_death_count: u32,
) -> (r: Result<Vec<Action>, LightInDarkError>)
    requires
        run_error(*old(run), player) is None ==> old(entry).run_count < u32::MAX,
    ensures
        match r {
            Ok(actions) => {
                &&& run_error(*old(run), player) is None
                &&& *final(run) == (ActiveRun {
                    elapsed_ms: final_time_ms,
                    death_count: final_death_count,
                    is_finished: true,
                    ..*old(run)
                })
                &&& *final(entry) == entry_after_commit(*old(entry), final_time_ms, final_death_count)
                &&& final(entry).player == old(entry).player
                &&& final(entry).season_id == old(entry).season_id
                &&& final(entry).staked_amount == old(entry).staked_amount
                &&& final(entry).is_eligible == old(entry).is_eligible
                &&& final(entry).bump == old(entry).bump
                &&& final(entry).run_count == old(entry).run_count + 1
                &&& if final_time_ms < old(entry).best_time_ms || (final_time_ms
                    == old(entry).best_time_ms && final_death_count < old(entry).best_death_count) {
                    final(entry).best_time_ms == final_time_ms && final(entry).best_death_count
                        == final_death_count
                } else {
                    final(entry).best_time_ms == old(entry).best_time_ms
                        && final(entry).best_death_count == old(entry).best_death_count
                }
                &&& same_but_board(*final(season), *old(season))
                &&& board(*final(season)) == board_after_commit(
                    board(*old(season)),
                    *old(entry),
                    player,
                    final_time_ms,
                    final_death_count,
                )
                &&& actions@ == seq![Action::CommitAndUndelegateRun]
            },
            Err(e) => {
                &&& run_error(*old(run), player) == Some(e)
                &&& *final(run) == *old(run)
                &&& *final(entry) == *old(entry)
                &&& *final(season) == *old(season)
            },
        },
{
    if run.is_finished {
        return Err(LightInDarkError::RunAlreadyFinished);
    }
    if !keys_equal(&run.player, &player) {
        return Err(LightInDarkError::Unauthorized);
    }
    run.elapsed_ms = final_time_ms;
    run.death_count = final_death_count;
    run.is_finished = true;

    let is_better = ranks_ahead(
        final_time_ms,
        final_death_count,
        entry.best_time_ms,
        entry.best_death_count,
    );
    if is_better {
        entry.best_time_ms = final_time_ms;
        entry.best_death_count = final_death_count;
    }
    entry.run_count = entry.run_count + 1;

    if is_better {
        record_personal_best(season, player, final_time_ms, final_death_count);
    }
    let mut actions: Vec<Action> = Vec::new();
    actions.push(Action::CommitAndUndelegateRun);
    Ok(actions)
}

// ------------------------------------------------------------------
//  Activate a season (admin)
// ------------------------------------------------------------------

/// Why `authority` may not (re)open season `s` for runs, if they may not:
/// only the season's authority may, and never once the season has ended, so
/// that an ended season's rewards cannot be paid out a second time.
pub open spec fn activate_error(s: SeasonConfig, authority: Key) -> Option<LightInDarkError> {
    if s.authority != authority {
        Some(LightInDarkError::Unauthorized)
    } else if s.status == SeasonStatus::Ended {
        Some(LightInDarkError::SeasonAlreadyDistributed)
    } else {
        None
    }
}

/// The season's authority opens a season that has not ended for runs.
pub fn activate_season(season: &mut SeasonConfig, authority: Key, _season_id: u32) -> (r: Result<
    (),
    LightInDarkError,
>)
    ensures
        match r {
            Ok(()) => {
                &&& activate_error(*old(season), authority) is None
                &&& old(season).authority == authority
                &&& old(season).status != SeasonStatus::Ended
                &&& *final(season) == (SeasonConfig {
                    status: SeasonStatus::Active,
                    ..*old(season)
                })
            },
            Err(e) => {
                &&& activate_error(*old(season), authority) == Some(e)
                &&& *final(season) == *old(season)
            },
        },
{
    if !keys_equal(&season.authority, &authority) {
        return Err(LightInDarkError::Unauthorized);
    }
    if season.status == SeasonStatus::Ended {
        return Err(LightInDarkError::SeasonAlreadyDistributed);
    }
    season.status = SeasonStatus::Active;
    Ok(())
}

// ------------------------------------------------------------------
//  Force-close a season whose account cannot be read (admin)
// ------------------------------------------------------------------

/// The authority recorded for a season closes the season's account, even one
/// whose contents no longer read as a season, returning its lamports to the
/// authority. `season_authority` is the authority the season account
/// records; anyone else is refused and nothing moves.
pub fn force_close_season(season_authority: Key, authority: Key, _season_id: u32) -> (r: Result<
    Vec<Action>,
    LightInDarkError,
>)
    ensures
        match r {
            Ok(actions) => {
                &&& season_authority == authority
                &&& actions@ == seq![Action::CloseSeasonAccount]
            },
            Err(e) => season_authority != authority && e == LightInDarkError::Unauthorized,
        },
{
    if !keys_equal(&season_authority, &authority) {
        return Err(LightInDarkError::Unauthorized);
    }
    let mut actions: Vec<Action> = Vec::new();
    actions.push(Action::CloseSeasonAccount);
    Ok(actions)
}

// ------------------------------------------------------------------
//  Close a season, or only its vault (admin utilities)
// ------------------------------------------------------------------

/// Empties the vault into the authority's token account, when it holds
/// anything, and then closes it.
pub open spec fn vault_closing_actions(vault_balance: u64) -> Seq<Action> {
    if vault_balance > 0 {
        seq![
            Action::Transfer {
                from: TokenAccountRole::Vault,
                to: TokenAccountRole::AuthorityTokenAccount,
                amount: vault_balance,
            },
            Action::CloseVault,
        ]
    } else {
        seq![Action::CloseVault]
    }
}

/// Builds the actions that empty and close a vault holding `vault_balance`.
fn close_vault_actions(vault_balance: u64) -> (actions: Vec<Action>)
    ensures
        actions@ == vault_closing_actions(vault_balance),
{
    let mut actions: Vec<Action> = Vec::new();
    if vault_balance > 0 {
        actions.push(
            Action::Transfer {
                from: TokenAccountRole::Vault,
                to: TokenAccountRole::AuthorityTokenAccount,
                amount: vault_balance,
            },
        );
    }
    actions.push(Action::CloseVault);
    actions
}

/// The season's authority closes the season: the vault, holding
/// `vault_balance` tokens, is emptied into the authority's token account
/// and closed.
pub fn close_season(season: &SeasonConfig, authority: Key, _season_id: u32, vault_balance: u64) -> (r:
    Result<Vec<Action>, LightInDarkError>)
    ensures
        match r {
            Ok(actions) => {
                &&& season.authority == authority
                &&& actions@ == vault_closing_actions(vault_balance)
                &&& vault_outflow(actions@) == vault_balance
                &&& actions@.last() == Action::CloseVault
                &&& paid_to(actions@, TokenAccountRole::AuthorityTokenAccount) == vault_balance
            },
            Err(e) => season.authority != authority && e == LightInDarkError::Unauthorized,
        },
{
    if !keys_equal(&season.authority, &authority) {
        return Err(LightInDarkError::Unauthorized);
    }
    proof {
        lemma_vault_closing_moves_whole_balance(vault_balance);
    }
    Ok(close_vault_actions(vault_balance))
}

/// The authority recorded for a season closes the season's vault, holding
/// `vault_balance` tokens, also when the season account itself no longer
/// reads as a season: the tokens go to the authority's token account first.
/// `season_authority` is the authority the season account records; anyone
/// else is refused and nothing moves.
pub fn close_vault(season_authority: Key, authority: Key, _season_id: u32, vault_balance: u64) -> (r:
    Result<Vec<Action>, LightInDarkError>)
    ensures
        match r {
            Ok(actions) => {
                &&& season_authority == authority
                &&& actions@ == vault_closing_actions(vault_balance)
                &&& vault_outflow(actions@) == vault_balance
                &&& actions@.last() == Action::CloseVault
                &&& paid_to(actions@, TokenAccountRole::AuthorityTokenAccount) == vault_balance
            },
            Err(e) => season_authority != authority && e == LightInDarkError::Unauthorized,
        },
{
    if !keys_equal(&season_authority, &authority) {
        return Err(LightInDarkError::Unauthorized);
    }
    proof {
        lemma_vault_closing_moves_whole_balance(vault_balance);
    }
    Ok(close_vault_actions(vault_balance))
}

// ------------------------------------------------------------------
//  Distribute a season's rewards (anyone)
// ------------------------------------------------------------------

/// The owners of the token accounts given to receive a season's rewards.
#[derive(Clone, Copy, Debug)]
pub struct PayoutOwners {
    pub winner1: Key,
    pub winner2: Key,
    pub winner3: Key,
    pub creator: Key,
}

/// Why the rewards of season `s` cannot be distributed at time `now` to the
/// given token accounts, if they cannot. The winners' accounts must belong
/// to the players in the top three slots and the creator's account to the
/// creator; the season must be over, still active, and hold a prize pool.
pub open spec fn distribute_error(s: SeasonConfig, now: i64, owners: PayoutOwners) -> Option<
    LightInDarkError,
> {
    if owners.winner1 != s.top_players[0] || owners.winner2 != s.top_players[1] || owners.winner3
        != s.top_players[2] {
        Some(LightInDarkError::WrongWinnerAccount)
    } else if owners.creator != s.creator {
        Some(LightInDarkError::WrongCreatorAccount)
    } else if !(now > s.season_end) {
        Some(LightInDarkError::SeasonNotEnded)
    } else if s.status != SeasonStatus::Active {
        Some(LightInDarkError::SeasonAlreadyDistributed)
    } else if s.prize_pool == 0 {
        Some(LightInDarkError::EmptyPrizePool)
    } else {
        None
    }
}

/// The season after its rewards went out: ended, with the rollover part of
/// the prize pool kept as the pool.
pub open spec fn distributed(s: SeasonConfig) -> SeasonConfig {
    SeasonConfig {
        status: SeasonStatus::Ended,
        prize_pool: share(s.prize_pool, ROLLOVER_PCT) as u64,
        ..s
    }
}

/// Anyone may, once a season is over, pay out its prize pool: 40% to the
/// first place, 20% to the second, 10% to the third (an empty slot's part
/// stays in the vault), 5% to the creator and 10% burned; the remaining
/// 15% stays as the prize pool of the now ended season. The request names
/// no caller: its outcome is the same whoever asks.
pub fn distribute_season_rewards(
    season: &mut SeasonConfig,
    _season_id: u32,
    now: i64,
    owners: &PayoutOwners,
) -> (r: Result<Vec<Action>, LightInDarkError>)
    requires
        distribute_error(*old(season), now, *owners) is None ==> pool_splittable(
            old(season).prize_pool,
        ),
    ensures
        match r {
            Ok(actions) => {
                &&& distribute_error(*old(season), now, *owners) is None
                &&& now > old(season).season_end
                &&& old(season).status == SeasonStatus::Active
                &&& old(season).prize_pool > 0
                &&& *final(season) == distributed(*old(season))
                &&& final(season).status == SeasonStatus::Ended
                &&& final(season).prize_pool == (old(season).prize_pool * 15) / 100
                &&& actions@ == payout_actions(*old(season))
                &&& vault_outflow(actions@) + final(season).prize_pool <= old(season).prize_pool
                &&& paid_to(actions@, TokenAccountRole::Winner1TokenAccount) == if is_default_key(
                    old(season).top_players[0],
                ) {
                    0
                } else {
                    (old(season).prize_pool * 40) / 100
                }
                &&& paid_to(actions@, TokenAccountRole::Winner2TokenAccount) == if is_default_key(
                    old(season).top_players[1],
                ) {
                    0
                } else {
                    (old(season).prize_pool * 20) / 100
                }
                &&& paid_to(actions@, TokenAccountRole::Winner3TokenAccount) == if is_default_key(
                    old(season).top_players[2],
                ) {
                    0
                } else {
                    (old(season).prize_pool * 10) / 100
                }
                &&& paid_to(actions@, TokenAccountRole::CreatorTokenAccount) == (old(
                    season,
                ).prize_pool * 5) / 100
                &&& burned(actions@) == (old(season).prize_pool * 10) / 100
            },
            Err(e) => {
                &&& distribute_error(*old(season), now, *owners) == Some(e)
                &&& *final(season) == *old(season)
            },
        },
{
    if !keys_equal(&owners.winner1, &season.top_players[0]) || !keys_equal(
        &owners.winner2,
        &season.top_players[1],
    ) || !keys_equal(&owners.winner3, &season.top_players[2]) {
        return Err(LightInDarkError::WrongWinnerAccount);
    }
    if !keys_equal(&owners.creator, &season.creator) {
        return Err(LightInDarkError::WrongCreatorAccount);
    }
    if !(now > season.season_end) {
        return Err(LightInDarkError::SeasonNotEnded);
    }
    if season.status != SeasonStatus::Active {
        return Err(LightInDarkError::SeasonAlreadyDistributed);
    }
    let pool = season.prize_pool;
    if !(pool > 0) {
        return Err(LightInDarkError::EmptyPrizePool);
    }
    let split = split_prize_pool(pool);

    let mut actions: Vec<Action> = Vec::new();
    if !key_is_default(&season.top_players[0]) {
        actions.push(
            Action::Transfer {
                from: TokenAccountRole::Vault,
                to: TokenAccountRole::Winner1TokenAccount,
                amount: split.winner_1,
            },
        );
    }
    if !key_is_default(&season.top_players[1]) {
        actions.push(
            Action::Transfer {
                from: TokenAccountRole::Vault,
                to: TokenAccountRole::Winner2TokenAccount,
                amount: split.winner_2,
            },
        );
    }
    if !key_is_default(&season.top_players[2]) {
        actions.push(
            Action::Transfer {
                from: TokenAccountRole::Vault,
                to: TokenAccountRole::Winner3TokenAccount,
                amount: split.winner_3,
            },
        );
    }
    actions.push(
        Action::Transfer {
            from: TokenAccountRole::Vault,
            to: TokenAccountRole::CreatorTokenAccount,
            amount: split.creator_cut,
        },
    );
    actions.push(Action::Burn { amount: split.burn_amt });
    assert(actions@ =~= payout_actions(*old(season)));
    proof {
        lemma_distribution_within_pool(*old(season));
        lemma_distribution_ends_season(*old(season));
        lemma_distribution_pays_each_part(*old(season));
    }

    season.status = SeasonStatus::Ended;
    season.prize_pool = split.rollover;
    Ok(actions)
}

} // verus!
