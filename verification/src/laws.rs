use vstd::prelude::*;
use crate::actions::{Action, TokenAccountRole, burned, paid_to, vault_outflow};
use crate::error::LightInDarkError;
use crate::instructions::{
    PayoutOwners, activate_error, board_after_commit, distribute_error, distributed,
    entry_after_commit, improves, is_new_season, run_error, start_error, stake_error,
    vault_closing_actions, with_stake,
};
use crate::keys::{Key, is_default_key};
use crate::leaderboard::{
    Standing, beats, board, board_matches_bests, lemma_empty_board_matches,
    lemma_record_keeps_board, lemma_registration_keeps_board, same_but_board,
};
use crate::rewards::{lemma_split_within_pool, payout_actions, share, winner_payout};
use crate::state::{
    ActiveRun, BURN_PCT, CREATOR_PCT, PlayerEntry, ROLLOVER_PCT, SeasonConfig, SeasonStatus,
    WINNER_1_PCT, WINNER_2_PCT, WINNER_3_PCT,
};

verus! {

/// A new season's top three (three empty slots) agrees with the personal
/// bests of its players, none of whom has finished a run yet.
pub proof fn lemma_new_season_board(
    s: SeasonConfig,
    authority: Key,
    bump: u8,
    season_id: u32,
    stake_amount: u64,
    registration_start: i64,
    registration_end: i64,
    season_end: i64,
    bests: Map<Key, (u64, u32)>,
)
    requires
        is_new_season(
            s,
            authority,
            bump,
            season_id,
            stake_amount,
            registration_start,
            registration_end,
            season_end,
        ),
        forall|p: Key| #[trigger] bests.contains_key(p) ==> bests[p] == (u64::MAX, u32::MAX),
    ensures
        board_matches_bests(board(s), bests),
{
    lemma_empty_board_matches(board(s), bests);
}

/// An accepted stake leaves the top three as they were, and they still agree
/// with the personal bests once the new player, who has no result yet, is
/// counted.
pub proof fn lemma_stake_keeps_leaderboard(
    s: SeasonConfig,
    bests: Map<Key, (u64, u32)>,
    player: Key,
)
    requires
        board_matches_bests(board(s), bests),
        !bests.contains_key(player),
    ensures
        board(with_stake(s)) == board(s),
        board_matches_bests(board(with_stake(s)), bests.insert(player, (u64::MAX, u32::MAX))),
{
    assert(board(with_stake(s)) =~= board(s));
    lemma_registration_keeps_board(board(s), bests, player);
}

/// A committed run keeps the season's top three in order and holding the
/// season's best players: with the committing player's personal best
/// updated as `commit_run` updates it, the top three after the commit agree
/// with every registered player's personal best.
pub proof fn lemma_commit_keeps_leaderboard(
    b: Seq<Standing>,
    bests: Map<Key, (u64, u32)>,
    entry: PlayerEntry,
    player: Key,
    t: u64,
    d: u32,
)
    requires
        board_matches_bests(b, bests),
        !is_default_key(player),
        bests.contains_key(player),
        bests[player] == (entry.best_time_ms, entry.best_death_count),
    ensures
        board_matches_bests(
            board_after_commit(b, entry, player, t, d),
            bests.insert(
                player,
                (
                    entry_after_commit(entry, t, d).best_time_ms,
                    entry_after_commit(entry, t, d).best_death_count,
                ),
            ),
        ),
{
    let e2 = entry_after_commit(entry, t, d);
    if improves(entry, t, d) {
        lemma_record_keeps_board(b, bests, player, t, d);
    } else {
        assert(bests.insert(player, (e2.best_time_ms, e2.best_death_count)) =~= bests);
    }
}

/// A player's personal best never gets worse, and after a commit it is at
/// least as good as the committed result.
pub proof fn lemma_personal_best_only_improves(entry: PlayerEntry, t: u64, d: u32)
    requires
        entry.run_count < u32::MAX,
    ensures
        ({
            let e2 = entry_after_commit(entry, t, d);
            &&& !beats(
                (entry.player, entry.best_time_ms, entry.best_death_count),
                (e2.player, e2.best_time_ms, e2.best_death_count),
            )
            &&& !beats((entry.player, t, d), (e2.player, e2.best_time_ms, e2.best_death_count))
            &&& e2.run_count == entry.run_count + 1
        }),
{
}

/// Once committed, a run is final: neither `update_run` nor `commit_run`
/// accepts it again, whoever asks.
pub proof fn lemma_committed_run_is_final(run: ActiveRun, t: u64, d: u32, anyone: Key)
    ensures
        run_error(
            ActiveRun { elapsed_ms: t, death_count: d, is_finished: true, ..run },
            anyone,
        ) == Some(LightInDarkError::RunAlreadyFinished),
{
}

/// A distribution ends the season, and an ended season stays ended: staking
/// into it, committing runs to it and re-activating it all leave it ended
/// (the first and last are refused), and every further distribution is
/// refused. So a season's rewards go out at most once.
pub proof fn lemma_distribute_only_once(
    s: SeasonConfig,
    now: i64,
    owners: PayoutOwners,
    later: i64,
    later_owners: PayoutOwners,
    anyone: Key,
)
    requires
        distribute_error(s, now, owners) is None,
    ensures
        distributed(s).status == SeasonStatus::Ended,
        distribute_error(distributed(s), now, owners) == Some(
            LightInDarkError::SeasonAlreadyDistributed,
        ),
        distribute_error(distributed(s), later, later_owners) is Some,
        activate_error(distributed(s), anyone) is Some,
{
    lemma_ended_season_stays_ended(distributed(s), later, later_owners, anyone);
}

/// An ended season never leaves the ended state: a stake is refused
/// (registration is closed), re-activation is refused, a distribution is
/// refused (with `SeasonAlreadyDistributed` whenever the accounts are right
/// and the season's end has passed), and a committed run changes only the
/// top three. No other instruction writes to a season.
pub proof fn lemma_ended_season_stays_ended(
    s: SeasonConfig,
    now: i64,
    owners: PayoutOwners,
    anyone: Key,
)
    requires
        s.status == SeasonStatus::Ended,
    ensures
        stake_error(s, now) == Some(LightInDarkError::RegistrationClosed),
        activate_error(s, anyone) is Some,
        distribute_error(s, now, owners) is Some,
        owners.winner1 == s.top_players[0] && owners.winner2 == s.top_players[1]
            && owners.winner3 == s.top_players[2] && owners.creator == s.creator && now
            > s.season_end ==> distribute_error(s, now, owners) == Some(
            LightInDarkError::SeasonAlreadyDistributed,
        ),
        forall|s2: SeasonConfig| #[trigger] same_but_board(s2, s) ==> s2.status == SeasonStatus::Ended,
{
}

/// What a distribution pays out and burns, together with the rollover kept
/// as the next prize pool, never exceeds the prize pool.
pub proof fn lemma_distribution_within_pool(s: SeasonConfig)
    ensures
        vault_outflow(payout_actions(s)) + distributed(s).prize_pool <= s.prize_pool,
{
    let pool = s.prize_pool;
    lemma_split_within_pool(pool);
    assert(share(pool, ROLLOVER_PCT) <= pool) by (nonlinear_arith)
        requires
            share(pool, ROLLOVER_PCT) == (pool * 15) / 100,
            pool >= 0,
    ;
    lemma_payout_outflow(s);
}

/// The vault outflow of a distribution: the parts of the taken slots, the
/// creator's cut and the burn.
proof fn lemma_payout_outflow(s: SeasonConfig)
    ensures
        vault_outflow(payout_actions(s)) == (if is_default_key(s.top_players[0]) {
            0
        } else {
            share(s.prize_pool, WINNER_1_PCT)
        }) + (if is_default_key(s.top_players[1]) {
            0
        } else {
            share(s.prize_pool, WINNER_2_PCT)
        }) + (if is_default_key(s.top_players[2]) {
            0
        } else {
            share(s.prize_pool, WINNER_3_PCT)
        }) + share(s.prize_pool, CREATOR_PCT) + share(s.prize_pool, BURN_PCT),
{
    let pool = s.prize_pool;
    let w0 = winner_payout(s, 0, TokenAccountRole::Winner1TokenAccount, WINNER_1_PCT);
    let w1 = winner_payout(s, 1, TokenAccountRole::Winner2TokenAccount, WINNER_2_PCT);
    let w2 = winner_payout(s, 2, TokenAccountRole::Winner3TokenAccount, WINNER_3_PCT);
    let tail = seq![
        Action::Transfer {
            from: TokenAccountRole::Vault,
            to: TokenAccountRole::CreatorTokenAccount,
            amount: share(pool, CREATOR_PCT) as u64,
        },
        Action::Burn { amount: share(pool, BURN_PCT) as u64 },
    ];
    assert(payout_actions(s) == w0 + w1 + w2 + tail);
    lemma_outflow_concat(w0, w1);
    lemma_outflow_concat(w0 + w1, w2);
    lemma_outflow_concat(w0 + w1 + w2, tail);
    lemma_winner_payout_outflow(s, 0, TokenAccountRole::Winner1TokenAccount, WINNER_1_PCT);
    lemma_winner_payout_outflow(s, 1, TokenAccountRole::Winner2TokenAccount, WINNER_2_PCT);
    lemma_winner_payout_outflow(s, 2, TokenAccountRole::Winner3TokenAccount, WINNER_3_PCT);
    lemma_share_fits(pool, CREATOR_PCT);
    lemma_share_fits(pool, BURN_PCT);
    assert(tail.drop_last().drop_last() =~= Seq::<Action>::empty());
    reveal_with_fuel(vault_outflow, 3);
}

/// Every part of a split fits the pool's own type.
proof fn lemma_share_fits(pool: u64, pct: u64)
    requires
        pct <= 100,
    ensures
        0 <= share(pool, pct) <= pool,
{
    assert(0 <= (pool * pct) / 100 <= pool) by (nonlinear_arith)
        requires
            pct <= 100,
            pool >= 0,
    ;
}

/// The vault outflow of one winner's part.
proof fn lemma_winner_payout_outflow(s: SeasonConfig, k: int, to: TokenAccountRole, pct: u64)
    requires
        pct <= 100,
    ensures
        vault_outflow(winner_payout(s, k, to, pct)) == if is_default_key(s.top_players[k]) {
            0
        } else {
            share(s.prize_pool, pct)
        },
{
    lemma_share_fits(s.prize_pool, pct);
    let w = winner_payout(s, k, to, pct);
    if !is_default_key(s.top_players[k]) {
        assert(w.drop_last() =~= Seq::<Action>::empty());
        reveal_with_fuel(vault_outflow, 2);
    }
}

/// The vault outflow of two lists of actions, one after the other, is the
/// sum of their outflows.
proof fn lemma_outflow_concat(x: Seq<Action>, y: Seq<Action>)
    ensures
        vault_outflow(x + y) == vault_outflow(x) + vault_outflow(y),
    decreases y.len(),
{
    if y.len() == 0 {
        assert(x + y =~= x);
    } else {
        lemma_outflow_concat(x, y.drop_last());
        assert((x + y).drop_last() =~= x + y.drop_last());
        assert((x + y).last() == y.last());
    }
}

/// While players register, the prize pool is exactly their stakes: if it
/// holds the season's stake once per player before a stake is accepted, it
/// does after.
pub proof fn lemma_stakes_fill_pool(s: SeasonConfig, now: i64)
    requires
        stake_error(s, now) is None,
        s.prize_pool == s.stake_amount * s.player_count,
        s.prize_pool + s.stake_amount <= u64::MAX,
        s.player_count + 1 <= u32::MAX,
    ensures
        with_stake(s).prize_pool == with_stake(s).stake_amount * with_stake(s).player_count,
        with_stake(s).status == SeasonStatus::Registration,
{
    assert(s.stake_amount * (s.player_count + 1) == s.stake_amount * s.player_count
        + s.stake_amount) by (nonlinear_arith);
}


/// A stake is accepted exactly while the season is in registration and the
/// time lies within the registration window, bounds included.
pub proof fn lemma_stake_accepted_when(s: SeasonConfig, now: i64)
    ensures
        (stake_error(s, now) is None) <==> (s.status == SeasonStatus::Registration
            && s.registration_start <= now && now <= s.registration_end),
        s.status != SeasonStatus::Registration ==> stake_error(s, now) == Some(
            LightInDarkError::RegistrationClosed,
        ),
        s.status == SeasonStatus::Registration && !(s.registration_start <= now && now
            <= s.registration_end) ==> stake_error(s, now) == Some(
            LightInDarkError::OutsideRegistrationWindow,
        ),
{
}

/// Every accepted stake counts: the prize pool grows by exactly the stake
/// amount and the player count by exactly one, however many players are
/// already registered, and nothing else about the season changes.
pub proof fn lemma_stake_counts(s: SeasonConfig)
    requires
        s.prize_pool + s.stake_amount <= u64::MAX,
        s.player_count + 1 <= u32::MAX,
    ensures
        with_stake(s).prize_pool == s.prize_pool + s.stake_amount,
        with_stake(s).player_count == s.player_count + 1,
        with_stake(s).status == s.status,
        with_stake(s).stake_amount == s.stake_amount,
        with_stake(s).authority == s.authority,
        with_stake(s).creator == s.creator,
        with_stake(s).season_id == s.season_id,
        with_stake(s).registration_start == s.registration_start,
        with_stake(s).registration_end == s.registration_end,
        with_stake(s).season_end == s.season_end,
        with_stake(s).top_players == s.top_players,
        with_stake(s).top_times == s.top_times,
        with_stake(s).top_deaths == s.top_deaths,
        with_stake(s).bump == s.bump,
{
}

/// A run starts exactly when the player is eligible and the season is
/// active; an eligible player in a season still in registration or already
/// ended is told the season is not active.
pub proof fn lemma_start_needs_active_season(season: SeasonConfig, entry: PlayerEntry)
    ensures
        (start_error(season, entry) is None) <==> (entry.is_eligible && season.status
            == SeasonStatus::Active),
        !entry.is_eligible ==> start_error(season, entry) == Some(LightInDarkError::NotEligible),
        entry.is_eligible && season.status != SeasonStatus::Active ==> start_error(season, entry)
            == Some(LightInDarkError::SeasonNotActive),
{
}

/// Only the run's own player may change an unfinished run, and only while
/// it is unfinished.
pub proof fn lemma_run_change_allowed_when(run: ActiveRun, player: Key)
    ensures
        (run_error(run, player) is None) <==> (!run.is_finished && run.player == player),
        run.is_finished ==> run_error(run, player) == Some(LightInDarkError::RunAlreadyFinished),
        !run.is_finished && run.player != player ==> run_error(run, player) == Some(
            LightInDarkError::Unauthorized,
        ),
{
}

/// A committed run changes exactly three fields of the player's entry: the
/// run count grows by one, and the best time and death count become the
/// committed result when it is strictly better (a faster time, or the same
/// time with fewer deaths) and stay as they were otherwise. The player,
/// season, stake, eligibility and bump stay as they were, so an eligible
/// player stays eligible.
pub proof fn lemma_commit_changes_only_best_and_count(entry: PlayerEntry, t: u64, d: u32)
    requires
        entry.run_count < u32::MAX,
    ensures
        entry_after_commit(entry, t, d).run_count == entry.run_count + 1,
        entry_after_commit(entry, t, d).player == entry.player,
        entry_after_commit(entry, t, d).season_id == entry.season_id,
        entry_after_commit(entry, t, d).staked_amount == entry.staked_amount,
        entry_after_commit(entry, t, d).is_eligible == entry.is_eligible,
        entry_after_commit(entry, t, d).bump == entry.bump,
        (t < entry.best_time_ms || (t == entry.best_time_ms && d < entry.best_death_count)) ==> (
        entry_after_commit(entry, t, d).best_time_ms == t && entry_after_commit(
            entry,
            t,
            d,
        ).best_death_count == d),
        !(t < entry.best_time_ms || (t == entry.best_time_ms && d < entry.best_death_count)) ==> (
        entry_after_commit(entry, t, d).best_time_ms == entry.best_time_ms && entry_after_commit(
            entry,
            t,
            d,
        ).best_death_count == entry.best_death_count),
{
}

/// Rewards are paid out exactly when the given token accounts belong to the
/// three slot holders and the creator, the season's end has passed, the
/// season is active and its pool is not empty; at any time up to and
/// including the season's end, the request is refused.
pub proof fn lemma_distribution_accepted_when(s: SeasonConfig, now: i64, owners: PayoutOwners)
    ensures
        (distribute_error(s, now, owners) is None) <==> (owners.winner1 == s.top_players[0]
            && owners.winner2 == s.top_players[1] && owners.winner3 == s.top_players[2]
            && owners.creator == s.creator && now > s.season_end && s.status
            == SeasonStatus::Active && s.prize_pool > 0),
        now <= s.season_end ==> distribute_error(s, now, owners) is Some,
        !(owners.winner1 == s.top_players[0] && owners.winner2 == s.top_players[1]
            && owners.winner3 == s.top_players[2]) ==> distribute_error(s, now, owners) == Some(
            LightInDarkError::WrongWinnerAccount,
        ),
        owners.winner1 == s.top_players[0] && owners.winner2 == s.top_players[1]
            && owners.winner3 == s.top_players[2] && owners.creator != s.creator
            ==> distribute_error(s, now, owners) == Some(LightInDarkError::WrongCreatorAccount),
        owners.winner1 == s.top_players[0] && owners.winner2 == s.top_players[1]
            && owners.winner3 == s.top_players[2] && owners.creator == s.creator && now
            <= s.season_end ==> distribute_error(s, now, owners) == Some(
            LightInDarkError::SeasonNotEnded,
        ),
        owners.winner1 == s.top_players[0] && owners.winner2 == s.top_players[1]
            && owners.winner3 == s.top_players[2] && owners.creator == s.creator && now
            > s.season_end && s.status != SeasonStatus::Active ==> distribute_error(
            s,
            now,
            owners,
        ) == Some(LightInDarkError::SeasonAlreadyDistributed),
        owners.winner1 == s.top_players[0] && owners.winner2 == s.top_players[1]
            && owners.winner3 == s.top_players[2] && owners.creator == s.creator && now
            > s.season_end && s.status == SeasonStatus::Active && s.prize_pool == 0
            ==> distribute_error(s, now, owners) == Some(LightInDarkError::EmptyPrizePool),
{
}

/// A distribution ends the season and keeps 15% of the pool, rounded down,
/// as its prize pool; nothing else about the season changes.
pub proof fn lemma_distribution_ends_season(s: SeasonConfig)
    ensures
        distributed(s).status == SeasonStatus::Ended,
        distributed(s).prize_pool == (s.prize_pool * 15) / 100,
        distributed(s).season_id == s.season_id,
        distributed(s).authority == s.authority,
        distributed(s).creator == s.creator,
        distributed(s).stake_amount == s.stake_amount,
        distributed(s).registration_start == s.registration_start,
        distributed(s).registration_end == s.registration_end,
        distributed(s).season_end == s.season_end,
        distributed(s).player_count == s.player_count,
        distributed(s).top_players == s.top_players,
        distributed(s).top_times == s.top_times,
        distributed(s).top_deaths == s.top_deaths,
        distributed(s).bump == s.bump,
{
    lemma_share_fits(s.prize_pool, ROLLOVER_PCT);
}

/// With all three slots taken, a distribution takes out of the vault exactly
/// 40% + 20% + 10% (winners) + 5% (creator) + 10% (burned) of the pool, each
/// part rounded down; an empty slot's part stays in the vault.
pub proof fn lemma_distribution_outflow(s: SeasonConfig)
    ensures
        vault_outflow(payout_actions(s)) == (if is_default_key(s.top_players[0]) {
            0
        } else {
            (s.prize_pool * 40) / 100
        }) + (if is_default_key(s.top_players[1]) {
            0
        } else {
            (s.prize_pool * 20) / 100
        }) + (if is_default_key(s.top_players[2]) {
            0
        } else {
            (s.prize_pool * 10) / 100
        }) + (s.prize_pool * 5) / 100 + (s.prize_pool * 10) / 100,
{
    lemma_payout_outflow(s);
}

/// A distribution pays each recipient exactly its own part, each rounded
/// down: the first, second and third places 40%, 20% and 10% of the pool
/// (nothing for an empty slot), the creator 5%; it burns 10%; and it pays
/// nothing to any other account. Every transfer comes out of the vault.
pub proof fn lemma_distribution_pays_each_part(s: SeasonConfig)
    ensures
        paid_to(payout_actions(s), TokenAccountRole::Winner1TokenAccount) == if is_default_key(
            s.top_players[0],
        ) {
            0
        } else {
            (s.prize_pool * 40) / 100
        },
        paid_to(payout_actions(s), TokenAccountRole::Winner2TokenAccount) == if is_default_key(
            s.top_players[1],
        ) {
            0
        } else {
            (s.prize_pool * 20) / 100
        },
        paid_to(payout_actions(s), TokenAccountRole::Winner3TokenAccount) == if is_default_key(
            s.top_players[2],
        ) {
            0
        } else {
            (s.prize_pool * 10) / 100
        },
        paid_to(payout_actions(s), TokenAccountRole::CreatorTokenAccount) == (s.prize_pool * 5)
            / 100,
        burned(payout_actions(s)) == (s.prize_pool * 10) / 100,
        paid_to(payout_actions(s), TokenAccountRole::AuthorityTokenAccount) == 0,
        paid_to(payout_actions(s), TokenAccountRole::PlayerTokenAccount) == 0,
        paid_to(payout_actions(s), TokenAccountRole::Vault) == 0,
        forall|i: int|
            0 <= i < payout_actions(s).len() ==> match #[trigger] payout_actions(s)[i] {
                Action::Transfer { from, .. } => from == TokenAccountRole::Vault,
                Action::Burn { .. } => true,
                _ => false,
            },
{
    let pool = s.prize_pool;
    let w0 = winner_payout(s, 0, TokenAccountRole::Winner1TokenAccount, WINNER_1_PCT);
    let w1 = winner_payout(s, 1, TokenAccountRole::Winner2TokenAccount, WINNER_2_PCT);
    let w2 = winner_payout(s, 2, TokenAccountRole::Winner3TokenAccount, WINNER_3_PCT);
    let tail = seq![
        Action::Transfer {
            from: TokenAccountRole::Vault,
            to: TokenAccountRole::CreatorTokenAccount,
            amount: share(pool, CREATOR_PCT) as u64,
        },
        Action::Burn { amount: share(pool, BURN_PCT) as u64 },
    ];
    assert(payout_actions(s) == w0 + w1 + w2 + tail);
    lemma_share_fits(pool, WINNER_1_PCT);
    lemma_share_fits(pool, WINNER_2_PCT);
    lemma_share_fits(pool, WINNER_3_PCT);
    lemma_share_fits(pool, CREATOR_PCT);
    lemma_share_fits(pool, BURN_PCT);
    lemma_burned_concat(w0, w1);
    lemma_burned_concat(w0 + w1, w2);
    lemma_burned_concat(w0 + w1 + w2, tail);
    assert(tail.drop_last().drop_last() =~= Seq::<Action>::empty());
    reveal_with_fuel(burned, 3);
    reveal_with_fuel(paid_to, 3);
    if !is_default_key(s.top_players[0]) {
        assert(w0.drop_last() =~= Seq::<Action>::empty());
    }
    if !is_default_key(s.top_players[1]) {
        assert(w1.drop_last() =~= Seq::<Action>::empty());
    }
    if !is_default_key(s.top_players[2]) {
        assert(w2.drop_last() =~= Seq::<Action>::empty());
    }
    assert(burned(w0) == 0 && burned(w1) == 0 && burned(w2) == 0);
    let roles = seq![
        TokenAccountRole::Winner1TokenAccount,
        TokenAccountRole::Winner2TokenAccount,
        TokenAccountRole::Winner3TokenAccount,
        TokenAccountRole::CreatorTokenAccount,
        TokenAccountRole::AuthorityTokenAccount,
        TokenAccountRole::PlayerTokenAccount,
        TokenAccountRole::Vault,
    ];
    assert forall|k: int| 0 <= k < 7 implies paid_to(payout_actions(s), #[trigger] roles[k])
        == paid_to(w0, roles[k]) + paid_to(w1, roles[k]) + paid_to(w2, roles[k]) + paid_to(
        tail,
        roles[k],
    ) by {
        lemma_paid_to_concat(w0, w1, roles[k]);
        lemma_paid_to_concat(w0 + w1, w2, roles[k]);
        lemma_paid_to_concat(w0 + w1 + w2, tail, roles[k]);
    }
    assert(paid_to(payout_actions(s), roles[0]) == paid_to(w0, roles[0]) + paid_to(w1, roles[0])
        + paid_to(w2, roles[0]) + paid_to(tail, roles[0]));
    assert(paid_to(payout_actions(s), roles[1]) == paid_to(w0, roles[1]) + paid_to(w1, roles[1])
        + paid_to(w2, roles[1]) + paid_to(tail, roles[1]));
    assert(paid_to(payout_actions(s), roles[2]) == paid_to(w0, roles[2]) + paid_to(w1, roles[2])
        + paid_to(w2, roles[2]) + paid_to(tail, roles[2]));
    assert(paid_to(payout_actions(s), roles[3]) == paid_to(w0, roles[3]) + paid_to(w1, roles[3])
        + paid_to(w2, roles[3]) + paid_to(tail, roles[3]));
    assert(paid_to(payout_actions(s), roles[4]) == paid_to(w0, roles[4]) + paid_to(w1, roles[4])
        + paid_to(w2, roles[4]) + paid_to(tail, roles[4]));
    assert(paid_to(payout_actions(s), roles[5]) == paid_to(w0, roles[5]) + paid_to(w1, roles[5])
        + paid_to(w2, roles[5]) + paid_to(tail, roles[5]));
    assert(paid_to(payout_actions(s), roles[6]) == paid_to(w0, roles[6]) + paid_to(w1, roles[6])
        + paid_to(w2, roles[6]) + paid_to(tail, roles[6]));
    assert forall|i: int| 0 <= i < payout_actions(s).len() implies match #[trigger] payout_actions(
        s,
    )[i] {
        Action::Transfer { from, .. } => from == TokenAccountRole::Vault,
        Action::Burn { .. } => true,
        _ => false,
    } by {
        let a = payout_actions(s);
        let n0 = w0.len() as int;
        let n1 = w1.len() as int;
        let n2 = w2.len() as int;
        if i < n0 {
            assert(a[i] == w0[i]);
        } else if i < n0 + n1 {
            assert(a[i] == w1[i - n0]);
        } else if i < n0 + n1 + n2 {
            assert(a[i] == w2[i - n0 - n1]);
        } else {
            assert(a[i] == tail[i - n0 - n1 - n2]);
        }
    }
}

/// Tokens paid into an account by two lists of actions, one after the
/// other, add up.
proof fn lemma_paid_to_concat(x: Seq<Action>, y: Seq<Action>, to: TokenAccountRole)
    ensures
        paid_to(x + y, to) == paid_to(x, to) + paid_to(y, to),
    decreases y.len(),
{
    if y.len() == 0 {
        assert(x + y =~= x);
    } else {
        lemma_paid_to_concat(x, y.drop_last(), to);
        assert((x + y).drop_last() =~= x + y.drop_last());
        assert((x + y).last() == y.last());
    }
}

/// Tokens burned by two lists of actions, one after the other, add up.
proof fn lemma_burned_concat(x: Seq<Action>, y: Seq<Action>)
    ensures
        burned(x + y) == burned(x) + burned(y),
    decreases y.len(),
{
    if y.len() == 0 {
        assert(x + y =~= x);
    } else {
        lemma_burned_concat(x, y.drop_last());
        assert((x + y).drop_last() =~= x + y.drop_last());
        assert((x + y).last() == y.last());
    }
}

/// Closing a vault takes out of it exactly its whole balance, sends it to
/// the authority's token account only, and ends with the vault's closing.
pub proof fn lemma_vault_closing_moves_whole_balance(vault_balance: u64)
    ensures
        vault_outflow(vault_closing_actions(vault_balance)) == vault_balance,
        paid_to(vault_closing_actions(vault_balance), TokenAccountRole::AuthorityTokenAccount)
            == vault_balance,
        vault_closing_actions(vault_balance).len() > 0,
        vault_closing_actions(vault_balance).last() == Action::CloseVault,
        forall|i: int|
            0 <= i < vault_closing_actions(vault_balance).len() ==> match #[trigger] vault_closing_actions(
                vault_balance,
            )[i] {
                Action::Transfer { from, to, .. } => from == TokenAccountRole::Vault && to
                    == TokenAccountRole::AuthorityTokenAccount,
                Action::CloseVault => i == vault_closing_actions(vault_balance).len() - 1,
                _ => false,
            },
{
    let a = vault_closing_actions(vault_balance);
    if vault_balance > 0 {
        assert(a.drop_last().drop_last() =~= Seq::<Action>::empty());
        reveal_with_fuel(vault_outflow, 3);
        reveal_with_fuel(paid_to, 3);
    } else {
        assert(a.drop_last() =~= Seq::<Action>::empty());
        reveal_with_fuel(vault_outflow, 2);
        reveal_with_fuel(paid_to, 2);
    }
}

/// Only the season's authority may open a season for runs, and only while
/// the season has not ended.
pub proof fn lemma_activation_allowed_when(s: SeasonConfig, authority: Key)
    ensures
        (activate_error(s, authority) is None) <==> (s.authority == authority && s.status
            != SeasonStatus::Ended),
        s.authority != authority ==> activate_error(s, authority) == Some(
            LightInDarkError::Unauthorized,
        ),
        s.authority == authority && s.status == SeasonStatus::Ended ==> activate_error(
            s,
            authority,
        ) == Some(LightInDarkError::SeasonAlreadyDistributed),
{
}

} // verus!
