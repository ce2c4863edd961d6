use lightindark_v2::actions::{Action, TokenAccountRole};
use lightindark_v2::error::LightInDarkError;
use lightindark_v2::instructions::{
    activate_season, check_eligibility, close_season, close_vault, commit_run,
    distribute_season_rewards, force_close_season, initialize_season, stake_for_season,
    start_competitive_run, update_run, PayoutOwners,
};
use lightindark_v2::keys::{default_key, key_is_default, keys_equal, Key};
use lightindark_v2::leaderboard::{ranks_ahead, record_personal_best};
use lightindark_v2::rewards::split_prize_pool;
use lightindark_v2::state::{ActiveRun, PlayerEntry, SeasonConfig, SeasonStatus};

fn key(b: u8) -> Key {
    [b; 32]
}

const ADMIN: u8 = 1;
const CREATOR_NONE: u8 = 0;

fn season() -> SeasonConfig {
    initialize_season(key(ADMIN), 254, 7, 100, 1_000, 2_000, 5_000)
}

fn active_season() -> SeasonConfig {
    let mut s = season();
    activate_season(&mut s, key(ADMIN), 7).unwrap();
    s
}

fn entry_for(s: &mut SeasonConfig, p: u8) -> PlayerEntry {
    stake_for_season(s, key(p), 200, 7, 1_500).unwrap().0
}

fn active_season_with(players: &[u8]) -> (SeasonConfig, Vec<PlayerEntry>) {
    let mut s = season();
    let entries = players.iter().map(|p| entry_for(&mut s, *p)).collect();
    activate_season(&mut s, key(ADMIN), 7).unwrap();
    (s, entries)
}

fn run_for(p: u8) -> ActiveRun {
    ActiveRun {
        player: key(p),
        season_id: 7,
        level_id: 3,
        start_time: 2_100,
        elapsed_ms: 0,
        death_count: 0,
        is_finished: false,
        bump: 9,
    }
}

fn commit(s: &mut SeasonConfig, e: &mut PlayerEntry, p: u8, t: u64, d: u32) {
    let mut r = run_for(p);
    let acts = commit_run(&mut r, e, s, key(p), t, d).unwrap();
    assert_eq!(acts, vec![Action::CommitAndUndelegateRun]);
}

fn board(s: &SeasonConfig) -> Vec<(u8, u64, u32)> {
    (0..3).map(|i| (s.top_players[i][0], s.top_times[i], s.top_deaths[i])).collect()
}

#[test]
fn keys_compare_bytewise() {
    assert!(keys_equal(&key(3), &key(3)));
    let mut k = key(3);
    k[31] = 4;
    assert!(!keys_equal(&key(3), &k));
    assert!(key_is_default(&default_key()));
    assert!(key_is_default(&[0u8; 32]));
    assert!(!key_is_default(&k));
}

#[test]
fn initialize_season_sets_up_registration() {
    let s = season();
    assert_eq!(s.season_id, 7);
    assert_eq!(s.authority, key(ADMIN));
    assert_eq!(s.creator, key(ADMIN));
    assert_eq!(s.stake_amount, 100);
    assert_eq!(s.registration_start, 1_000);
    assert_eq!(s.registration_end, 2_000);
    assert_eq!(s.season_end, 5_000);
    assert_eq!(s.prize_pool, 0);
    assert_eq!(s.player_count, 0);
    assert_eq!(s.status, SeasonStatus::Registration);
    assert_eq!(s.bump, 254);
    for i in 0..3 {
        assert_eq!(s.top_players[i], [CREATOR_NONE; 32]);
        assert_eq!(s.top_times[i], u64::MAX);
        assert_eq!(s.top_deaths[i], u32::MAX);
    }
}

#[test]
fn account_sizes() {
    assert_eq!(SeasonConfig::LEN, 254);
    assert_eq!(PlayerEntry::LEN, 70);
    assert_eq!(ActiveRun::LEN, 67);
}

#[test]
fn stake_adds_to_pool_and_creates_entry() {
    let mut s = season();
    let (e, acts) = stake_for_season(&mut s, key(5), 200, 7, 1_000).unwrap();
    assert_eq!(
        acts,
        vec![Action::Transfer {
            from: TokenAccountRole::PlayerTokenAccount,
            to: TokenAccountRole::Vault,
            amount: 100
        }]
    );
    assert_eq!(e.player, key(5));
    assert_eq!(e.season_id, 7);
    assert_eq!(e.staked_amount, 100);
    assert!(e.is_eligible);
    assert_eq!(e.best_time_ms, u64::MAX);
    assert_eq!(e.best_death_count, u32::MAX);
    assert_eq!(e.run_count, 0);
    assert_eq!(e.bump, 200);
    assert_eq!(s.prize_pool, 100);
    assert_eq!(s.player_count, 1);
    assert_eq!(board(&s), vec![(0, u64::MAX, u32::MAX); 3]);
    // the last second of the window still counts
    stake_for_season(&mut s, key(6), 200, 7, 2_000).unwrap();
    assert_eq!(s.prize_pool, 200);
    assert_eq!(s.player_count, 2);
}

#[test]
fn stake_outside_window_is_refused() {
    let mut s = season();
    for now in [999i64, 2_001, -5] {
        let r = stake_for_season(&mut s, key(5), 200, 7, now);
        assert_eq!(r.err(), Some(LightInDarkError::OutsideRegistrationWindow));
    }
    assert_eq!(s.prize_pool, 0);
    assert_eq!(s.player_count, 0);
}

#[test]
fn stake_after_registration_is_refused() {
    let mut s = active_season();
    let r = stake_for_season(&mut s, key(5), 200, 7, 1_500);
    assert_eq!(r.err(), Some(LightInDarkError::RegistrationClosed));
    assert_eq!(s.prize_pool, 0);
}

#[test]
fn eligibility_is_read_from_entry() {
    let mut s = season();
    let mut e = entry_for(&mut s, 5);
    assert_eq!(check_eligibility(&e, 7), Ok(true));
    e.is_eligible = false;
    assert_eq!(check_eligibility(&e, 7), Ok(false));
}

#[test]
fn activate_requires_authority() {
    let mut s = season();
    assert_eq!(activate_season(&mut s, key(2), 7), Err(LightInDarkError::Unauthorized));
    assert_eq!(s.status, SeasonStatus::Registration);
    assert_eq!(activate_season(&mut s, key(ADMIN), 7), Ok(()));
    assert_eq!(s.status, SeasonStatus::Active);
}

#[test]
fn start_run_in_active_season() {
    let mut s = season();
    let e = entry_for(&mut s, 5);
    let r = start_competitive_run(&s, &e, key(5), 9, 7, 3, 2_100);
    assert_eq!(r.err(), Some(LightInDarkError::SeasonNotActive));
    activate_season(&mut s, key(ADMIN), 7).unwrap();
    let (run, acts) = start_competitive_run(&s, &e, key(5), 9, 7, 3, 2_100).unwrap();
    assert_eq!(acts, vec![Action::DelegateRun { commit_frequency_ms: 3_000 }]);
    assert_eq!(run.player, key(5));
    assert_eq!(run.season_id, 7);
    assert_eq!(run.level_id, 3);
    assert_eq!(run.start_time, 2_100);
    assert_eq!(run.elapsed_ms, 0);
    assert_eq!(run.death_count, 0);
    assert!(!run.is_finished);
    assert_eq!(run.bump, 9);
}

#[test]
fn start_run_requires_eligibility() {
    let mut s = season();
    let mut e = entry_for(&mut s, 5);
    activate_season(&mut s, key(ADMIN), 7).unwrap();
    e.is_eligible = false;
    let r = start_competitive_run(&s, &e, key(5), 9, 7, 3, 2_100);
    assert_eq!(r.err(), Some(LightInDarkError::NotEligible));
}

#[test]
fn update_run_by_owner_only() {
    let mut r = run_for(5);
    assert_eq!(update_run(&mut r, key(6), 10, 1), Err(LightInDarkError::Unauthorized));
    assert_eq!(r.elapsed_ms, 0);
    assert_eq!(update_run(&mut r, key(5), 1_234, 2), Ok(()));
    assert_eq!(r.elapsed_ms, 1_234);
    assert_eq!(r.death_count, 2);
    assert!(!r.is_finished);
}

#[test]
fn committed_run_is_final() {
    let (mut s, mut es) = active_season_with(&[5]);
    let e = &mut es[0];
    let mut r = run_for(5);
    commit_run(&mut r, e, &mut s, key(5), 900, 3).unwrap();
    assert!(r.is_finished);
    assert_eq!(r.elapsed_ms, 900);
    assert_eq!(r.death_count, 3);
    assert_eq!(update_run(&mut r, key(5), 1, 1), Err(LightInDarkError::RunAlreadyFinished));
    assert_eq!(
        commit_run(&mut r, e, &mut s, key(5), 1, 1),
        Err(LightInDarkError::RunAlreadyFinished)
    );
    assert_eq!(r.elapsed_ms, 900);
    assert_eq!(e.best_time_ms, 900);
    assert_eq!(e.run_count, 1);
}

#[test]
fn commit_by_other_player_is_refused() {
    let (mut s, mut es) = active_season_with(&[5]);
    let e = &mut es[0];
    let mut r = run_for(5);
    let res = commit_run(&mut r, e, &mut s, key(6), 900, 3);
    assert_eq!(res, Err(LightInDarkError::Unauthorized));
    assert!(!r.is_finished);
    assert_eq!(e.run_count, 0);
    assert_eq!(board(&s), vec![(0, u64::MAX, u32::MAX); 3]);
}

#[test]
fn personal_best_only_improves() {
    let (mut s, mut es) = active_season_with(&[5]);
    let mut e = es.remove(0);
    commit(&mut s, &mut e, 5, 900, 3);
    assert_eq!((e.best_time_ms, e.best_death_count, e.run_count), (900, 3, 1));
    commit(&mut s, &mut e, 5, 950, 0);
    assert_eq!((e.best_time_ms, e.best_death_count, e.run_count), (900, 3, 2));
    commit(&mut s, &mut e, 5, 900, 3);
    assert_eq!((e.best_time_ms, e.best_death_count, e.run_count), (900, 3, 3));
    commit(&mut s, &mut e, 5, 900, 1);
    assert_eq!((e.best_time_ms, e.best_death_count, e.run_count), (900, 1, 4));
    commit(&mut s, &mut e, 5, 800, 9);
    assert_eq!((e.best_time_ms, e.best_death_count, e.run_count), (800, 9, 5));
    assert_eq!(board(&s), vec![(5, 800, 9), (0, u64::MAX, u32::MAX), (0, u64::MAX, u32::MAX)]);
}

#[test]
fn leaderboard_keeps_best_three_in_order() {
    let (mut s, mut e) = active_season_with(&[10, 11, 12, 13, 14]);
    commit(&mut s, &mut e[0], 10, 500, 2);
    commit(&mut s, &mut e[1], 11, 400, 0);
    assert_eq!(board(&s), vec![(11, 400, 0), (10, 500, 2), (0, u64::MAX, u32::MAX)]);
    commit(&mut s, &mut e[2], 12, 450, 1);
    assert_eq!(board(&s), vec![(11, 400, 0), (12, 450, 1), (10, 500, 2)]);
    // slower than the third place: the board does not change
    commit(&mut s, &mut e[3], 13, 600, 0);
    assert_eq!(board(&s), vec![(11, 400, 0), (12, 450, 1), (10, 500, 2)]);
    // faster than the third place: takes its slot
    commit(&mut s, &mut e[4], 14, 420, 5);
    assert_eq!(board(&s), vec![(11, 400, 0), (14, 420, 5), (12, 450, 1)]);
    // a player on the board improves: their own slot moves
    commit(&mut s, &mut e[2], 12, 300, 4);
    assert_eq!(board(&s), vec![(12, 300, 4), (11, 400, 0), (14, 420, 5)]);
    // the evicted player comes back with a better time
    commit(&mut s, &mut e[0], 10, 410, 0);
    assert_eq!(board(&s), vec![(12, 300, 4), (11, 400, 0), (10, 410, 0)]);
    // a faster player off the board pushes the third place out again
    commit(&mut s, &mut e[3], 13, 400, 0);
    assert_eq!(board(&s), vec![(12, 300, 4), (11, 400, 0), (13, 400, 0)]);
    // same time, fewer deaths ranks ahead
    commit(&mut s, &mut e[1], 11, 300, 3);
    assert_eq!(board(&s), vec![(11, 300, 3), (12, 300, 4), (13, 400, 0)]);
    assert_eq!(s.prize_pool, 500);
    assert_eq!(s.player_count, 5);
}

#[test]
fn leaderboard_ties_keep_the_exchange_order() {
    let mut s = active_season();
    s.top_players = [key(20), key(21), key(22)];
    s.top_times = [300, 300, 300];
    s.top_deaths = [1, 1, 1];
    // a tie with the worst slot does not take it
    record_personal_best(&mut s, key(23), 300, 1);
    assert_eq!(board(&s), vec![(20, 300, 1), (21, 300, 1), (22, 300, 1)]);
    // a better result takes the first of the worst slots, then moves to the top
    record_personal_best(&mut s, key(23), 100, 1);
    assert_eq!(board(&s), vec![(23, 100, 1), (21, 300, 1), (22, 300, 1)]);
    // unsorted slots are put in order by comparing (0,1), (0,2), (1,2)
    s.top_players = [key(30), key(31), key(32)];
    s.top_times = [300, 300, 100];
    s.top_deaths = [0, 0, 0];
    record_personal_best(&mut s, key(31), 300, 0);
    assert_eq!(board(&s), vec![(32, 100, 0), (31, 300, 0), (30, 300, 0)]);
}

#[test]
fn ranks_ahead_is_lexicographic() {
    assert!(ranks_ahead(1, 9, 2, 0));
    assert!(ranks_ahead(2, 0, 2, 1));
    assert!(!ranks_ahead(2, 1, 2, 1));
    assert!(!ranks_ahead(3, 0, 2, 9));
}

#[test]
fn force_close_by_authority_only() {
    assert_eq!(force_close_season(key(ADMIN), key(2), 7), Err(LightInDarkError::Unauthorized));
    assert_eq!(
        force_close_season(key(ADMIN), key(ADMIN), 7),
        Ok(vec![Action::CloseSeasonAccount])
    );
}

#[test]
fn close_season_requires_authority() {
    let s = season();
    assert_eq!(close_season(&s, key(2), 7, 50), Err(LightInDarkError::Unauthorized));
    assert_eq!(
        close_season(&s, key(ADMIN), 7, 50),
        Ok(vec![
            Action::Transfer {
                from: TokenAccountRole::Vault,
                to: TokenAccountRole::AuthorityTokenAccount,
                amount: 50
            },
            Action::CloseVault
        ])
    );
    assert_eq!(close_season(&s, key(ADMIN), 7, 0), Ok(vec![Action::CloseVault]));
}

#[test]
fn close_vault_empties_and_closes() {
    assert_eq!(close_vault(key(ADMIN), key(2), 7, 12), Err(LightInDarkError::Unauthorized));
    assert_eq!(close_vault(key(ADMIN), key(ADMIN), 7, 0), Ok(vec![Action::CloseVault]));
    assert_eq!(
        close_vault(key(ADMIN), key(ADMIN), 7, 12),
        Ok(vec![
            Action::Transfer {
                from: TokenAccountRole::Vault,
                to: TokenAccountRole::AuthorityTokenAccount,
                amount: 12
            },
            Action::CloseVault
        ])
    );
}

#[test]
fn split_prize_pool_percentages() {
    let p = split_prize_pool(1_000);
    assert_eq!(
        (p.winner_1, p.winner_2, p.winner_3, p.creator_cut, p.burn_amt, p.rollover),
        (400, 200, 100, 50, 100, 150)
    );
    let p = split_prize_pool(99);
    assert_eq!(
        (p.winner_1, p.winner_2, p.winner_3, p.creator_cut, p.burn_amt, p.rollover),
        (39, 19, 9, 4, 9, 14)
    );
    let total = p.winner_1 + p.winner_2 + p.winner_3 + p.creator_cut + p.burn_amt + p.rollover;
    assert!(total <= 99);
    let max = split_prize_pool(u64::MAX / 40);
    assert_eq!(max.winner_1, u64::MAX / 40 * 40 / 100);
}

fn finished_season() -> SeasonConfig {
    let mut s = season();
    for p in 10..20u8 {
        stake_for_season(&mut s, key(p), 200, 7, 1_500).unwrap();
    }
    activate_season(&mut s, key(ADMIN), 7).unwrap();
    s.top_players = [key(10), key(11), key(12)];
    s.top_times = [100, 200, 300];
    s.top_deaths = [0, 0, 0];
    s
}

fn owners(s: &SeasonConfig) -> PayoutOwners {
    PayoutOwners {
        winner1: s.top_players[0],
        winner2: s.top_players[1],
        winner3: s.top_players[2],
        creator: s.creator,
    }
}

#[test]
fn distribute_pays_winners_creator_and_burn() {
    let mut s = finished_season();
    let o = owners(&s);
    let acts = distribute_season_rewards(&mut s, 7, 5_001, &o).unwrap();
    let t = |to, amount| Action::Transfer { from: TokenAccountRole::Vault, to, amount };
    assert_eq!(
        acts,
        vec![
            t(TokenAccountRole::Winner1TokenAccount, 400),
            t(TokenAccountRole::Winner2TokenAccount, 200),
            t(TokenAccountRole::Winner3TokenAccount, 100),
            t(TokenAccountRole::CreatorTokenAccount, 50),
            Action::Burn { amount: 100 },
        ]
    );
    assert_eq!(s.status, SeasonStatus::Ended);
    assert_eq!(s.prize_pool, 150);
    // only once
    let again = distribute_season_rewards(&mut s, 7, 5_001, &o);
    assert_eq!(again, Err(LightInDarkError::SeasonAlreadyDistributed));
    assert_eq!(s.prize_pool, 150);
}

#[test]
fn distribute_skips_empty_slots() {
    let mut s = finished_season();
    s.top_players[1] = [0u8; 32];
    s.top_players[2] = [0u8; 32];
    let o = owners(&s);
    let acts = distribute_season_rewards(&mut s, 7, 9_000, &o).unwrap();
    assert_eq!(
        acts,
        vec![
            Action::Transfer {
                from: TokenAccountRole::Vault,
                to: TokenAccountRole::Winner1TokenAccount,
                amount: 400
            },
            Action::Transfer {
                from: TokenAccountRole::Vault,
                to: TokenAccountRole::CreatorTokenAccount,
                amount: 50
            },
            Action::Burn { amount: 100 },
        ]
    );
    assert_eq!(s.prize_pool, 150);
}

#[test]
fn distribute_refusals() {
    let s0 = finished_season();
    let o = owners(&s0);

    let mut s = s0;
    let mut wrong = o;
    wrong.winner3 = key(99);
    assert_eq!(
        distribute_season_rewards(&mut s, 7, 5_001, &wrong),
        Err(LightInDarkError::WrongWinnerAccount)
    );
    let mut wrong = o;
    wrong.creator = key(99);
    assert_eq!(
        distribute_season_rewards(&mut s, 7, 5_001, &wrong),
        Err(LightInDarkError::WrongCreatorAccount)
    );
    assert_eq!(
        distribute_season_rewards(&mut s, 7, 5_000, &o),
        Err(LightInDarkError::SeasonNotEnded)
    );
    let mut reg = s0;
    reg.status = SeasonStatus::Registration;
    assert_eq!(
        distribute_season_rewards(&mut reg, 7, 5_001, &o),
        Err(LightInDarkError::SeasonAlreadyDistributed)
    );
    let mut empty = s0;
    empty.prize_pool = 0;
    assert_eq!(
        distribute_season_rewards(&mut empty, 7, 5_001, &o),
        Err(LightInDarkError::EmptyPrizePool)
    );
    assert_eq!(s.status, SeasonStatus::Active);
    assert_eq!(s.prize_pool, 1_000);
}

#[test]
fn ended_season_cannot_be_reactivated_or_paid_again() {
    let mut s = finished_season();
    let o = owners(&s);
    distribute_season_rewards(&mut s, 7, 5_001, &o).unwrap();
    assert_eq!(activate_season(&mut s, key(2), 7), Err(LightInDarkError::Unauthorized));
    assert_eq!(
        activate_season(&mut s, key(ADMIN), 7),
        Err(LightInDarkError::SeasonAlreadyDistributed)
    );
    assert_eq!(s.status, SeasonStatus::Ended);
    assert_eq!(
        distribute_season_rewards(&mut s, 7, 9_999, &o),
        Err(LightInDarkError::SeasonAlreadyDistributed)
    );
    let r = stake_for_season(&mut s, key(30), 200, 7, 1_500);
    assert_eq!(r.err(), Some(LightInDarkError::RegistrationClosed));
    assert_eq!(s.status, SeasonStatus::Ended);
    assert_eq!(s.prize_pool, 150);
}

#[test]
fn leaderboard_with_unusual_empty_slot_values() {
    let (mut s, mut e) = active_season_with(&[10, 11]);
    s.top_times = [u64::MAX, 7, 9];
    s.top_deaths = [u32::MAX, 0, 0];
    commit(&mut s, &mut e[0], 10, 500, 0);
    assert_eq!(board(&s), vec![(0, 7, 0), (0, 9, 0), (10, 500, 0)]);
    commit(&mut s, &mut e[1], 11, 8, 0);
    assert_eq!(board(&s), vec![(0, 7, 0), (11, 8, 0), (0, 9, 0)]);
}
