use vstd::prelude::*;
use crate::actions::{Action, TokenAccountRole};
use crate::keys::is_default_key;
use crate::state::{
    BURN_PCT, CREATOR_PCT, ROLLOVER_PCT, SeasonConfig, WINNER_1_PCT, WINNER_2_PCT, WINNER_3_PCT,
};

verus! {

/// `pct` percent of `pool`, rounded down.
pub open spec fn share(pool: u64, pct: u64) -> int {
    (pool * pct) / 100
}

/// The six parts into which a season's prize pool is split when it ends.
#[derive(Clone, Copy, Debug)]
pub struct Payouts {
    pub winner_1: u64,
    pub winner_2: u64,
    pub winner_3: u64,
    pub creator_cut: u64,
    pub burn_amt: u64,
    pub rollover: u64,
}

/// The prize pool can be multiplied by the largest percentage without
/// overflow.
pub open spec fn pool_splittable(pool: u64) -> bool {
    pool * WINNER_1_PCT <= u64::MAX
}

/// Splits `pool`: 40% to the first place, 20% to the second, 10% to the
/// third, 5% to the creator, 10% burned and 15% kept for the next season,
/// each rounded down.
pub fn split_prize_pool(pool: u64) -> (r: Payouts)
    requires
        pool_splittable(pool),
    ensures
        r.winner_1 == share(pool, WINNER_1_PCT),
        r.winner_2 == share(pool, WINNER_2_PCT),
        r.winner_3 == share(pool, WINNER_3_PCT),
        r.creator_cut == share(pool, CREATOR_PCT),
        r.burn_amt == share(pool, BURN_PCT),
        r.rollover == share(pool, ROLLOVER_PCT),
{
    Payouts {
        winner_1: pool * WINNER_1_PCT / 100,
        winner_2: pool * WINNER_2_PCT / 100,
        winner_3: pool * WINNER_3_PCT / 100,
        creator_cut: pool * CREATOR_PCT / 100,
        burn_amt: pool * BURN_PCT / 100,
        rollover: pool * ROLLOVER_PCT / 100,
    }
}

/// The six parts of a split never add up to more than the prize pool: the
/// percentages add up to 100 and each part is rounded down.
pub proof fn lemma_split_within_pool(pool: u64)
    ensures
        share(pool, WINNER_1_PCT) + share(pool, WINNER_2_PCT) + share(pool, WINNER_3_PCT) + share(
            pool,
            CREATOR_PCT,
        ) + share(pool, BURN_PCT) + share(pool, ROLLOVER_PCT) <= pool,
{
    let p = pool as int;
    assert(100 * ((p * 40) / 100) <= p * 40) by (nonlinear_arith)
        requires p >= 0;
    assert(100 * ((p * 20) / 100) <= p * 20) by (nonlinear_arith)
        requires p >= 0;
    assert(100 * ((p * 10) / 100) <= p * 10) by (nonlinear_arith)
        requires p >= 0;
    assert(100 * ((p * 5) / 100) <= p * 5) by (nonlinear_arith)
        requires p >= 0;
    assert(100 * ((p * 15) / 100) <= p * 15) by (nonlinear_arith)
        requires p >= 0;
}

/// The transfer of a winner's part, when the slot is taken.
pub open spec fn winner_payout(s: SeasonConfig, k: int, to: TokenAccountRole, pct: u64) -> Seq<
    Action,
> {
    if is_default_key(s.top_players[k]) {
        seq![]
    } else {
        seq![Action::Transfer { from: TokenAccountRole::Vault, to: to, amount: share(s.prize_pool, pct) as u64 }]
    }
}

/// What the vault pays out when season `s` ends: the three winners' parts
/// (empty slots are skipped and their parts stay in the vault), the
/// creator's cut, and the burn.
pub open spec fn payout_actions(s: SeasonConfig) -> Seq<Action> {
    winner_payout(s, 0, TokenAccountRole::Winner1TokenAccount, WINNER_1_PCT) + winner_payout(
        s,
        1,
        TokenAccountRole::Winner2TokenAccount,
        WINNER_2_PCT,
    ) + winner_payout(s, 2, TokenAccountRole::Winner3TokenAccount, WINNER_3_PCT) + seq![
        Action::Transfer {
            from: TokenAccountRole::Vault,
            to: TokenAccountRole::CreatorTokenAccount,
            amount: share(s.prize_pool, CREATOR_PCT) as u64,
        },
        Action::Burn { amount: share(s.prize_pool, BURN_PCT) as u64 },
    ]
}

} // verus!
