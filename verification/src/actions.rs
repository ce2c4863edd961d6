use vstd::prelude::*;

verus! {

/// The token accounts that an instruction moves tokens between.
#[derive(Clone, Copy, Debug, PartialEq, Eq, Structural)]
pub enum TokenAccountRole {
    /// The staking player's own token account (the player signs).
    PlayerTokenAccount,
    /// The season's vault, owned by its own program-derived address (the program signs).
    Vault,
    /// The season authority's token account.
    AuthorityTokenAccount,
    /// The token account of the leaderboard's first place.
    Winner1TokenAccount,
    /// The token account of the leaderboard's second place.
    Winner2TokenAccount,
    /// The token account of the leaderboard's third place.
    Winner3TokenAccount,
    /// The season creator's token account.
    CreatorTokenAccount,
}

/// Outside work that an accepted instruction asks the program to perform,
/// in the order given.
#[derive(Clone, Copy, Debug, PartialEq, Eq, Structural)]
pub enum Action {
    /// Move `amount` tokens between two token accounts.
    Transfer { from: TokenAccountRole, to: TokenAccountRole, amount: u64 },
    /// Burn `amount` tokens out of the vault.
    Burn { amount: u64 },
    /// Close the vault token account, returning its rent to the authority.
    CloseVault,
    /// Close the season account, returning its lamports to the authority.
    CloseSeasonAccount,
    /// Delegate the player's run account to the ephemeral rollup.
    DelegateRun { commit_frequency_ms: u32 },
    /// Commit the run account's state back and end its delegation.
    CommitAndUndelegateRun,
}

/// Tokens that a list of actions takes out of the vault.
pub open spec fn vault_outflow(actions: Seq<Action>) -> int
    decreases actions.len(),
{
    if actions.len() == 0 {
        0
    } else {
        let rest = vault_outflow(actions.drop_last());
        match actions.last() {
            Action::Transfer { from: TokenAccountRole::Vault, amount, .. } => rest + amount,
            Action::Burn { amount } => rest + amount,
            _ => rest,
        }
    }
}

/// Tokens that a list of actions transfers into the token account `to`.
pub open spec fn paid_to(actions: Seq<Action>, to: TokenAccountRole) -> int
    decreases actions.len(),
{
    if actions.len() == 0 {
        0
    } else {
        let rest = paid_to(actions.drop_last(), to);
        match actions.last() {
            Action::Transfer { to: t, amount, .. } => if t == to {
                rest + amount
            } else {
                rest
            },
            _ => rest,
        }
    }
}

/// Tokens that a list of actions burns.
pub open spec fn burned(actions: Seq<Action>) -> int
    decreases actions.len(),
{
    if actions.len() == 0 {
        0
    } else {
        let rest = burned(actions.drop_last());
        match actions.last() {
            Action::Burn { amount } => rest + amount,
            _ => rest,
        }
    }
}

} // verus!
