use vstd::prelude::*;

verus! {

/// The ways an instruction of the game can be refused.
#[derive(Clone, Copy, Debug, PartialEq, Eq, Structural)]
pub enum LightInDarkError {
    /// Registration is closed.
    RegistrationClosed,
    /// Outside registration window.
    OutsideRegistrationWindow,
    /// Player is not eligible for this season.
    NotEligible,
    /// Season is not active.
    SeasonNotActive,
    /// Run is already finished.
    RunAlreadyFinished,
    /// Unauthorized.
    Unauthorized,
    /// Too many winners provided.
    TooManyWinners,
    /// Season has not ended yet: wait until the season's end timestamp.
    SeasonNotEnded,
    /// Season rewards have already been distributed.
    SeasonAlreadyDistributed,
    /// Prize pool is empty.
    EmptyPrizePool,
    /// Wrong winner token account: it must match the on-chain leaderboard.
    WrongWinnerAccount,
    /// Wrong creator token account.
    WrongCreatorAccount,
}

} // verus!
