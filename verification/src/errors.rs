use vstd::prelude::*;

verus! {

/// Why an operation was refused.  Every failure is a precondition violation:
/// the operation aborts with one of these and leaves the game state unchanged.
#[derive(Clone, Copy, Debug, PartialEq, Eq, Structural)]
pub enum DaoError {
    /// The game is over; proposals can no longer be created or voted on.
    GameEnded,
    /// The game is still running; the reward cannot be claimed yet.
    GameStillActive,
    /// A vote must stake a positive amount.
    ZeroStake,
    /// No proposal carries the given identifier.
    ProposalNotFound,
    /// The current block is before the proposal's voting window.
    VotingNotStarted,
    /// The current block is past the proposal's voting window.
    VotingEnded,
    /// The caller already voted on this proposal.
    AlreadyVoted,
    /// The proposal's voting window is still open, so it cannot be settled.
    VotingStillActive,
    /// The proposal was already settled as passed.
    AlreadyExecuted,
    /// The caller already claimed the reward.
    AlreadyClaimed,
    /// The caller has no reputation points recorded.
    NoScore,
    /// The caller is outside the reward cohort.
    NotEligible,
}

/// Folds the outcome of an operation's precondition chain into the `Result`
/// the operation returns.
pub open spec fn to_result(e: Option<DaoError>) -> Result<(), DaoError> {
    match e {
        Some(err) => Err(err),
        None => Ok(()),
    }
}

} // verus!
