use vstd::prelude::*;

use crate::errors::DaoError;
use crate::game::QuantumDaoGame;
use crate::types::lemma_stake_total_splits;
use crate::types::stake_total;

verus! {

/// In every well-formed state the assigned proposal identifiers are exactly
/// the strictly increasing sequence 1, 2, 3, ... in creation order.
pub proof fn lemma_proposal_ids_sequential(game: QuantumDaoGame)
    requires
        game.wf(),
    ensures
        forall|i: int|
            0 <= i < game.proposals@.len() ==> (#[trigger] game.proposals@[i]).id == i + 1,
        forall|i: int, j: int|
            0 <= i < j < game.proposals@.len() ==> game.proposals@[i].id < game.proposals@[j].id,
{
    assert forall|i: int, j: int|
        0 <= i < j < game.proposals@.len() implies game.proposals@[i].id
        < game.proposals@[j].id by {
        assert(game.proposals@[i].id == i + 1);
        assert(game.proposals@[j].id == j + 1);
    }
}

/// A (proposal, voter) pair yields at most one accepted vote: once a vote by
/// `caller` on `proposal_id` is on record, a further `vote` call whose
/// earlier checks all pass is refused with `AlreadyVoted` — and `vote`
/// returns exactly this outcome.
pub proof fn lemma_double_vote_rejected(
    game: QuantumDaoGame,
    caller: u64,
    proposal_id: u32,
    payment: u128,
    current_block: u64,
)
    requires
        game.wf(),
        game.spec_has_voted(proposal_id, caller),
        game.spec_is_active(current_block),
        payment > 0,
        game.spec_proposal_exists(proposal_id),
        game.spec_proposal(proposal_id).start_block <= current_block,
        current_block <= game.spec_proposal(proposal_id).end_block,
    ensures
        game.spec_vote_error(caller, proposal_id, payment, current_block) == Some(
            DaoError::AlreadyVoted,
        ),
{
}

/// In every well-formed state, a proposal's tallies sum exactly to the total
/// stake of all accepted votes on that proposal.
pub proof fn lemma_tally_is_total_stake(game: QuantumDaoGame, proposal_id: u32)
    requires
        game.wf(),
        game.spec_proposal_exists(proposal_id),
    ensures
        game.spec_proposal(proposal_id).votes_for + game.spec_proposal(proposal_id).votes_against
            == stake_total(game.votes@, proposal_id),
{
    lemma_stake_total_splits(game.votes@, proposal_id);
}

/// A proposal settles as passed at most once: once its `executed` flag is
/// set, a further `execute_proposal` call after the voting window is refused
/// with `AlreadyExecuted` — and `execute_proposal` returns exactly this
/// outcome.  That the flag never reverts is part of every operation's
/// contract.
pub proof fn lemma_execute_only_once(game: QuantumDaoGame, proposal_id: u32, current_block: u64)
    requires
        game.wf(),
        game.spec_proposal_exists(proposal_id),
        game.spec_proposal(proposal_id).executed,
        current_block > game.spec_proposal(proposal_id).end_block,
    ensures
        game.spec_execute_error(proposal_id, current_block) == Some(DaoError::AlreadyExecuted),
{
}

/// The reward is claimed at most once per address: once `caller` is marked
/// claimed, every further `claim_nft_reward` call after the game's end is
/// refused with `AlreadyClaimed` — and `claim_nft_reward` returns exactly
/// this outcome.  That the mark never clears is part of every operation's
/// contract.
pub proof fn lemma_claim_only_once(game: QuantumDaoGame, caller: u64, current_block: u64)
    requires
        game.wf(),
        game.spec_claimed(caller),
        !game.spec_is_active(current_block),
    ensures
        game.spec_claim_error(caller, current_block) == Some(DaoError::AlreadyClaimed),
{
}

} // verus!
