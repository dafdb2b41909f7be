use vstd::prelude::*;

verus! {

/// A governance item voted on within a fixed block-height window.
///
/// Identifiers are assigned sequentially starting at 1.  The tallies only
/// ever grow, and `executed` flips from `false` to `true` at most once.
/// Stake amounts and tallies are base-denomination integer amounts of the
/// staked asset.
#[derive(Debug, Clone, PartialEq, Eq)]
pub struct Proposal {
    pub id: u32,
    pub creator: u64,
    pub title: Vec<u8>,
    pub description: Vec<u8>,
    pub votes_for: u128,
    pub votes_against: u128,
    pub start_block: u64,
    pub end_block: u64,
    pub executed: bool,
}

/// A recorded ballot.  Immutable once accepted; the existence of a record for
/// a (proposal, voter) pair is the sole double-vote guard.
#[derive(Debug, Clone, PartialEq, Eq)]
pub struct Vote {
    pub voter: u64,
    pub proposal_id: u32,
    pub vote_for: bool,
    pub stake_amount: u128,
    pub block_number: u64,
}

/// A record written to the append-only event log.  Transport and indexing of
/// events are the host's concern; the log only ever grows.
#[derive(Debug, Clone, PartialEq, Eq)]
pub enum Event {
    ProposalCreated { proposal_id: u32, creator: u64, title: Vec<u8> },
    VoteCast { proposal_id: u32, voter: u64, vote_for: bool, stake_amount: u128 },
    ProposalExecuted { proposal_id: u32, passed: bool },
    NftClaimed { player: u64, score: u64 },
}

/// Total stake of the recorded votes on proposal `pid` that were cast on side
/// `side` (`true` meaning in favour).
pub open spec fn side_stake_total(votes: Seq<Vote>, pid: u32, side: bool) -> int
    decreases votes.len(),
{
    if votes.len() == 0 {
        0
    } else {
        side_stake_total(votes.drop_last(), pid, side) + if votes.last().proposal_id == pid
            && votes.last().vote_for == side {
            votes.last().stake_amount as int
        } else {
            0
        }
    }
}

/// Total stake of all recorded votes on proposal `pid`, either side.
pub open spec fn stake_total(votes: Seq<Vote>, pid: u32) -> int
    decreases votes.len(),
{
    if votes.len() == 0 {
        0
    } else {
        stake_total(votes.drop_last(), pid) + if votes.last().proposal_id == pid {
            votes.last().stake_amount as int
        } else {
            0
        }
    }
}

/// The stake on a proposal splits exactly into the stake in favour and the
/// stake against.
pub proof fn lemma_stake_total_splits(votes: Seq<Vote>, pid: u32)
    ensures
        stake_total(votes, pid) == side_stake_total(votes, pid, true) + side_stake_total(
            votes,
            pid,
            false,
        ),
    decreases votes.len(),
{
    if votes.len() > 0 {
        lemma_stake_total_splits(votes.drop_last(), pid);
    }
}

/// A proposal no vote names has a zero side total.
pub proof fn lemma_side_stake_total_absent(votes: Seq<Vote>, pid: u32, side: bool)
    requires
        forall|i: int| 0 <= i < votes.len() ==> (#[trigger] votes[i]).proposal_id != pid,
    ensures
        side_stake_total(votes, pid, side) == 0,
    decreases votes.len(),
{
    if votes.len() > 0 {
        assert(forall|i: int|
            0 <= i < votes.drop_last().len() ==> (#[trigger] votes.drop_last()[i]).proposal_id
                != pid);
        lemma_side_stake_total_absent(votes.drop_last(), pid, side);
    }
}

/// Appending one vote raises a side's total by that vote's stake when the
/// vote is on that proposal and side, and leaves it unchanged otherwise.
pub proof fn lemma_side_stake_total_push(votes: Seq<Vote>, v: Vote, pid: u32, side: bool)
    ensures
        side_stake_total(votes.push(v), pid, side) == side_stake_total(votes, pid, side) + if v.proposal_id
            == pid && v.vote_for == side {
            v.stake_amount as int
        } else {
            0
        },
{
    assert(votes.push(v).drop_last() =~= votes);
    assert(votes.push(v).last() == v);
}

} // verus!
