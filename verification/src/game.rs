use vstd::prelude::*;

use std::collections::HashMap;

use crate::errors::DaoError;
use crate::errors::to_result;
use crate::types::Event;
use crate::types::Proposal;
use crate::types::Vote;
use crate::types::lemma_side_stake_total_absent;
use crate::types::lemma_side_stake_total_push;
use crate::types::side_stake_total;

verus! {

broadcast use vstd::std_specs::hash::group_hash_axioms;

/// One base-denomination unit of the staked asset; stakes are normalized by
/// this constant when reputation points are computed.
pub const UNIT: u128 = 1_000_000_000_000_000_000;

/// The whole state of one governance game.
///
/// Addresses are the host's account identifiers, handed in as plain `u64`
/// values; stake amounts are base-denomination integer amounts.  The host
/// supplies the current block height to every operation and serializes
/// operations, so each method call is one atomic unit of work.
pub struct QuantumDaoGame {
    /// How many blocks after `game_start_block` the game stays active.
    pub game_duration_blocks: u64,
    /// The block height at which the game was initialized.
    pub game_start_block: u64,
    /// The identifier of the reward token, kept for the host's minting step.
    pub nft_reward_token_id: Vec<u8>,
    /// The identifier the next proposal will receive; starts at 1.
    pub current_proposal_id: u32,
    /// All proposals, in creation order; the proposal with id `i` sits at
    /// index `i - 1`.
    pub proposals: Vec<Proposal>,
    /// All accepted votes, in acceptance order.
    pub votes: Vec<Vote>,
    /// Reputation points per address; an absent address has score 0.
    pub dao_scores: HashMap<u64, u64>,
    /// Every address ever awarded points, in first-award order and without
    /// repetition; the flat score table has no order of its own, so this
    /// list is what the leaderboard snapshot is computed from.
    pub players: Vec<u64>,
    /// Addresses that have claimed the reward; membership is permanent.
    pub nft_claimed: HashMap<u64, bool>,
    /// The append-only event log.
    pub events: Vec<Event>,
}

impl QuantumDaoGame {
    /// The last block height at which the game counts as active.
    pub open spec fn spec_game_end(self) -> int {
        self.game_start_block + self.game_duration_blocks
    }

    /// The game is active through its end block, inclusive.
    pub open spec fn spec_is_active(self, current_block: u64) -> bool {
        current_block <= self.spec_game_end()
    }

    /// A proposal with identifier `pid` exists.
    pub open spec fn spec_proposal_exists(self, pid: u32) -> bool {
        1 <= pid <= self.proposals@.len()
    }

    /// The proposal with identifier `pid`.
    pub open spec fn spec_proposal(self, pid: u32) -> Proposal
        recommends
            self.spec_proposal_exists(pid),
    {
        self.proposals@[pid - 1]
    }

    /// The reputation score of `player`; 0 when no points were ever awarded.
    pub open spec fn spec_score(self, player: u64) -> u64 {
        if self.dao_scores@.contains_key(player) {
            self.dao_scores@[player]
        } else {
            0
        }
    }

    /// The player list carries each scored address exactly once: it has no
    /// repetition, every listed address has an entry in the score table, and
    /// every address with an entry is listed.
    pub open spec fn spec_players_consistent(self) -> bool {
        &&& forall|i: int, j: int|
            0 <= i < j < self.players@.len() ==> self.players@[i] != self.players@[j]
        &&& forall|i: int|
            0 <= i < self.players@.len() ==> self.dao_scores@.contains_key(
                #[trigger] self.players@[i],
            )
        &&& forall|a: u64| #[trigger]
            self.dao_scores@.contains_key(a) ==> self.players@.contains(a)
    }

    /// `player` has already claimed the reward.
    pub open spec fn spec_claimed(self, player: u64) -> bool {
        self.nft_claimed@.contains_key(player)
    }

    /// A vote by `voter` on proposal `pid` is on record.
    pub open spec fn spec_has_voted(self, pid: u32, voter: u64) -> bool {
        exists|i: int|
            0 <= i < self.votes@.len() && (#[trigger] self.votes@[i]).proposal_id == pid
                && self.votes@[i].voter == voter
    }

    /// A proposal passes if and only if strictly more stake was cast in
    /// favour than against; ties fail.
    pub open spec fn spec_passes(self, pid: u32) -> bool
        recommends
            self.spec_proposal_exists(pid),
    {
        self.spec_proposal(pid).votes_for > self.spec_proposal(pid).votes_against
    }

    /// Well-formedness of the game state.  `init` establishes it and every
    /// operation preserves it:
    /// - the configured game end fits the block-height type;
    /// - proposal identifiers are exactly 1, 2, 3, ... in creation order and
    ///   the counter holds the next one;
    /// - each proposal's tallies equal the stake its recorded votes cast on
    ///   the respective side;
    /// - every vote names an existing proposal and stakes a positive amount;
    /// - no two votes share a (proposal, voter) pair;
    /// - the player list mirrors the score table, each address once.
    pub open spec fn wf(self) -> bool {
        &&& self.game_start_block + self.game_duration_blocks <= u64::MAX
        &&& self.current_proposal_id == self.proposals@.len() + 1
        &&& forall|i: int|
            0 <= i < self.proposals@.len() ==> (#[trigger] self.proposals@[i]).id == i + 1
        &&& forall|i: int|
            0 <= i < self.proposals@.len() ==> (#[trigger] self.proposals@[i]).votes_for
                == side_stake_total(self.votes@, (i + 1) as u32, true)
        &&& forall|i: int|
            0 <= i < self.proposals@.len() ==> (#[trigger] self.proposals@[i]).votes_against
                == side_stake_total(self.votes@, (i + 1) as u32, false)
        &&& forall|i: int|
            0 <= i < self.votes@.len() ==> 1 <= (#[trigger] self.votes@[i]).proposal_id
                <= self.proposals@.len()
        &&& forall|i: int| 0 <= i < self.votes@.len() ==> (#[trigger] self.votes@[i]).stake_amount > 0
        &&& forall|i: int, j: int|
            0 <= i < j < self.votes@.len() ==> ((#[trigger] self.votes@[i]).proposal_id != (
            #[trigger] self.votes@[j]).proposal_id || self.votes@[i].voter != self.votes@[j].voter)
        &&& self.spec_players_consistent()
    }

    /// Sets the immutable configuration, captures the current block height as
    /// the game's start, and initializes the proposal counter to 1.
    pub fn init(game_duration_blocks: u64, nft_reward_token_id: Vec<u8>, current_block: u64) -> (game:
        QuantumDaoGame)
        requires
            current_block + game_duration_blocks <= u64::MAX,
        ensures
            game.wf(),
            game.game_duration_blocks == game_duration_blocks,
            game.game_start_block == current_block,
            game.nft_reward_token_id == nft_reward_token_id,
            game.current_proposal_id == 1,
            game.proposals@.len() == 0,
            game.votes@.len() == 0,
            game.dao_scores@ == Map::<u64, u64>::empty(),
            game.nft_claimed@ == Map::<u64, bool>::empty(),
            game.players@.len() == 0,
            forall|a: u64| game.spec_score(a) == 0,
            forall|a: u64| !game.spec_claimed(a),
            game.events@.len() == 0,
    {
        QuantumDaoGame {
            game_duration_blocks,
            game_start_block: current_block,
            nft_reward_token_id,
            current_proposal_id: 1,
            proposals: Vec::new(),
            votes: Vec::new(),
            dao_scores: HashMap::new(),
            players: Vec::new(),
            nft_claimed: HashMap::new(),
            events: Vec::new(),
        }
    }

    /// The game is active through `game_start_block + game_duration_blocks`,
    /// inclusive; the phase is re-derived from the supplied height on every
    /// call and never cached.
    pub fn is_game_active(&self, current_block: u64) -> (r: bool)
        requires
            self.wf(),
        ensures
            r == self.spec_is_active(current_block),
    {
        let game_end = self.game_start_block + self.game_duration_blocks;
        current_block <= game_end
    }

    /// The proposal with the given identifier, if one exists.
    pub fn get_proposal(&self, proposal_id: u32) -> (r: Option<&Proposal>)
        ensures
            match r {
                Some(p) => self.spec_proposal_exists(proposal_id) && *p == self.spec_proposal(
                    proposal_id,
                ),
                None => !self.spec_proposal_exists(proposal_id),
            },
    {
        if proposal_id >= 1 && (proposal_id as usize) <= self.proposals.len() {
            Some(&self.proposals[(proposal_id as usize) - 1])
        } else {
            None
        }
    }

    /// The reputation points one accepted vote earns: twice the staked
    /// amount in whole `UNIT`s, except that a stake below one `UNIT`, or one
    /// whose quotient does not fit the score's integer width, falls back to a
    /// single point.
    pub open spec fn spec_vote_points(payment: u128) -> int {
        let q = payment as int / UNIT as int;
        if q == 0 || q > u64::MAX {
            1
        } else {
            2 * q
        }
    }

    /// A proposal after one accepted vote: the chosen side's tally grows by
    /// the staked amount and every other field is kept.
    pub open spec fn spec_proposal_after_vote(p: Proposal, vote_for: bool, payment: u128) -> Proposal {
        Proposal {
            id: p.id,
            creator: p.creator,
            title: p.title,
            description: p.description,
            votes_for: if vote_for {
                (p.votes_for + payment) as u128
            } else {
                p.votes_for
            },
            votes_against: if vote_for {
                p.votes_against
            } else {
                (p.votes_against + payment) as u128
            },
            start_block: p.start_block,
            end_block: p.end_block,
            executed: p.executed,
        }
    }

    /// The outcome of `create_proposal`'s precondition chain.
    pub open spec fn spec_create_proposal_error(self, current_block: u64) -> Option<DaoError> {
        if !self.spec_is_active(current_block) {
            Some(DaoError::GameEnded)
        } else {
            None
        }
    }

    /// The outcome of `vote`'s precondition chain, checked in order.
    pub open spec fn spec_vote_error(
        self,
        caller: u64,
        proposal_id: u32,
        payment: u128,
        current_block: u64,
    ) -> Option<DaoError> {
        if !self.spec_is_active(current_block) {
            Some(DaoError::GameEnded)
        } else if payment == 0 {
            Some(DaoError::ZeroStake)
        } else if !self.spec_proposal_exists(proposal_id) {
            Some(DaoError::ProposalNotFound)
        } else if current_block < self.spec_proposal(proposal_id).start_block {
            Some(DaoError::VotingNotStarted)
        } else if current_block > self.spec_proposal(proposal_id).end_block {
            Some(DaoError::VotingEnded)
        } else if self.spec_has_voted(proposal_id, caller) {
            Some(DaoError::AlreadyVoted)
        } else {
            None
        }
    }

    /// The outcome of `execute_proposal`'s precondition chain, checked in
    /// order.
    pub open spec fn spec_execute_error(self, proposal_id: u32, current_block: u64) -> Option<
        DaoError,
    > {
        if !self.spec_proposal_exists(proposal_id) {
            Some(DaoError::ProposalNotFound)
        } else if current_block <= self.spec_proposal(proposal_id).end_block {
            Some(DaoError::VotingStillActive)
        } else if self.spec_proposal(proposal_id).executed {
            Some(DaoError::AlreadyExecuted)
        } else {
            None
        }
    }

    /// The outcome of `claim_nft_reward`'s precondition chain, checked in
    /// order.
    pub open spec fn spec_claim_error(self, caller: u64, current_block: u64) -> Option<DaoError> {
        if self.spec_is_active(current_block) {
            Some(DaoError::GameStillActive)
        } else if self.spec_claimed(caller) {
            Some(DaoError::AlreadyClaimed)
        } else if self.spec_score(caller) == 0 {
            Some(DaoError::NoScore)
        } else if !self.spec_eligible(caller) {
            Some(DaoError::NotEligible)
        } else {
            None
        }
    }

    /// Membership in the reward cohort.  Every address belongs: the ordered
    /// snapshot of `get_leaderboard` ranks players for the host, but no
    /// rank threshold bounds claiming; the score and single-claim checks of
    /// `claim_nft_reward` are separate and always enforced.
    pub open spec fn spec_eligible(self, _player: u64) -> bool {
        true
    }

    /// The caller's reputation score; 0 for an address never awarded points.
    pub fn get_player_score(&self, player: u64) -> (r: u64)
        ensures
            r == self.spec_score(player),
    {
        match self.dao_scores.get(&player) {
            Some(s) => *s,
            None => 0,
        }
    }

    /// The score-ordered snapshot: every address ever awarded points paired
    /// with its score, highest score first, each address exactly once.  The
    /// flat score table carries no ordering, so the snapshot is recomputed
    /// from the player list on every call; callers wanting the top N take a
    /// prefix.
    pub fn get_leaderboard(&self) -> (r: Vec<(u64, u64)>)
        requires
            self.wf(),
        ensures
            r@.len() == self.players@.len(),
            forall|t: int| 0 <= t < r@.len() ==> (#[trigger] r@[t]).1 == self.spec_score(r@[t].0),
            forall|t: int|
                0 <= t < r@.len() ==> self.dao_scores@.contains_key((#[trigger] r@[t]).0),
            forall|t: int, u: int| 0 <= t < u < r@.len() ==> r@[t].1 >= r@[u].1,
            forall|t: int, u: int| 0 <= t < u < r@.len() ==> r@[t].0 != r@[u].0,
            forall|a: u64| #[trigger]
                self.dao_scores@.contains_key(a) ==> exists|t: int|
                    0 <= t < r@.len() && (#[trigger] r@[t]).0 == a,
    {
        let mut pairs: Vec<(u64, u64)> = Vec::new();
        let mut i: usize = 0;
        while i < self.players.len()
            invariant
                self.wf(),
                i <= self.players@.len(),
                pairs@.len() == i,
                forall|t: int| 0 <= t < i ==> (#[trigger] pairs@[t]).0 == self.players@[t],
                forall|t: int|
                    0 <= t < i ==> (#[trigger] pairs@[t]).1 == self.spec_score(pairs@[t].0),
            decreases self.players@.len() - i,
        {
            let a = self.players[i];
            let s = self.get_player_score(a);
            pairs.push((a, s));
            i += 1;
        }
        proof {
            assert forall|a: u64| #[trigger]
                self.dao_scores@.contains_key(a) implies exists|t: int|
                0 <= t < pairs@.len() && (#[trigger] pairs@[t]).0 == a by {
                assert(self.players@.contains(a));
                let w = choose|w: int| 0 <= w < self.players@.len() && self.players@[w] == a;
                assert(pairs@[w].0 == a);
            }
        }
        let mut k: usize = 0;
        while k < pairs.len()
            invariant
                self.wf(),
                k <= pairs@.len(),
                pairs@.len() == self.players@.len(),
                forall|t: int|
                    0 <= t < pairs@.len() ==> (#[trigger] pairs@[t]).1 == self.spec_score(
                        pairs@[t].0,
                    ),
                forall|t: int|
                    0 <= t < pairs@.len() ==> self.dao_scores@.contains_key(
                        (#[trigger] pairs@[t]).0,
                    ),
                forall|t: int, u: int| 0 <= t < u < pairs@.len() ==> pairs@[t].0 != pairs@[u].0,
                forall|a: u64| #[trigger]
                    self.dao_scores@.contains_key(a) ==> exists|t: int|
                        0 <= t < pairs@.len() && (#[trigger] pairs@[t]).0 == a,
                forall|t: int, u: int|
                    0 <= t < u < pairs@.len() && t < k ==> pairs@[t].1 >= pairs@[u].1,
            decreases pairs@.len() - k,
        {
            let mut m: usize = k;
            let mut j: usize = k + 1;
            while j < pairs.len()
                invariant
                    k <= m < j <= pairs@.len(),
                    forall|t: int| k <= t < j ==> pairs@[m as int].1 >= (#[trigger] pairs@[t]).1,
                decreases pairs@.len() - j,
            {
                if pairs[j].1 > pairs[m].1 {
                    m = j;
                }
                j += 1;
            }
            if m != k {
                let ghost before = pairs@;
                let pm = pairs[m];
                let pk = pairs[k];
                pairs[m] = pk;
                pairs[k] = pm;
                proof {
                    assert(pairs@ == before.update(m as int, pk).update(k as int, pm));
                    assert forall|a: u64| #[trigger]
                        self.dao_scores@.contains_key(a) implies exists|t: int|
                        0 <= t < pairs@.len() && (#[trigger] pairs@[t]).0 == a by {
                        let t0 = choose|t: int| 0 <= t < before.len() && (#[trigger] before[t]).0 == a;
                        if t0 == k as int {
                            assert(pairs@[m as int].0 == a);
                        } else if t0 == m as int {
                            assert(pairs@[k as int].0 == a);
                        } else {
                            assert(pairs@[t0].0 == a);
                        }
                    }
                }
            }
            k += 1;
        }
        pairs
    }

    /// Whether a vote by `voter` on proposal `proposal_id` is on record.
    pub fn has_vote_record(&self, proposal_id: u32, voter: u64) -> (r: bool)
        ensures
            r == self.spec_has_voted(proposal_id, voter),
    {
        let mut i: usize = 0;
        while i < self.votes.len()
            invariant
                i <= self.votes@.len(),
                forall|j: int|
                    0 <= j < i ==> !((#[trigger] self.votes@[j]).proposal_id == proposal_id
                        && self.votes@[j].voter == voter),
            decreases self.votes@.len() - i,
        {
            if self.votes[i].proposal_id == proposal_id && self.votes[i].voter == voter {
                return true;
            }
            i += 1;
        }
        false
    }

    /// Fails with `GameEnded` unless the game is still active.
    fn require_game_active(&self, current_block: u64) -> (r: Result<(), DaoError>)
        requires
            self.wf(),
        ensures
            r == if self.spec_is_active(current_block) {
                Ok::<(), DaoError>(())
            } else {
                Err::<(), DaoError>(DaoError::GameEnded)
            },
    {
        if self.is_game_active(current_block) {
            Ok(())
        } else {
            Err(DaoError::GameEnded)
        }
    }

    /// Fails with `GameStillActive` until the game is over.
    fn require_game_ended(&self, current_block: u64) -> (r: Result<(), DaoError>)
        requires
            self.wf(),
        ensures
            r == if self.spec_is_active(current_block) {
                Err::<(), DaoError>(DaoError::GameStillActive)
            } else {
                Ok::<(), DaoError>(())
            },
    {
        if self.is_game_active(current_block) {
            Err(DaoError::GameStillActive)
        } else {
            Ok(())
        }
    }

    /// Adds `points` to `player`'s score; an absent address starts from 0
    /// and is appended to the player list on its first award.  Scores only
    /// ever grow: no decrease operation exists.
    fn add_dao_points(&mut self, player: u64, points: u64)
        requires
            old(self).spec_score(player) + points <= u64::MAX,
            old(self).spec_players_consistent(),
        ensures
            final(self).dao_scores@ == old(self).dao_scores@.insert(
                player,
                (old(self).spec_score(player) + points) as u64,
            ),
            final(self).spec_players_consistent(),
            old(self).dao_scores@.contains_key(player) ==> final(self).players == old(
                self,
            ).players,
            !old(self).dao_scores@.contains_key(player) ==> final(self).players@ == old(
                self,
            ).players@.push(player),
            final(self).game_duration_blocks == old(self).game_duration_blocks,
            final(self).game_start_block == old(self).game_start_block,
            final(self).nft_reward_token_id == old(self).nft_reward_token_id,
            final(self).current_proposal_id == old(self).current_proposal_id,
            final(self).proposals == old(self).proposals,
            final(self).votes == old(self).votes,
            final(self).nft_claimed == old(self).nft_claimed,
            final(self).events == old(self).events,
    {
        let mut current: u64 = 0;
        let mut known: bool = false;
        match self.dao_scores.get(&player) {
            Some(s) => {
                current = *s;
                known = true;
            },
            None => {},
        }
        if !known {
            proof {
                if old(self).players@.contains(player) {
                    let i = choose|i: int|
                        0 <= i < old(self).players@.len() && old(self).players@[i] == player;
                    assert(old(self).dao_scores@.contains_key(old(self).players@[i]));
                }
            }
            self.players.push(player);
        }
        self.dao_scores.insert(player, current + points);
        proof {
            let pre = *old(self);
            let post = *self;
            assert forall|a: u64| #[trigger]
                post.dao_scores@.contains_key(a) implies post.players@.contains(a) by {
                if a == player {
                    if pre.dao_scores@.contains_key(player) {
                        assert(pre.players@.contains(player));
                        let i = choose|i: int|
                            0 <= i < pre.players@.len() && pre.players@[i] == player;
                        assert(post.players@[i] == player);
                    } else {
                        assert(post.players@[pre.players@.len() as int] == player);
                    }
                } else {
                    assert(pre.dao_scores@.contains_key(a));
                    let i = choose|i: int|
                        0 <= i < pre.players@.len() && pre.players@[i] == a;
                    assert(post.players@[i] == a);
                }
            }
        }
    }

    /// Creates a new governance proposal.
    ///
    /// Refused with `GameEnded` once the game is over.  On success the
    /// proposal receives the next sequential identifier, a voting window
    /// from the current block through `current_block +
    /// voting_duration_blocks`, zero tallies and a cleared `executed` flag;
    /// the creator earns 10 points and a `ProposalCreated` event is logged.
    /// The `requires` beyond well-formedness only keep the block sums, the
    /// identifier counter and the creator's score inside their integer
    /// widths.
    pub fn create_proposal(
        &mut self,
        caller: u64,
        title: Vec<u8>,
        description: Vec<u8>,
        voting_duration_blocks: u64,
        current_block: u64,
    ) -> (r: Result<(), DaoError>)
        requires
            old(self).wf(),
            old(self).spec_is_active(current_block) ==> {
                &&& current_block + voting_duration_blocks <= u64::MAX
                &&& old(self).proposals@.len() + 2 <= u32::MAX
                &&& old(self).spec_score(caller) + 10 <= u64::MAX
            },
        ensures
            final(self).wf(),
            r == to_result(old(self).spec_create_proposal_error(current_block)),
            r is Err ==> *final(self) == *old(self),
            r is Ok ==> {
                &&& final(self).proposals@ == old(self).proposals@.push(
                    (Proposal {
                        id: old(self).current_proposal_id,
                        creator: caller,
                        title: title,
                        description: description,
                        votes_for: 0,
                        votes_against: 0,
                        start_block: current_block,
                        end_block: (current_block + voting_duration_blocks) as u64,
                        executed: false,
                    }),
                )
                &&& final(self).current_proposal_id == old(self).current_proposal_id + 1
                &&& final(self).dao_scores@ == old(self).dao_scores@.insert(
                    caller,
                    (old(self).spec_score(caller) + 10) as u64,
                )
                &&& final(self).events@.len() == old(self).events@.len() + 1
                &&& final(self).events@.drop_last() == old(self).events@
                &&& (final(self).events@.last() matches Event::ProposalCreated {
                    proposal_id: pid,
                    creator: c,
                    title: t,
                } && pid == old(self).current_proposal_id && c == caller && t@ == title@)
                &&& final(self).votes == old(self).votes
                &&& final(self).nft_claimed == old(self).nft_claimed
                &&& final(self).game_duration_blocks == old(self).game_duration_blocks
                &&& final(self).game_start_block == old(self).game_start_block
                &&& final(self).nft_reward_token_id == old(self).nft_reward_token_id
            },
            forall|a: u64| old(self).spec_score(a) <= final(self).spec_score(a),
            old(self).proposals@.len() <= final(self).proposals@.len(),
            forall|i: int|
                0 <= i < old(self).proposals@.len() ==> ((
                #[trigger] old(self).proposals@[i]).executed
                    ==> final(self).proposals@[i].executed),
            forall|a: u64| old(self).spec_claimed(a) ==> final(self).spec_claimed(a),
            old(self).events@.is_prefix_of(final(self).events@),
    {
        match self.require_game_active(current_block) {
            Err(e) => {
                return Err(e);
            },
            Ok(()) => {},
        }
        let proposal_id = self.current_proposal_id;
        let end_block = current_block + voting_duration_blocks;
        let event_title = title.clone();
        proof {
            assert forall|i: int| 0 <= i < title@.len() implies event_title@[i] == title@[i] by {
                assert(cloned::<u8>(title[i], event_title[i]));
            }
            assert(event_title@ =~= title@);
        }
        let proposal = Proposal {
            id: proposal_id,
            creator: caller,
            title,
            description,
            votes_for: 0,
            votes_against: 0,
            start_block: current_block,
            end_block,
            executed: false,
        };
        self.proposals.push(proposal);
        self.current_proposal_id = proposal_id + 1;
        self.add_dao_points(caller, 10);
        self.events.push(Event::ProposalCreated { proposal_id, creator: caller, title: event_title });
        proof {
            let n = old(self).proposals@.len() as int;
            assert forall|i: int|
                0 <= i < self.proposals@.len() implies (#[trigger] self.proposals@[i]).votes_for
                == side_stake_total(self.votes@, (i + 1) as u32, true) && self.proposals@[i].votes_against
                == side_stake_total(self.votes@, (i + 1) as u32, false) by {
                if i == n {
                    assert(forall|j: int|
                        0 <= j < self.votes@.len() ==> (#[trigger] self.votes@[j]).proposal_id != (
                        i + 1) as u32);
                    lemma_side_stake_total_absent(self.votes@, (i + 1) as u32, true);
                    lemma_side_stake_total_absent(self.votes@, (i + 1) as u32, false);
                }
            }
            assert(self.events@.drop_last() =~= old(self).events@);
        }
        Ok(())
    }

    /// The reputation points an accepted vote with stake `payment` earns;
    /// see `spec_vote_points`.
    fn vote_points(payment: u128) -> (r: u64)
        requires
            Self::spec_vote_points(payment) <= u64::MAX,
        ensures
            r == Self::spec_vote_points(payment),
    {
        let q: u128 = payment / UNIT;
        if q == 0 || q > u64::MAX as u128 {
            1
        } else {
            2 * (q as u64)
        }
    }

    /// Casts a vote on a proposal, staking `payment`.
    ///
    /// The checks run in order: the game must be active (`GameEnded`), the
    /// stake positive (`ZeroStake`), the proposal known
    /// (`ProposalNotFound`), the current block inside the proposal's window
    /// (`VotingNotStarted` / `VotingEnded`), and the caller must not have
    /// voted on it before (`AlreadyVoted`).  On success the vote is
    /// recorded, the chosen side's tally grows by the stake, the voter earns
    /// points per `spec_vote_points`, and a `VoteCast` event is logged.  The
    /// `requires` beyond well-formedness only keep the touched tally and the
    /// voter's score inside their integer widths.
    pub fn vote(
        &mut self,
        caller: u64,
        proposal_id: u32,
        vote_for: bool,
        payment: u128,
        current_block: u64,
    ) -> (r: Result<(), DaoError>)
        requires
            old(self).wf(),
            old(self).spec_vote_error(caller, proposal_id, payment, current_block) is None ==> {
                &&& (vote_for ==> old(self).spec_proposal(proposal_id).votes_for + payment
                    <= u128::MAX)
                &&& (!vote_for ==> old(self).spec_proposal(proposal_id).votes_against + payment
                    <= u128::MAX)
                &&& old(self).spec_score(caller) + Self::spec_vote_points(payment) <= u64::MAX
            },
        ensures
            final(self).wf(),
            r == to_result(old(self).spec_vote_error(caller, proposal_id, payment, current_block)),
            r is Err ==> *final(self) == *old(self),
            r is Ok ==> {
                &&& final(self).votes@ == old(self).votes@.push(
                    (Vote {
                        voter: caller,
                        proposal_id: proposal_id,
                        vote_for: vote_for,
                        stake_amount: payment,
                        block_number: current_block,
                    }),
                )
                &&& final(self).proposals@ == old(self).proposals@.update(
                    proposal_id - 1,
                    Self::spec_proposal_after_vote(
                        old(self).spec_proposal(proposal_id),
                        vote_for,
                        payment,
                    ),
                )
                &&& final(self).dao_scores@ == old(self).dao_scores@.insert(
                    caller,
                    (old(self).spec_score(caller) + Self::spec_vote_points(payment)) as u64,
                )
                &&& final(self).events@ == old(self).events@.push(
                    (Event::VoteCast {
                        proposal_id: proposal_id,
                        voter: caller,
                        vote_for: vote_for,
                        stake_amount: payment,
                    }),
                )
                &&& final(self).spec_has_voted(proposal_id, caller)
                &&& final(self).current_proposal_id == old(self).current_proposal_id
                &&& final(self).nft_claimed == old(self).nft_claimed
                &&& final(self).game_duration_blocks == old(self).game_duration_blocks
                &&& final(self).game_start_block == old(self).game_start_block
                &&& final(self).nft_reward_token_id == old(self).nft_reward_token_id
            },
            forall|a: u64| old(self).spec_score(a) <= final(self).spec_score(a),
            old(self).proposals@.len() == final(self).proposals@.len(),
            forall|i: int|
                0 <= i < old(self).proposals@.len() ==> ((
                #[trigger] old(self).proposals@[i]).executed
                    ==> final(self).proposals@[i].executed),
            forall|a: u64| old(self).spec_claimed(a) ==> final(self).spec_claimed(a),
            old(self).events@.is_prefix_of(final(self).events@),
    {
        match self.require_game_active(current_block) {
            Err(e) => {
                return Err(e);
            },
            Ok(()) => {},
        }
        if payment == 0 {
            return Err(DaoError::ZeroStake);
        }
        if proposal_id < 1 || (proposal_id as usize) > self.proposals.len() {
            return Err(DaoError::ProposalNotFound);
        }
        let idx = (proposal_id as usize) - 1;
        if current_block < self.proposals[idx].start_block {
            return Err(DaoError::VotingNotStarted);
        }
        if current_block > self.proposals[idx].end_block {
            return Err(DaoError::VotingEnded);
        }
        if self.has_vote_record(proposal_id, caller) {
            return Err(DaoError::AlreadyVoted);
        }
        let vote = Vote {
            voter: caller,
            proposal_id,
            vote_for,
            stake_amount: payment,
            block_number: current_block,
        };
        self.votes.push(vote);
        let p = &mut self.proposals[idx];
        if vote_for {
            p.votes_for = p.votes_for + payment;
        } else {
            p.votes_against = p.votes_against + payment;
        }
        let points = Self::vote_points(payment);
        self.add_dao_points(caller, points);
        self.events.push(
            Event::VoteCast { proposal_id, voter: caller, vote_for, stake_amount: payment },
        );
        proof {
            let pre = *old(self);
            let v = (Vote {
                voter: caller,
                proposal_id: proposal_id,
                vote_for: vote_for,
                stake_amount: payment,
                block_number: current_block,
            });
            assert(self.votes@ == pre.votes@.push(v));
            assert forall|i: int|
                0 <= i < self.proposals@.len() implies (#[trigger] self.proposals@[i]).votes_for
                == side_stake_total(self.votes@, (i + 1) as u32, true)
                && self.proposals@[i].votes_against == side_stake_total(
                self.votes@,
                (i + 1) as u32,
                false,
            ) by {
                lemma_side_stake_total_push(pre.votes@, v, (i + 1) as u32, true);
                lemma_side_stake_total_push(pre.votes@, v, (i + 1) as u32, false);
            }
            assert forall|i: int, j: int|
                0 <= i < j < self.votes@.len() implies ((
            #[trigger] self.votes@[i]).proposal_id != (#[trigger] self.votes@[j]).proposal_id
                || self.votes@[i].voter != self.votes@[j].voter) by {
                if j == pre.votes@.len() {
                    if self.votes@[i].proposal_id == proposal_id && self.votes@[i].voter
                        == caller {
                        assert(pre.votes@[i] == self.votes@[i]);
                        assert(pre.spec_has_voted(proposal_id, caller));
                    }
                }
            }
            assert(self.votes@[pre.votes@.len() as int] == v);
            assert(self.spec_has_voted(proposal_id, caller));
        }
        Ok(())
    }

    /// Settles a proposal once its voting window has closed.
    ///
    /// The checks run in order: the proposal must exist
    /// (`ProposalNotFound`), its window must be over (`VotingStillActive`),
    /// and it must not be settled already (`AlreadyExecuted`).  The proposal
    /// passes if and only if strictly more stake was cast in favour than
    /// against; ties fail.  On a pass the `executed` flag is set, the
    /// creator earns a 50-point bonus and a passed `ProposalExecuted` event
    /// is logged.  On a fail only a failed `ProposalExecuted` event is
    /// logged: the flag stays clear, so a losing proposal may be settled
    /// again, each time re-logging the failure.
    pub fn execute_proposal(&mut self, proposal_id: u32, current_block: u64) -> (r: Result<
        (),
        DaoError,
    >)
        requires
            old(self).wf(),
            (old(self).spec_execute_error(proposal_id, current_block) is None && old(self).spec_passes(
                proposal_id,
            )) ==> old(self).spec_score(old(self).spec_proposal(proposal_id).creator) + 50
                <= u64::MAX,
        ensures
            final(self).wf(),
            r == to_result(old(self).spec_execute_error(proposal_id, current_block)),
            r is Err ==> *final(self) == *old(self),
            (r is Ok && old(self).spec_passes(proposal_id)) ==> {
                &&& final(self).proposals@ == old(self).proposals@.update(
                    proposal_id - 1,
                    (Proposal { executed: true, ..old(self).spec_proposal(proposal_id) }),
                )
                &&& final(self).dao_scores@ == old(self).dao_scores@.insert(
                    old(self).spec_proposal(proposal_id).creator,
                    (old(self).spec_score(old(self).spec_proposal(proposal_id).creator)
                        + 50) as u64,
                )
                &&& final(self).events@ == old(self).events@.push(
                    (Event::ProposalExecuted { proposal_id: proposal_id, passed: true }),
                )
            },
            (r is Ok && !old(self).spec_passes(proposal_id)) ==> {
                &&& final(self).proposals == old(self).proposals
                &&& final(self).dao_scores == old(self).dao_scores
                &&& final(self).events@ == old(self).events@.push(
                    (Event::ProposalExecuted { proposal_id: proposal_id, passed: false }),
                )
            },
            r is Ok ==> {
                &&& final(self).votes == old(self).votes
                &&& final(self).nft_claimed == old(self).nft_claimed
                &&& final(self).current_proposal_id == old(self).current_proposal_id
                &&& final(self).game_duration_blocks == old(self).game_duration_blocks
                &&& final(self).game_start_block == old(self).game_start_block
                &&& final(self).nft_reward_token_id == old(self).nft_reward_token_id
            },
            forall|a: u64| old(self).spec_score(a) <= final(self).spec_score(a),
            old(self).proposals@.len() == final(self).proposals@.len(),
            forall|i: int|
                0 <= i < old(self).proposals@.len() ==> ((
                #[trigger] old(self).proposals@[i]).executed
                    ==> final(self).proposals@[i].executed),
            forall|a: u64| old(self).spec_claimed(a) ==> final(self).spec_claimed(a),
            old(self).events@.is_prefix_of(final(self).events@),
    {
        if proposal_id < 1 || (proposal_id as usize) > self.proposals.len() {
            return Err(DaoError::ProposalNotFound);
        }
        let idx = (proposal_id as usize) - 1;
        if current_block <= self.proposals[idx].end_block {
            return Err(DaoError::VotingStillActive);
        }
        if self.proposals[idx].executed {
            return Err(DaoError::AlreadyExecuted);
        }
        if self.proposals[idx].votes_for > self.proposals[idx].votes_against {
            let creator = self.proposals[idx].creator;
            let p = &mut self.proposals[idx];
            p.executed = true;
            self.add_dao_points(creator, 50);
            self.events.push(Event::ProposalExecuted { proposal_id, passed: true });
        } else {
            self.events.push(Event::ProposalExecuted { proposal_id, passed: false });
        }
        Ok(())
    }

    /// Grants the caller the one-off reward once the game is over.
    ///
    /// The checks run in order: the game must be over (`GameStillActive`),
    /// the caller must not have claimed before (`AlreadyClaimed`), must have
    /// a positive score (`NoScore`), and must be in the reward cohort
    /// (`NotEligible`; every address belongs to the cohort, see
    /// `spec_eligible`).  On success the caller is marked claimed — the mark
    /// is permanent — and an `NftClaimed` event carrying the score is
    /// logged; minting the reward itself is the host's step afterwards.
    pub fn claim_nft_reward(&mut self, caller: u64, current_block: u64) -> (r: Result<
        (),
        DaoError,
    >)
        requires
            old(self).wf(),
        ensures
            final(self).wf(),
            r == to_result(old(self).spec_claim_error(caller, current_block)),
            r is Err ==> *final(self) == *old(self),
            r is Ok ==> {
                &&& final(self).nft_claimed@ == old(self).nft_claimed@.insert(caller, true)
                &&& final(self).spec_claimed(caller)
                &&& final(self).events@ == old(self).events@.push(
                    (Event::NftClaimed { player: caller, score: old(self).spec_score(caller) }),
                )
                &&& final(self).proposals == old(self).proposals
                &&& final(self).votes == old(self).votes
                &&& final(self).dao_scores == old(self).dao_scores
                &&& final(self).current_proposal_id == old(self).current_proposal_id
                &&& final(self).game_duration_blocks == old(self).game_duration_blocks
                &&& final(self).game_start_block == old(self).game_start_block
                &&& final(self).nft_reward_token_id == old(self).nft_reward_token_id
            },
            forall|a: u64| old(self).spec_score(a) == final(self).spec_score(a),
            forall|a: u64| old(self).spec_claimed(a) ==> final(self).spec_claimed(a),
            old(self).events@.is_prefix_of(final(self).events@),
            old(self).proposals == final(self).proposals,
    {
        match self.require_game_ended(current_block) {
            Err(e) => {
                return Err(e);
            },
            Ok(()) => {},
        }
        if self.nft_claimed.contains_key(&caller) {
            return Err(DaoError::AlreadyClaimed);
        }
        let player_score = self.get_player_score(caller);
        if player_score == 0 {
            return Err(DaoError::NoScore);
        }
        if !self.is_eligible_for_reward(caller) {
            return Err(DaoError::NotEligible);
        }
        self.nft_claimed.insert(caller, true);
        self.events.push(Event::NftClaimed { player: caller, score: player_score });
        Ok(())
    }

    /// The reward-cohort membership test; see `spec_eligible`.
    fn is_eligible_for_reward(&self, _player: u64) -> (r: bool)
        ensures
            r == self.spec_eligible(_player),
    {
        true
    }
}

} // verus!
