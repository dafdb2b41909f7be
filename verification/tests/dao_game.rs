use quantum_dao::errors::DaoError;
use quantum_dao::game::QuantumDaoGame;
use quantum_dao::game::UNIT;
use quantum_dao::types::Event;

const ALICE: u64 = 1;
const BOB: u64 = 2;
const CAROL: u64 = 3;

fn token() -> Vec<u8> {
    b"QDAO-123456".to_vec()
}

fn new_game() -> QuantumDaoGame {
    QuantumDaoGame::init(100, token(), 0)
}

#[test]
fn init_configures_the_game() {
    let g = new_game();
    assert_eq!(g.game_duration_blocks, 100);
    assert_eq!(g.game_start_block, 0);
    assert_eq!(g.nft_reward_token_id, token());
    assert_eq!(g.current_proposal_id, 1);
    assert!(g.proposals.is_empty());
    assert!(g.votes.is_empty());
    assert!(g.events.is_empty());
    assert_eq!(g.get_player_score(ALICE), 0);
    assert!(g.get_proposal(1).is_none());
}

#[test]
fn game_is_active_through_its_end_block_inclusive() {
    let g = QuantumDaoGame::init(100, token(), 5);
    assert!(g.is_game_active(5));
    assert!(g.is_game_active(104));
    assert!(g.is_game_active(105));
    assert!(!g.is_game_active(106));
}

#[test]
fn full_lifecycle_scenario() {
    let mut g = new_game();
    assert_eq!(g.create_proposal(ALICE, b"title".to_vec(), b"desc".to_vec(), 10, 0), Ok(()));
    let p = g.get_proposal(1).unwrap();
    assert_eq!(p.id, 1);
    assert_eq!(p.creator, ALICE);
    assert_eq!(p.start_block, 0);
    assert_eq!(p.end_block, 10);
    assert_eq!(p.votes_for, 0);
    assert_eq!(p.votes_against, 0);
    assert!(!p.executed);
    assert_eq!(g.get_player_score(ALICE), 10);

    assert_eq!(g.vote(BOB, 1, true, 2 * UNIT, 5), Ok(()));
    let p = g.get_proposal(1).unwrap();
    assert_eq!(p.votes_for, 2 * UNIT);
    assert_eq!(p.votes_against, 0);
    assert_eq!(g.get_player_score(BOB), 4);

    assert_eq!(g.execute_proposal(1, 11), Ok(()));
    assert!(g.get_proposal(1).unwrap().executed);
    assert_eq!(g.get_player_score(ALICE), 60);
}

#[test]
fn proposal_ids_are_sequential() {
    let mut g = new_game();
    assert_eq!(g.create_proposal(ALICE, b"a".to_vec(), b"".to_vec(), 10, 0), Ok(()));
    assert_eq!(g.create_proposal(BOB, b"b".to_vec(), b"".to_vec(), 20, 1), Ok(()));
    assert_eq!(g.create_proposal(ALICE, b"c".to_vec(), b"".to_vec(), 30, 2), Ok(()));
    assert_eq!(g.get_proposal(1).unwrap().id, 1);
    assert_eq!(g.get_proposal(2).unwrap().id, 2);
    assert_eq!(g.get_proposal(3).unwrap().id, 3);
    assert_eq!(g.current_proposal_id, 4);
    assert!(g.get_proposal(4).is_none());
}

#[test]
fn create_after_game_end_fails() {
    let mut g = new_game();
    assert_eq!(
        g.create_proposal(ALICE, b"late".to_vec(), b"".to_vec(), 10, 101),
        Err(DaoError::GameEnded)
    );
    assert!(g.proposals.is_empty());
    assert_eq!(g.get_player_score(ALICE), 0);
}

#[test]
fn vote_after_game_end_fails() {
    let mut g = new_game();
    assert_eq!(g.create_proposal(ALICE, b"t".to_vec(), b"".to_vec(), 200, 0), Ok(()));
    assert_eq!(g.vote(BOB, 1, true, UNIT, 101), Err(DaoError::GameEnded));
}

#[test]
fn zero_stake_vote_fails() {
    let mut g = new_game();
    assert_eq!(g.create_proposal(ALICE, b"t".to_vec(), b"".to_vec(), 10, 0), Ok(()));
    assert_eq!(g.vote(BOB, 1, true, 0, 5), Err(DaoError::ZeroStake));
    assert!(g.votes.is_empty());
}

#[test]
fn vote_on_unknown_proposal_fails() {
    let mut g = new_game();
    assert_eq!(g.vote(BOB, 1, true, UNIT, 5), Err(DaoError::ProposalNotFound));
    assert_eq!(g.create_proposal(ALICE, b"t".to_vec(), b"".to_vec(), 10, 0), Ok(()));
    assert_eq!(g.vote(BOB, 2, true, UNIT, 5), Err(DaoError::ProposalNotFound));
    assert_eq!(g.vote(BOB, 0, true, UNIT, 5), Err(DaoError::ProposalNotFound));
}

#[test]
fn vote_before_voting_window_fails() {
    let mut g = new_game();
    assert_eq!(g.create_proposal(ALICE, b"t".to_vec(), b"".to_vec(), 10, 5), Ok(()));
    assert_eq!(g.vote(BOB, 1, true, UNIT, 3), Err(DaoError::VotingNotStarted));
}

#[test]
fn vote_after_voting_window_fails() {
    let mut g = new_game();
    assert_eq!(g.create_proposal(ALICE, b"t".to_vec(), b"".to_vec(), 10, 0), Ok(()));
    assert_eq!(g.get_proposal(1).unwrap().end_block, 10);
    assert_eq!(g.vote(BOB, 1, true, UNIT, 15), Err(DaoError::VotingEnded));
    assert_eq!(g.vote(BOB, 1, true, UNIT, 10), Ok(()));
}

#[test]
fn double_vote_fails() {
    let mut g = new_game();
    assert_eq!(g.create_proposal(ALICE, b"t".to_vec(), b"".to_vec(), 10, 0), Ok(()));
    assert_eq!(g.vote(BOB, 1, true, UNIT, 5), Ok(()));
    assert_eq!(g.vote(BOB, 1, false, 3 * UNIT, 6), Err(DaoError::AlreadyVoted));
    let p = g.get_proposal(1).unwrap();
    assert_eq!(p.votes_for, UNIT);
    assert_eq!(p.votes_against, 0);
    assert_eq!(g.get_player_score(BOB), 2);
    // The same voter may still vote on a different proposal.
    assert_eq!(g.create_proposal(ALICE, b"u".to_vec(), b"".to_vec(), 10, 0), Ok(()));
    assert_eq!(g.vote(BOB, 2, false, UNIT, 5), Ok(()));
}

#[test]
fn tallies_match_total_stake() {
    let mut g = new_game();
    assert_eq!(g.create_proposal(ALICE, b"t".to_vec(), b"".to_vec(), 10, 0), Ok(()));
    assert_eq!(g.vote(BOB, 1, true, 3 * UNIT, 1), Ok(()));
    assert_eq!(g.vote(CAROL, 1, false, 2 * UNIT, 2), Ok(()));
    assert_eq!(g.vote(ALICE, 1, true, UNIT / 2, 3), Ok(()));
    let p = g.get_proposal(1).unwrap();
    assert_eq!(p.votes_for, 3 * UNIT + UNIT / 2);
    assert_eq!(p.votes_against, 2 * UNIT);
    let total: u128 = g.votes.iter().map(|v| v.stake_amount).sum();
    assert_eq!(p.votes_for + p.votes_against, total);
}

#[test]
fn vote_points_follow_the_stake() {
    let mut g = new_game();
    assert_eq!(g.create_proposal(ALICE, b"t".to_vec(), b"".to_vec(), 10, 0), Ok(()));
    // Five whole units earn ten points.
    assert_eq!(g.vote(BOB, 1, true, 5 * UNIT, 1), Ok(()));
    assert_eq!(g.get_player_score(BOB), 10);
    // Just under two whole units earn two points.
    assert_eq!(g.vote(CAROL, 1, true, 2 * UNIT - 1, 1), Ok(()));
    assert_eq!(g.get_player_score(CAROL), 2);
}

#[test]
fn small_stake_falls_back_to_one_point() {
    let mut g = new_game();
    assert_eq!(g.create_proposal(ALICE, b"t".to_vec(), b"".to_vec(), 10, 0), Ok(()));
    // 0.3 of a unit: the whole-unit quotient is 0, so the delta falls back
    // to a single point rather than 0.
    assert_eq!(g.vote(BOB, 1, true, 3 * UNIT / 10, 5), Ok(()));
    assert_eq!(g.get_player_score(BOB), 1);
}

#[test]
fn execute_during_voting_window_fails() {
    let mut g = new_game();
    assert_eq!(g.create_proposal(ALICE, b"t".to_vec(), b"".to_vec(), 10, 0), Ok(()));
    assert_eq!(g.vote(BOB, 1, true, UNIT, 5), Ok(()));
    assert_eq!(g.execute_proposal(1, 10), Err(DaoError::VotingStillActive));
    assert_eq!(g.execute_proposal(1, 11), Ok(()));
}

#[test]
fn execute_unknown_proposal_fails() {
    let mut g = new_game();
    assert_eq!(g.execute_proposal(1, 20), Err(DaoError::ProposalNotFound));
}

#[test]
fn executed_is_set_at_most_once() {
    let mut g = new_game();
    assert_eq!(g.create_proposal(ALICE, b"t".to_vec(), b"".to_vec(), 10, 0), Ok(()));
    assert_eq!(g.vote(BOB, 1, true, UNIT, 5), Ok(()));
    assert_eq!(g.execute_proposal(1, 11), Ok(()));
    assert!(g.get_proposal(1).unwrap().executed);
    assert_eq!(g.get_player_score(ALICE), 60);
    assert_eq!(g.execute_proposal(1, 12), Err(DaoError::AlreadyExecuted));
    assert!(g.get_proposal(1).unwrap().executed);
    // No second bonus was paid.
    assert_eq!(g.get_player_score(ALICE), 60);
}

#[test]
fn tied_proposal_fails_and_stays_reexecutable() {
    let mut g = new_game();
    assert_eq!(g.create_proposal(ALICE, b"t".to_vec(), b"".to_vec(), 10, 0), Ok(()));
    assert_eq!(g.vote(BOB, 1, true, UNIT, 5), Ok(()));
    assert_eq!(g.vote(CAROL, 1, false, UNIT, 5), Ok(()));
    assert_eq!(g.execute_proposal(1, 11), Ok(()));
    assert!(!g.get_proposal(1).unwrap().executed);
    // No bonus for a failed proposal.
    assert_eq!(g.get_player_score(ALICE), 10);
    // A losing proposal may be settled again, re-logging the failure.
    assert_eq!(g.execute_proposal(1, 12), Ok(()));
    assert!(!g.get_proposal(1).unwrap().executed);
    let failed_events = g
        .events
        .iter()
        .filter(|e| matches!(e, Event::ProposalExecuted { passed: false, .. }))
        .count();
    assert_eq!(failed_events, 2);
}

#[test]
fn claim_while_game_active_fails() {
    let mut g = new_game();
    assert_eq!(g.create_proposal(ALICE, b"t".to_vec(), b"".to_vec(), 10, 0), Ok(()));
    // Through the end block inclusive the game is still running.
    assert_eq!(g.claim_nft_reward(ALICE, 100), Err(DaoError::GameStillActive));
    assert_eq!(g.claim_nft_reward(ALICE, 101), Ok(()));
}

#[test]
fn claim_without_score_fails() {
    let mut g = new_game();
    assert_eq!(g.claim_nft_reward(ALICE, 101), Err(DaoError::NoScore));
}

#[test]
fn claim_succeeds_at_most_once() {
    let mut g = new_game();
    assert_eq!(g.create_proposal(ALICE, b"t".to_vec(), b"".to_vec(), 10, 0), Ok(()));
    assert_eq!(g.claim_nft_reward(ALICE, 101), Ok(()));
    assert_eq!(g.claim_nft_reward(ALICE, 101), Err(DaoError::AlreadyClaimed));
    assert_eq!(g.claim_nft_reward(ALICE, 200), Err(DaoError::AlreadyClaimed));
}

#[test]
fn scores_never_decrease_across_a_history() {
    let mut g = new_game();
    let mut last = [0u64; 4];
    let mut check = |g: &QuantumDaoGame, last: &mut [u64; 4]| {
        for (i, a) in [ALICE, BOB, CAROL, 9].iter().enumerate() {
            let s = g.get_player_score(*a);
            assert!(s >= last[i]);
            last[i] = s;
        }
    };
    assert_eq!(g.create_proposal(ALICE, b"t".to_vec(), b"".to_vec(), 10, 0), Ok(()));
    check(&g, &mut last);
    assert_eq!(g.vote(BOB, 1, true, 2 * UNIT, 5), Ok(()));
    check(&g, &mut last);
    assert_eq!(g.vote(CAROL, 1, false, UNIT / 10, 5), Ok(()));
    check(&g, &mut last);
    assert_eq!(g.vote(BOB, 1, true, UNIT, 6), Err(DaoError::AlreadyVoted));
    check(&g, &mut last);
    assert_eq!(g.execute_proposal(1, 11), Ok(()));
    check(&g, &mut last);
    assert_eq!(g.claim_nft_reward(ALICE, 101), Ok(()));
    check(&g, &mut last);
}

#[test]
fn events_are_logged_in_order() {
    let mut g = new_game();
    assert_eq!(g.create_proposal(ALICE, b"title".to_vec(), b"".to_vec(), 10, 0), Ok(()));
    assert_eq!(g.vote(BOB, 1, false, UNIT, 5), Ok(()));
    assert_eq!(g.execute_proposal(1, 11), Ok(()));
    assert_eq!(g.claim_nft_reward(ALICE, 101), Ok(()));
    assert_eq!(g.events.len(), 4);
    match &g.events[0] {
        Event::ProposalCreated { proposal_id, creator, title } => {
            assert_eq!(*proposal_id, 1);
            assert_eq!(*creator, ALICE);
            assert_eq!(title, &b"title".to_vec());
        },
        other => panic!("unexpected event {:?}", other),
    }
    match &g.events[1] {
        Event::VoteCast { proposal_id, voter, vote_for, stake_amount } => {
            assert_eq!(*proposal_id, 1);
            assert_eq!(*voter, BOB);
            assert!(!*vote_for);
            assert_eq!(*stake_amount, UNIT);
        },
        other => panic!("unexpected event {:?}", other),
    }
    assert!(matches!(g.events[2], Event::ProposalExecuted { proposal_id: 1, passed: false }));
    match &g.events[3] {
        Event::NftClaimed { player, score } => {
            assert_eq!(*player, ALICE);
            assert_eq!(*score, 10);
        },
        other => panic!("unexpected event {:?}", other),
    }
}

#[test]
fn leaderboard_ranks_players_by_score() {
    let mut g = new_game();
    assert!(g.get_leaderboard().is_empty());
    assert_eq!(g.create_proposal(ALICE, b"t".to_vec(), b"".to_vec(), 10, 0), Ok(()));
    assert_eq!(g.vote(BOB, 1, true, 20 * UNIT, 1), Ok(()));
    assert_eq!(g.vote(CAROL, 1, false, 2 * UNIT, 2), Ok(()));
    // Scores: ALICE 10, BOB 40, CAROL 4.
    assert_eq!(g.get_leaderboard(), vec![(BOB, 40), (ALICE, 10), (CAROL, 4)]);
    assert_eq!(g.execute_proposal(1, 11), Ok(()));
    // The passed proposal pays ALICE the 50-point bonus.
    assert_eq!(g.get_leaderboard(), vec![(ALICE, 60), (BOB, 40), (CAROL, 4)]);
}

#[test]
fn leaderboard_lists_each_address_once() {
    let mut g = new_game();
    assert_eq!(g.create_proposal(ALICE, b"a".to_vec(), b"".to_vec(), 10, 0), Ok(()));
    assert_eq!(g.create_proposal(ALICE, b"b".to_vec(), b"".to_vec(), 10, 0), Ok(()));
    assert_eq!(g.vote(ALICE, 1, true, UNIT, 1), Ok(()));
    assert_eq!(g.get_leaderboard(), vec![(ALICE, 22)]);
}

#[test]
fn vote_records_are_queryable() {
    let mut g = new_game();
    assert_eq!(g.create_proposal(ALICE, b"t".to_vec(), b"".to_vec(), 10, 0), Ok(()));
    assert!(!g.has_vote_record(1, BOB));
    assert_eq!(g.vote(BOB, 1, true, UNIT, 5), Ok(()));
    assert!(g.has_vote_record(1, BOB));
    assert!(!g.has_vote_record(1, CAROL));
    assert_eq!(g.votes.len(), 1);
    assert_eq!(g.votes[0].voter, BOB);
    assert_eq!(g.votes[0].proposal_id, 1);
    assert!(g.votes[0].vote_for);
    assert_eq!(g.votes[0].stake_amount, UNIT);
    assert_eq!(g.votes[0].block_number, 5);
}
