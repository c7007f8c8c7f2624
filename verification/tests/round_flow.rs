use governance_engine::engine::Engine;
use governance_engine::types::{Config, Event, Payment, States};

fn config() -> Config {
    Config {
        propose_cap: 10,
        propose_user_cap: 2,
        propose_identity_level: 2,
        propose_reward_ppm: 10_000,
        propose_round_duration: 100,
        propose_vote_acceptance_min_ppm: 500_000,
        propose_vote_duration: 50,
        propose_vote_identity_level: 2,
        propose_vote_max_per_user: 10,
        propose_vote_correct_reward: 7,
        concern_cap: 10,
        concern_user_cap: 2,
        concern_identity_level: 2,
        concern_reward: 11,
        concern_round_duration: 40,
        concern_vote_acceptance_min_ppm: 500_000,
        concern_vote_duration: 30,
        concern_vote_identity_level: 2,
        concern_vote_max_per_user: 10,
        concern_vote_correct_reward: 5,
        council_vote_round_duration: 60,
        council_accept_concern_min_votes_ppm: 500_000,
        reject_repeat_votes: false,
    }
}

#[test]
fn round_counter_wraps_to_zero() {
    let mut e = Engine::new(config());
    let empty = Vec::new();
    e.on_deadline_elapsed(0, &empty);
    e.round = u8::MAX;
    e.state = States::VoteCouncil;
    let t = e.on_deadline_elapsed(500, &empty);
    assert_eq!(t.new_state, States::Propose);
    assert_eq!(e.round, 0);
}

#[test]
fn round_counter_advances_by_one_before_the_maximum() {
    let mut e = Engine::new(config());
    let empty = Vec::new();
    e.on_deadline_elapsed(0, &empty);
    e.round = 41;
    e.state = States::VoteCouncil;
    e.on_deadline_elapsed(500, &empty);
    assert_eq!(e.round, 42);
}

#[test]
fn empty_proposal_round_repeats_without_advancing() {
    let mut e = Engine::new(config());
    let empty = Vec::new();
    e.on_deadline_elapsed(0, &empty);
    assert_eq!(e.state, States::Propose);
    let t = e.on_deadline_elapsed(100, &empty);
    assert_eq!(t.new_state, States::Propose);
    assert_eq!(t.delay, 100);
    assert_eq!(e.state, States::Propose);
    assert_eq!(e.round, 0);
}

#[test]
fn round_without_winners_restarts_and_advances() {
    let mut e = Engine::new(config());
    let empty = Vec::new();
    e.on_deadline_elapsed(0, &empty);
    e.propose(1, 5, b"alpha".to_vec()).unwrap();
    e.on_deadline_elapsed(100, &empty);
    // Nobody votes: with zero total votes the ratio is 0, below the minimum.
    let t = e.on_deadline_elapsed(150, &empty);
    assert_eq!(t.new_state, States::Propose);
    assert!(t.payments.is_empty());
    assert_eq!(e.round, 1);
    // The registries were drained for the next round.
    assert!(e.proposals.is_empty());
    assert!(e.proposal_to_identity.is_empty());
    assert_eq!(e.proposal_count, 0);
    assert_eq!(e.proposal_vote_count, 0);
}

#[test]
fn round_without_concerns_skips_concern_voting() {
    let mut e = Engine::new(config());
    let empty = Vec::new();
    e.on_deadline_elapsed(0, &empty);
    e.propose(1, 5, b"alpha".to_vec()).unwrap();
    e.on_deadline_elapsed(100, &empty);
    e.vote_proposal(9, 5, b"alpha".to_vec()).unwrap();
    e.on_deadline_elapsed(150, &empty);
    assert_eq!(e.state, States::Concern);
    let t = e.on_deadline_elapsed(200, &empty);
    assert_eq!(t.new_state, States::VoteCouncil);
    assert_eq!(t.delay, 60);
    assert_eq!(t.poll_requests.len(), 1);
    assert_eq!(t.poll_requests[0].documents, vec![b"alpha".to_vec()]);
    assert_eq!(e.round, 0);
}

#[test]
fn round_with_concerns_enters_concern_voting() {
    let mut e = Engine::new(config());
    let empty = Vec::new();
    e.on_deadline_elapsed(0, &empty);
    e.propose(1, 5, b"alpha".to_vec()).unwrap();
    e.on_deadline_elapsed(100, &empty);
    e.vote_proposal(9, 5, b"alpha".to_vec()).unwrap();
    e.on_deadline_elapsed(150, &empty);
    e.concern(4, 5, b"worry".to_vec(), b"alpha".to_vec()).unwrap();
    let t = e.on_deadline_elapsed(200, &empty);
    assert_eq!(t.new_state, States::VoteConcern);
    assert_eq!(t.delay, 30);
}

#[test]
fn three_proposals_one_winner() {
    let mut e = Engine::new(config());
    let empty = Vec::new();
    e.on_deadline_elapsed(0, &empty);
    e.propose(1, 5, b"a".to_vec()).unwrap();
    e.propose(2, 5, b"b".to_vec()).unwrap();
    e.propose(3, 5, b"c".to_vec()).unwrap();
    e.on_deadline_elapsed(100, &empty);
    // Ten identities vote with tallies 6 / 3 / 1.
    for id in 10..16u64 {
        e.vote_proposal(id, 5, b"a".to_vec()).unwrap();
    }
    for id in 16..19u64 {
        e.vote_proposal(id, 5, b"b".to_vec()).unwrap();
    }
    e.vote_proposal(19, 5, b"c".to_vec()).unwrap();
    assert_eq!(e.proposal_vote_count, 10);
    let t = e.on_deadline_elapsed(150, &empty);
    // Only the proposal with ratio 0.6 clears the 0.5 minimum.
    assert_eq!(t.new_state, States::Concern);
    assert_eq!(e.proposal_winners.len(), 1);
    let (round, winners) = &e.proposal_winners[0];
    assert_eq!(*round, 0);
    assert_eq!(winners.len(), 1);
    assert_eq!(winners[0].proposal, b"a".to_vec());
    assert_eq!(winners[0].proposer, 1);
    assert_eq!(winners[0].vote_ratio, 600_000);
    assert!(winners[0].concerns.is_empty());
    // Only the correct voters are rewarded: one payment per vote for "a".
    let expected: Vec<Payment> =
        (10..16u64).map(|id| Payment { identity: id, amount: 7 }).collect();
    assert_eq!(t.payments, expected);
    // The losers get no council poll either: entering the council phase
    // opens exactly one poll, and it is the winner's.
    let polls = e.on_deadline_elapsed(200, &empty);
    assert_eq!(polls.new_state, States::VoteCouncil);
    assert_eq!(polls.poll_requests.len(), 1);
    assert_eq!(polls.poll_requests[0].documents, vec![b"a".to_vec()]);
}

#[test]
fn reward_total_equals_sum_of_successful_payouts() {
    let mut e = Engine::new(config());
    let empty = Vec::new();
    e.on_deadline_elapsed(0, &empty);
    e.propose(1, 5, b"a".to_vec()).unwrap();
    e.on_deadline_elapsed(100, &empty);
    for id in 10..13u64 {
        e.vote_proposal(id, 5, b"a".to_vec()).unwrap();
    }
    let t = e.on_deadline_elapsed(150, &empty);
    assert_eq!(t.payments.len(), 3);
    // The middle transfer fails: it must not count into the total.
    e.settle_rewards(&vec![true, false, true]);
    let events = e.take_events();
    assert!(events.contains(&Event::TotalProposalReward(14)));
    assert!(!events.contains(&Event::TotalProposalReward(21)));
}

#[test]
fn winning_concern_is_attached_and_paid_once() {
    let mut e = Engine::new(config());
    let empty = Vec::new();
    e.on_deadline_elapsed(0, &empty);
    e.propose(1, 5, b"a".to_vec()).unwrap();
    e.on_deadline_elapsed(100, &empty);
    e.vote_proposal(9, 5, b"a".to_vec()).unwrap();
    e.on_deadline_elapsed(150, &empty);
    // Two concerns against the winner; only one will clear the minimum.
    e.concern(4, 5, b"x".to_vec(), b"a".to_vec()).unwrap();
    e.concern(5, 5, b"y".to_vec(), b"a".to_vec()).unwrap();
    e.on_deadline_elapsed(200, &empty);
    // Ten identities vote on the concerns: 6 for "x", 4 for "y".
    for id in 20..26u64 {
        e.vote_concern(id, 5, b"x".to_vec(), b"a".to_vec()).unwrap();
    }
    for id in 26..30u64 {
        e.vote_concern(id, 5, b"y".to_vec(), b"a".to_vec()).unwrap();
    }
    let t = e.on_deadline_elapsed(250, &empty);
    assert_eq!(t.new_state, States::VoteCouncil);
    // "x" (ratio 0.6) is attached to the winner; "y" (0.4) is discarded.
    let winners = &e.proposal_winners.last().unwrap().1;
    assert_eq!(winners.len(), 1);
    assert_eq!(winners[0].concerns, vec![b"x".to_vec()]);
    // The submitter of "x" is paid the concern reward exactly once, then the
    // correct voters their vote reward.
    let mut expected: Vec<Payment> = vec![Payment { identity: 4, amount: 11 }];
    expected.extend((20..26u64).map(|id| Payment { identity: id, amount: 5 }));
    assert_eq!(t.payments, expected);
    // The poll for the winner carries the proposal and the attached concern.
    assert_eq!(t.poll_requests.len(), 1);
    assert_eq!(t.poll_requests[0].documents, vec![b"a".to_vec(), b"x".to_vec()]);
    // Settle everything: total = 11 + 6 * 5.
    e.settle_rewards(&vec![true; 7]);
    assert!(e.take_events().contains(&Event::TotalConcernReward(41)));
}

/// An engine in the council phase with one winner "a" and one ticket.
fn council_engine() -> Engine {
    let mut e = Engine::new(config());
    let empty = Vec::new();
    e.on_deadline_elapsed(0, &empty);
    e.propose(1, 5, b"a".to_vec()).unwrap();
    e.on_deadline_elapsed(100, &empty);
    e.vote_proposal(9, 5, b"a".to_vec()).unwrap();
    e.on_deadline_elapsed(150, &empty);
    let t = e.on_deadline_elapsed(200, &empty);
    assert_eq!(t.new_state, States::VoteCouncil);
    e.record_council_tickets(vec![77]);
    e
}

#[test]
fn council_acceptance_spawns_the_project() {
    let mut e = council_engine();
    // 2 of 10 council members reject: 0.2 is below the 0.5 threshold.
    let mut votes: Vec<(u64, bool)> = (0..8u64).map(|id| (id, true)).collect();
    votes.push((8, false));
    votes.push((9, false));
    let results = vec![Some(votes)];
    let t = e.on_deadline_elapsed(300, &results);
    assert_eq!(t.spawn_requests.len(), 1);
    assert_eq!(t.spawn_requests[0].proposal, b"a".to_vec());
    assert_eq!(t.new_state, States::Propose);
    assert_eq!(e.round, 1);
    let events = e.take_events();
    assert!(!events.iter().any(|ev| matches!(ev, Event::CouncilDeniedProposal(..))));
}

#[test]
fn council_rejection_emits_a_denial() {
    let mut e = council_engine();
    // 6 of 10 council members reject: 0.6 reaches the 0.5 threshold.
    let mut votes: Vec<(u64, bool)> = (0..6u64).map(|id| (id, false)).collect();
    votes.extend((6..10u64).map(|id| (id, true)));
    let results = vec![Some(votes.clone())];
    let t = e.on_deadline_elapsed(300, &results);
    assert!(t.spawn_requests.is_empty());
    let events = e.take_events();
    let denied = events.iter().find_map(|ev| match ev {
        Event::CouncilDeniedProposal(w, vs) => Some((w.clone(), vs.clone())),
        _ => None,
    });
    let (winner, raw) = denied.expect("a denial event must be emitted");
    assert_eq!(winner.proposal, b"a".to_vec());
    assert_eq!(raw, votes);
}

#[test]
fn missing_poll_result_is_skipped() {
    let mut e = council_engine();
    let results = vec![None];
    let t = e.on_deadline_elapsed(300, &results);
    assert!(t.spawn_requests.is_empty());
    let events = e.take_events();
    assert!(!events.iter().any(|ev| matches!(ev, Event::CouncilDeniedProposal(..))));
    assert_eq!(e.state, States::Propose);
    assert_eq!(e.round, 1);
}

#[test]
fn winners_are_sorted_by_ascending_ratio() {
    let mut cfg = config();
    cfg.propose_vote_acceptance_min_ppm = 200_000;
    let mut e = Engine::new(cfg);
    let empty = Vec::new();
    e.on_deadline_elapsed(0, &empty);
    e.propose(1, 5, b"a".to_vec()).unwrap();
    e.propose(2, 5, b"b".to_vec()).unwrap();
    e.propose(3, 5, b"c".to_vec()).unwrap();
    e.on_deadline_elapsed(100, &empty);
    // Tallies 5 / 1 / 4 of 10: ratios 0.5, 0.1, 0.4; minimum 0.2.
    for id in 10..15u64 {
        e.vote_proposal(id, 5, b"a".to_vec()).unwrap();
    }
    e.vote_proposal(15, 5, b"b".to_vec()).unwrap();
    for id in 16..20u64 {
        e.vote_proposal(id, 5, b"c".to_vec()).unwrap();
    }
    e.on_deadline_elapsed(150, &empty);
    let winners = &e.proposal_winners[0].1;
    assert_eq!(winners.len(), 2);
    assert_eq!(winners[0].proposal, b"c".to_vec());
    assert_eq!(winners[0].vote_ratio, 400_000);
    assert_eq!(winners[1].proposal, b"a".to_vec());
    assert_eq!(winners[1].vote_ratio, 500_000);
}

#[test]
fn events_are_drained_in_order() {
    let mut e = Engine::new(config());
    let empty = Vec::new();
    e.on_deadline_elapsed(0, &empty);
    e.on_deadline_elapsed(100, &empty);
    let events = e.take_events();
    assert_eq!(
        events,
        vec![
            Event::StateRotated(States::Propose),
            Event::StateRotated(States::Propose),
        ]
    );
    assert!(e.events.is_empty());
    assert!(e.take_events().is_empty());
}

#[test]
fn recorded_tickets_replace_the_previous_ones() {
    let mut e = Engine::new(config());
    e.record_council_tickets(vec![1, 2, 3]);
    assert_eq!(e.council_vote_tickets, vec![1, 2, 3]);
    e.record_council_tickets(vec![9]);
    assert_eq!(e.council_vote_tickets, vec![9]);
}

#[test]
fn deadline_is_recorded_for_the_host() {
    let mut e = Engine::new(config());
    let empty = Vec::new();
    let t = e.on_deadline_elapsed(1000, &empty);
    assert_eq!(e.next_transit, 1000 + t.delay);
}

#[test]
fn settlement_clears_the_pending_batch() {
    let mut e = Engine::new(config());
    let empty = Vec::new();
    e.on_deadline_elapsed(0, &empty);
    e.propose(1, 5, b"a".to_vec()).unwrap();
    e.on_deadline_elapsed(100, &empty);
    e.vote_proposal(9, 5, b"a".to_vec()).unwrap();
    let t = e.on_deadline_elapsed(150, &empty);
    assert!(e.pending_rewards.is_some());
    e.settle_rewards(&vec![true; t.payments.len()]);
    assert!(e.pending_rewards.is_none());
}

#[test]
fn full_cycle_starts_the_next_round_cleanly() {
    let mut e = council_engine();
    let results = vec![Some(vec![(0, true), (1, true)])];
    let t = e.on_deadline_elapsed(300, &results);
    assert_eq!(t.new_state, States::Propose);
    assert_eq!(e.round, 1);
    // The new round accepts fresh submissions, the old document included:
    // the registries were drained when the old round was evaluated.
    assert_eq!(e.propose(2, 5, b"a".to_vec()), Ok(()));
    assert_eq!(e.proposal_count, 1);
    // The previous round's winners are still retained under their round.
    let old_winners = e.proposal_winners(0);
    assert_eq!(old_winners.len(), 1);
    assert_eq!(old_winners[0].proposal, b"a".to_vec());
    assert!(e.proposal_winners(1).is_empty());
}
