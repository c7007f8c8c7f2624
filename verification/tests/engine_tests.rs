use governance_engine::engine::Engine;
use governance_engine::identity::Module;
use governance_engine::ratio::ratio_ppm;
use governance_engine::types::{Concern, Config, Error, Event, Proposal, ProposalWinner, States};

fn config() -> Config {
    Config {
        propose_cap: 10,
        propose_user_cap: 2,
        propose_identity_level: 2,
        propose_reward_ppm: 10_000,
        propose_round_duration: 100,
        propose_vote_acceptance_min_ppm: 500_000,
        propose_vote_duration: 50,
        propose_vote_identity_level: 2,
        propose_vote_max_per_user: 10,
        propose_vote_correct_reward: 7,
        concern_cap: 10,
        concern_user_cap: 2,
        concern_identity_level: 2,
        concern_reward: 11,
        concern_round_duration: 40,
        concern_vote_acceptance_min_ppm: 500_000,
        concern_vote_duration: 30,
        concern_vote_identity_level: 2,
        concern_vote_max_per_user: 10,
        concern_vote_correct_reward: 5,
        council_vote_round_duration: 60,
        council_accept_concern_min_votes_ppm: 500_000,
        reject_repeat_votes: false,
    }
}

/// A fresh engine moved into the proposal phase.
fn proposing_engine() -> Engine {
    let mut e = Engine::new(config());
    let empty = Vec::new();
    let t = e.on_deadline_elapsed(0, &empty);
    assert_eq!(t.new_state, States::Propose);
    e
}

#[test]
fn new_engine_is_uninitialized() {
    let e = Engine::new(config());
    assert_eq!(e.state, States::Uninitialized);
    assert_eq!(e.round, 0);
    assert_eq!(e.next_transit, 0);
    assert_eq!(e.proposal_count, 0);
    assert_eq!(e.concern_count, 0);
    assert!(e.events.is_empty());
}

#[test]
fn first_deadline_enters_propose_phase() {
    let mut e = Engine::new(config());
    let empty = Vec::new();
    let t = e.on_deadline_elapsed(5, &empty);
    assert_eq!(t.new_state, States::Propose);
    assert_eq!(t.delay, 100);
    assert_eq!(e.state, States::Propose);
    assert_eq!(e.next_transit, 105);
    assert_eq!(e.take_events(), vec![Event::StateRotated(States::Propose)]);
}

#[test]
fn ratio_is_a_fraction_of_at_most_one() {
    assert_eq!(ratio_ppm(3, 10), 300_000);
    assert_eq!(ratio_ppm(10, 10), 1_000_000);
    assert_eq!(ratio_ppm(20, 10), 1_000_000);
    assert_eq!(ratio_ppm(1, 3), 333_333);
}

#[test]
fn ratio_is_zero_without_votes() {
    assert_eq!(ratio_ppm(0, 10), 0);
    assert_eq!(ratio_ppm(5, 0), 0);
    assert_eq!(ratio_ppm(0, 0), 0);
}

#[test]
fn propose_records_the_submission() {
    let mut e = proposing_engine();
    assert_eq!(e.propose(1, 5, b"alpha".to_vec()), Ok(()));
    assert_eq!(e.proposal_count, 1);
    assert_eq!(e.proposals.len(), 1);
    assert_eq!(e.proposals[0].0, 1);
    assert_eq!(e.proposals[0].1, vec![Proposal { proposal: b"alpha".to_vec(), votes: 0 }]);
    assert_eq!(e.proposal_to_identity, vec![(b"alpha".to_vec(), 1)]);
}

#[test]
fn propose_rejected_in_wrong_phase() {
    let mut e = Engine::new(config());
    assert_eq!(e.propose(1, 5, b"alpha".to_vec()), Err(Error::WrongState));
    assert_eq!(e.proposal_count, 0);
    assert!(e.proposals.is_empty());
    assert!(e.proposal_to_identity.is_empty());
}

#[test]
fn propose_rejected_at_round_cap() {
    let mut cfg = config();
    cfg.propose_cap = 1;
    let mut e = Engine::new(cfg);
    let empty = Vec::new();
    e.on_deadline_elapsed(0, &empty);
    assert_eq!(e.propose(1, 5, b"alpha".to_vec()), Ok(()));
    assert_eq!(e.propose(2, 5, b"beta".to_vec()), Err(Error::ProposalLimitReached));
    assert_eq!(e.proposal_count, 1);
    assert_eq!(e.proposals.len(), 1);
}

#[test]
fn propose_rejected_at_user_cap() {
    let mut e = proposing_engine();
    assert_eq!(e.propose(1, 5, b"a".to_vec()), Ok(()));
    assert_eq!(e.propose(1, 5, b"b".to_vec()), Ok(()));
    assert_eq!(e.propose(1, 5, b"c".to_vec()), Err(Error::UserProposalLimitReached));
    assert_eq!(e.propose(2, 5, b"c".to_vec()), Ok(()));
    assert_eq!(e.proposal_count, 3);
}

#[test]
fn propose_rejected_below_identity_level() {
    let mut e = proposing_engine();
    assert_eq!(e.propose(1, 1, b"alpha".to_vec()), Err(Error::IdentityLevelTooLow));
    assert_eq!(e.proposal_count, 0);
}

#[test]
fn propose_rejected_on_duplicate_document() {
    let mut e = proposing_engine();
    assert_eq!(e.propose(1, 5, b"alpha".to_vec()), Ok(()));
    assert_eq!(e.propose(2, 5, b"alpha".to_vec()), Err(Error::ProposalAlreadySubmitted));
    assert_eq!(e.proposal_count, 1);
    assert_eq!(e.proposals.len(), 1);
}

/// An engine in the proposal voting phase with one proposal by identity 1.
fn voting_engine() -> Engine {
    let mut e = proposing_engine();
    e.propose(1, 5, b"alpha".to_vec()).unwrap();
    let empty = Vec::new();
    let t = e.on_deadline_elapsed(100, &empty);
    assert_eq!(t.new_state, States::VotePropose);
    e
}

#[test]
fn vote_proposal_counts_the_ballot() {
    let mut e = voting_engine();
    assert_eq!(e.vote_proposal(9, 5, b"alpha".to_vec()), Ok(()));
    assert_eq!(e.proposal_vote_count, 1);
    assert_eq!(e.proposals[0].1[0].votes, 1);
    assert_eq!(e.proposal_votes.len(), 1);
    assert_eq!(e.proposal_votes[0].0, 9);
    assert_eq!(e.proposal_votes[0].1, vec![b"alpha".to_vec()]);
}

#[test]
fn vote_proposal_rejected_in_wrong_phase() {
    let mut e = proposing_engine();
    assert_eq!(e.vote_proposal(9, 5, b"alpha".to_vec()), Err(Error::WrongState));
    assert_eq!(e.proposal_vote_count, 0);
}

#[test]
fn vote_proposal_rejected_for_unknown_document() {
    let mut e = voting_engine();
    assert_eq!(e.vote_proposal(9, 5, b"ghost".to_vec()), Err(Error::ProposalNotExistant));
    assert_eq!(e.proposal_vote_count, 0);
}

#[test]
fn vote_proposal_rejected_below_identity_level() {
    let mut e = voting_engine();
    assert_eq!(e.vote_proposal(9, 1, b"alpha".to_vec()), Err(Error::IdentityLevelTooLow));
}

#[test]
fn vote_proposal_rejected_at_user_vote_cap() {
    let mut cfg = config();
    cfg.propose_vote_max_per_user = 1;
    let mut e = Engine::new(cfg);
    let empty = Vec::new();
    e.on_deadline_elapsed(0, &empty);
    e.propose(1, 5, b"alpha".to_vec()).unwrap();
    e.on_deadline_elapsed(100, &empty);
    assert_eq!(e.vote_proposal(9, 5, b"alpha".to_vec()), Ok(()));
    assert_eq!(
        e.vote_proposal(9, 5, b"alpha".to_vec()),
        Err(Error::UserProposalVoteLimitReached)
    );
    assert_eq!(e.proposal_vote_count, 1);
}

/// An engine in the concern phase whose single winner is "alpha" by 1.
fn concern_engine() -> Engine {
    let mut e = voting_engine();
    e.vote_proposal(9, 5, b"alpha".to_vec()).unwrap();
    let empty = Vec::new();
    let t = e.on_deadline_elapsed(150, &empty);
    assert_eq!(t.new_state, States::Concern);
    e
}

#[test]
fn concern_records_the_submission() {
    let mut e = concern_engine();
    assert_eq!(e.concern(4, 5, b"worry".to_vec(), b"alpha".to_vec()), Ok(()));
    assert_eq!(e.concern_count, 1);
    assert_eq!(e.concerns.len(), 1);
    assert_eq!(e.concerns[0].0, 4);
    assert_eq!(
        e.concerns[0].1,
        vec![Concern {
            associated_proposal: b"alpha".to_vec(),
            concern: b"worry".to_vec(),
            votes: 0
        }]
    );
    assert_eq!(
        e.concern_to_identity,
        vec![((b"worry".to_vec(), b"alpha".to_vec()), 4)]
    );
}

#[test]
fn concern_rejected_in_wrong_phase() {
    let mut e = proposing_engine();
    assert_eq!(
        e.concern(4, 5, b"worry".to_vec(), b"alpha".to_vec()),
        Err(Error::WrongState)
    );
}

#[test]
fn concern_rejected_at_round_cap() {
    let mut cfg = config();
    cfg.concern_cap = 1;
    let mut e = Engine::new(cfg);
    let empty = Vec::new();
    e.on_deadline_elapsed(0, &empty);
    e.propose(1, 5, b"alpha".to_vec()).unwrap();
    e.on_deadline_elapsed(100, &empty);
    e.vote_proposal(9, 5, b"alpha".to_vec()).unwrap();
    e.on_deadline_elapsed(150, &empty);
    assert_eq!(e.concern(4, 5, b"w1".to_vec(), b"alpha".to_vec()), Ok(()));
    assert_eq!(
        e.concern(5, 5, b"w2".to_vec(), b"alpha".to_vec()),
        Err(Error::ConcernLimitReached)
    );
    assert_eq!(e.concern_count, 1);
}

#[test]
fn concern_rejected_at_user_cap() {
    let mut e = concern_engine();
    assert_eq!(e.concern(4, 5, b"w1".to_vec(), b"alpha".to_vec()), Ok(()));
    assert_eq!(e.concern(4, 5, b"w2".to_vec(), b"alpha".to_vec()), Ok(()));
    assert_eq!(
        e.concern(4, 5, b"w3".to_vec(), b"alpha".to_vec()),
        Err(Error::UserConcernLimitReached)
    );
}

#[test]
fn concern_rejected_below_identity_level() {
    let mut e = concern_engine();
    assert_eq!(
        e.concern(4, 1, b"worry".to_vec(), b"alpha".to_vec()),
        Err(Error::IdentityLevelTooLow)
    );
}

#[test]
fn concern_rejected_on_duplicate_pair() {
    let mut e = concern_engine();
    assert_eq!(e.concern(4, 5, b"worry".to_vec(), b"alpha".to_vec()), Ok(()));
    assert_eq!(
        e.concern(5, 5, b"worry".to_vec(), b"alpha".to_vec()),
        Err(Error::ConcernAlreadySubmitted)
    );
    assert_eq!(e.concern_count, 1);
}

/// An engine in the concern voting phase with one concern by identity 4.
fn concern_voting_engine() -> Engine {
    let mut e = concern_engine();
    e.concern(4, 5, b"worry".to_vec(), b"alpha".to_vec()).unwrap();
    let empty = Vec::new();
    let t = e.on_deadline_elapsed(200, &empty);
    assert_eq!(t.new_state, States::VoteConcern);
    e
}

#[test]
fn vote_concern_counts_the_ballot() {
    let mut e = concern_voting_engine();
    assert_eq!(e.vote_concern(9, 5, b"worry".to_vec(), b"alpha".to_vec()), Ok(()));
    assert_eq!(e.concern_vote_count, 1);
    assert_eq!(e.concerns[0].1[0].votes, 1);
    assert_eq!(e.concern_votes[0].0, 9);
    assert_eq!(e.concern_votes[0].1, vec![b"worry".to_vec()]);
}

#[test]
fn vote_concern_rejected_in_wrong_phase() {
    let mut e = concern_engine();
    assert_eq!(
        e.vote_concern(9, 5, b"worry".to_vec(), b"alpha".to_vec()),
        Err(Error::WrongState)
    );
}

#[test]
fn vote_concern_rejected_for_unknown_concern() {
    let mut e = concern_voting_engine();
    assert_eq!(
        e.vote_concern(9, 5, b"ghost".to_vec(), b"alpha".to_vec()),
        Err(Error::ConcernNotExistant)
    );
    assert_eq!(
        e.vote_concern(9, 5, b"worry".to_vec(), b"beta".to_vec()),
        Err(Error::ConcernNotExistant)
    );
}

#[test]
fn vote_concern_rejected_below_identity_level() {
    let mut e = concern_voting_engine();
    assert_eq!(
        e.vote_concern(9, 1, b"worry".to_vec(), b"alpha".to_vec()),
        Err(Error::IdentityLevelTooLow)
    );
}

#[test]
fn vote_concern_rejected_at_user_vote_cap() {
    let mut cfg = config();
    cfg.concern_vote_max_per_user = 1;
    let mut e = Engine::new(cfg);
    let empty = Vec::new();
    e.on_deadline_elapsed(0, &empty);
    e.propose(1, 5, b"alpha".to_vec()).unwrap();
    e.on_deadline_elapsed(100, &empty);
    e.vote_proposal(9, 5, b"alpha".to_vec()).unwrap();
    e.on_deadline_elapsed(150, &empty);
    e.concern(4, 5, b"worry".to_vec(), b"alpha".to_vec()).unwrap();
    e.on_deadline_elapsed(200, &empty);
    assert_eq!(e.vote_concern(9, 5, b"worry".to_vec(), b"alpha".to_vec()), Ok(()));
    assert_eq!(
        e.vote_concern(9, 5, b"worry".to_vec(), b"alpha".to_vec()),
        Err(Error::UserConcernVoteLimitReached)
    );
}

#[test]
fn peer_review_request_returns_the_requester() {
    assert_eq!(Module::do_request_peer_review(7, 3, 99), Ok(7));
}

#[test]
fn default_values_are_empty() {
    assert_eq!(States::default(), States::Uninitialized);
    let p = Proposal::default();
    assert!(p.proposal.is_empty());
    assert_eq!(p.votes, 0);
    let c = Concern::default();
    assert!(c.concern.is_empty());
    assert!(c.associated_proposal.is_empty());
    assert_eq!(c.votes, 0);
    let w = ProposalWinner::default();
    assert!(w.concerns.is_empty());
    assert_eq!(w.proposer, 0);
    assert!(w.proposal.is_empty());
    assert_eq!(w.vote_ratio, 0);
}

#[test]
fn constructors_start_with_zero_votes() {
    let p = Proposal::new(b"doc".to_vec());
    assert_eq!(p.proposal, b"doc".to_vec());
    assert_eq!(p.votes, 0);
    let c = Concern::new(b"worry".to_vec(), b"doc".to_vec());
    assert_eq!(c.concern, b"worry".to_vec());
    assert_eq!(c.associated_proposal, b"doc".to_vec());
    assert_eq!(c.votes, 0);
    let w = ProposalWinner::new(vec![b"worry".to_vec()], 3, b"doc".to_vec(), 600_000);
    assert_eq!(w.concerns, vec![b"worry".to_vec()]);
    assert_eq!(w.proposer, 3);
    assert_eq!(w.proposal, b"doc".to_vec());
    assert_eq!(w.vote_ratio, 600_000);
}

#[test]
fn repeat_votes_count_again_by_default() {
    let mut e = voting_engine();
    assert_eq!(e.vote_proposal(9, 5, b"alpha".to_vec()), Ok(()));
    assert_eq!(e.vote_proposal(9, 5, b"alpha".to_vec()), Ok(()));
    assert_eq!(e.proposal_vote_count, 2);
    assert_eq!(e.proposals[0].1[0].votes, 2);
}

#[test]
fn repeat_proposal_vote_rejected_when_configured() {
    let mut cfg = config();
    cfg.reject_repeat_votes = true;
    let mut e = Engine::new(cfg);
    let empty = Vec::new();
    e.on_deadline_elapsed(0, &empty);
    e.propose(1, 5, b"alpha".to_vec()).unwrap();
    e.propose(1, 5, b"beta".to_vec()).unwrap();
    e.on_deadline_elapsed(100, &empty);
    assert_eq!(e.vote_proposal(9, 5, b"alpha".to_vec()), Ok(()));
    assert_eq!(
        e.vote_proposal(9, 5, b"alpha".to_vec()),
        Err(Error::ProposalAlreadySubmitted)
    );
    // A different document by the same voter still counts.
    assert_eq!(e.vote_proposal(9, 5, b"beta".to_vec()), Ok(()));
    assert_eq!(e.proposal_vote_count, 2);
}

#[test]
fn repeat_concern_vote_rejected_when_configured() {
    let mut cfg = config();
    cfg.reject_repeat_votes = true;
    let mut e = Engine::new(cfg);
    let empty = Vec::new();
    e.on_deadline_elapsed(0, &empty);
    e.propose(1, 5, b"alpha".to_vec()).unwrap();
    e.on_deadline_elapsed(100, &empty);
    e.vote_proposal(9, 5, b"alpha".to_vec()).unwrap();
    e.on_deadline_elapsed(150, &empty);
    e.concern(4, 5, b"worry".to_vec(), b"alpha".to_vec()).unwrap();
    e.on_deadline_elapsed(200, &empty);
    assert_eq!(e.vote_concern(9, 5, b"worry".to_vec(), b"alpha".to_vec()), Ok(()));
    assert_eq!(
        e.vote_concern(9, 5, b"worry".to_vec(), b"alpha".to_vec()),
        Err(Error::ConcernAlreadySubmitted)
    );
    assert_eq!(e.concern_vote_count, 1);
}
