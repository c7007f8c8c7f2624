//! Data model of the governance engine: phases, submissions, winners,
//! configuration, events, and the outputs of a phase transition.
//!
//! Each executable type with inner `Vec`s has a ghost mirror (`...V`) over
//! `Seq`, reached through `View`/`DeepView`, so that contracts can speak of
//! the mathematical value of the data.

use vstd::prelude::*;

verus! {

/// Content identifier of a proposal document (opaque bytes).
pub type ProposalCID = Vec<u8>;

/// Content identifier of a concern document (opaque bytes).
pub type ConcernCID = Vec<u8>;

/// Content identifier handed to the council inside a poll.
pub type DocumentCID = Vec<u8>;

/// Identity of a verified participant. The value `0` is reserved: it marks
/// "no identity" in reverse lookups and is never a valid submitter.
pub type IdentityId = u64;

/// Trust tier of an identity, granted by the identity collaborator.
pub type IdentityLevel = u8;

/// Handle of one council poll, issued by the council collaborator.
pub type Ticket = u64;

/// Token amount used for rewards.
pub type Balance = u64;

/// Logical time of the host chain.
pub type BlockNumber = u64;

/// The phases the engine can be in. Exactly one is active at a time.
#[derive(Clone, Copy, Debug, PartialEq, Eq, Structural)]
pub enum States {
    Uninitialized,
    Propose,
    VotePropose,
    Concern,
    VoteConcern,
    VoteCouncil,
}

impl Default for States {
    /// A fresh engine starts out uninitialized.
    fn default() -> (r: Self)
        ensures
            r == States::Uninitialized,
    {
        States::Uninitialized
    }
}

/// A submitted proposal together with the votes it has received so far.
#[derive(Clone, Debug, PartialEq, Eq)]
pub struct Proposal {
    pub proposal: ProposalCID,
    pub votes: u32,
}

/// Ghost mirror of [`Proposal`].
#[verifier::ext_equal]
pub struct ProposalV {
    pub proposal: Seq<u8>,
    pub votes: u32,
}

impl View for Proposal {
    type V = ProposalV;

    open spec fn view(&self) -> ProposalV {
        ProposalV { proposal: self.proposal@, votes: self.votes }
    }
}

impl DeepView for Proposal {
    type V = ProposalV;

    open spec fn deep_view(&self) -> ProposalV {
        self.view()
    }
}

impl Proposal {
    /// A freshly submitted proposal has no votes yet.
    pub fn new(proposal: ProposalCID) -> (r: Self)
        ensures
            r@.proposal == proposal@,
            r@.votes == 0,
    {
        Proposal { proposal, votes: 0 }
    }
}

impl Default for Proposal {
    fn default() -> (r: Self)
        ensures
            r@.proposal == Seq::<u8>::empty(),
            r@.votes == 0,
    {
        let cid: ProposalCID = Vec::new();
        Proposal::new(cid)
    }
}

/// A submitted concern against a proposal, with the votes it has received.
#[derive(Clone, Debug, PartialEq, Eq)]
pub struct Concern {
    pub associated_proposal: ProposalCID,
    pub concern: ConcernCID,
    pub votes: u32,
}

/// Ghost mirror of [`Concern`].
#[verifier::ext_equal]
pub struct ConcernV {
    pub associated_proposal: Seq<u8>,
    pub concern: Seq<u8>,
    pub votes: u32,
}

impl View for Concern {
    type V = ConcernV;

    open spec fn view(&self) -> ConcernV {
        ConcernV {
            associated_proposal: self.associated_proposal@,
            concern: self.concern@,
            votes: self.votes,
        }
    }
}

impl DeepView for Concern {
    type V = ConcernV;

    open spec fn deep_view(&self) -> ConcernV {
        self.view()
    }
}

impl Concern {
    /// A freshly submitted concern has no votes yet.
    pub fn new(concern: ConcernCID, associated_proposal: ProposalCID) -> (r: Self)
        ensures
            r@.concern == concern@,
            r@.associated_proposal == associated_proposal@,
            r@.votes == 0,
    {
        Concern { concern, associated_proposal, votes: 0 }
    }
}

impl Default for Concern {
    fn default() -> (r: Self)
        ensures
            r@.concern == Seq::<u8>::empty(),
            r@.associated_proposal == Seq::<u8>::empty(),
            r@.votes == 0,
    {
        let concern: ConcernCID = Vec::new();
        let associated: ProposalCID = Vec::new();
        Concern::new(concern, associated)
    }
}

/// A proposal that cleared the acceptance threshold, retained per round for
/// the council phase. `vote_ratio` is in parts per million of the round's
/// total proposal votes; `concerns` collects the winning concern documents
/// later attached to it.
#[derive(Clone, Debug, PartialEq, Eq)]
pub struct ProposalWinner {
    pub concerns: Vec<ConcernCID>,
    pub proposer: IdentityId,
    pub proposal: ProposalCID,
    pub vote_ratio: u32,
}

/// Ghost mirror of [`ProposalWinner`].
#[verifier::ext_equal]
pub struct WinnerV {
    pub concerns: Seq<Seq<u8>>,
    pub proposer: IdentityId,
    pub proposal: Seq<u8>,
    pub vote_ratio: u32,
}

impl View for ProposalWinner {
    type V = WinnerV;

    open spec fn view(&self) -> WinnerV {
        WinnerV {
            concerns: self.concerns.deep_view(),
            proposer: self.proposer,
            proposal: self.proposal@,
            vote_ratio: self.vote_ratio,
        }
    }
}

impl DeepView for ProposalWinner {
    type V = WinnerV;

    open spec fn deep_view(&self) -> WinnerV {
        self.view()
    }
}

impl ProposalWinner {
    pub fn new(
        concerns: Vec<ConcernCID>,
        proposer: IdentityId,
        proposal: ProposalCID,
        vote_ratio: u32,
    ) -> (r: Self)
        ensures
            r@ == (WinnerV {
                concerns: concerns.deep_view(),
                proposer,
                proposal: proposal@,
                vote_ratio,
            }),
    {
        ProposalWinner { concerns, proposer, proposal, vote_ratio }
    }
}

impl Default for ProposalWinner {
    fn default() -> (r: Self)
        ensures
            r@.concerns == Seq::<Seq<u8>>::empty(),
            r@.proposer == 0,
            r@.proposal == Seq::<u8>::empty(),
            r@.vote_ratio == 0,
    {
        let concerns: Vec<ConcernCID> = Vec::new();
        let proposal: ProposalCID = Vec::new();
        let r = ProposalWinner::new(concerns, 0, proposal, 0);
        proof {
            assert(r@.concerns =~= Seq::<Seq<u8>>::empty());
        }
        r
    }
}

/// Deployment-time configuration of the engine. Fields whose name ends in
/// `_ppm` are fractions in parts per million (a value of 1_000_000 is 100%).
#[derive(Clone, Copy, Debug, PartialEq, Eq, Structural)]
pub struct Config {
    /// How many proposals can be submitted per proposal round.
    pub propose_cap: u32,
    /// How many proposals one identified user can submit per round.
    pub propose_user_cap: u8,
    /// Identity level required to submit a proposal.
    pub propose_identity_level: u8,
    /// Share of the project funds promised to the proposer, in ppm.
    pub propose_reward_ppm: u32,
    /// How long proposals can be submitted.
    pub propose_round_duration: BlockNumber,
    /// Vote share a proposal needs to win, in ppm.
    pub propose_vote_acceptance_min_ppm: u32,
    /// How long proposal votes can be submitted.
    pub propose_vote_duration: BlockNumber,
    /// Identity level required to vote on proposals.
    pub propose_vote_identity_level: u8,
    /// How many proposal votes one identified user can cast per round.
    pub propose_vote_max_per_user: u16,
    /// Reward for a vote cast on a proposal that won.
    pub propose_vote_correct_reward: Balance,
    /// How many concerns can be submitted per concern round.
    pub concern_cap: u32,
    /// How many concerns one identified user can submit per round.
    pub concern_user_cap: u8,
    /// Identity level required to submit a concern.
    pub concern_identity_level: u8,
    /// Reward for the submitter of a concern that won.
    pub concern_reward: Balance,
    /// How long concerns can be submitted.
    pub concern_round_duration: BlockNumber,
    /// Vote share a concern needs to win, in ppm.
    pub concern_vote_acceptance_min_ppm: u32,
    /// How long concern votes can be submitted.
    pub concern_vote_duration: BlockNumber,
    /// Identity level required to vote on concerns.
    pub concern_vote_identity_level: u8,
    /// How many concern votes one identified user can cast per round.
    pub concern_vote_max_per_user: u16,
    /// Reward for a vote cast on a concern that won.
    pub concern_vote_correct_reward: Balance,
    /// How much time is reserved for the council to vote.
    pub council_vote_round_duration: BlockNumber,
    /// Council "reject" share at or above which a proposal is denied, in ppm.
    pub council_accept_concern_min_votes_ppm: u32,
    /// Whether a second vote by one identity for the same item is rejected
    /// as a duplicate. When unset, repeat votes count again.
    pub reject_repeat_votes: bool,
}

impl Config {
    /// All fraction fields must be genuine fractions of at most 100%.
    pub open spec fn wf(&self) -> bool {
        &&& self.propose_reward_ppm <= 1_000_000
        &&& self.propose_vote_acceptance_min_ppm <= 1_000_000
        &&& self.concern_vote_acceptance_min_ppm <= 1_000_000
        &&& self.council_accept_concern_min_votes_ppm <= 1_000_000
    }
}

/// A reward transfer the host is asked to perform: pay `amount` to the
/// address of `identity`.
#[derive(Clone, Copy, Debug, PartialEq, Eq, Structural)]
pub struct Payment {
    pub identity: IdentityId,
    pub amount: Balance,
}

/// Which track a batch of pending reward payments belongs to.
#[derive(Clone, Copy, Debug, PartialEq, Eq, Structural)]
pub enum RewardTrack {
    Propose,
    Concern,
}

/// Reward payments handed to the host and not yet settled: the host attempts
/// each transfer and reports back which succeeded.
#[derive(Clone, Debug, PartialEq, Eq)]
pub struct PendingRewards {
    pub track: RewardTrack,
    pub payments: Vec<Payment>,
}

/// Ghost mirror of [`PendingRewards`].
#[verifier::ext_equal]
pub struct PendingV {
    pub track: RewardTrack,
    pub payments: Seq<Payment>,
}

impl View for PendingRewards {
    type V = PendingV;

    open spec fn view(&self) -> PendingV {
        PendingV { track: self.track, payments: self.payments@ }
    }
}

/// One council poll the host is asked to open: the winning proposal document
/// followed by its attached concern documents.
#[derive(Clone, Debug, PartialEq, Eq)]
pub struct PollRequest {
    pub documents: Vec<DocumentCID>,
}

impl View for PollRequest {
    type V = Seq<Seq<u8>>;

    open spec fn view(&self) -> Seq<Seq<u8>> {
        self.documents.deep_view()
    }
}

impl DeepView for PollRequest {
    type V = Seq<Seq<u8>>;

    open spec fn deep_view(&self) -> Seq<Seq<u8>> {
        self.view()
    }
}

/// Everything the engine asks of its host after one phase transition.
#[derive(Clone, Debug, PartialEq, Eq)]
pub struct Transition {
    /// The phase the engine is in after the transition.
    pub new_state: States,
    /// How long after the triggering block the next transition is due.
    pub delay: BlockNumber,
    /// Reward transfers to attempt, in order; report back with `settle_rewards`.
    pub payments: Vec<Payment>,
    /// Council polls to open, one per winner, in winner order; report the
    /// tickets back with `record_council_tickets`.
    pub poll_requests: Vec<PollRequest>,
    /// Winners the council accepted, to be spawned as projects.
    pub spawn_requests: Vec<ProposalWinner>,
}

/// Ghost mirror of [`Transition`].
#[verifier::ext_equal]
pub struct TransitionV {
    pub new_state: States,
    pub delay: BlockNumber,
    pub payments: Seq<Payment>,
    pub poll_requests: Seq<Seq<Seq<u8>>>,
    pub spawn_requests: Seq<WinnerV>,
}

impl View for Transition {
    type V = TransitionV;

    open spec fn view(&self) -> TransitionV {
        TransitionV {
            new_state: self.new_state,
            delay: self.delay,
            payments: self.payments@,
            poll_requests: self.poll_requests.deep_view(),
            spawn_requests: self.spawn_requests.deep_view(),
        }
    }
}

/// Auditable record of what the engine did, appended to an in-engine log the
/// host drains with `take_events`.
#[derive(Clone, Debug, PartialEq, Eq)]
pub enum Event {
    /// The engine rotated to the given phase.
    StateRotated(States),
    /// Total reward actually paid out after a proposal voting round.
    TotalProposalReward(Balance),
    /// Total reward actually paid out after a concern voting round.
    TotalConcernReward(Balance),
    /// The council denied a winning proposal; carries the raw poll votes.
    CouncilDeniedProposal(ProposalWinner, Vec<(IdentityId, bool)>),
}

/// Ghost mirror of [`Event`].
#[verifier::ext_equal]
pub enum EventV {
    StateRotated(States),
    TotalProposalReward(Balance),
    TotalConcernReward(Balance),
    CouncilDeniedProposal(WinnerV, Seq<(IdentityId, bool)>),
}

impl View for Event {
    type V = EventV;

    open spec fn view(&self) -> EventV {
        match self {
            Event::StateRotated(s) => EventV::StateRotated(*s),
            Event::TotalProposalReward(b) => EventV::TotalProposalReward(*b),
            Event::TotalConcernReward(b) => EventV::TotalConcernReward(*b),
            Event::CouncilDeniedProposal(w, votes) => EventV::CouncilDeniedProposal(
                w@,
                votes.deep_view(),
            ),
        }
    }
}

impl DeepView for Event {
    type V = EventV;

    open spec fn deep_view(&self) -> EventV {
        self.view()
    }
}

/// Validation failures of the submission and voting commands. Every failing
/// command leaves the engine untouched.
#[derive(Clone, Copy, Debug, PartialEq, Eq, Structural)]
pub enum Error {
    /// The same concern was already submitted against the same proposal.
    ConcernAlreadySubmitted,
    /// The round's global concern cap is reached.
    ConcernLimitReached,
    /// The concern voted for does not exist.
    ConcernNotExistant,
    /// The caller's identity level is below the phase's minimum.
    IdentityLevelTooLow,
    /// The same proposal was already submitted.
    ProposalAlreadySubmitted,
    /// The proposal voted for does not exist.
    ProposalNotExistant,
    /// The round's global proposal cap is reached.
    ProposalLimitReached,
    /// The caller already submitted as many concerns as one user may.
    UserConcernLimitReached,
    /// The caller already cast as many concern votes as one user may.
    UserConcernVoteLimitReached,
    /// The caller already submitted as many proposals as one user may.
    UserProposalLimitReached,
    /// The caller already cast as many proposal votes as one user may.
    UserProposalVoteLimitReached,
    /// The command does not belong to the engine's current phase.
    WrongState,
}

} // verus!
