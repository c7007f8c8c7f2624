//! Ghost model of the engine.
//!
//! [`EngineV`] is the mathematical value of an engine; [`transit_model`] is
//! the transition relation of the round state machine, written over that
//! value. The executable engine proves that every phase transition computes
//! exactly what the model says.

use crate::ratio::ratio_ppm_spec;
use crate::types::{Config, Error, EventV, Payment, PendingV, RewardTrack, States, TransitionV};
use crate::types::{ConcernV, ProposalV, WinnerV};
use vstd::prelude::*;

verus! {

/// Mathematical value of the whole engine state.
#[verifier::ext_equal]
pub struct EngineV {
    pub config: Config,
    /// Current phase.
    pub state: States,
    /// Block for which the next phase transition is due.
    pub next_transit: u64,
    /// Current governance cycle; wraps after its maximum value.
    pub round: u8,
    /// Per-identity proposal lists of the running round.
    pub proposals: Seq<(u64, Seq<ProposalV>)>,
    /// Reverse lookup: proposal document to submitter.
    pub proposal_to_identity: Seq<(Seq<u8>, u64)>,
    /// Per-identity lists of proposal documents voted for.
    pub proposal_votes: Seq<(u64, Seq<Seq<u8>>)>,
    /// Total proposal votes cast this round.
    pub proposal_vote_count: u32,
    /// Total proposals submitted this round.
    pub proposal_count: u32,
    /// Winners of each round, keyed by round number.
    pub proposal_winners: Seq<(u8, Seq<WinnerV>)>,
    /// Per-identity concern lists of the running round.
    pub concerns: Seq<(u64, Seq<ConcernV>)>,
    /// Reverse lookup: (concern document, proposal document) to submitter.
    pub concern_to_identity: Seq<((Seq<u8>, Seq<u8>), u64)>,
    /// Total concerns submitted this round.
    pub concern_count: u32,
    /// Per-identity lists of concern documents voted for.
    pub concern_votes: Seq<(u64, Seq<Seq<u8>>)>,
    /// Total concern votes cast this round.
    pub concern_vote_count: u32,
    /// Tickets of the council polls opened for the current winners.
    pub council_vote_tickets: Seq<u64>,
    /// Reward payments handed to the host and not yet settled.
    pub pending_rewards: Option<PendingV>,
    /// Audit log, drained by the host.
    pub events: Seq<EventV>,
}

/// The round counter after one full cycle: it wraps to 0 after its maximum.
pub open spec fn next_round(r: u8) -> u8 {
    if r == 255 {
        0
    } else {
        (r + 1) as u8
    }
}

/// `a + b` clamped to the largest representable block number.
pub open spec fn sat_add64(a: int, b: int) -> u64 {
    if a + b > u64::MAX {
        u64::MAX
    } else {
        (a + b) as u64
    }
}

// ------------------------------------------------------------------
// The per-round winners store (a map from round number to winner list).
// ------------------------------------------------------------------

/// Index of the entry holding `round`, or -1 when no entry does.
pub open spec fn round_key_index(map: Seq<(u8, Seq<WinnerV>)>, round: u8) -> int
    decreases map.len(),
{
    if map.len() == 0 {
        -1
    } else if map[0].0 == round {
        0
    } else if round_key_index(map.drop_first(), round) < 0 {
        -1
    } else {
        1 + round_key_index(map.drop_first(), round)
    }
}

/// The winners stored for `round`; an unwritten round has no winners.
pub open spec fn winners_lookup(map: Seq<(u8, Seq<WinnerV>)>, round: u8) -> Seq<WinnerV> {
    let i = round_key_index(map, round);
    if i >= 0 {
        map[i].1
    } else {
        Seq::empty()
    }
}

/// Replace the winners stored for `round`: any old entry for the same round
/// leaves, and the fresh entry is appended at the end.
pub open spec fn winners_store(
    map: Seq<(u8, Seq<WinnerV>)>,
    round: u8,
    ws: Seq<WinnerV>,
) -> Seq<(u8, Seq<WinnerV>)> {
    let i = round_key_index(map, round);
    (if i >= 0 {
        map.remove(i)
    } else {
        map
    }).push((round, ws))
}

// ------------------------------------------------------------------
// Proposal evaluation: winners, ordered by ascending vote ratio.
// ------------------------------------------------------------------

/// The winner record a proposal turns into when it clears the threshold.
pub open spec fn winner_of(id: u64, p: ProposalV, total: u32) -> WinnerV {
    WinnerV {
        concerns: Seq::empty(),
        proposer: id,
        proposal: p.proposal,
        vote_ratio: ratio_ppm_spec(p.votes as int, total as int) as u32,
    }
}

/// Where a winner with the given ratio is inserted to keep the list sorted
/// ascending: after every winner whose ratio is at most `ratio`.
pub open spec fn insert_pos(ws: Seq<WinnerV>, ratio: u32) -> int
    decreases ws.len(),
{
    if ws.len() == 0 {
        0
    } else if ws[0].vote_ratio > ratio {
        0
    } else {
        1 + insert_pos(ws.drop_first(), ratio)
    }
}

/// Insert a winner at its sorted position.
pub open spec fn winner_insert(ws: Seq<WinnerV>, w: WinnerV) -> Seq<WinnerV> {
    ws.insert(insert_pos(ws, w.vote_ratio), w)
}

/// The winner list is ordered by ascending vote ratio.
pub open spec fn sorted_by_ratio(ws: Seq<WinnerV>) -> bool {
    forall|i: int, j: int|
        0 <= i <= j < ws.len() ==> #[trigger] ws[i].vote_ratio <= #[trigger] ws[j].vote_ratio
}

/// Evaluate one identity's proposal list, left to right, inserting each
/// proposal whose vote ratio reaches `min_ppm` into the winner list.
pub open spec fn eval_props_list(
    ws: Seq<WinnerV>,
    id: u64,
    list: Seq<ProposalV>,
    total: u32,
    min_ppm: u32,
) -> Seq<WinnerV>
    decreases list.len(),
{
    if list.len() == 0 {
        ws
    } else {
        let prev = eval_props_list(ws, id, list.drop_last(), total, min_ppm);
        if ratio_ppm_spec(list.last().votes as int, total as int) >= min_ppm {
            winner_insert(prev, winner_of(id, list.last(), total))
        } else {
            prev
        }
    }
}

/// Evaluate every identity's proposal list, in store order.
pub open spec fn eval_props_entries(
    ws: Seq<WinnerV>,
    entries: Seq<(u64, Seq<ProposalV>)>,
    total: u32,
    min_ppm: u32,
) -> Seq<WinnerV>
    decreases entries.len(),
{
    if entries.len() == 0 {
        ws
    } else {
        eval_props_list(
            eval_props_entries(ws, entries.drop_last(), total, min_ppm),
            entries.last().0,
            entries.last().1,
            total,
            min_ppm,
        )
    }
}

/// The winners of a proposal voting round: every submitted proposal whose
/// vote ratio reaches `min_ppm`, sorted by ascending ratio.
pub open spec fn proposal_winners_of(
    entries: Seq<(u64, Seq<ProposalV>)>,
    total: u32,
    min_ppm: u32,
) -> Seq<WinnerV> {
    eval_props_entries(Seq::empty(), entries, total, min_ppm)
}

// ------------------------------------------------------------------
// Reward payments for correct voters.
// ------------------------------------------------------------------

/// Whether a proposal document is among the winners.
pub open spec fn winning_proposal(ws: Seq<WinnerV>, cid: Seq<u8>) -> bool {
    exists|j: int| 0 <= j < ws.len() && #[trigger] ws[j].proposal == cid
}

/// Whether a concern document is attached to any winner.
pub open spec fn winning_concern(ws: Seq<WinnerV>, cid: Seq<u8>) -> bool {
    exists|j: int, k: int|
        0 <= j < ws.len() && 0 <= k < ws[j].concerns.len() && #[trigger] ws[j].concerns[k] == cid
}

/// One payment of `amount` per vote in `cids` that named a winning proposal.
pub open spec fn proposal_vote_pays_list(
    ws: Seq<WinnerV>,
    id: u64,
    cids: Seq<Seq<u8>>,
    amount: u64,
) -> Seq<Payment>
    decreases cids.len(),
{
    if cids.len() == 0 {
        Seq::empty()
    } else {
        let prev = proposal_vote_pays_list(ws, id, cids.drop_last(), amount);
        if winning_proposal(ws, cids.last()) {
            prev.push(Payment { identity: id, amount })
        } else {
            prev
        }
    }
}

/// All correct-vote payments of the proposal track, in ledger order.
pub open spec fn proposal_vote_pays(
    ws: Seq<WinnerV>,
    ledger: Seq<(u64, Seq<Seq<u8>>)>,
    amount: u64,
) -> Seq<Payment>
    decreases ledger.len(),
{
    if ledger.len() == 0 {
        Seq::empty()
    } else {
        proposal_vote_pays(ws, ledger.drop_last(), amount) + proposal_vote_pays_list(
            ws,
            ledger.last().0,
            ledger.last().1,
            amount,
        )
    }
}

/// One payment of `amount` per vote in `cids` that named a winning concern.
pub open spec fn concern_vote_pays_list(
    ws: Seq<WinnerV>,
    id: u64,
    cids: Seq<Seq<u8>>,
    amount: u64,
) -> Seq<Payment>
    decreases cids.len(),
{
    if cids.len() == 0 {
        Seq::empty()
    } else {
        let prev = concern_vote_pays_list(ws, id, cids.drop_last(), amount);
        if winning_concern(ws, cids.last()) {
            prev.push(Payment { identity: id, amount })
        } else {
            prev
        }
    }
}

/// All correct-vote payments of the concern track, in ledger order.
pub open spec fn concern_vote_pays(
    ws: Seq<WinnerV>,
    ledger: Seq<(u64, Seq<Seq<u8>>)>,
    amount: u64,
) -> Seq<Payment>
    decreases ledger.len(),
{
    if ledger.len() == 0 {
        Seq::empty()
    } else {
        concern_vote_pays(ws, ledger.drop_last(), amount) + concern_vote_pays_list(
            ws,
            ledger.last().0,
            ledger.last().1,
            amount,
        )
    }
}

// ------------------------------------------------------------------
// Concern evaluation: attach winning concerns to their proposal winner.
// ------------------------------------------------------------------

/// Index of the first winner carrying the given proposal document, or -1.
pub open spec fn first_winner_match(ws: Seq<WinnerV>, proposal: Seq<u8>) -> int
    decreases ws.len(),
{
    if ws.len() == 0 {
        -1
    } else if ws[0].proposal == proposal {
        0
    } else if first_winner_match(ws.drop_first(), proposal) < 0 {
        -1
    } else {
        1 + first_winner_match(ws.drop_first(), proposal)
    }
}

/// Attach a concern document to the first winner of its proposal; without a
/// matching winner the list is unchanged.
pub open spec fn attach_concern(ws: Seq<WinnerV>, cid: Seq<u8>, proposal: Seq<u8>) -> Seq<
    WinnerV,
> {
    let j = first_winner_match(ws, proposal);
    if j >= 0 {
        ws.update(j, WinnerV { concerns: ws[j].concerns.push(cid), ..ws[j] })
    } else {
        ws
    }
}

/// Evaluate one identity's concern list, left to right: a concern whose vote
/// ratio reaches `min_ppm` and whose proposal won is attached to that winner,
/// and its submitter earns the concern reward.
pub open spec fn eval_concerns_list(
    st: (Seq<WinnerV>, Seq<Payment>),
    id: u64,
    list: Seq<ConcernV>,
    total: u32,
    min_ppm: u32,
    reward: u64,
) -> (Seq<WinnerV>, Seq<Payment>)
    decreases list.len(),
{
    if list.len() == 0 {
        st
    } else {
        let prev = eval_concerns_list(st, id, list.drop_last(), total, min_ppm, reward);
        let c = list.last();
        if ratio_ppm_spec(c.votes as int, total as int) >= min_ppm && first_winner_match(
            prev.0,
            c.associated_proposal,
        ) >= 0 {
            (
                attach_concern(prev.0, c.concern, c.associated_proposal),
                prev.1.push(Payment { identity: id, amount: reward }),
            )
        } else {
            prev
        }
    }
}

/// Evaluate every identity's concern list, in store order.
pub open spec fn eval_concerns_entries(
    st: (Seq<WinnerV>, Seq<Payment>),
    entries: Seq<(u64, Seq<ConcernV>)>,
    total: u32,
    min_ppm: u32,
    reward: u64,
) -> (Seq<WinnerV>, Seq<Payment>)
    decreases entries.len(),
{
    if entries.len() == 0 {
        st
    } else {
        eval_concerns_list(
            eval_concerns_entries(st, entries.drop_last(), total, min_ppm, reward),
            entries.last().0,
            entries.last().1,
            total,
            min_ppm,
            reward,
        )
    }
}

// ------------------------------------------------------------------
// Council poll requests and council results.
// ------------------------------------------------------------------

/// The document set of one winner's council poll: the proposal document
/// followed by the attached concern documents.
pub open spec fn poll_documents(w: WinnerV) -> Seq<Seq<u8>> {
    seq![w.proposal] + w.concerns
}

/// One poll request per winner, in winner order.
pub open spec fn poll_requests_of(ws: Seq<WinnerV>) -> Seq<Seq<Seq<u8>>> {
    Seq::new(ws.len(), |i: int| poll_documents(ws[i]))
}

/// How many votes of a poll result are "reject".
pub open spec fn count_false(res: Seq<(u64, bool)>) -> int
    decreases res.len(),
{
    if res.len() == 0 {
        0
    } else {
        count_false(res.drop_last()) + if !res.last().1 {
            1int
        } else {
            0int
        }
    }
}

/// The share of "reject" votes in a poll result, in parts per million.
pub open spec fn council_reject_ppm(res: Seq<(u64, bool)>) -> int {
    ratio_ppm_spec(count_false(res), res.len() as int)
}

/// Work through the first `n` retained tickets, by position: an available
/// poll result either spawns the same-position winner (reject share below
/// `min_ppm`) or records a denial event carrying the raw votes. Positions
/// without a result, and positions beyond the winner list, are skipped.
pub open spec fn council_fold(
    ws: Seq<WinnerV>,
    n: int,
    results: Seq<Option<Seq<(u64, bool)>>>,
    min_ppm: u32,
) -> (Seq<WinnerV>, Seq<EventV>)
    decreases n,
{
    if n <= 0 {
        (Seq::empty(), Seq::empty())
    } else {
        let prev = council_fold(ws, n - 1, results, min_ppm);
        let i = n - 1;
        if i < results.len() && i < ws.len() {
            match results[i] {
                Some(res) => if council_reject_ppm(res) < min_ppm {
                    (prev.0.push(ws[i]), prev.1)
                } else {
                    (prev.0, prev.1.push(EventV::CouncilDeniedProposal(ws[i], res)))
                },
                None => prev,
            }
        } else {
            prev
        }
    }
}

// ------------------------------------------------------------------
// Reward settlement.
// ------------------------------------------------------------------

/// The sum of the amounts of the payments the host reports as succeeded.
pub open spec fn sum_paid(pays: Seq<Payment>, paid: Seq<bool>) -> int
    decreases pays.len(),
{
    if pays.len() == 0 {
        0
    } else {
        sum_paid(pays.drop_last(), paid.drop_last()) + if pays.len() - 1 < paid.len() && paid[pays.len()
            - 1] {
            pays.last().amount as int
        } else {
            0
        }
    }
}

/// A nonnegative sum clamped to the largest representable balance.
pub open spec fn clamp_total(x: int) -> u64 {
    if x > u64::MAX {
        u64::MAX
    } else if x < 0 {
        0
    } else {
        x as u64
    }
}

/// The audit event announcing a track's round reward total.
pub open spec fn reward_event(track: RewardTrack, total: u64) -> EventV {
    match track {
        RewardTrack::Propose => EventV::TotalProposalReward(total),
        RewardTrack::Concern => EventV::TotalConcernReward(total),
    }
}

// ------------------------------------------------------------------
// The transition relation.
// ------------------------------------------------------------------

/// The engine after rotating into phase `ns` at block `now` with delay `d`:
/// the new deadline is recorded, stale pending rewards are dropped, and the
/// rotation is logged.
pub open spec fn rotated(m: EngineV, ns: States, now: u64, d: u64) -> EngineV {
    EngineV {
        state: ns,
        next_transit: sat_add64(now as int, d as int),
        pending_rewards: None,
        events: m.events.push(EventV::StateRotated(ns)),
        ..m
    }
}

/// A transition that asks nothing of the host beyond rescheduling.
pub open spec fn plain_transition(ns: States, d: u64) -> TransitionV {
    TransitionV {
        new_state: ns,
        delay: d,
        payments: Seq::empty(),
        poll_requests: Seq::empty(),
        spawn_requests: Seq::empty(),
    }
}

/// The transition relation of the round state machine: the engine value and
/// transition outputs produced when the deadline elapses at block `now` in
/// state `m.state`, with `results` the poll results the host fetched for the
/// retained tickets (read only when leaving the council phase).
pub open spec fn transit_model(
    m: EngineV,
    now: u64,
    results: Seq<Option<Seq<(u64, bool)>>>,
) -> (EngineV, TransitionV) {
    match m.state {
        States::Uninitialized => {
            let d = m.config.propose_round_duration;
            (rotated(m, States::Propose, now, d), plain_transition(States::Propose, d))
        },
        States::Propose => {
            if m.proposals.len() > 0 {
                let d = m.config.propose_vote_duration;
                (rotated(m, States::VotePropose, now, d), plain_transition(States::VotePropose, d))
            } else {
                let d = m.config.propose_round_duration;
                (rotated(m, States::Propose, now, d), plain_transition(States::Propose, d))
            }
        },
        States::VotePropose => {
            let ws = proposal_winners_of(
                m.proposals,
                m.proposal_vote_count,
                m.config.propose_vote_acceptance_min_ppm,
            );
            let pays = proposal_vote_pays(ws, m.proposal_votes, m.config.propose_vote_correct_reward);
            let ns = if ws.len() == 0 {
                States::Propose
            } else {
                States::Concern
            };
            let d = if ws.len() == 0 {
                m.config.propose_round_duration
            } else {
                m.config.concern_round_duration
            };
            let m2 = EngineV {
                round: if ws.len() == 0 {
                    next_round(m.round)
                } else {
                    m.round
                },
                proposals: Seq::empty(),
                proposal_to_identity: Seq::empty(),
                proposal_votes: Seq::empty(),
                proposal_vote_count: 0,
                proposal_count: 0,
                proposal_winners: winners_store(m.proposal_winners, m.round, ws),
                pending_rewards: Some(PendingV { track: RewardTrack::Propose, payments: pays }),
                ..rotated(m, ns, now, d)
            };
            (m2, TransitionV { payments: pays, ..plain_transition(ns, d) })
        },
        States::Concern => {
            if m.concern_count == 0 {
                let ws = winners_lookup(m.proposal_winners, m.round);
                let d = m.config.council_vote_round_duration;
                (
                    rotated(m, States::VoteCouncil, now, d),
                    TransitionV {
                        poll_requests: poll_requests_of(ws),
                        ..plain_transition(States::VoteCouncil, d)
                    },
                )
            } else {
                let d = m.config.concern_vote_duration;
                (rotated(m, States::VoteConcern, now, d), plain_transition(States::VoteConcern, d))
            }
        },
        States::VoteConcern => {
            let st = eval_concerns_entries(
                (winners_lookup(m.proposal_winners, m.round), Seq::empty()),
                m.concerns,
                m.concern_vote_count,
                m.config.concern_vote_acceptance_min_ppm,
                m.config.concern_reward,
            );
            let pays = st.1 + concern_vote_pays(
                st.0,
                m.concern_votes,
                m.config.concern_vote_correct_reward,
            );
            let d = m.config.council_vote_round_duration;
            let m2 = EngineV {
                proposal_winners: winners_store(m.proposal_winners, m.round, st.0),
                concerns: Seq::empty(),
                concern_to_identity: Seq::empty(),
                concern_votes: Seq::empty(),
                concern_vote_count: 0,
                concern_count: 0,
                pending_rewards: Some(PendingV { track: RewardTrack::Concern, payments: pays }),
                ..rotated(m, States::VoteCouncil, now, d)
            };
            (
                m2,
                TransitionV {
                    payments: pays,
                    poll_requests: poll_requests_of(st.0),
                    ..plain_transition(States::VoteCouncil, d)
                },
            )
        },
        States::VoteCouncil => {
            let ws = winners_lookup(m.proposal_winners, m.round);
            let acts = council_fold(
                ws,
                m.council_vote_tickets.len() as int,
                results,
                m.config.council_accept_concern_min_votes_ppm,
            );
            let d = m.config.propose_round_duration;
            let m2 = EngineV {
                round: next_round(m.round),
                events: m.events + acts.1 + seq![EventV::StateRotated(States::Propose)],
                ..rotated(m, States::Propose, now, d)
            };
            (m2, TransitionV { spawn_requests: acts.0, ..plain_transition(States::Propose, d) })
        },
    }
}

// ------------------------------------------------------------------
// Well-formedness of an engine value.
// ------------------------------------------------------------------

/// Some identity's list holds a proposal with the given document.
pub open spec fn has_proposal_item(
    entries: Seq<(u64, Seq<ProposalV>)>,
    id: u64,
    cid: Seq<u8>,
) -> bool {
    exists|i: int, k: int|
        0 <= i < entries.len() && 0 <= k < entries[i].1.len() && entries[i].0 == id && (
        #[trigger] entries[i].1[k]).proposal == cid
}

/// Some identity's list holds a concern with the given documents.
pub open spec fn has_concern_item(
    entries: Seq<(u64, Seq<ConcernV>)>,
    id: u64,
    concern: Seq<u8>,
    proposal: Seq<u8>,
) -> bool {
    exists|i: int, k: int|
        0 <= i < entries.len() && 0 <= k < entries[i].1.len() && entries[i].0 == id && (
        #[trigger] entries[i].1[k]).concern == concern && entries[i].1[k].associated_proposal
            == proposal
}

impl EngineV {
    /// The proposal registry is consistent: one list per identity, no
    /// reserved identity anywhere, the per-user and global caps hold, each
    /// document is claimed at most once, and every claim points at a real
    /// proposal in its claimant's list.
    pub open spec fn wf_proposal_registry(&self) -> bool {
        &&& forall|i: int, j: int|
            0 <= i < j < self.proposals.len() ==> (#[trigger] self.proposals[i]).0 != (
            #[trigger] self.proposals[j]).0
        &&& forall|i: int| 0 <= i < self.proposals.len() ==> (#[trigger] self.proposals[i]).0 != 0
        &&& forall|i: int|
            0 <= i < self.proposals.len() ==> (#[trigger] self.proposals[i]).1.len()
                <= self.config.propose_user_cap
        &&& self.proposal_count <= self.config.propose_cap
        &&& forall|i: int, j: int|
            0 <= i < j < self.proposal_to_identity.len() ==> (
            #[trigger] self.proposal_to_identity[i]).0 != (
            #[trigger] self.proposal_to_identity[j]).0
        &&& forall|i: int|
            0 <= i < self.proposal_to_identity.len() ==> (
            #[trigger] self.proposal_to_identity[i]).1 != 0
        &&& forall|i: int|
            0 <= i < self.proposal_to_identity.len() ==> has_proposal_item(
                self.proposals,
                (#[trigger] self.proposal_to_identity[i]).1,
                self.proposal_to_identity[i].0,
            )
    }

    /// The concern registry is consistent, keyed by the pair of concern and
    /// proposal document.
    pub open spec fn wf_concern_registry(&self) -> bool {
        &&& forall|i: int, j: int|
            0 <= i < j < self.concerns.len() ==> (#[trigger] self.concerns[i]).0 != (
            #[trigger] self.concerns[j]).0
        &&& forall|i: int| 0 <= i < self.concerns.len() ==> (#[trigger] self.concerns[i]).0 != 0
        &&& forall|i: int|
            0 <= i < self.concerns.len() ==> (#[trigger] self.concerns[i]).1.len()
                <= self.config.concern_user_cap
        &&& self.concern_count <= self.config.concern_cap
        &&& forall|i: int, j: int|
            0 <= i < j < self.concern_to_identity.len() ==> (
            #[trigger] self.concern_to_identity[i]).0 != (#[trigger] self.concern_to_identity[j]).0
        &&& forall|i: int|
            0 <= i < self.concern_to_identity.len() ==> (
            #[trigger] self.concern_to_identity[i]).1 != 0
        &&& forall|i: int|
            0 <= i < self.concern_to_identity.len() ==> has_concern_item(
                self.concerns,
                (#[trigger] self.concern_to_identity[i]).1,
                self.concern_to_identity[i].0.0,
                self.concern_to_identity[i].0.1,
            )
    }

    /// Each vote ledger has one list per identity, no reserved identity, and
    /// respects the per-user vote cap.
    pub open spec fn wf_ledgers(&self) -> bool {
        &&& forall|i: int, j: int|
            0 <= i < j < self.proposal_votes.len() ==> (#[trigger] self.proposal_votes[i]).0 != (
            #[trigger] self.proposal_votes[j]).0
        &&& forall|i: int|
            0 <= i < self.proposal_votes.len() ==> (#[trigger] self.proposal_votes[i]).0 != 0
        &&& forall|i: int|
            0 <= i < self.proposal_votes.len() ==> (#[trigger] self.proposal_votes[i]).1.len()
                <= self.config.propose_vote_max_per_user
        &&& forall|i: int, j: int|
            0 <= i < j < self.concern_votes.len() ==> (#[trigger] self.concern_votes[i]).0 != (
            #[trigger] self.concern_votes[j]).0
        &&& forall|i: int|
            0 <= i < self.concern_votes.len() ==> (#[trigger] self.concern_votes[i]).0 != 0
        &&& forall|i: int|
            0 <= i < self.concern_votes.len() ==> (#[trigger] self.concern_votes[i]).1.len()
                <= self.config.concern_vote_max_per_user
    }

    /// The winners store has one entry per round and every recorded vote
    /// ratio is a genuine fraction.
    pub open spec fn wf_winners(&self) -> bool {
        &&& forall|i: int, j: int|
            0 <= i < j < self.proposal_winners.len() ==> (#[trigger] self.proposal_winners[i]).0
                != (#[trigger] self.proposal_winners[j]).0
        &&& forall|i: int, k: int|
            0 <= i < self.proposal_winners.len() && 0 <= k < self.proposal_winners[i].1.len() ==> (
            #[trigger] self.proposal_winners[i].1[k]).vote_ratio <= 1_000_000
    }

    /// A well-formed engine value.
    pub open spec fn wf(&self) -> bool {
        &&& self.config.wf()
        &&& self.wf_proposal_registry()
        &&& self.wf_concern_registry()
        &&& self.wf_ledgers()
        &&& self.wf_winners()
    }
}

// ------------------------------------------------------------------
// Association lists: the stores are sequences of key/value pairs.
// ------------------------------------------------------------------

/// Index of the first entry keyed by `id`, or -1 when no entry is.
pub open spec fn first_key_index<T>(entries: Seq<(u64, T)>, id: u64) -> int
    decreases entries.len(),
{
    if entries.len() == 0 {
        -1
    } else if entries[0].0 == id {
        0
    } else if first_key_index(entries.drop_first(), id) < 0 {
        -1
    } else {
        1 + first_key_index(entries.drop_first(), id)
    }
}

/// `first_key_index` finds the first entry keyed by `id` exactly when one exists.
pub proof fn lemma_first_key_index<T>(entries: Seq<(u64, T)>, id: u64)
    ensures
        -1 <= first_key_index(entries, id) < entries.len(),
        first_key_index(entries, id) >= 0 ==> entries[first_key_index(entries, id)].0 == id,
        forall|j: int| 0 <= j < first_key_index(entries, id) ==> (#[trigger] entries[j]).0 != id,
        first_key_index(entries, id) < 0 ==> forall|j: int|
            0 <= j < entries.len() ==> (#[trigger] entries[j]).0 != id,
    decreases entries.len(),
{
    if entries.len() == 0 {
    } else if entries[0].0 == id {
    } else {
        lemma_first_key_index(entries.drop_first(), id);
        assert(forall|j: int|
            1 <= j < entries.len() ==> (#[trigger] entries[j]) == entries.drop_first()[j - 1]);
    }
}

/// Length of the list stored for `id`; an identity without an entry has
/// submitted and voted nothing.
pub open spec fn key_list_len<T>(entries: Seq<(u64, Seq<T>)>, id: u64) -> int {
    let i = first_key_index(entries, id);
    if i >= 0 {
        entries[i].1.len() as int
    } else {
        0
    }
}

/// Append `v` to the list stored for `id`, creating the entry on first use.
pub open spec fn key_list_push<T>(entries: Seq<(u64, Seq<T>)>, id: u64, v: T) -> Seq<(u64, Seq<T>)> {
    let i = first_key_index(entries, id);
    if i >= 0 {
        entries.update(i, (id, entries[i].1.push(v)))
    } else {
        entries.push((id, seq![v]))
    }
}

// ------------------------------------------------------------------
// Reverse lookups: document to submitter; the identity 0 marks "unclaimed".
// ------------------------------------------------------------------

/// The identity that claimed the proposal document, or 0.
pub open spec fn rev_lookup(rev: Seq<(Seq<u8>, u64)>, cid: Seq<u8>) -> u64
    decreases rev.len(),
{
    if rev.len() == 0 {
        0
    } else if rev[0].0 == cid {
        rev[0].1
    } else {
        rev_lookup(rev.drop_first(), cid)
    }
}

/// Whether any entry claims the proposal document.
pub open spec fn rev_contains(rev: Seq<(Seq<u8>, u64)>, cid: Seq<u8>) -> bool {
    exists|j: int| 0 <= j < rev.len() && (#[trigger] rev[j]).0 == cid
}

/// In a registry whose claims all name real identities, a lookup resolves
/// exactly when the document is claimed.
pub proof fn lemma_rev_lookup(rev: Seq<(Seq<u8>, u64)>, cid: Seq<u8>)
    requires
        forall|j: int| 0 <= j < rev.len() ==> (#[trigger] rev[j]).1 != 0,
    ensures
        rev_contains(rev, cid) <==> rev_lookup(rev, cid) != 0,
        rev_lookup(rev, cid) != 0 ==> exists|j: int|
            0 <= j < rev.len() && (#[trigger] rev[j]) == (cid, rev_lookup(rev, cid)),
    decreases rev.len(),
{
    if rev.len() == 0 {
    } else if rev[0].0 == cid {
        assert(rev[0] == (cid, rev_lookup(rev, cid)));
    } else {
        lemma_rev_lookup(rev.drop_first(), cid);
        assert(forall|j: int|
            1 <= j < rev.len() ==> (#[trigger] rev[j]) == rev.drop_first()[j - 1]);
        if rev_contains(rev, cid) {
            let j = choose|j: int| 0 <= j < rev.len() && (#[trigger] rev[j]).0 == cid;
            assert(rev.drop_first()[j - 1] == rev[j]);
        }
        if rev_lookup(rev, cid) != 0 {
            let j = choose|j: int|
                0 <= j < rev.drop_first().len() && (#[trigger] rev.drop_first()[j]) == (
                cid,
                rev_lookup(rev.drop_first(), cid),
            );
            assert(rev[j + 1] == rev.drop_first()[j]);
        }
    }
}

/// The identity that claimed the concern against the proposal, or 0.
pub open spec fn crev_lookup(
    rev: Seq<((Seq<u8>, Seq<u8>), u64)>,
    concern: Seq<u8>,
    proposal: Seq<u8>,
) -> u64
    decreases rev.len(),
{
    if rev.len() == 0 {
        0
    } else if rev[0].0 == (concern, proposal) {
        rev[0].1
    } else {
        crev_lookup(rev.drop_first(), concern, proposal)
    }
}

/// Whether any entry claims the concern/proposal pair.
pub open spec fn crev_contains(
    rev: Seq<((Seq<u8>, Seq<u8>), u64)>,
    concern: Seq<u8>,
    proposal: Seq<u8>,
) -> bool {
    exists|j: int| 0 <= j < rev.len() && (#[trigger] rev[j]).0 == (concern, proposal)
}

/// Pair-keyed counterpart of `lemma_rev_lookup`.
pub proof fn lemma_crev_lookup(
    rev: Seq<((Seq<u8>, Seq<u8>), u64)>,
    concern: Seq<u8>,
    proposal: Seq<u8>,
)
    requires
        forall|j: int| 0 <= j < rev.len() ==> (#[trigger] rev[j]).1 != 0,
    ensures
        crev_contains(rev, concern, proposal) <==> crev_lookup(rev, concern, proposal) != 0,
        crev_lookup(rev, concern, proposal) != 0 ==> exists|j: int|
            0 <= j < rev.len() && (#[trigger] rev[j]) == (
                (concern, proposal),
                crev_lookup(rev, concern, proposal),
            ),
    decreases rev.len(),
{
    if rev.len() == 0 {
    } else if rev[0].0 == (concern, proposal) {
        assert(rev[0] == ((concern, proposal), crev_lookup(rev, concern, proposal)));
    } else {
        lemma_crev_lookup(rev.drop_first(), concern, proposal);
        assert(forall|j: int|
            1 <= j < rev.len() ==> (#[trigger] rev[j]) == rev.drop_first()[j - 1]);
        if crev_contains(rev, concern, proposal) {
            let j = choose|j: int|
                0 <= j < rev.len() && (#[trigger] rev[j]).0 == (concern, proposal);
            assert(rev.drop_first()[j - 1] == rev[j]);
        }
        if crev_lookup(rev, concern, proposal) != 0 {
            let j = choose|j: int|
                0 <= j < rev.drop_first().len() && (#[trigger] rev.drop_first()[j]) == (
                (concern, proposal),
                crev_lookup(rev.drop_first(), concern, proposal),
            );
            assert(rev[j + 1] == rev.drop_first()[j]);
        }
    }
}

// ------------------------------------------------------------------
// Vote bookkeeping inside the registries.
// ------------------------------------------------------------------

/// `a + b` clamped to the largest representable vote count.
pub open spec fn sat_add32(a: int, b: int) -> u32 {
    if a + b > u32::MAX {
        u32::MAX
    } else {
        (a + b) as u32
    }
}

/// Index of the first proposal in the list carrying the document, or -1.
pub open spec fn first_prop_match(list: Seq<ProposalV>, cid: Seq<u8>) -> int
    decreases list.len(),
{
    if list.len() == 0 {
        -1
    } else if list[0].proposal == cid {
        0
    } else if first_prop_match(list.drop_first(), cid) < 0 {
        -1
    } else {
        1 + first_prop_match(list.drop_first(), cid)
    }
}

/// Index of the first concern in the list carrying both documents, or -1.
pub open spec fn first_concern_match(list: Seq<ConcernV>, concern: Seq<u8>, proposal: Seq<u8>) -> int
    decreases list.len(),
{
    if list.len() == 0 {
        -1
    } else if list[0].concern == concern && list[0].associated_proposal == proposal {
        0
    } else if first_concern_match(list.drop_first(), concern, proposal) < 0 {
        -1
    } else {
        1 + first_concern_match(list.drop_first(), concern, proposal)
    }
}

/// Count one more vote for the first proposal with document `cid` in the
/// claimant's list; without a match nothing changes.
pub open spec fn bump_proposal_vote(
    entries: Seq<(u64, Seq<ProposalV>)>,
    proposer: u64,
    cid: Seq<u8>,
) -> Seq<(u64, Seq<ProposalV>)> {
    let i = first_key_index(entries, proposer);
    if i >= 0 {
        let k = first_prop_match(entries[i].1, cid);
        if k >= 0 {
            entries.update(
                i,
                (
                    proposer,
                    entries[i].1.update(
                        k,
                        ProposalV {
                            votes: sat_add32(entries[i].1[k].votes as int, 1),
                            ..entries[i].1[k]
                        },
                    ),
                ),
            )
        } else {
            entries
        }
    } else {
        entries
    }
}

/// Count one more vote for the first concern with both documents in the
/// claimant's list; without a match nothing changes.
pub open spec fn bump_concern_vote(
    entries: Seq<(u64, Seq<ConcernV>)>,
    proposer: u64,
    concern: Seq<u8>,
    proposal: Seq<u8>,
) -> Seq<(u64, Seq<ConcernV>)> {
    let i = first_key_index(entries, proposer);
    if i >= 0 {
        let k = first_concern_match(entries[i].1, concern, proposal);
        if k >= 0 {
            entries.update(
                i,
                (
                    proposer,
                    entries[i].1.update(
                        k,
                        ConcernV {
                            votes: sat_add32(entries[i].1[k].votes as int, 1),
                            ..entries[i].1[k]
                        },
                    ),
                ),
            )
        } else {
            entries
        }
    } else {
        entries
    }
}

// ------------------------------------------------------------------
// The submission and voting commands, as validate-then-commit models.
// ------------------------------------------------------------------

/// Validation of a proposal submission, in the order the checks are made.
pub open spec fn propose_check(m: EngineV, id: u64, level: u8, cid: Seq<u8>) -> Result<(), Error> {
    if m.state != States::Propose {
        Err(Error::WrongState)
    } else if m.proposal_count >= m.config.propose_cap {
        Err(Error::ProposalLimitReached)
    } else if level < m.config.propose_identity_level {
        Err(Error::IdentityLevelTooLow)
    } else if key_list_len(m.proposals, id) >= m.config.propose_user_cap {
        Err(Error::UserProposalLimitReached)
    } else if rev_contains(m.proposal_to_identity, cid) {
        Err(Error::ProposalAlreadySubmitted)
    } else {
        Ok(())
    }
}

/// Effect of an accepted proposal submission: a zero-vote proposal joins the
/// caller's list, the document is claimed, and the round counter rises.
pub open spec fn propose_apply(m: EngineV, id: u64, cid: Seq<u8>) -> EngineV {
    EngineV {
        proposals: key_list_push(m.proposals, id, ProposalV { proposal: cid, votes: 0 }),
        proposal_to_identity: m.proposal_to_identity.push((cid, id)),
        proposal_count: (m.proposal_count + 1) as u32,
        ..m
    }
}

/// Validation of a concern submission, in the order the checks are made.
pub open spec fn concern_check(
    m: EngineV,
    id: u64,
    level: u8,
    concern: Seq<u8>,
    proposal: Seq<u8>,
) -> Result<(), Error> {
    if m.state != States::Concern {
        Err(Error::WrongState)
    } else if m.concern_count >= m.config.concern_cap {
        Err(Error::ConcernLimitReached)
    } else if level < m.config.concern_identity_level {
        Err(Error::IdentityLevelTooLow)
    } else if key_list_len(m.concerns, id) >= m.config.concern_user_cap {
        Err(Error::UserConcernLimitReached)
    } else if crev_contains(m.concern_to_identity, concern, proposal) {
        Err(Error::ConcernAlreadySubmitted)
    } else {
        Ok(())
    }
}

/// Effect of an accepted concern submission.
pub open spec fn concern_apply(m: EngineV, id: u64, concern: Seq<u8>, proposal: Seq<u8>) -> EngineV {
    EngineV {
        concerns: key_list_push(
            m.concerns,
            id,
            ConcernV { associated_proposal: proposal, concern, votes: 0 },
        ),
        concern_to_identity: m.concern_to_identity.push(((concern, proposal), id)),
        concern_count: (m.concern_count + 1) as u32,
        ..m
    }
}

/// Whether the identity's ledger already holds a ballot for the document.
pub open spec fn key_list_contains(
    entries: Seq<(u64, Seq<Seq<u8>>)>,
    id: u64,
    cid: Seq<u8>,
) -> bool {
    let i = first_key_index(entries, id);
    i >= 0 && exists|k: int| 0 <= k < entries[i].1.len() && entries[i].1[k] == cid
}

/// Validation of a proposal vote, in the order the checks are made. The last
/// check only applies when the configuration rejects repeat votes.
pub open spec fn vote_proposal_check(m: EngineV, id: u64, level: u8, cid: Seq<u8>) -> Result<
    (),
    Error,
> {
    if m.state != States::VotePropose {
        Err(Error::WrongState)
    } else if rev_lookup(m.proposal_to_identity, cid) == 0 {
        Err(Error::ProposalNotExistant)
    } else if level < m.config.propose_vote_identity_level {
        Err(Error::IdentityLevelTooLow)
    } else if key_list_len(m.proposal_votes, id) >= m.config.propose_vote_max_per_user {
        Err(Error::UserProposalVoteLimitReached)
    } else if m.config.reject_repeat_votes && key_list_contains(m.proposal_votes, id, cid) {
        Err(Error::ProposalAlreadySubmitted)
    } else {
        Ok(())
    }
}

/// Effect of an accepted proposal vote: the ballot joins the voter's ledger,
/// the target proposal counts one more vote, and so does the round.
pub open spec fn vote_proposal_apply(m: EngineV, id: u64, cid: Seq<u8>) -> EngineV {
    EngineV {
        proposal_votes: key_list_push(m.proposal_votes, id, cid),
        proposals: bump_proposal_vote(m.proposals, rev_lookup(m.proposal_to_identity, cid), cid),
        proposal_vote_count: sat_add32(m.proposal_vote_count as int, 1),
        ..m
    }
}

/// Validation of a concern vote, in the order the checks are made.
pub open spec fn vote_concern_check(
    m: EngineV,
    id: u64,
    level: u8,
    concern: Seq<u8>,
    proposal: Seq<u8>,
) -> Result<(), Error> {
    if m.state != States::VoteConcern {
        Err(Error::WrongState)
    } else if crev_lookup(m.concern_to_identity, concern, proposal) == 0 {
        Err(Error::ConcernNotExistant)
    } else if level < m.config.concern_vote_identity_level {
        Err(Error::IdentityLevelTooLow)
    } else if key_list_len(m.concern_votes, id) >= m.config.concern_vote_max_per_user {
        Err(Error::UserConcernVoteLimitReached)
    } else if m.config.reject_repeat_votes && key_list_contains(m.concern_votes, id, concern) {
        Err(Error::ConcernAlreadySubmitted)
    } else {
        Ok(())
    }
}

/// Effect of an accepted concern vote. Only the concern document itself joins
/// the voter's ledger: reward matching later goes by that document alone.
pub open spec fn vote_concern_apply(
    m: EngineV,
    id: u64,
    concern: Seq<u8>,
    proposal: Seq<u8>,
) -> EngineV {
    EngineV {
        concern_votes: key_list_push(m.concern_votes, id, concern),
        concerns: bump_concern_vote(
            m.concerns,
            crev_lookup(m.concern_to_identity, concern, proposal),
            concern,
            proposal,
        ),
        concern_vote_count: sat_add32(m.concern_vote_count as int, 1),
        ..m
    }
}

/// `first_prop_match` finds the first proposal carrying `cid` exactly when
/// one exists.
pub proof fn lemma_first_prop_match(list: Seq<ProposalV>, cid: Seq<u8>)
    ensures
        -1 <= first_prop_match(list, cid) < list.len(),
        first_prop_match(list, cid) >= 0 ==> list[first_prop_match(list, cid)].proposal == cid,
        forall|j: int|
            0 <= j < first_prop_match(list, cid) ==> (#[trigger] list[j]).proposal != cid,
        first_prop_match(list, cid) < 0 ==> forall|j: int|
            0 <= j < list.len() ==> (#[trigger] list[j]).proposal != cid,
    decreases list.len(),
{
    if list.len() == 0 {
    } else if list[0].proposal == cid {
    } else {
        lemma_first_prop_match(list.drop_first(), cid);
        assert(forall|j: int|
            1 <= j < list.len() ==> (#[trigger] list[j]) == list.drop_first()[j - 1]);
    }
}

/// `first_concern_match` finds the first concern carrying both documents
/// exactly when one exists.
pub proof fn lemma_first_concern_match(list: Seq<ConcernV>, concern: Seq<u8>, proposal: Seq<u8>)
    ensures
        -1 <= first_concern_match(list, concern, proposal) < list.len(),
        first_concern_match(list, concern, proposal) >= 0 ==> list[first_concern_match(
            list,
            concern,
            proposal,
        )].concern == concern && list[first_concern_match(
            list,
            concern,
            proposal,
        )].associated_proposal == proposal,
        forall|j: int|
            0 <= j < first_concern_match(list, concern, proposal) ==> !((
            #[trigger] list[j]).concern == concern && list[j].associated_proposal == proposal),
        first_concern_match(list, concern, proposal) < 0 ==> forall|j: int|
            0 <= j < list.len() ==> !((#[trigger] list[j]).concern == concern
                && list[j].associated_proposal == proposal),
    decreases list.len(),
{
    if list.len() == 0 {
    } else if list[0].concern == concern && list[0].associated_proposal == proposal {
    } else {
        lemma_first_concern_match(list.drop_first(), concern, proposal);
        assert(forall|j: int|
            1 <= j < list.len() ==> (#[trigger] list[j]) == list.drop_first()[j - 1]);
    }
}

/// Pointwise description of `key_list_push`: only the caller's entry changes,
/// by one appended element (or one fresh entry at the end).
pub proof fn lemma_key_list_push_facts<T>(entries: Seq<(u64, Seq<T>)>, id: u64, v: T)
    ensures
        ({
            let r = key_list_push(entries, id, v);
            let i = first_key_index(entries, id);
            &&& -1 <= i < entries.len()
            &&& i >= 0 ==> r.len() == entries.len() && r[i] == (id, entries[i].1.push(v))
            &&& i < 0 ==> r.len() == entries.len() + 1 && r[entries.len() as int] == (
                id,
                seq![v],
            ) && (forall|j: int|
                0 <= j < entries.len() ==> (#[trigger] entries[j]).0 != id)
            &&& forall|j: int| 0 <= j < entries.len() && j != i ==> #[trigger] r[j] == entries[j]
        }),
{
    lemma_first_key_index(entries, id);
}

/// Pointwise description of `bump_proposal_vote`: keys, list lengths and
/// every document stay; only one vote counter may change.
pub proof fn lemma_bump_proposal_vote_facts(
    entries: Seq<(u64, Seq<ProposalV>)>,
    proposer: u64,
    cid: Seq<u8>,
)
    ensures
        ({
            let r = bump_proposal_vote(entries, proposer, cid);
            &&& r.len() == entries.len()
            &&& forall|j: int|
                0 <= j < entries.len() ==> (#[trigger] r[j]).0 == entries[j].0 && r[j].1.len()
                    == entries[j].1.len()
            &&& forall|j: int, k: int|
                0 <= j < entries.len() && 0 <= k < entries[j].1.len() ==> (
                #[trigger] r[j].1[k]).proposal == entries[j].1[k].proposal
        }),
{
    let r = bump_proposal_vote(entries, proposer, cid);
    lemma_first_key_index(entries, proposer);
    let i = first_key_index(entries, proposer);
    if i >= 0 {
        lemma_first_prop_match(entries[i].1, cid);
    }
}

/// Pointwise description of `bump_concern_vote`.
pub proof fn lemma_bump_concern_vote_facts(
    entries: Seq<(u64, Seq<ConcernV>)>,
    proposer: u64,
    concern: Seq<u8>,
    proposal: Seq<u8>,
)
    ensures
        ({
            let r = bump_concern_vote(entries, proposer, concern, proposal);
            &&& r.len() == entries.len()
            &&& forall|j: int|
                0 <= j < entries.len() ==> (#[trigger] r[j]).0 == entries[j].0 && r[j].1.len()
                    == entries[j].1.len()
            &&& forall|j: int, k: int|
                0 <= j < entries.len() && 0 <= k < entries[j].1.len() ==> (
                #[trigger] r[j].1[k]).concern == entries[j].1[k].concern
                    && r[j].1[k].associated_proposal == entries[j].1[k].associated_proposal
        }),
{
    let r = bump_concern_vote(entries, proposer, concern, proposal);
    lemma_first_key_index(entries, proposer);
    let i = first_key_index(entries, proposer);
    if i >= 0 {
        lemma_first_concern_match(entries[i].1, concern, proposal);
    }
}

/// An accepted proposal submission preserves well-formedness.
pub proof fn lemma_propose_preserves_wf(m: EngineV, id: u64, level: u8, cid: Seq<u8>)
    requires
        m.wf(),
        id != 0,
        propose_check(m, id, level, cid) is Ok,
    ensures
        propose_apply(m, id, cid).wf(),
{
    let m2 = propose_apply(m, id, cid);
    let p = ProposalV { proposal: cid, votes: 0 };
    let ps = m.proposals;
    let ps2 = m2.proposals;
    let i = first_key_index(ps, id);
    lemma_first_key_index(ps, id);
    lemma_key_list_push_facts(ps, id, p);
    assert forall|a: int, b: int| 0 <= a < b < ps2.len() implies (#[trigger] ps2[a]).0 != (
    #[trigger] ps2[b]).0 by {
        if b < ps.len() {
            assert(ps2[a].0 == ps[a].0 && ps2[b].0 == ps[b].0);
        } else {
            assert(ps2[b].0 == id && ps2[a].0 == ps[a].0);
        }
    }
    assert forall|j: int| 0 <= j < ps2.len() implies (#[trigger] ps2[j]).0 != 0 by {
        if j < ps.len() {
            assert(ps2[j].0 == ps[j].0);
        }
    }
    assert forall|j: int| 0 <= j < ps2.len() implies (#[trigger] ps2[j]).1.len()
        <= m2.config.propose_user_cap by {
        if i >= 0 && j == i {
            assert(key_list_len(ps, id) == ps[i].1.len());
            assert(ps2[j].1 == ps[i].1.push(p));
        } else if j < ps.len() {
            assert(ps2[j] == ps[j]);
        } else {
            assert(ps2[j].1 == seq![p]);
            assert(key_list_len(ps, id) == 0);
        }
    }
    let rv = m.proposal_to_identity;
    let rv2 = m2.proposal_to_identity;
    assert forall|a: int, b: int| 0 <= a < b < rv2.len() implies (#[trigger] rv2[a]).0 != (
    #[trigger] rv2[b]).0 by {
        if b < rv.len() {
        } else {
            assert(rv2[b] == (cid, id));
            assert(!rev_contains(rv, cid));
            assert(rv2[a] == rv[a]);
        }
    }
    assert forall|r: int| 0 <= r < rv2.len() implies has_proposal_item(
        ps2,
        (#[trigger] rv2[r]).1,
        rv2[r].0,
    ) by {
        if r < rv.len() {
            assert(rv2[r] == rv[r]);
            assert(has_proposal_item(ps, rv[r].1, rv[r].0));
            let (i0, k0) = choose|i0: int, k0: int|
                0 <= i0 < ps.len() && 0 <= k0 < ps[i0].1.len() && ps[i0].0 == rv[r].1 && (
                #[trigger] ps[i0].1[k0]).proposal == rv[r].0;
            if i >= 0 && i0 == i {
                assert(ps2[i0].1[k0] == ps[i0].1[k0]);
                assert(ps2[i0].0 == id);
            } else {
                assert(ps2[i0] == ps[i0]);
            }
            assert(0 <= i0 < ps2.len() && 0 <= k0 < ps2[i0].1.len() && ps2[i0].0 == rv[r].1 && ps2[i0].1[k0].proposal
                == rv[r].0);
        } else {
            assert(rv2[r] == (cid, id));
            if i >= 0 {
                let k0 = ps[i].1.len() as int;
                assert(ps2[i].1 == ps[i].1.push(p));
                assert(ps2[i].1[k0] == p);
                assert(0 <= i < ps2.len() && 0 <= k0 < ps2[i].1.len() && ps2[i].0 == id
                    && ps2[i].1[k0].proposal == cid);
            } else {
                let i0 = ps.len() as int;
                assert(ps2[i0] == (id, seq![p]));
                assert(0 <= i0 < ps2.len() && 0 <= 0 < ps2[i0].1.len() && ps2[i0].0 == id
                    && ps2[i0].1[0].proposal == cid);
            }
        }
    }
}

/// An accepted concern submission preserves well-formedness.
pub proof fn lemma_concern_preserves_wf(
    m: EngineV,
    id: u64,
    level: u8,
    concern: Seq<u8>,
    proposal: Seq<u8>,
)
    requires
        m.wf(),
        id != 0,
        concern_check(m, id, level, concern, proposal) is Ok,
    ensures
        concern_apply(m, id, concern, proposal).wf(),
{
    let m2 = concern_apply(m, id, concern, proposal);
    let c = ConcernV { associated_proposal: proposal, concern, votes: 0 };
    let cs = m.concerns;
    let cs2 = m2.concerns;
    let i = first_key_index(cs, id);
    lemma_first_key_index(cs, id);
    lemma_key_list_push_facts(cs, id, c);
    assert forall|a: int, b: int| 0 <= a < b < cs2.len() implies (#[trigger] cs2[a]).0 != (
    #[trigger] cs2[b]).0 by {
        if b < cs.len() {
            assert(cs2[a].0 == cs[a].0 && cs2[b].0 == cs[b].0);
        } else {
            assert(cs2[b].0 == id && cs2[a].0 == cs[a].0);
        }
    }
    assert forall|j: int| 0 <= j < cs2.len() implies (#[trigger] cs2[j]).0 != 0 by {
        if j < cs.len() {
            assert(cs2[j].0 == cs[j].0);
        }
    }
    assert forall|j: int| 0 <= j < cs2.len() implies (#[trigger] cs2[j]).1.len()
        <= m2.config.concern_user_cap by {
        if i >= 0 && j == i {
            assert(key_list_len(cs, id) == cs[i].1.len());
            assert(cs2[j].1 == cs[i].1.push(c));
        } else if j < cs.len() {
            assert(cs2[j] == cs[j]);
        } else {
            assert(cs2[j].1 == seq![c]);
            assert(key_list_len(cs, id) == 0);
        }
    }
    let rv = m.concern_to_identity;
    let rv2 = m2.concern_to_identity;
    assert forall|a: int, b: int| 0 <= a < b < rv2.len() implies (#[trigger] rv2[a]).0 != (
    #[trigger] rv2[b]).0 by {
        if b < rv.len() {
        } else {
            assert(rv2[b] == ((concern, proposal), id));
            assert(!crev_contains(rv, concern, proposal));
            assert(rv2[a] == rv[a]);
        }
    }
    assert forall|r: int| 0 <= r < rv2.len() implies has_concern_item(
        cs2,
        (#[trigger] rv2[r]).1,
        rv2[r].0.0,
        rv2[r].0.1,
    ) by {
        if r < rv.len() {
            assert(rv2[r] == rv[r]);
            assert(has_concern_item(cs, rv[r].1, rv[r].0.0, rv[r].0.1));
            let (i0, k0) = choose|i0: int, k0: int|
                0 <= i0 < cs.len() && 0 <= k0 < cs[i0].1.len() && cs[i0].0 == rv[r].1 && (
                #[trigger] cs[i0].1[k0]).concern == rv[r].0.0 && cs[i0].1[k0].associated_proposal
                    == rv[r].0.1;
            if i >= 0 && i0 == i {
                assert(cs2[i0].1[k0] == cs[i0].1[k0]);
                assert(cs2[i0].0 == id);
            } else {
                assert(cs2[i0] == cs[i0]);
            }
            assert(0 <= i0 < cs2.len() && 0 <= k0 < cs2[i0].1.len() && cs2[i0].0 == rv[r].1
                && cs2[i0].1[k0].concern == rv[r].0.0 && cs2[i0].1[k0].associated_proposal
                == rv[r].0.1);
        } else {
            assert(rv2[r] == ((concern, proposal), id));
            if i >= 0 {
                let k0 = cs[i].1.len() as int;
                assert(cs2[i].1 == cs[i].1.push(c));
                assert(cs2[i].1[k0] == c);
                assert(0 <= i < cs2.len() && 0 <= k0 < cs2[i].1.len() && cs2[i].0 == id
                    && cs2[i].1[k0].concern == concern && cs2[i].1[k0].associated_proposal
                    == proposal);
            } else {
                let i0 = cs.len() as int;
                assert(cs2[i0] == (id, seq![c]));
                assert(0 <= i0 < cs2.len() && 0 <= 0 < cs2[i0].1.len() && cs2[i0].0 == id
                    && cs2[i0].1[0].concern == concern && cs2[i0].1[0].associated_proposal
                    == proposal);
            }
        }
    }
}

/// An accepted proposal vote preserves well-formedness.
pub proof fn lemma_vote_proposal_preserves_wf(m: EngineV, id: u64, level: u8, cid: Seq<u8>)
    requires
        m.wf(),
        id != 0,
        vote_proposal_check(m, id, level, cid) is Ok,
    ensures
        vote_proposal_apply(m, id, cid).wf(),
{
    let m2 = vote_proposal_apply(m, id, cid);
    let proposer = rev_lookup(m.proposal_to_identity, cid);
    let ps = m.proposals;
    let ps2 = m2.proposals;
    lemma_bump_proposal_vote_facts(ps, proposer, cid);
    assert forall|r: int| 0 <= r < m2.proposal_to_identity.len() implies has_proposal_item(
        ps2,
        (#[trigger] m2.proposal_to_identity[r]).1,
        m2.proposal_to_identity[r].0,
    ) by {
        let rv = m.proposal_to_identity;
        assert(has_proposal_item(ps, rv[r].1, rv[r].0));
        let (i0, k0) = choose|i0: int, k0: int|
            0 <= i0 < ps.len() && 0 <= k0 < ps[i0].1.len() && ps[i0].0 == rv[r].1 && (
            #[trigger] ps[i0].1[k0]).proposal == rv[r].0;
        assert(ps2[i0].0 == ps[i0].0 && ps2[i0].1.len() == ps[i0].1.len());
        assert(ps2[i0].1[k0].proposal == ps[i0].1[k0].proposal);
        assert(0 <= i0 < ps2.len() && 0 <= k0 < ps2[i0].1.len() && ps2[i0].0 == rv[r].1 && ps2[i0].1[k0].proposal
            == rv[r].0);
    }
    let lv = m.proposal_votes;
    let lv2 = m2.proposal_votes;
    let i = first_key_index(lv, id);
    lemma_first_key_index(lv, id);
    lemma_key_list_push_facts(lv, id, cid);
    assert forall|a: int, b: int| 0 <= a < b < lv2.len() implies (#[trigger] lv2[a]).0 != (
    #[trigger] lv2[b]).0 by {
        if b < lv.len() {
            assert(lv2[a].0 == lv[a].0 && lv2[b].0 == lv[b].0);
        } else {
            assert(lv2[b].0 == id && lv2[a].0 == lv[a].0);
        }
    }
    assert forall|j: int| 0 <= j < lv2.len() implies (#[trigger] lv2[j]).0 != 0 by {
        if j < lv.len() {
            assert(lv2[j].0 == lv[j].0);
        }
    }
    assert forall|j: int| 0 <= j < lv2.len() implies (#[trigger] lv2[j]).1.len()
        <= m2.config.propose_vote_max_per_user by {
        if i >= 0 && j == i {
            assert(key_list_len(lv, id) == lv[i].1.len());
            assert(lv2[j].1 == lv[i].1.push(cid));
        } else if j < lv.len() {
            assert(lv2[j] == lv[j]);
        } else {
            assert(lv2[j].1 == seq![cid]);
            assert(key_list_len(lv, id) == 0);
        }
    }
}

/// An accepted concern vote preserves well-formedness.
pub proof fn lemma_vote_concern_preserves_wf(
    m: EngineV,
    id: u64,
    level: u8,
    concern: Seq<u8>,
    proposal: Seq<u8>,
)
    requires
        m.wf(),
        id != 0,
        vote_concern_check(m, id, level, concern, proposal) is Ok,
    ensures
        vote_concern_apply(m, id, concern, proposal).wf(),
{
    let m2 = vote_concern_apply(m, id, concern, proposal);
    let proposer = crev_lookup(m.concern_to_identity, concern, proposal);
    let cs = m.concerns;
    let cs2 = m2.concerns;
    lemma_bump_concern_vote_facts(cs, proposer, concern, proposal);
    assert forall|r: int| 0 <= r < m2.concern_to_identity.len() implies has_concern_item(
        cs2,
        (#[trigger] m2.concern_to_identity[r]).1,
        m2.concern_to_identity[r].0.0,
        m2.concern_to_identity[r].0.1,
    ) by {
        let rv = m.concern_to_identity;
        assert(has_concern_item(cs, rv[r].1, rv[r].0.0, rv[r].0.1));
        let (i0, k0) = choose|i0: int, k0: int|
            0 <= i0 < cs.len() && 0 <= k0 < cs[i0].1.len() && cs[i0].0 == rv[r].1 && (
            #[trigger] cs[i0].1[k0]).concern == rv[r].0.0 && cs[i0].1[k0].associated_proposal
                == rv[r].0.1;
        assert(cs2[i0].0 == cs[i0].0 && cs2[i0].1.len() == cs[i0].1.len());
        assert(cs2[i0].1[k0].concern == cs[i0].1[k0].concern && cs2[i0].1[k0].associated_proposal
            == cs[i0].1[k0].associated_proposal);
        assert(0 <= i0 < cs2.len() && 0 <= k0 < cs2[i0].1.len() && cs2[i0].0 == rv[r].1
            && cs2[i0].1[k0].concern == rv[r].0.0 && cs2[i0].1[k0].associated_proposal
            == rv[r].0.1);
    }
    let lv = m.concern_votes;
    let lv2 = m2.concern_votes;
    let i = first_key_index(lv, id);
    lemma_first_key_index(lv, id);
    lemma_key_list_push_facts(lv, id, concern);
    assert forall|a: int, b: int| 0 <= a < b < lv2.len() implies (#[trigger] lv2[a]).0 != (
    #[trigger] lv2[b]).0 by {
        if b < lv.len() {
            assert(lv2[a].0 == lv[a].0 && lv2[b].0 == lv[b].0);
        } else {
            assert(lv2[b].0 == id && lv2[a].0 == lv[a].0);
        }
    }
    assert forall|j: int| 0 <= j < lv2.len() implies (#[trigger] lv2[j]).0 != 0 by {
        if j < lv.len() {
            assert(lv2[j].0 == lv[j].0);
        }
    }
    assert forall|j: int| 0 <= j < lv2.len() implies (#[trigger] lv2[j]).1.len()
        <= m2.config.concern_vote_max_per_user by {
        if i >= 0 && j == i {
            assert(key_list_len(lv, id) == lv[i].1.len());
            assert(lv2[j].1 == lv[i].1.push(concern));
        } else if j < lv.len() {
            assert(lv2[j] == lv[j]);
        } else {
            assert(lv2[j].1 == seq![concern]);
            assert(key_list_len(lv, id) == 0);
        }
    }
}

/// `insert_pos` is the first position whose ratio exceeds the new one.
pub proof fn lemma_insert_pos(ws: Seq<WinnerV>, ratio: u32)
    ensures
        0 <= insert_pos(ws, ratio) <= ws.len(),
        forall|j: int| 0 <= j < insert_pos(ws, ratio) ==> (#[trigger] ws[j]).vote_ratio <= ratio,
        insert_pos(ws, ratio) < ws.len() ==> ws[insert_pos(ws, ratio)].vote_ratio > ratio,
    decreases ws.len(),
{
    if ws.len() == 0 {
    } else if ws[0].vote_ratio > ratio {
    } else {
        lemma_insert_pos(ws.drop_first(), ratio);
        assert(forall|j: int|
            1 <= j < ws.len() ==> (#[trigger] ws[j]) == ws.drop_first()[j - 1]);
    }
}

/// Sorted insertion keeps the list sorted and keeps every ratio inside the
/// bounds that held before.
pub proof fn lemma_winner_insert(ws: Seq<WinnerV>, w: WinnerV, lo: u32)
    requires
        forall|j: int| 0 <= j < ws.len() ==> lo <= (#[trigger] ws[j]).vote_ratio <= 1_000_000,
        lo <= w.vote_ratio <= 1_000_000,
        sorted_by_ratio(ws),
    ensures
        ({
            let r = winner_insert(ws, w);
            &&& r.len() == ws.len() + 1
            &&& forall|j: int| 0 <= j < r.len() ==> lo <= (#[trigger] r[j]).vote_ratio <= 1_000_000
            &&& sorted_by_ratio(r)
        }),
{
    let p = insert_pos(ws, w.vote_ratio);
    lemma_insert_pos(ws, w.vote_ratio);
    let r = winner_insert(ws, w);
    assert forall|j: int| 0 <= j < r.len() implies lo <= (#[trigger] r[j]).vote_ratio
        <= 1_000_000 by {
        if j < p {
            assert(r[j] == ws[j]);
        } else if j == p {
            assert(r[j] == w);
        } else {
            assert(r[j] == ws[j - 1]);
        }
    }
    assert forall|a: int, b: int| 0 <= a <= b < r.len() implies (#[trigger] r[a]).vote_ratio <= (
    #[trigger] r[b]).vote_ratio by {
        if a < p {
            assert(r[a] == ws[a]);
        } else if a == p {
            assert(r[a] == w);
        } else {
            assert(r[a] == ws[a - 1]);
        }
        if b < p {
            assert(r[b] == ws[b]);
        } else if b == p {
            assert(r[b] == w);
        } else {
            assert(r[b] == ws[b - 1]);
        }
    }
}

/// Every winner produced by evaluating proposal lists carries a ratio that
/// reached the acceptance minimum and never exceeds 100%; the list stays
/// sorted by ascending ratio.
pub proof fn lemma_eval_props_list_bounds(
    ws: Seq<WinnerV>,
    id: u64,
    list: Seq<ProposalV>,
    total: u32,
    min_ppm: u32,
)
    requires
        min_ppm <= 1_000_000,
        forall|j: int| 0 <= j < ws.len() ==> min_ppm <= (#[trigger] ws[j]).vote_ratio <= 1_000_000,
        sorted_by_ratio(ws),
    ensures
        ({
            let r = eval_props_list(ws, id, list, total, min_ppm);
            &&& forall|j: int|
                0 <= j < r.len() ==> min_ppm <= (#[trigger] r[j]).vote_ratio <= 1_000_000
            &&& sorted_by_ratio(r)
        }),
    decreases list.len(),
{
    if list.len() == 0 {
    } else {
        lemma_eval_props_list_bounds(ws, id, list.drop_last(), total, min_ppm);
        let prev = eval_props_list(ws, id, list.drop_last(), total, min_ppm);
        let p = list.last();
        if ratio_ppm_spec(p.votes as int, total as int) >= min_ppm {
            crate::ratio::lemma_ratio_ppm_bounds(p.votes as int, total as int);
            lemma_winner_insert(prev, winner_of(id, p, total), min_ppm);
        }
    }
}

/// Entry-level counterpart of `lemma_eval_props_list_bounds`.
pub proof fn lemma_eval_props_entries_bounds(
    ws: Seq<WinnerV>,
    entries: Seq<(u64, Seq<ProposalV>)>,
    total: u32,
    min_ppm: u32,
)
    requires
        min_ppm <= 1_000_000,
        forall|j: int| 0 <= j < ws.len() ==> min_ppm <= (#[trigger] ws[j]).vote_ratio <= 1_000_000,
        sorted_by_ratio(ws),
    ensures
        ({
            let r = eval_props_entries(ws, entries, total, min_ppm);
            &&& forall|j: int|
                0 <= j < r.len() ==> min_ppm <= (#[trigger] r[j]).vote_ratio <= 1_000_000
            &&& sorted_by_ratio(r)
        }),
    decreases entries.len(),
{
    if entries.len() == 0 {
    } else {
        lemma_eval_props_entries_bounds(ws, entries.drop_last(), total, min_ppm);
        lemma_eval_props_list_bounds(
            eval_props_entries(ws, entries.drop_last(), total, min_ppm),
            entries.last().0,
            entries.last().1,
            total,
            min_ppm,
        );
    }
}

/// Attaching concerns never changes any winner's ratio, proposer, or
/// proposal document, nor the number of winners.
pub proof fn lemma_eval_concerns_list_shape(
    st: (Seq<WinnerV>, Seq<Payment>),
    id: u64,
    list: Seq<ConcernV>,
    total: u32,
    min_ppm: u32,
    reward: u64,
)
    ensures
        ({
            let r = eval_concerns_list(st, id, list, total, min_ppm, reward);
            &&& r.0.len() == st.0.len()
            &&& forall|j: int|
                0 <= j < st.0.len() ==> (#[trigger] r.0[j]).vote_ratio == st.0[j].vote_ratio
                    && r.0[j].proposer == st.0[j].proposer && r.0[j].proposal == st.0[j].proposal
        }),
    decreases list.len(),
{
    if list.len() == 0 {
    } else {
        lemma_eval_concerns_list_shape(st, id, list.drop_last(), total, min_ppm, reward);
        let prev = eval_concerns_list(st, id, list.drop_last(), total, min_ppm, reward);
        let c = list.last();
        if ratio_ppm_spec(c.votes as int, total as int) >= min_ppm && first_winner_match(
            prev.0,
            c.associated_proposal,
        ) >= 0 {
            lemma_first_winner_match(prev.0, c.associated_proposal);
        }
    }
}

/// Entry-level counterpart of `lemma_eval_concerns_list_shape`.
pub proof fn lemma_eval_concerns_entries_shape(
    st: (Seq<WinnerV>, Seq<Payment>),
    entries: Seq<(u64, Seq<ConcernV>)>,
    total: u32,
    min_ppm: u32,
    reward: u64,
)
    ensures
        ({
            let r = eval_concerns_entries(st, entries, total, min_ppm, reward);
            &&& r.0.len() == st.0.len()
            &&& forall|j: int|
                0 <= j < st.0.len() ==> (#[trigger] r.0[j]).vote_ratio == st.0[j].vote_ratio
                    && r.0[j].proposer == st.0[j].proposer && r.0[j].proposal == st.0[j].proposal
        }),
    decreases entries.len(),
{
    if entries.len() == 0 {
    } else {
        lemma_eval_concerns_entries_shape(st, entries.drop_last(), total, min_ppm, reward);
        lemma_eval_concerns_list_shape(
            eval_concerns_entries(st, entries.drop_last(), total, min_ppm, reward),
            entries.last().0,
            entries.last().1,
            total,
            min_ppm,
            reward,
        );
    }
}

/// `first_winner_match` finds the first winner of the proposal exactly when
/// one exists.
pub proof fn lemma_first_winner_match(ws: Seq<WinnerV>, proposal: Seq<u8>)
    ensures
        -1 <= first_winner_match(ws, proposal) < ws.len(),
        first_winner_match(ws, proposal) >= 0 ==> ws[first_winner_match(ws, proposal)].proposal
            == proposal,
        forall|j: int|
            0 <= j < first_winner_match(ws, proposal) ==> (#[trigger] ws[j]).proposal != proposal,
        first_winner_match(ws, proposal) < 0 ==> forall|j: int|
            0 <= j < ws.len() ==> (#[trigger] ws[j]).proposal != proposal,
    decreases ws.len(),
{
    if ws.len() == 0 {
    } else if ws[0].proposal == proposal {
    } else {
        lemma_first_winner_match(ws.drop_first(), proposal);
        assert(forall|j: int|
            1 <= j < ws.len() ==> (#[trigger] ws[j]) == ws.drop_first()[j - 1]);
    }
}

/// `round_key_index` finds the first entry for the round exactly when one
/// exists.
pub proof fn lemma_round_key_index(map: Seq<(u8, Seq<WinnerV>)>, round: u8)
    ensures
        -1 <= round_key_index(map, round) < map.len(),
        round_key_index(map, round) >= 0 ==> map[round_key_index(map, round)].0 == round,
        forall|j: int| 0 <= j < round_key_index(map, round) ==> (#[trigger] map[j]).0 != round,
        round_key_index(map, round) < 0 ==> forall|j: int|
            0 <= j < map.len() ==> (#[trigger] map[j]).0 != round,
    decreases map.len(),
{
    if map.len() == 0 {
    } else if map[0].0 == round {
    } else {
        lemma_round_key_index(map.drop_first(), round);
        assert(forall|j: int|
            1 <= j < map.len() ==> (#[trigger] map[j]) == map.drop_first()[j - 1]);
    }
}

/// Storing a round's winners keeps the store well-formed: still one entry
/// per round, and every recorded ratio still a genuine fraction.
pub proof fn lemma_winners_store_wf(map: Seq<(u8, Seq<WinnerV>)>, round: u8, ws: Seq<WinnerV>)
    requires
        forall|i: int, j: int|
            0 <= i < j < map.len() ==> (#[trigger] map[i]).0 != (#[trigger] map[j]).0,
        forall|i: int, k: int|
            0 <= i < map.len() && 0 <= k < map[i].1.len() ==> (
            #[trigger] map[i].1[k]).vote_ratio <= 1_000_000,
        forall|k: int| 0 <= k < ws.len() ==> (#[trigger] ws[k]).vote_ratio <= 1_000_000,
    ensures
        ({
            let r = winners_store(map, round, ws);
            &&& forall|i: int, j: int|
                0 <= i < j < r.len() ==> (#[trigger] r[i]).0 != (#[trigger] r[j]).0
            &&& forall|i: int, k: int|
                0 <= i < r.len() && 0 <= k < r[i].1.len() ==> (#[trigger] r[i].1[k]).vote_ratio
                    <= 1_000_000
            &&& winners_lookup(r, round) == ws
        }),
{
    lemma_round_key_index(map, round);
    let i0 = round_key_index(map, round);
    let base = if i0 >= 0 {
        map.remove(i0)
    } else {
        map
    };
    let r = winners_store(map, round, ws);
    assert forall|j: int| 0 <= j < base.len() implies (#[trigger] base[j]).0 != round && exists|
        j0: int,
    |
        0 <= j0 < map.len() && #[trigger] map[j0] == base[j] by {
        if i0 >= 0 {
            if j < i0 {
                assert(map[j] == base[j]);
            } else {
                assert(map[j + 1] == base[j]);
            }
        } else {
            assert(map[j] == base[j]);
        }
    }
    assert(r == base.push((round, ws)));
    assert forall|i: int, j: int| 0 <= i < j < r.len() implies (#[trigger] r[i]).0 != (
    #[trigger] r[j]).0 by {
        if j < base.len() {
            let a = choose|j0: int| 0 <= j0 < map.len() && #[trigger] map[j0] == base[i];
            let b = choose|j0: int| 0 <= j0 < map.len() && #[trigger] map[j0] == base[j];
            if i0 >= 0 {
                assert(base[i] == if i < i0 {
                    map[i]
                } else {
                    map[i + 1]
                });
                assert(base[j] == if j < i0 {
                    map[j]
                } else {
                    map[j + 1]
                });
            }
        } else {
            assert(r[j].0 == round);
            assert(r[i] == base[i]);
        }
    }
    assert forall|i: int, k: int|
        0 <= i < r.len() && 0 <= k < r[i].1.len() implies (#[trigger] r[i].1[k]).vote_ratio
        <= 1_000_000 by {
        if i < base.len() {
            if i0 >= 0 && i >= i0 {
                assert(r[i] == map[i + 1]);
            } else {
                assert(r[i] == map[i]);
            }
        } else {
            assert(r[i].1 == ws);
        }
    }
    lemma_round_key_index(r, round);
    let i1 = round_key_index(r, round);
    assert(r[r.len() - 1].0 == round);
    assert(i1 >= 0);
    assert forall|j: int| 0 <= j < r.len() && (#[trigger] r[j]).0 == round implies j == r.len()
        - 1 by {
        if j < base.len() {
            assert(base[j].0 != round);
        }
    }
    assert(i1 == r.len() - 1);
}

/// The sum of reported payouts is never negative.
pub proof fn lemma_sum_paid_nonneg(pays: Seq<Payment>, paid: Seq<bool>)
    ensures
        sum_paid(pays, paid) >= 0,
    decreases pays.len(),
{
    if pays.len() > 0 {
        lemma_sum_paid_nonneg(pays.drop_last(), paid.drop_last());
    }
}

/// The engine value a fresh engine starts from.
pub open spec fn initial_engine(config: Config) -> EngineV {
    EngineV {
        config,
        state: States::Uninitialized,
        next_transit: 0,
        round: 0,
        proposals: Seq::empty(),
        proposal_to_identity: Seq::empty(),
        proposal_votes: Seq::empty(),
        proposal_vote_count: 0,
        proposal_count: 0,
        proposal_winners: Seq::empty(),
        concerns: Seq::empty(),
        concern_to_identity: Seq::empty(),
        concern_count: 0,
        concern_votes: Seq::empty(),
        concern_vote_count: 0,
        council_vote_tickets: Seq::empty(),
        pending_rewards: None,
        events: Seq::empty(),
    }
}

} // verus!
