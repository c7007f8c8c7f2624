//! The engine's governing properties, stated and proved once and for all:
//! the phase transition table, round wrap-around, the threshold law for
//! winners, and the guarantee that an accepted vote reaches its target.

use crate::model::{
    crev_lookup, eval_props_entries, eval_props_list, first_concern_match, first_key_index,
    first_prop_match, insert_pos, lemma_crev_lookup, lemma_eval_props_entries_bounds,
    lemma_first_concern_match, lemma_first_key_index, lemma_first_prop_match, lemma_insert_pos,
    lemma_rev_lookup, next_round, proposal_winners_of, rev_lookup, sat_add32, sorted_by_ratio,
    transit_model, vote_concern_apply, vote_concern_check, vote_proposal_apply,
    vote_proposal_check, winner_insert, winner_of, EngineV,
};
use crate::ratio::ratio_ppm_spec;
use crate::types::{ProposalV, States, WinnerV};
use vstd::prelude::*;

verus! {

/// The round counter wraps: advancing it from the maximum value yields 0,
/// from any other value the successor; it never leaves the 8-bit range.
pub proof fn lemma_round_counter_wraps(r: u8)
    ensures
        r == u8::MAX ==> next_round(r) == 0,
        r < u8::MAX ==> next_round(r) == r + 1,
{
}

/// The phase transition table of the round state machine, with the round
/// bookkeeping and the delay source of each edge: the round advances exactly
/// when a cycle ends — at the council exit, and when a voting round yields
/// no winner — and the new deadline is always the trigger block plus the
/// entered phase's configured duration.
pub proof fn lemma_phase_table(m: EngineV, now: u64, results: Seq<Option<Seq<(u64, bool)>>>)
    ensures
        ({
            let next = transit_model(m, now, results).0;
            let out = transit_model(m, now, results).1;
            let winners = proposal_winners_of(
                m.proposals,
                m.proposal_vote_count,
                m.config.propose_vote_acceptance_min_ppm,
            );
            &&& m.state == States::Uninitialized ==> next.state == States::Propose && next.round
                == m.round && out.delay == m.config.propose_round_duration
            &&& m.state == States::Propose && m.proposals.len() == 0 ==> next.state
                == States::Propose && next.round == m.round && out.delay
                == m.config.propose_round_duration
            &&& m.state == States::Propose && m.proposals.len() > 0 ==> next.state
                == States::VotePropose && next.round == m.round && out.delay
                == m.config.propose_vote_duration
            &&& m.state == States::VotePropose && winners.len() == 0 ==> next.state
                == States::Propose && next.round == next_round(m.round) && out.delay
                == m.config.propose_round_duration
            &&& m.state == States::VotePropose && winners.len() > 0 ==> next.state
                == States::Concern && next.round == m.round && out.delay
                == m.config.concern_round_duration
            &&& m.state == States::Concern && m.concern_count == 0 ==> next.state
                == States::VoteCouncil && next.round == m.round && out.delay
                == m.config.council_vote_round_duration
            &&& m.state == States::Concern && m.concern_count > 0 ==> next.state
                == States::VoteConcern && next.round == m.round && out.delay
                == m.config.concern_vote_duration
            &&& m.state == States::VoteConcern ==> next.state == States::VoteCouncil
                && next.round == m.round && out.delay == m.config.council_vote_round_duration
            &&& m.state == States::VoteCouncil ==> next.state == States::Propose && next.round
                == next_round(m.round) && out.delay == m.config.propose_round_duration
            &&& next.state == out.new_state
            &&& next.next_transit == crate::model::sat_add64(now as int, out.delay as int)
        }),
{
}

/// A winner's origin: some submitted proposal carries the winner's document
/// and proposer, its vote ratio is exactly the recorded one, and no concern
/// is attached yet.
pub open spec fn winner_from_entries(
    entries: Seq<(u64, Seq<ProposalV>)>,
    total: u32,
    w: WinnerV,
) -> bool {
    exists|i: int, k: int|
        0 <= i < entries.len() && 0 <= k < entries[i].1.len() && entries[i].0 == w.proposer && (
        #[trigger] entries[i].1[k]).proposal == w.proposal && w.vote_ratio == ratio_ppm_spec(
            entries[i].1[k].votes as int,
            total as int,
        ) && w.concerns == Seq::<Seq<u8>>::empty()
}

/// Provenance carries over from a shorter entry list to a longer one.
proof fn lemma_provenance_extend(
    entries: Seq<(u64, Seq<ProposalV>)>,
    total: u32,
    w: WinnerV,
)
    requires
        entries.len() > 0,
        winner_from_entries(entries.drop_last(), total, w),
    ensures
        winner_from_entries(entries, total, w),
{
    let (i, k) = choose|i: int, k: int|
        0 <= i < entries.drop_last().len() && 0 <= k < entries.drop_last()[i].1.len()
            && entries.drop_last()[i].0 == w.proposer && (
        #[trigger] entries.drop_last()[i].1[k]).proposal == w.proposal && w.vote_ratio
            == ratio_ppm_spec(entries.drop_last()[i].1[k].votes as int, total as int) && w.concerns
            == Seq::<Seq<u8>>::empty();
    assert(entries.drop_last()[i] == entries[i]);
    assert(entries[i].1[k].proposal == w.proposal);
}

/// Every winner a sorted insertion yields is the inserted one or one that
/// was already there.
proof fn lemma_insert_provenance(
    entries: Seq<(u64, Seq<ProposalV>)>,
    total: u32,
    ws: Seq<WinnerV>,
    w: WinnerV,
)
    requires
        forall|j: int|
            0 <= j < ws.len() ==> winner_from_entries(entries, total, #[trigger] ws[j]),
        winner_from_entries(entries, total, w),
    ensures
        forall|j: int|
            0 <= j < winner_insert(ws, w).len() ==> winner_from_entries(
                entries,
                total,
                #[trigger] winner_insert(ws, w)[j],
            ),
{
    let p = insert_pos(ws, w.vote_ratio);
    lemma_insert_pos(ws, w.vote_ratio);
    let r = winner_insert(ws, w);
    assert forall|j: int| 0 <= j < r.len() implies winner_from_entries(
        entries,
        total,
        #[trigger] r[j],
    ) by {
        if j < p {
            assert(r[j] == ws[j]);
        } else if j == p {
            assert(r[j] == w);
        } else {
            assert(r[j] == ws[j - 1]);
        }
    }
}

/// Evaluating one identity's proposals keeps every winner provenant.
proof fn lemma_eval_list_provenance(
    ws: Seq<WinnerV>,
    id: u64,
    list: Seq<ProposalV>,
    total: u32,
    min_ppm: u32,
    entries: Seq<(u64, Seq<ProposalV>)>,
    i0: int,
)
    requires
        0 <= i0 < entries.len(),
        entries[i0].0 == id,
        list.len() <= entries[i0].1.len(),
        forall|k: int| 0 <= k < list.len() ==> #[trigger] list[k] == entries[i0].1[k],
        forall|j: int|
            0 <= j < ws.len() ==> winner_from_entries(entries, total, #[trigger] ws[j]),
    ensures
        forall|j: int|
            0 <= j < eval_props_list(ws, id, list, total, min_ppm).len() ==> winner_from_entries(
                entries,
                total,
                #[trigger] eval_props_list(ws, id, list, total, min_ppm)[j],
            ),
    decreases list.len(),
{
    if list.len() == 0 {
    } else {
        assert(forall|k: int|
            0 <= k < list.drop_last().len() ==> #[trigger] list.drop_last()[k] == entries[i0].1[k]);
        lemma_eval_list_provenance(ws, id, list.drop_last(), total, min_ppm, entries, i0);
        let prev = eval_props_list(ws, id, list.drop_last(), total, min_ppm);
        let p = list.last();
        if ratio_ppm_spec(p.votes as int, total as int) >= min_ppm {
            let w = winner_of(id, p, total);
            crate::ratio::lemma_ratio_ppm_bounds(p.votes as int, total as int);
            assert(list[list.len() - 1] == entries[i0].1[list.len() - 1]);
            assert(entries[i0].1[list.len() - 1].proposal == w.proposal);
            assert(w.vote_ratio == ratio_ppm_spec(
                entries[i0].1[list.len() - 1].votes as int,
                total as int,
            ));
            assert(winner_from_entries(entries, total, w));
            lemma_insert_provenance(entries, total, prev, w);
        }
    }
}

/// Evaluating every identity's proposals keeps every winner provenant.
proof fn lemma_eval_entries_provenance(
    entries: Seq<(u64, Seq<ProposalV>)>,
    total: u32,
    min_ppm: u32,
)
    ensures
        forall|j: int|
            0 <= j < eval_props_entries(Seq::empty(), entries, total, min_ppm).len()
                ==> winner_from_entries(
                entries,
                total,
                #[trigger] eval_props_entries(Seq::empty(), entries, total, min_ppm)[j],
            ),
    decreases entries.len(),
{
    if entries.len() == 0 {
    } else {
        lemma_eval_entries_provenance(entries.drop_last(), total, min_ppm);
        let mid = eval_props_entries(Seq::empty(), entries.drop_last(), total, min_ppm);
        assert forall|j: int| 0 <= j < mid.len() implies winner_from_entries(
            entries,
            total,
            #[trigger] mid[j],
        ) by {
            lemma_provenance_extend(entries, total, mid[j]);
        }
        let i0 = entries.len() - 1;
        lemma_eval_list_provenance(
            mid,
            entries[i0].0,
            entries[i0].1,
            total,
            min_ppm,
            entries,
            i0,
        );
    }
}

/// The winner law: the winner set of a proposal voting round holds only
/// submitted proposals whose vote ratio reached the acceptance minimum;
/// every recorded ratio is a genuine fraction, and the list is ordered by
/// ascending ratio. No proposal below the threshold ever appears.
pub proof fn lemma_winners_meet_threshold(
    entries: Seq<(u64, Seq<ProposalV>)>,
    total: u32,
    min_ppm: u32,
)
    requires
        min_ppm <= 1_000_000,
    ensures
        ({
            let ws = proposal_winners_of(entries, total, min_ppm);
            &&& forall|j: int|
                0 <= j < ws.len() ==> min_ppm <= (#[trigger] ws[j]).vote_ratio <= 1_000_000
            &&& forall|j: int|
                0 <= j < ws.len() ==> winner_from_entries(entries, total, #[trigger] ws[j])
            &&& sorted_by_ratio(ws)
        }),
{
    lemma_eval_props_entries_bounds(Seq::empty(), entries, total, min_ppm);
    lemma_eval_entries_provenance(entries, total, min_ppm);
}

/// An accepted proposal vote reaches its target: the voted document resolves
/// to a claimant whose list holds the proposal, and exactly that proposal's
/// vote counter rises by one.
pub proof fn lemma_vote_reaches_target(m: EngineV, id: u64, level: u8, cid: Seq<u8>)
    requires
        m.wf(),
        vote_proposal_check(m, id, level, cid) is Ok,
    ensures
        ({
            let proposer = rev_lookup(m.proposal_to_identity, cid);
            let i = first_key_index(m.proposals, proposer);
            let m2 = vote_proposal_apply(m, id, cid);
            &&& proposer != 0
            &&& 0 <= i < m.proposals.len()
            &&& 0 <= first_prop_match(m.proposals[i].1, cid) < m.proposals[i].1.len()
            &&& ({
                let k = first_prop_match(m.proposals[i].1, cid);
                m2.proposals[i].1[k].votes == sat_add32(m.proposals[i].1[k].votes as int, 1)
            })
        }),
{
    let proposer = rev_lookup(m.proposal_to_identity, cid);
    lemma_rev_lookup(m.proposal_to_identity, cid);
    let r = choose|r: int|
        0 <= r < m.proposal_to_identity.len() && (#[trigger] m.proposal_to_identity[r]) == (
        cid,
        proposer,
    );
    assert(crate::model::has_proposal_item(m.proposals, proposer, cid));
    let (i0, k0) = choose|i0: int, k0: int|
        0 <= i0 < m.proposals.len() && 0 <= k0 < m.proposals[i0].1.len() && m.proposals[i0].0
            == proposer && (#[trigger] m.proposals[i0].1[k0]).proposal == cid;
    let i = first_key_index(m.proposals, proposer);
    lemma_first_key_index(m.proposals, proposer);
    if i < 0 {
        assert(m.proposals[i0].0 != proposer);
    }
    assert(0 <= i < m.proposals.len());
    assert(m.proposals[i].0 == proposer);
    assert(i == i0) by {
        if i != i0 {
            assert(m.proposals[i].0 != m.proposals[i0].0);
        }
    }
    let k = first_prop_match(m.proposals[i].1, cid);
    lemma_first_prop_match(m.proposals[i].1, cid);
    if k < 0 {
        assert(m.proposals[i].1[k0].proposal != cid);
    }
    assert(0 <= k < m.proposals[i].1.len());
}

/// An accepted concern vote reaches its target: the voted pair resolves to
/// a claimant whose list holds the concern, and exactly that concern's vote
/// counter rises by one.
pub proof fn lemma_concern_vote_reaches_target(
    m: EngineV,
    id: u64,
    level: u8,
    concern: Seq<u8>,
    proposal: Seq<u8>,
)
    requires
        m.wf(),
        vote_concern_check(m, id, level, concern, proposal) is Ok,
    ensures
        ({
            let proposer = crev_lookup(m.concern_to_identity, concern, proposal);
            let i = first_key_index(m.concerns, proposer);
            let m2 = vote_concern_apply(m, id, concern, proposal);
            &&& proposer != 0
            &&& 0 <= i < m.concerns.len()
            &&& 0 <= first_concern_match(m.concerns[i].1, concern, proposal)
                < m.concerns[i].1.len()
            &&& ({
                let k = first_concern_match(m.concerns[i].1, concern, proposal);
                m2.concerns[i].1[k].votes == sat_add32(m.concerns[i].1[k].votes as int, 1)
            })
        }),
{
    let proposer = crev_lookup(m.concern_to_identity, concern, proposal);
    lemma_crev_lookup(m.concern_to_identity, concern, proposal);
    let r = choose|r: int|
        0 <= r < m.concern_to_identity.len() && (#[trigger] m.concern_to_identity[r]) == (
        (concern, proposal),
        proposer,
    );
    assert(crate::model::has_concern_item(m.concerns, proposer, concern, proposal));
    let (i0, k0) = choose|i0: int, k0: int|
        0 <= i0 < m.concerns.len() && 0 <= k0 < m.concerns[i0].1.len() && m.concerns[i0].0
            == proposer && (#[trigger] m.concerns[i0].1[k0]).concern == concern
            && m.concerns[i0].1[k0].associated_proposal == proposal;
    let i = first_key_index(m.concerns, proposer);
    lemma_first_key_index(m.concerns, proposer);
    if i < 0 {
        assert(m.concerns[i0].0 != proposer);
    }
    assert(0 <= i < m.concerns.len());
    assert(m.concerns[i].0 == proposer);
    assert(i == i0) by {
        if i != i0 {
            assert(m.concerns[i].0 != m.concerns[i0].0);
        }
    }
    let k = first_concern_match(m.concerns[i].1, concern, proposal);
    lemma_first_concern_match(m.concerns[i].1, concern, proposal);
    if k < 0 {
        assert(!(m.concerns[i].1[k0].concern == concern && m.concerns[i].1[k0].associated_proposal
            == proposal));
    }
    assert(0 <= k < m.concerns[i].1.len());
}

} // verus!
