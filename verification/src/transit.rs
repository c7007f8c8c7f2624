//! Phase transitions: winner evaluation, reward orders, council polls, and
//! the deadline-driven state rotation itself.

use crate::engine::{clone_bytes, eq_bytes, lemma_deep_entry, Engine};
use crate::model::{
    clamp_total, concern_vote_pays, concern_vote_pays_list, council_fold, count_false, eval_concerns_entries,
    eval_concerns_list, eval_props_entries, eval_props_list, first_winner_match, insert_pos,
    lemma_eval_concerns_entries_shape, lemma_eval_props_entries_bounds, lemma_first_winner_match,
    lemma_insert_pos, lemma_round_key_index, lemma_sum_paid_nonneg, lemma_winners_store_wf,
    poll_documents, poll_requests_of, proposal_vote_pays, proposal_vote_pays_list,
    proposal_winners_of, reward_event, round_key_index, sum_paid, transit_model,
    winner_insert, winner_of, winners_lookup, winners_store, winning_concern, winning_proposal,
    EngineV,
};
use crate::ratio::ratio_ppm;
use crate::types::{
    BlockNumber, Concern, ConcernCID, DocumentCID, Event, EventV, IdentityId, Payment, PendingRewards,
    PollRequest, Proposal, ProposalCID, ProposalWinner, RewardTrack, States, Ticket, Transition,
    WinnerV,
};
use vstd::prelude::*;

verus! {

/// An owned copy of a list of documents.
fn dup_cid_list(v: &Vec<Vec<u8>>) -> (r: Vec<Vec<u8>>)
    ensures
        r.deep_view() == v.deep_view(),
{
    broadcast use lemma_deep_entry;

    let mut r: Vec<Vec<u8>> = Vec::new();
    let mut i: usize = 0;
    while i < v.len()
        invariant
            i <= v@.len(),
            r@.len() == i as int,
            forall|j: int| 0 <= j < i ==> (#[trigger] r@[j])@ == v@[j]@,
        decreases v@.len() - i,
    {
        let c = clone_bytes(&v[i]);
        r.push(c);
        i += 1;
    }
    proof {
        let dd = r.deep_view();
        let t = v.deep_view();
        assert forall|j: int| 0 <= j < dd.len() implies dd[j] == t[j] by {
            assert(dd[j] == r@[j].deep_view());
            assert(r@[j].deep_view() =~= r@[j]@);
            assert(t[j] == v@[j].deep_view());
            assert(v@[j].deep_view() =~= v@[j]@);
        }
        assert(dd =~= t);
    }
    r
}

/// An owned copy of a winner record.
fn dup_winner(w: &ProposalWinner) -> (r: ProposalWinner)
    ensures
        r@ == w@,
{
    let concerns = dup_cid_list(&w.concerns);
    let proposal = clone_bytes(&w.proposal);
    let r = ProposalWinner { concerns, proposer: w.proposer, proposal, vote_ratio: w.vote_ratio };
    r
}

/// An owned copy of a winner list.
fn dup_winner_list(ws: &Vec<ProposalWinner>) -> (r: Vec<ProposalWinner>)
    ensures
        r.deep_view() == ws.deep_view(),
{
    broadcast use lemma_deep_entry;

    let mut r: Vec<ProposalWinner> = Vec::new();
    let mut i: usize = 0;
    while i < ws.len()
        invariant
            i <= ws@.len(),
            r@.len() == i as int,
            forall|j: int| 0 <= j < i ==> (#[trigger] r@[j])@ == ws@[j]@,
        decreases ws@.len() - i,
    {
        let w = dup_winner(&ws[i]);
        r.push(w);
        i += 1;
    }
    proof {
        let dd = r.deep_view();
        let t = ws.deep_view();
        assert forall|j: int| 0 <= j < dd.len() implies dd[j] == t[j] by {
            assert(dd[j] == r@[j].deep_view());
            assert(t[j] == ws@[j].deep_view());
        }
        assert(dd =~= t);
    }
    r
}

/// An owned copy of a payment list.
fn dup_payments(v: &Vec<Payment>) -> (r: Vec<Payment>)
    ensures
        r@ == v@,
{
    let mut r: Vec<Payment> = Vec::new();
    let mut i: usize = 0;
    while i < v.len()
        invariant
            i <= v@.len(),
            r@ == v@.subrange(0, i as int),
        decreases v@.len() - i,
    {
        r.push(v[i]);
        proof {
            assert(r@ =~= v@.subrange(0, i + 1 as int));
        }
        i += 1;
    }
    proof {
        assert(v@.subrange(0, i as int) =~= v@);
    }
    r
}

/// An owned copy of a council poll result.
fn dup_result(v: &Vec<(IdentityId, bool)>) -> (r: Vec<(IdentityId, bool)>)
    ensures
        r@ == v@,
{
    let mut r: Vec<(IdentityId, bool)> = Vec::new();
    let mut i: usize = 0;
    while i < v.len()
        invariant
            i <= v@.len(),
            r@ == v@.subrange(0, i as int),
        decreases v@.len() - i,
    {
        r.push(v[i]);
        proof {
            assert(r@ =~= v@.subrange(0, i + 1 as int));
        }
        i += 1;
    }
    proof {
        assert(v@.subrange(0, i as int) =~= v@);
    }
    r
}

/// Insert a winner at its sorted position: after every winner whose ratio is
/// at most its own.
fn winners_insert_sorted(ws: &mut Vec<ProposalWinner>, w: ProposalWinner)
    ensures
        final(ws).deep_view() == winner_insert(old(ws).deep_view(), w@),
{
    broadcast use lemma_deep_entry;

    let ghost dv0 = ws.deep_view();
    proof {
        lemma_insert_pos(dv0, w@.vote_ratio);
    }
    let mut pos: usize = 0;
    while pos < ws.len()
        invariant_except_break
            pos <= ws@.len(),
            dv0 == ws.deep_view(),
            dv0.len() == ws@.len(),
            forall|j: int| 0 <= j < pos ==> (#[trigger] dv0[j]).vote_ratio <= w@.vote_ratio,
        ensures
            pos <= ws@.len(),
            dv0 == ws.deep_view(),
            dv0.len() == ws@.len(),
            forall|j: int| 0 <= j < pos ==> (#[trigger] dv0[j]).vote_ratio <= w@.vote_ratio,
            pos < ws@.len() ==> dv0[pos as int].vote_ratio > w@.vote_ratio,
        decreases ws@.len() - pos,
    {
        if ws[pos].vote_ratio > w.vote_ratio {
            proof {
                assert(dv0[pos as int].vote_ratio == ws@[pos as int].vote_ratio);
            }
            break ;
        }
        proof {
            assert(dv0[pos as int].vote_ratio == ws@[pos as int].vote_ratio);
        }
        pos += 1;
    }
    proof {
        assert(pos as int == insert_pos(dv0, w@.vote_ratio));
    }
    ws.insert(pos, w);
    proof {
        let dv1 = ws.deep_view();
        let t = dv0.insert(pos as int, w@);
        assert forall|j: int| 0 <= j < dv1.len() implies dv1[j] == t[j] by {
            if j < pos {
                assert(ws@[j] == old(ws)@[j]);
            } else if j == pos {
                assert(ws@[j] == w);
            } else {
                assert(ws@[j] == old(ws)@[j - 1]);
            }
        }
        assert(dv1 =~= t);
    }
}

/// The winners of the proposal voting round: every proposal whose vote ratio
/// reaches the minimum, ordered by ascending ratio.
fn compute_proposal_winners(
    entries: &Vec<(IdentityId, Vec<Proposal>)>,
    total: u32,
    min_ppm: u32,
) -> (ws: Vec<ProposalWinner>)
    ensures
        ws.deep_view() == proposal_winners_of(entries.deep_view(), total, min_ppm),
{
    broadcast use lemma_deep_entry;

    let ghost dv = entries.deep_view();
    let mut ws: Vec<ProposalWinner> = Vec::new();
    proof {
        assert(ws.deep_view() =~= Seq::<WinnerV>::empty());
        assert(dv.subrange(0, 0) =~= Seq::<(u64, Seq<crate::types::ProposalV>)>::empty());
    }
    let mut i: usize = 0;
    while i < entries.len()
        invariant
            i <= entries@.len(),
            dv == entries.deep_view(),
            dv.len() == entries@.len(),
            ws.deep_view() == eval_props_entries(
                Seq::empty(),
                dv.subrange(0, i as int),
                total,
                min_ppm,
            ),
        decreases entries@.len() - i,
    {
        let id = entries[i].0;
        let list = &entries[i].1;
        let ghost lv = dv[i as int].1;
        let ghost base = ws.deep_view();
        proof {
            assert(lv == list.deep_view());
            assert(lv.subrange(0, 0) =~= Seq::<crate::types::ProposalV>::empty());
        }
        let mut k: usize = 0;
        while k < list.len()
            invariant
                k <= list@.len(),
                lv == list.deep_view(),
                lv.len() == list@.len(),
                base == eval_props_entries(Seq::empty(), dv.subrange(0, i as int), total, min_ppm),
                ws.deep_view() == eval_props_list(
                    base,
                    id,
                    lv.subrange(0, k as int),
                    total,
                    min_ppm,
                ),
            decreases list@.len() - k,
        {
            proof {
                assert(lv[k as int] == list@[k as int]@);
            }
            let votes = list[k].votes;
            let ratio = ratio_ppm(votes as u64, total as u64);
            if ratio >= min_ppm {
                let cid = clone_bytes(&list[k].proposal);
                let empty_concerns: Vec<ConcernCID> = Vec::new();
                proof {
                    assert(empty_concerns.deep_view() =~= Seq::<Seq<u8>>::empty());
                }
                let w = ProposalWinner::new(empty_concerns, id, cid, ratio);
                proof {
                    assert(w@ == winner_of(id, lv[k as int], total));
                }
                winners_insert_sorted(&mut ws, w);
            }
            proof {
                assert(lv.subrange(0, k + 1 as int).drop_last() =~= lv.subrange(0, k as int));
                assert(lv.subrange(0, k + 1 as int).last() == lv[k as int]);
            }
            k += 1;
        }
        proof {
            assert(lv.subrange(0, lv.len() as int) =~= lv);
            assert(dv.subrange(0, i + 1 as int).drop_last() =~= dv.subrange(0, i as int));
            assert(dv.subrange(0, i + 1 as int).last() == dv[i as int]);
            assert(dv[i as int] == (id, lv));
        }
        i += 1;
    }
    proof {
        assert(dv.subrange(0, i as int) =~= dv);
    }
    ws
}

/// Whether the document is among the winners' proposals.
fn winner_has_proposal(ws: &Vec<ProposalWinner>, cid: &Vec<u8>) -> (r: bool)
    ensures
        r == winning_proposal(ws.deep_view(), cid@),
{
    broadcast use lemma_deep_entry;

    let ghost dv = ws.deep_view();
    let mut i: usize = 0;
    while i < ws.len()
        invariant
            i <= ws@.len(),
            dv == ws.deep_view(),
            dv.len() == ws@.len(),
            forall|j: int| 0 <= j < i ==> (#[trigger] dv[j]).proposal != cid@,
        decreases ws@.len() - i,
    {
        proof {
            assert(dv[i as int].proposal =~= ws@[i as int].proposal@);
        }
        let hit = eq_bytes(&ws[i].proposal, cid);
        if hit {
            return true;
        }
        i += 1;
    }
    false
}

/// Whether the document is attached to any winner as a concern.
fn winner_has_concern(ws: &Vec<ProposalWinner>, cid: &Vec<u8>) -> (r: bool)
    ensures
        r == winning_concern(ws.deep_view(), cid@),
{
    broadcast use lemma_deep_entry;

    let ghost dv = ws.deep_view();
    let mut i: usize = 0;
    while i < ws.len()
        invariant
            i <= ws@.len(),
            dv == ws.deep_view(),
            dv.len() == ws@.len(),
            forall|j: int, k: int|
                0 <= j < i && 0 <= k < dv[j].concerns.len() ==> #[trigger] dv[j].concerns[k]
                    != cid@,
        decreases ws@.len() - i,
    {
        let list = &ws[i].concerns;
        let ghost cl = dv[i as int].concerns;
        proof {
            assert(cl == list.deep_view());
        }
        let mut k: usize = 0;
        while k < list.len()
            invariant
                k <= list@.len(),
                dv == ws.deep_view(),
                dv.len() == ws@.len(),
                i < ws@.len(),
                cl == dv[i as int].concerns,
                cl == list.deep_view(),
                cl.len() == list@.len(),
                forall|j: int| 0 <= j < k ==> #[trigger] cl[j] != cid@,
            decreases list@.len() - k,
        {
            proof {
                assert(cl[k as int] =~= list@[k as int]@);
            }
            let hit = eq_bytes(&list[k], cid);
            if hit {
                proof {
                    assert(dv[i as int].concerns[k as int] == cid@);
                    assert(winning_concern(dv, cid@));
                }
                return true;
            }
            k += 1;
        }
        i += 1;
    }
    false
}

/// One payment per ledger vote that named a winning proposal, in ledger
/// order.
fn collect_proposal_vote_pays(
    ledger: &Vec<(IdentityId, Vec<ProposalCID>)>,
    ws: &Vec<ProposalWinner>,
    amount: u64,
) -> (pays: Vec<Payment>)
    ensures
        pays@ == proposal_vote_pays(ws.deep_view(), ledger.deep_view(), amount),
{
    broadcast use lemma_deep_entry;

    let ghost wsd = ws.deep_view();
    let ghost dv = ledger.deep_view();
    let mut pays: Vec<Payment> = Vec::new();
    proof {
        assert(dv.subrange(0, 0) =~= Seq::<(u64, Seq<Seq<u8>>)>::empty());
        assert(pays@ =~= proposal_vote_pays(wsd, dv.subrange(0, 0), amount));
    }
    let mut i: usize = 0;
    while i < ledger.len()
        invariant
            i <= ledger@.len(),
            wsd == ws.deep_view(),
            dv == ledger.deep_view(),
            dv.len() == ledger@.len(),
            pays@ == proposal_vote_pays(wsd, dv.subrange(0, i as int), amount),
        decreases ledger@.len() - i,
    {
        let id = ledger[i].0;
        let list = &ledger[i].1;
        let ghost lv = dv[i as int].1;
        let ghost base = pays@;
        proof {
            assert(lv == list.deep_view());
            assert(lv.subrange(0, 0) =~= Seq::<Seq<u8>>::empty());
            assert(base + proposal_vote_pays_list(wsd, id, lv.subrange(0, 0), amount) =~= base);
        }
        let mut k: usize = 0;
        while k < list.len()
            invariant
                k <= list@.len(),
                wsd == ws.deep_view(),
                lv == list.deep_view(),
                lv.len() == list@.len(),
                pays@ == base + proposal_vote_pays_list(wsd, id, lv.subrange(0, k as int), amount),
            decreases list@.len() - k,
        {
            proof {
                assert(lv[k as int] =~= list@[k as int]@);
            }
            let hit = winner_has_proposal(ws, &list[k]);
            if hit {
                pays.push(Payment { identity: id, amount });
            }
            proof {
                assert(lv.subrange(0, k + 1 as int).drop_last() =~= lv.subrange(0, k as int));
                assert(lv.subrange(0, k + 1 as int).last() == lv[k as int]);
            }
            k += 1;
        }
        proof {
            assert(lv.subrange(0, lv.len() as int) =~= lv);
            assert(dv.subrange(0, i + 1 as int).drop_last() =~= dv.subrange(0, i as int));
            assert(dv.subrange(0, i + 1 as int).last() == dv[i as int]);
            assert(dv[i as int] == (id, lv));
        }
        i += 1;
    }
    proof {
        assert(dv.subrange(0, i as int) =~= dv);
    }
    pays
}

/// One payment per ledger vote that named a winning concern, in ledger
/// order.
fn collect_concern_vote_pays(
    ledger: &Vec<(IdentityId, Vec<ConcernCID>)>,
    ws: &Vec<ProposalWinner>,
    amount: u64,
) -> (pays: Vec<Payment>)
    ensures
        pays@ == concern_vote_pays(ws.deep_view(), ledger.deep_view(), amount),
{
    broadcast use lemma_deep_entry;

    let ghost wsd = ws.deep_view();
    let ghost dv = ledger.deep_view();
    let mut pays: Vec<Payment> = Vec::new();
    proof {
        assert(dv.subrange(0, 0) =~= Seq::<(u64, Seq<Seq<u8>>)>::empty());
        assert(pays@ =~= concern_vote_pays(wsd, dv.subrange(0, 0), amount));
    }
    let mut i: usize = 0;
    while i < ledger.len()
        invariant
            i <= ledger@.len(),
            wsd == ws.deep_view(),
            dv == ledger.deep_view(),
            dv.len() == ledger@.len(),
            pays@ == concern_vote_pays(wsd, dv.subrange(0, i as int), amount),
        decreases ledger@.len() - i,
    {
        let id = ledger[i].0;
        let list = &ledger[i].1;
        let ghost lv = dv[i as int].1;
        let ghost base = pays@;
        proof {
            assert(lv == list.deep_view());
            assert(lv.subrange(0, 0) =~= Seq::<Seq<u8>>::empty());
            assert(base + concern_vote_pays_list(wsd, id, lv.subrange(0, 0), amount) =~= base);
        }
        let mut k: usize = 0;
        while k < list.len()
            invariant
                k <= list@.len(),
                wsd == ws.deep_view(),
                lv == list.deep_view(),
                lv.len() == list@.len(),
                pays@ == base + concern_vote_pays_list(wsd, id, lv.subrange(0, k as int), amount),
            decreases list@.len() - k,
        {
            proof {
                assert(lv[k as int] =~= list@[k as int]@);
            }
            let hit = winner_has_concern(ws, &list[k]);
            if hit {
                pays.push(Payment { identity: id, amount });
            }
            proof {
                assert(lv.subrange(0, k + 1 as int).drop_last() =~= lv.subrange(0, k as int));
                assert(lv.subrange(0, k + 1 as int).last() == lv[k as int]);
            }
            k += 1;
        }
        proof {
            assert(lv.subrange(0, lv.len() as int) =~= lv);
            assert(dv.subrange(0, i + 1 as int).drop_last() =~= dv.subrange(0, i as int));
            assert(dv.subrange(0, i + 1 as int).last() == dv[i as int]);
            assert(dv[i as int] == (id, lv));
        }
        i += 1;
    }
    proof {
        assert(dv.subrange(0, i as int) =~= dv);
    }
    pays
}

/// Find the entry holding the round's winners.
fn find_round(map: &Vec<(u8, Vec<ProposalWinner>)>, round: u8) -> (r: Option<usize>)
    ensures
        match r {
            Some(i) => i as int == round_key_index(map.deep_view(), round),
            None => round_key_index(map.deep_view(), round) < 0,
        },
{
    broadcast use lemma_deep_entry;

    let ghost dv = map.deep_view();
    proof {
        lemma_round_key_index(dv, round);
    }
    let ghost ki = round_key_index(dv, round);
    let mut i: usize = 0;
    while i < map.len()
        invariant
            i <= map@.len(),
            dv == map.deep_view(),
            dv.len() == map@.len(),
            ki == round_key_index(dv, round),
            forall|j: int| 0 <= j < i ==> (#[trigger] dv[j]).0 != round,
        decreases map@.len() - i,
    {
        if map[i].0 == round {
            proof {
                lemma_round_key_index(dv, round);
                assert(dv[i as int].0 == round);
                if ki < 0 {
                    assert(dv[i as int].0 != round);
                }
                if 0 <= ki < i as int {
                    assert(dv[ki].0 != round);
                    assert(dv[ki].0 == round);
                }
                if ki > i as int {
                    assert(dv[i as int].0 != round);
                }
                assert(ki == i as int);
            }
            return Some(i);
        }
        i += 1;
    }
    proof {
        if ki >= 0 {
            assert(dv[ki].0 != round);
            assert(dv[ki].0 == round);
        }
    }
    None
}

/// The winners stored for the round, as an owned copy.
fn get_winners(map: &Vec<(u8, Vec<ProposalWinner>)>, round: u8) -> (ws: Vec<ProposalWinner>)
    ensures
        ws.deep_view() == winners_lookup(map.deep_view(), round),
{
    broadcast use lemma_deep_entry;

    let ghost dv = map.deep_view();
    proof {
        lemma_round_key_index(dv, round);
    }
    match find_round(map, round) {
        Some(i) => {
            let ws = dup_winner_list(&map[i].1);
            ws
        },
        None => {
            let ws: Vec<ProposalWinner> = Vec::new();
            proof {
                assert(ws.deep_view() =~= Seq::<WinnerV>::empty());
            }
            ws
        },
    }
}

/// Replace the winners stored for the round.
fn store_winners(map: &mut Vec<(u8, Vec<ProposalWinner>)>, round: u8, ws: Vec<ProposalWinner>)
    ensures
        final(map).deep_view() == winners_store(old(map).deep_view(), round, ws.deep_view()),
{
    broadcast use lemma_deep_entry;

    let ghost dv0 = map.deep_view();
    let ghost wsd = ws.deep_view();
    proof {
        lemma_round_key_index(dv0, round);
    }
    let found = find_round(map, round);
    let ghost ki = round_key_index(dv0, round);
    match found {
        Some(i) => {
            map.remove(i);
            proof {
                let dv1 = map.deep_view();
                let t = dv0.remove(i as int);
                assert forall|j: int| 0 <= j < dv1.len() implies dv1[j] == t[j] by {
                    if j < i {
                        assert(map@[j] == old(map)@[j]);
                    } else {
                        assert(map@[j] == old(map)@[j + 1]);
                    }
                }
                assert(dv1 =~= t);
            }
            map.push((round, ws));
            proof {
                let dv2 = map.deep_view();
                let t = dv0.remove(i as int).push((round, wsd));
                assert(dv2[dv2.len() - 1] == (round, wsd));
                assert forall|j: int| 0 <= j < dv2.len() implies dv2[j] == t[j] by {
                    if j < dv2.len() - 1 {
                        assert(dv2[j] == dv0.remove(i as int)[j]);
                    }
                }
                assert(dv2 =~= t);
            }
        },
        None => {
            map.push((round, ws));
            proof {
                let dv2 = map.deep_view();
                let t = dv0.push((round, wsd));
                assert(dv2[dv2.len() - 1] == (round, wsd));
                assert forall|j: int| 0 <= j < dv2.len() implies dv2[j] == t[j] by {
                    if j < dv2.len() - 1 {
                        assert(map@[j] == old(map)@[j]);
                    }
                }
                assert(dv2 =~= t);
            }
        },
    }
}

/// Find the first winner carrying the proposal document.
fn find_winner_match(ws: &Vec<ProposalWinner>, proposal: &Vec<u8>) -> (r: Option<usize>)
    ensures
        match r {
            Some(m) => m as int == first_winner_match(ws.deep_view(), proposal@) && m < ws@.len(),
            None => first_winner_match(ws.deep_view(), proposal@) < 0,
        },
{
    broadcast use lemma_deep_entry;
    broadcast use crate::engine::lemma_bytes_deep;

    let ghost dv = ws.deep_view();
    let ghost fi = first_winner_match(dv, proposal@);
    proof {
        lemma_first_winner_match(dv, proposal@);
    }
    let mut i: usize = 0;
    while i < ws.len()
        invariant
            i <= ws@.len(),
            dv == ws.deep_view(),
            dv.len() == ws@.len(),
            fi == first_winner_match(dv, proposal@),
            forall|j: int| 0 <= j < i ==> (#[trigger] dv[j]).proposal != proposal@,
        decreases ws@.len() - i,
    {
        proof {
            assert(dv[i as int].proposal == ws@[i as int].proposal@);
        }
        let hit = eq_bytes(&ws[i].proposal, proposal);
        if hit {
            proof {
                lemma_first_winner_match(dv, proposal@);
                assert(dv[i as int].proposal == proposal@);
                if fi < 0 {
                    assert(dv[i as int].proposal != proposal@);
                }
                if 0 <= fi < i as int {
                    assert(dv[fi].proposal != proposal@);
                    assert(dv[fi].proposal == proposal@);
                }
                if fi > i as int {
                    assert(dv[i as int].proposal != proposal@);
                }
                assert(fi == i as int);
            }
            return Some(i);
        }
        i += 1;
    }
    proof {
        if fi >= 0 {
            assert(dv[fi].proposal != proposal@);
            assert(dv[fi].proposal == proposal@);
        }
    }
    None
}

/// Attach a concern document to the winner at position `m`.
fn attach_to_winner(ws: &mut Vec<ProposalWinner>, m: usize, cid: Vec<u8>)
    requires
        m < old(ws)@.len(),
    ensures
        final(ws).deep_view() == old(ws).deep_view().update(
            m as int,
            (WinnerV {
                concerns: old(ws).deep_view()[m as int].concerns.push(cid@),
                ..old(ws).deep_view()[m as int]
            }),
        ),
{
    broadcast use lemma_deep_entry;
    broadcast use crate::engine::lemma_bytes_deep;

    let ghost dv0 = ws.deep_view();
    let ghost cv = cid@;
    let mut wtmp = ProposalWinner {
        concerns: Vec::new(),
        proposer: 0,
        proposal: Vec::new(),
        vote_ratio: 0,
    };
    ws.set_and_swap(m, &mut wtmp);
    let ghost w0 = wtmp;
    proof {
        assert(w0 == old(ws)@[m as int]);
        assert(w0@ == dv0[m as int]);
    }
    wtmp.concerns.push(cid);
    proof {
        let cd = wtmp.concerns.deep_view();
        let ct = dv0[m as int].concerns.push(cv);
        assert(wtmp.concerns@ == w0.concerns@.push(cid));
        assert forall|j: int| 0 <= j < cd.len() implies cd[j] == ct[j] by {
            assert(cd[j] == wtmp.concerns@[j]@);
            if j < w0.concerns@.len() {
                assert(wtmp.concerns@[j] == w0.concerns@[j]);
                assert(ct[j] == w0.concerns.deep_view()[j]);
            }
        }
        assert(cd =~= ct);
        assert(wtmp.proposer == w0.proposer && wtmp.proposal == w0.proposal && wtmp.vote_ratio
            == w0.vote_ratio);
        assert(wtmp@ == (WinnerV { concerns: ct, ..dv0[m as int] }));
    }
    ws.set_and_swap(m, &mut wtmp);
    proof {
        let dv1 = ws.deep_view();
        let t = dv0.update(
            m as int,
            (WinnerV { concerns: dv0[m as int].concerns.push(cv), ..dv0[m as int] }),
        );
        assert forall|j: int| 0 <= j < dv1.len() implies dv1[j] == t[j] by {
            if j != m {
                assert(ws@[j] == old(ws)@[j]);
            }
        }
        assert(dv1 =~= t);
    }
}

/// Evaluate the round's concerns against the winner list: a concern whose
/// vote ratio reaches the minimum and whose proposal won is attached to that
/// winner, and its submitter earns the concern reward.
fn eval_concerns_exec(
    ws0: Vec<ProposalWinner>,
    entries: &Vec<(IdentityId, Vec<Concern>)>,
    total: u32,
    min_ppm: u32,
    reward: u64,
) -> (r: (Vec<ProposalWinner>, Vec<Payment>))
    ensures
        r.0.deep_view() == eval_concerns_entries(
            (ws0.deep_view(), Seq::empty()),
            entries.deep_view(),
            total,
            min_ppm,
            reward,
        ).0,
        r.1@ == eval_concerns_entries(
            (ws0.deep_view(), Seq::empty()),
            entries.deep_view(),
            total,
            min_ppm,
            reward,
        ).1,
{
    broadcast use lemma_deep_entry;
    broadcast use crate::engine::lemma_bytes_deep;

    let ghost st0 = (ws0.deep_view(), Seq::<Payment>::empty());
    let ghost dv = entries.deep_view();
    let mut ws = ws0;
    let mut pays: Vec<Payment> = Vec::new();
    proof {
        assert(dv.subrange(0, 0) =~= Seq::<(u64, Seq<crate::types::ConcernV>)>::empty());
        assert(pays@ =~= st0.1);
        assert(eval_concerns_entries(st0, dv.subrange(0, 0), total, min_ppm, reward) == st0);
    }
    let mut i: usize = 0;
    while i < entries.len()
        invariant
            i <= entries@.len(),
            dv == entries.deep_view(),
            dv.len() == entries@.len(),
            ws.deep_view() == eval_concerns_entries(st0, dv.subrange(0, i as int), total, min_ppm, reward).0,
            pays@ == eval_concerns_entries(st0, dv.subrange(0, i as int), total, min_ppm, reward).1,
        decreases entries@.len() - i,
    {
        let id = entries[i].0;
        let list = &entries[i].1;
        let ghost lv = dv[i as int].1;
        let ghost base = eval_concerns_entries(st0, dv.subrange(0, i as int), total, min_ppm, reward);
        proof {
            assert(lv == list.deep_view());
            assert(lv.subrange(0, 0) =~= Seq::<crate::types::ConcernV>::empty());
            assert(eval_concerns_list(base, id, lv.subrange(0, 0), total, min_ppm, reward) == base);
        }
        let mut k: usize = 0;
        while k < list.len()
            invariant
                k <= list@.len(),
                dv == entries.deep_view(),
                lv == list.deep_view(),
                lv.len() == list@.len(),
                base == eval_concerns_entries(st0, dv.subrange(0, i as int), total, min_ppm, reward),
                ws.deep_view() == eval_concerns_list(base, id, lv.subrange(0, k as int), total, min_ppm, reward).0,
                pays@ == eval_concerns_list(base, id, lv.subrange(0, k as int), total, min_ppm, reward).1,
            decreases list@.len() - k,
        {
            proof {
                assert(lv[k as int] == list@[k as int]@);
            }
            let votes = list[k].votes;
            let ratio = ratio_ppm(votes as u64, total as u64);
            if ratio >= min_ppm {
                let midx = find_winner_match(&ws, &list[k].associated_proposal);
                match midx {
                    Some(m) => {
                        let cid = clone_bytes(&list[k].concern);
                        proof {
                            lemma_first_winner_match(ws.deep_view(), lv[k as int].associated_proposal);
                        }
                        attach_to_winner(&mut ws, m, cid);
                        pays.push(Payment { identity: id, amount: reward });
                    },
                    None => {
                    },
                }
            }
            proof {
                assert(lv.subrange(0, k + 1 as int).drop_last() =~= lv.subrange(0, k as int));
                assert(lv.subrange(0, k + 1 as int).last() == lv[k as int]);
            }
            k += 1;
        }
        proof {
            assert(lv.subrange(0, lv.len() as int) =~= lv);
            assert(dv.subrange(0, i + 1 as int).drop_last() =~= dv.subrange(0, i as int));
            assert(dv.subrange(0, i + 1 as int).last() == dv[i as int]);
            assert(dv[i as int] == (id, lv));
        }
        i += 1;
    }
    proof {
        assert(dv.subrange(0, i as int) =~= dv);
    }
    (ws, pays)
}

/// One council poll request per winner: the proposal document followed by
/// the attached concern documents.
fn build_poll_requests(ws: &Vec<ProposalWinner>) -> (r: Vec<PollRequest>)
    ensures
        r.deep_view() == poll_requests_of(ws.deep_view()),
{
    broadcast use lemma_deep_entry;

    let ghost wsd = ws.deep_view();
    let mut r: Vec<PollRequest> = Vec::new();
    let mut i: usize = 0;
    while i < ws.len()
        invariant
            i <= ws@.len(),
            wsd == ws.deep_view(),
            wsd.len() == ws@.len(),
            r@.len() == i as int,
            forall|j: int| 0 <= j < i ==> (#[trigger] r@[j])@ == poll_documents(wsd[j]),
        decreases ws@.len() - i,
    {
        let w = &ws[i];
        proof {
            assert(w@ == wsd[i as int]);
        }
        let mut docs: Vec<DocumentCID> = Vec::new();
        let head = clone_bytes(&w.proposal);
        proof {
            assert(head@ == wsd[i as int].proposal);
        }
        docs.push(head);
        let mut k: usize = 0;
        while k < w.concerns.len()
            invariant
                k <= w.concerns@.len(),
                wsd == ws.deep_view(),
                wsd.len() == ws@.len(),
                i < ws@.len(),
                w@ == wsd[i as int],
                wsd[i as int].concerns.len() == w.concerns@.len(),
                docs@.len() == 1 + k as int,
                docs@[0]@ == wsd[i as int].proposal,
                forall|j: int|
                    1 <= j < docs@.len() ==> (#[trigger] docs@[j])@ == wsd[i as int].concerns[j
                        - 1],
            decreases w.concerns@.len() - k,
        {
            let c = clone_bytes(&w.concerns[k]);
            proof {
                assert(w.concerns.deep_view()[k as int] == w.concerns@[k as int]@);
                assert(c@ == wsd[i as int].concerns[k as int]);
            }
            docs.push(c);
            k += 1;
        }
        proof {
            let dd = docs.deep_view();
            let pd = poll_documents(wsd[i as int]);
            assert forall|j: int| 0 <= j < dd.len() implies dd[j] == pd[j] by {
                assert(dd[j] == docs@[j].deep_view());
                assert(docs@[j].deep_view() =~= docs@[j]@);
            }
            assert(dd =~= pd);
        }
        let req = PollRequest { documents: docs };
        r.push(req);
        proof {
            assert(r@[i as int] == req);
            assert(r@[i as int]@ == poll_documents(wsd[i as int]));
        }
        i += 1;
    }
    proof {
        let dd = r.deep_view();
        let t = poll_requests_of(wsd);
        assert forall|j: int| 0 <= j < dd.len() implies dd[j] == t[j] by {
            assert(dd[j] == r@[j]@);
        }
        assert(dd =~= t);
    }
    r
}

/// Record a phase rotation in the audit log.
fn log_rotation(events: &mut Vec<Event>, ns: States)
    ensures
        final(events).deep_view() == old(events).deep_view().push(EventV::StateRotated(ns)),
{
    broadcast use lemma_deep_entry;

    events.push(Event::StateRotated(ns));
    proof {
        let dd = events.deep_view();
        let t = old(events).deep_view().push(EventV::StateRotated(ns));
        assert forall|j: int| 0 <= j < dd.len() implies dd[j] == t[j] by {
            if j == dd.len() - 1 {
                assert(events@[j] == Event::StateRotated(ns));
            } else {
                assert(events@[j] == old(events)@[j]);
            }
        }
        assert(dd =~= t);
    }
}

/// How many votes of a poll result are "reject".
fn count_false_exec(res: &Vec<(IdentityId, bool)>) -> (n: u64)
    ensures
        n as int == count_false(res@),
{
    let mut n: u64 = 0;
    let mut i: usize = 0;
    while i < res.len()
        invariant
            i <= res@.len(),
            n <= i,
            n as int == count_false(res@.subrange(0, i as int)),
        decreases res@.len() - i,
    {
        proof {
            assert(res@.subrange(0, i + 1 as int).drop_last() =~= res@.subrange(0, i as int));
            assert(res@.subrange(0, i + 1 as int).last() == res@[i as int]);
        }
        if !res[i].1 {
            n += 1;
        }
        i += 1;
    }
    proof {
        assert(res@.subrange(0, i as int) =~= res@);
    }
    n
}

/// Work through the retained tickets by position: an available poll result
/// either spawns the same-position winner or logs a denial event.
fn run_council(
    ws: &Vec<ProposalWinner>,
    ntickets: usize,
    results: &Vec<Option<Vec<(IdentityId, bool)>>>,
    min_ppm: u32,
    events: &mut Vec<Event>,
) -> (spawns: Vec<ProposalWinner>)
    ensures
        spawns.deep_view() == council_fold(
            ws.deep_view(),
            ntickets as int,
            results.deep_view(),
            min_ppm,
        ).0,
        final(events).deep_view() == old(events).deep_view() + council_fold(
            ws.deep_view(),
            ntickets as int,
            results.deep_view(),
            min_ppm,
        ).1,
{
    broadcast use lemma_deep_entry;
    broadcast use crate::engine::lemma_bytes_deep;

    let ghost wsd = ws.deep_view();
    let ghost rd = results.deep_view();
    let ghost ev0 = old(events).deep_view();
    let mut spawns: Vec<ProposalWinner> = Vec::new();
    let mut idx: usize = 0;
    while idx < ntickets
        invariant
            idx <= ntickets,
            wsd == ws.deep_view(),
            wsd.len() == ws@.len(),
            rd == results.deep_view(),
            rd.len() == results@.len(),
            ev0 == old(events).deep_view(),
            ev0.len() == old(events)@.len(),
            spawns@.len() == council_fold(wsd, idx as int, rd, min_ppm).0.len(),
            forall|j: int|
                0 <= j < spawns@.len() ==> (#[trigger] spawns@[j])@ == council_fold(
                    wsd,
                    idx as int,
                    rd,
                    min_ppm,
                ).0[j],
            events@.len() == ev0.len() + council_fold(wsd, idx as int, rd, min_ppm).1.len(),
            forall|j: int|
                0 <= j < events@.len() ==> (#[trigger] events@[j])@ == (ev0 + council_fold(
                    wsd,
                    idx as int,
                    rd,
                    min_ppm,
                ).1)[j],
        decreases ntickets - idx,
    {
        let ghost prev = council_fold(wsd, idx as int, rd, min_ppm);
        proof {
            assert(council_fold(wsd, idx + 1 as int, rd, min_ppm) == ({
                let i = idx as int;
                if i < rd.len() && i < wsd.len() {
                    match rd[i] {
                        Some(res) => if crate::model::council_reject_ppm(res) < min_ppm {
                            (prev.0.push(wsd[i]), prev.1)
                        } else {
                            (prev.0, prev.1.push(EventV::CouncilDeniedProposal(wsd[i], res)))
                        },
                        None => prev,
                    }
                } else {
                    prev
                }
            }));
        }
        if idx < results.len() {
            proof {
                assert(rd[idx as int] == results@[idx as int].deep_view());
            }
            match &results[idx] {
                Some(res) => {
                    proof {
                        assert(res.deep_view() =~= res@);
                        assert(rd[idx as int] == Some(res@));
                    }
                    if idx < ws.len() {
                        let no = count_false_exec(res);
                        let pct = ratio_ppm(no, res.len() as u64);
                        proof {
                            assert(pct == crate::model::council_reject_ppm(res@));
                        }
                        if pct < min_ppm {
                            let w = dup_winner(&ws[idx]);
                            proof {
                                assert(w@ == wsd[idx as int]);
                            }
                            spawns.push(w);
                        } else {
                            let wdup = dup_winner(&ws[idx]);
                            let rdup = dup_result(res);
                            proof {
                                assert(wdup@ == wsd[idx as int]);
                                assert(rdup.deep_view() =~= rdup@);
                            }
                            let ev = Event::CouncilDeniedProposal(wdup, rdup);
                            proof {
                                assert(ev@ == EventV::CouncilDeniedProposal(
                                    wsd[idx as int],
                                    res@,
                                ));
                            }
                            events.push(ev);
                        }
                    }
                },
                None => {
                },
            }
        }
        idx += 1;
    }
    proof {
        let f = council_fold(wsd, ntickets as int, rd, min_ppm);
        let dd = spawns.deep_view();
        assert forall|j: int| 0 <= j < dd.len() implies dd[j] == f.0[j] by {
            assert(dd[j] == spawns@[j]@);
        }
        assert(dd =~= f.0);
        let ed = events.deep_view();
        assert forall|j: int| 0 <= j < ed.len() implies ed[j] == (ev0 + f.1)[j] by {
            assert(ed[j] == events@[j]@);
        }
        assert(ed =~= ev0 + f.1);
    }
    spawns
}

impl Engine {
    /// The winners stored for the round, as an owned copy.
    pub fn proposal_winners(&self, round: u8) -> (ws: Vec<ProposalWinner>)
        ensures
            ws.deep_view() == winners_lookup(self@.proposal_winners, round),
    {
        get_winners(&self.proposal_winners, round)
    }

    /// The deadline the host registered has elapsed: leave the current phase,
    /// do the phase-exit bookkeeping, and enter the next phase.
    ///
    /// The engine value and the returned outputs are exactly
    /// [`transit_model`] of the old value. When the engine is leaving the
    /// council phase, `poll_results` carries the poll result the host fetched
    /// for each retained ticket, by ticket position; in every other phase it
    /// is ignored (the host passes an empty list). The host must then
    /// schedule the next invocation `t.delay` blocks after `now`, attempt
    /// the payments in `t.payments` (reporting back with `settle_rewards`),
    /// open the polls in `t.poll_requests` (reporting back with
    /// `record_council_tickets`), and spawn the projects in
    /// `t.spawn_requests`.
    pub fn on_deadline_elapsed(
        &mut self,
        now: BlockNumber,
        poll_results: &Vec<Option<Vec<(IdentityId, bool)>>>,
    ) -> (t: Transition)
        requires
            old(self).wf(),
        ensures
            final(self).wf(),
            final(self)@ == transit_model(old(self)@, now, poll_results.deep_view()).0,
            t@ == transit_model(old(self)@, now, poll_results.deep_view()).1,
    {
        broadcast use lemma_deep_entry;
        broadcast use crate::engine::lemma_bytes_deep;

        let ghost m0 = self@;
        let ghost rd = poll_results.deep_view();
        match self.state {
            States::Uninitialized => {
                let d = self.config.propose_round_duration;
                self.state = States::Propose;
                self.next_transit = now.saturating_add(d);
                self.pending_rewards = None;
                log_rotation(&mut self.events, States::Propose);
                let t = Transition {
                    new_state: States::Propose,
                    delay: d,
                    payments: Vec::new(),
                    poll_requests: Vec::new(),
                    spawn_requests: Vec::new(),
                };
                proof {
                    assert(self@ =~= transit_model(m0, now, rd).0);
                    assert(t@ =~= transit_model(m0, now, rd).1);
                }
                t
            },
            States::Propose => {
                let has_proposals = self.proposals.len() > 0;
                let ns = if has_proposals {
                    States::VotePropose
                } else {
                    States::Propose
                };
                let d = if has_proposals {
                    self.config.propose_vote_duration
                } else {
                    self.config.propose_round_duration
                };
                self.state = ns;
                self.next_transit = now.saturating_add(d);
                self.pending_rewards = None;
                log_rotation(&mut self.events, ns);
                let t = Transition {
                    new_state: ns,
                    delay: d,
                    payments: Vec::new(),
                    poll_requests: Vec::new(),
                    spawn_requests: Vec::new(),
                };
                proof {
                    assert(m0.proposals.len() == old(self).proposals@.len());
                    assert(self@ =~= transit_model(m0, now, rd).0);
                    assert(t@ =~= transit_model(m0, now, rd).1);
                }
                t
            },
            States::VotePropose => {
                let total = self.proposal_vote_count;
                let min_ppm = self.config.propose_vote_acceptance_min_ppm;
                let ws = compute_proposal_winners(&self.proposals, total, min_ppm);
                let pays = collect_proposal_vote_pays(
                    &self.proposal_votes,
                    &ws,
                    self.config.propose_vote_correct_reward,
                );
                let no_winners = ws.len() == 0;
                let ghost wsd = ws.deep_view();
                self.proposals = Vec::new();
                self.proposal_to_identity = Vec::new();
                self.proposal_votes = Vec::new();
                self.proposal_vote_count = 0;
                self.proposal_count = 0;
                store_winners(&mut self.proposal_winners, self.round, ws);
                let pays2 = dup_payments(&pays);
                self.pending_rewards = Some(
                    PendingRewards { track: RewardTrack::Propose, payments: pays2 },
                );
                let ns = if no_winners {
                    States::Propose
                } else {
                    States::Concern
                };
                let d = if no_winners {
                    self.config.propose_round_duration
                } else {
                    self.config.concern_round_duration
                };
                if no_winners {
                    self.round = if self.round == u8::MAX {
                        0
                    } else {
                        self.round + 1
                    };
                }
                self.state = ns;
                self.next_transit = now.saturating_add(d);
                log_rotation(&mut self.events, ns);
                let t = Transition {
                    new_state: ns,
                    delay: d,
                    payments: pays,
                    poll_requests: Vec::new(),
                    spawn_requests: Vec::new(),
                };
                proof {
                    assert(self.proposals.deep_view() =~= Seq::<
                        (u64, Seq<crate::types::ProposalV>),
                    >::empty());
                    assert(self.proposal_to_identity.deep_view() =~= Seq::<
                        (Seq<u8>, u64),
                    >::empty());
                    assert(self.proposal_votes.deep_view() =~= Seq::<
                        (u64, Seq<Seq<u8>>),
                    >::empty());
                    lemma_eval_props_entries_bounds(
                        Seq::empty(),
                        m0.proposals,
                        total,
                        min_ppm,
                    );
                    lemma_winners_store_wf(m0.proposal_winners, m0.round, wsd);
                    assert(self@ =~= transit_model(m0, now, rd).0);
                    assert(t@ =~= transit_model(m0, now, rd).1);
                    assert(self@.wf());
                }
                t
            },
            States::Concern => {
                if self.concern_count == 0 {
                    let d = self.config.council_vote_round_duration;
                    let ws = get_winners(&self.proposal_winners, self.round);
                    let reqs = build_poll_requests(&ws);
                    self.state = States::VoteCouncil;
                    self.next_transit = now.saturating_add(d);
                    self.pending_rewards = None;
                    log_rotation(&mut self.events, States::VoteCouncil);
                    let t = Transition {
                        new_state: States::VoteCouncil,
                        delay: d,
                        payments: Vec::new(),
                        poll_requests: reqs,
                        spawn_requests: Vec::new(),
                    };
                    proof {
                        assert(self@ =~= transit_model(m0, now, rd).0);
                        assert(t@ =~= transit_model(m0, now, rd).1);
                    }
                    t
                } else {
                    let d = self.config.concern_vote_duration;
                    self.state = States::VoteConcern;
                    self.next_transit = now.saturating_add(d);
                    self.pending_rewards = None;
                    log_rotation(&mut self.events, States::VoteConcern);
                    let t = Transition {
                        new_state: States::VoteConcern,
                        delay: d,
                        payments: Vec::new(),
                        poll_requests: Vec::new(),
                        spawn_requests: Vec::new(),
                    };
                    proof {
                        assert(self@ =~= transit_model(m0, now, rd).0);
                        assert(t@ =~= transit_model(m0, now, rd).1);
                    }
                    t
                }
            },
            States::VoteConcern => {
                let total = self.concern_vote_count;
                let min_ppm = self.config.concern_vote_acceptance_min_ppm;
                let reward = self.config.concern_reward;
                let d = self.config.council_vote_round_duration;
                let ws0 = get_winners(&self.proposal_winners, self.round);
                let ghost ws0d = ws0.deep_view();
                let r = eval_concerns_exec(ws0, &self.concerns, total, min_ppm, reward);
                let ws1 = r.0;
                let mut pays = r.1;
                let ghost ws1d = ws1.deep_view();
                let mut pays_vote = collect_concern_vote_pays(
                    &self.concern_votes,
                    &ws1,
                    self.config.concern_vote_correct_reward,
                );
                pays.append(&mut pays_vote);
                let reqs = build_poll_requests(&ws1);
                self.concerns = Vec::new();
                self.concern_to_identity = Vec::new();
                self.concern_votes = Vec::new();
                self.concern_vote_count = 0;
                self.concern_count = 0;
                store_winners(&mut self.proposal_winners, self.round, ws1);
                let pays2 = dup_payments(&pays);
                self.pending_rewards = Some(
                    PendingRewards { track: RewardTrack::Concern, payments: pays2 },
                );
                self.state = States::VoteCouncil;
                self.next_transit = now.saturating_add(d);
                log_rotation(&mut self.events, States::VoteCouncil);
                let t = Transition {
                    new_state: States::VoteCouncil,
                    delay: d,
                    payments: pays,
                    poll_requests: reqs,
                    spawn_requests: Vec::new(),
                };
                proof {
                    assert(self.concerns.deep_view() =~= Seq::<
                        (u64, Seq<crate::types::ConcernV>),
                    >::empty());
                    assert(self.concern_to_identity.deep_view() =~= Seq::<
                        ((Seq<u8>, Seq<u8>), u64),
                    >::empty());
                    assert(self.concern_votes.deep_view() =~= Seq::<
                        (u64, Seq<Seq<u8>>),
                    >::empty());
                    lemma_round_key_index(m0.proposal_winners, m0.round);
                    let ki = round_key_index(m0.proposal_winners, m0.round);
                    assert forall|k: int| 0 <= k < ws0d.len() implies (
                    #[trigger] ws0d[k]).vote_ratio <= 1_000_000 by {
                        assert(ws0d == winners_lookup(m0.proposal_winners, m0.round));
                        assert(ki >= 0);
                        assert(ws0d[k] == m0.proposal_winners[ki].1[k]);
                    }
                    lemma_eval_concerns_entries_shape(
                        (ws0d, Seq::empty()),
                        m0.concerns,
                        total,
                        min_ppm,
                        reward,
                    );
                    lemma_winners_store_wf(m0.proposal_winners, m0.round, ws1d);
                    assert(self@ =~= transit_model(m0, now, rd).0);
                    assert(t@ =~= transit_model(m0, now, rd).1);
                    assert(self@.wf());
                }
                t
            },
            States::VoteCouncil => {
                let d = self.config.propose_round_duration;
                let min_ppm = self.config.council_accept_concern_min_votes_ppm;
                let ws = get_winners(&self.proposal_winners, self.round);
                let ntickets = self.council_vote_tickets.len();
                let spawns = run_council(&ws, ntickets, poll_results, min_ppm, &mut self.events);
                self.round = if self.round == u8::MAX {
                    0
                } else {
                    self.round + 1
                };
                self.state = States::Propose;
                self.next_transit = now.saturating_add(d);
                self.pending_rewards = None;
                log_rotation(&mut self.events, States::Propose);
                let t = Transition {
                    new_state: States::Propose,
                    delay: d,
                    payments: Vec::new(),
                    poll_requests: Vec::new(),
                    spawn_requests: spawns,
                };
                proof {
                    assert(self@ =~= transit_model(m0, now, rd).0);
                    assert(t@ =~= transit_model(m0, now, rd).1);
                }
                t
            },
        }
    }

    /// The host reports which of the pending reward transfers succeeded, in
    /// payment order; the engine logs the round's reward total: exactly the
    /// sum of the amounts whose transfer succeeded (clamped at the largest
    /// representable balance) — no double count, no silent inflation.
    pub fn settle_rewards(&mut self, paid: &Vec<bool>)
        requires
            old(self).wf(),
            match old(self)@.pending_rewards {
                Some(p) => paid@.len() == p.payments.len(),
                None => false,
            },
        ensures
            final(self).wf(),
            match old(self)@.pending_rewards {
                Some(p) => final(self)@ == (EngineV {
                    pending_rewards: None,
                    events: old(self)@.events.push(
                        reward_event(p.track, clamp_total(sum_paid(p.payments, paid@))),
                    ),
                    ..old(self)@
                }),
                None => false,
            },
    {
        broadcast use lemma_deep_entry;

        let tt: (RewardTrack, u64) = match &self.pending_rewards {
            Some(p) => {
                let mut total: u64 = 0;
                let mut i: usize = 0;
                while i < p.payments.len()
                    invariant
                        i <= p.payments@.len(),
                        paid@.len() == p.payments@.len(),
                        total == clamp_total(
                            sum_paid(
                                p.payments@.subrange(0, i as int),
                                paid@.subrange(0, i as int),
                            ),
                        ),
                    decreases p.payments@.len() - i,
                {
                    proof {
                        let pp = p.payments@.subrange(0, i + 1 as int);
                        let pd = paid@.subrange(0, i + 1 as int);
                        assert(pp.drop_last() =~= p.payments@.subrange(0, i as int));
                        assert(pd.drop_last() =~= paid@.subrange(0, i as int));
                        assert(pp.last() == p.payments@[i as int]);
                        assert(pd[pp.len() - 1] == paid@[i as int]);
                        lemma_sum_paid_nonneg(pp.drop_last(), pd.drop_last());
                        lemma_sum_paid_nonneg(pp, pd);
                    }
                    if paid[i] {
                        total = total.saturating_add(p.payments[i].amount);
                    }
                    i += 1;
                }
                proof {
                    assert(p.payments@.subrange(0, i as int) =~= p.payments@);
                    assert(paid@.subrange(0, i as int) =~= paid@);
                }
                (p.track, total)
            },
            None => {
                proof {
                    assert(false);
                }
                (RewardTrack::Propose, 0)
            },
        };
        self.pending_rewards = None;
        let ev = match tt.0 {
            RewardTrack::Propose => Event::TotalProposalReward(tt.1),
            RewardTrack::Concern => Event::TotalConcernReward(tt.1),
        };
        proof {
            assert(ev@ == reward_event(tt.0, tt.1));
        }
        self.events.push(ev);
        proof {
            let dd = self.events.deep_view();
            let t = old(self)@.events.push(reward_event(tt.0, tt.1));
            assert forall|j: int| 0 <= j < dd.len() implies dd[j] == t[j] by {
                if j == dd.len() - 1 {
                    assert(self.events@[j] == ev);
                } else {
                    assert(self.events@[j] == old(self).events@[j]);
                }
            }
            assert(dd =~= t);
            assert(self@ =~= (EngineV {
                pending_rewards: None,
                events: old(self)@.events.push(reward_event(tt.0, tt.1)),
                ..old(self)@
            }));
        }
    }

    /// The host reports the tickets the council returned for the requested
    /// polls, in request order; failed requests are simply absent. The
    /// tickets replace the previously retained ones wholesale.
    pub fn record_council_tickets(&mut self, tickets: Vec<Ticket>)
        requires
            old(self).wf(),
        ensures
            final(self).wf(),
            final(self)@ == (EngineV { council_vote_tickets: tickets@, ..old(self)@ }),
    {
        self.council_vote_tickets = tickets;
        proof {
            assert(self@ =~= (EngineV {
                council_vote_tickets: self.council_vote_tickets@,
                ..old(self)@
            }));
        }
    }

    /// Drain the audit log: the caller receives every event recorded so far,
    /// in order, and the log is empty afterwards.
    pub fn take_events(&mut self) -> (evs: Vec<Event>)
        requires
            old(self).wf(),
        ensures
            final(self).wf(),
            evs.deep_view() == old(self)@.events,
            final(self)@ == (EngineV { events: Seq::empty(), ..old(self)@ }),
    {
        let mut evs: Vec<Event> = Vec::new();
        std::mem::swap(&mut evs, &mut self.events);
        proof {
            assert(self.events.deep_view() =~= Seq::<EventV>::empty());
            assert(self@ =~= (EngineV { events: Seq::<EventV>::empty(), ..old(self)@ }));
        }
        evs
    }
}

} // verus!
