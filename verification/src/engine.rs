//! The executable engine: its state, its mathematical view, and the shared
//! helpers that operate on its association-list stores.

use crate::model::{
    first_key_index, key_list_push, lemma_first_key_index, rev_contains, rev_lookup, EngineV,
};
use crate::model::{crev_contains, crev_lookup, initial_engine};
use crate::types::{
    BlockNumber, ConcernCID, Config, Event, IdentityId, PendingRewards, Proposal, ProposalCID,
    ProposalWinner, States, Ticket,
};
use crate::types::Concern;
use vstd::pervasive::VecAdditionalExecFns;
use vstd::prelude::*;

verus! {

/// The governance engine: one owned instance holds every store and counter.
/// The host mutates it only through the validated commands and the phase
/// transition, all of which preserve well-formedness.
pub struct Engine {
    /// Deployment-time configuration.
    pub config: Config,
    /// Current phase.
    pub state: States,
    /// Block for which the next phase transition is due.
    pub next_transit: BlockNumber,
    /// Current governance cycle.
    pub round: u8,
    /// Per-identity proposal lists of the running round.
    pub proposals: Vec<(IdentityId, Vec<Proposal>)>,
    /// Reverse lookup: proposal document to submitter.
    pub proposal_to_identity: Vec<(ProposalCID, IdentityId)>,
    /// Per-identity lists of proposal documents voted for.
    pub proposal_votes: Vec<(IdentityId, Vec<ProposalCID>)>,
    /// Total proposal votes cast this round.
    pub proposal_vote_count: u32,
    /// Total proposals submitted this round.
    pub proposal_count: u32,
    /// Winners of each round, keyed by round number.
    pub proposal_winners: Vec<(u8, Vec<ProposalWinner>)>,
    /// Per-identity concern lists of the running round.
    pub concerns: Vec<(IdentityId, Vec<Concern>)>,
    /// Reverse lookup: (concern document, proposal document) to submitter.
    pub concern_to_identity: Vec<((ConcernCID, ProposalCID), IdentityId)>,
    /// Total concerns submitted this round.
    pub concern_count: u32,
    /// Per-identity lists of concern documents voted for.
    pub concern_votes: Vec<(IdentityId, Vec<ConcernCID>)>,
    /// Total concern votes cast this round.
    pub concern_vote_count: u32,
    /// Tickets of the council polls opened for the current winners.
    pub council_vote_tickets: Vec<Ticket>,
    /// Reward payments handed to the host and not yet settled.
    pub pending_rewards: Option<PendingRewards>,
    /// Audit log, drained by the host.
    pub events: Vec<Event>,
}

impl View for Engine {
    type V = EngineV;

    open spec fn view(&self) -> EngineV {
        EngineV {
            config: self.config,
            state: self.state,
            next_transit: self.next_transit,
            round: self.round,
            proposals: self.proposals.deep_view(),
            proposal_to_identity: self.proposal_to_identity.deep_view(),
            proposal_votes: self.proposal_votes.deep_view(),
            proposal_vote_count: self.proposal_vote_count,
            proposal_count: self.proposal_count,
            proposal_winners: self.proposal_winners.deep_view(),
            concerns: self.concerns.deep_view(),
            concern_to_identity: self.concern_to_identity.deep_view(),
            concern_count: self.concern_count,
            concern_votes: self.concern_votes.deep_view(),
            concern_vote_count: self.concern_vote_count,
            council_vote_tickets: self.council_vote_tickets@,
            pending_rewards: match &self.pending_rewards {
                Some(p) => Some(p@),
                None => None,
            },
            events: self.events.deep_view(),
        }
    }
}

impl Engine {
    /// A well-formed engine, which every public operation preserves.
    pub open spec fn wf(&self) -> bool {
        self@.wf()
    }

    /// A fresh engine: uninitialized, in round 0, with every store empty.
    /// The first elapsed deadline moves it into the proposal phase.
    pub fn new(config: Config) -> (r: Engine)
        requires
            config.wf(),
        ensures
            r@ == initial_engine(config),
            r.wf(),
    {
        let r = Engine {
            config,
            state: States::Uninitialized,
            next_transit: 0,
            round: 0,
            proposals: Vec::new(),
            proposal_to_identity: Vec::new(),
            proposal_votes: Vec::new(),
            proposal_vote_count: 0,
            proposal_count: 0,
            proposal_winners: Vec::new(),
            concerns: Vec::new(),
            concern_to_identity: Vec::new(),
            concern_count: 0,
            concern_votes: Vec::new(),
            concern_vote_count: 0,
            council_vote_tickets: Vec::new(),
            pending_rewards: None,
            events: Vec::new(),
        };
        proof {
            assert(r@ =~= initial_engine(config));
        }
        r
    }
}

impl Engine {
    /// The current phase.
    pub fn state(&self) -> (s: States)
        ensures
            s == self@.state,
    {
        self.state
    }

    /// The current round.
    pub fn round(&self) -> (r: u8)
        ensures
            r == self@.round,
    {
        self.round
    }

    /// The block for which the next phase transition is due.
    pub fn next_transit(&self) -> (b: BlockNumber)
        ensures
            b == self@.next_transit,
    {
        self.next_transit
    }

    /// Total proposals submitted this round.
    pub fn proposal_count(&self) -> (n: u32)
        ensures
            n == self@.proposal_count,
    {
        self.proposal_count
    }

    /// Total proposal votes cast this round.
    pub fn vote_count(&self) -> (n: u32)
        ensures
            n == self@.proposal_vote_count,
    {
        self.proposal_vote_count
    }

    /// Total concerns submitted this round.
    pub fn concern_count(&self) -> (n: u32)
        ensures
            n == self@.concern_count,
    {
        self.concern_count
    }

    /// Total concern votes cast this round.
    pub fn vote_count_concern(&self) -> (n: u32)
        ensures
            n == self@.concern_vote_count,
    {
        self.concern_vote_count
    }

    /// The tickets of the council polls opened for the current winners.
    pub fn council_vote_tickets(&self) -> (t: &Vec<Ticket>)
        ensures
            t@ == self@.council_vote_tickets,
    {
        &self.council_vote_tickets
    }

    /// The proposals the identity submitted this round, if any.
    pub fn proposals(&self, id: IdentityId) -> (r: Option<&Vec<Proposal>>)
        ensures
            match r {
                Some(list) => first_key_index(self@.proposals, id) >= 0 && list.deep_view()
                    == self@.proposals[first_key_index(self@.proposals, id)].1,
                None => first_key_index(self@.proposals, id) < 0,
            },
    {
        broadcast use lemma_deep_entry;

        let ghost dv = self@.proposals;
        proof {
            lemma_first_key_index(dv, id);
        }
        match find_key(&self.proposals, id) {
            Some(i) => {
                proof {
                    assert(dv[i as int].0 == id);
                    assert(forall|j: int| 0 <= j < i ==> (#[trigger] dv[j]).0 != id);
                    assert(first_key_index(dv, id) == i as int);
                }
                Some(&self.proposals[i].1)
            },
            None => {
                proof {
                    assert(forall|j: int| 0 <= j < dv.len() ==> (#[trigger] dv[j]).0 != id);
                }
                None
            },
        }
    }

    /// The concerns the identity submitted this round, if any.
    pub fn concerns(&self, id: IdentityId) -> (r: Option<&Vec<Concern>>)
        ensures
            match r {
                Some(list) => first_key_index(self@.concerns, id) >= 0 && list.deep_view()
                    == self@.concerns[first_key_index(self@.concerns, id)].1,
                None => first_key_index(self@.concerns, id) < 0,
            },
    {
        broadcast use lemma_deep_entry;

        let ghost dv = self@.concerns;
        proof {
            lemma_first_key_index(dv, id);
        }
        match find_key(&self.concerns, id) {
            Some(i) => {
                proof {
                    assert(dv[i as int].0 == id);
                    assert(forall|j: int| 0 <= j < i ==> (#[trigger] dv[j]).0 != id);
                    assert(first_key_index(dv, id) == i as int);
                }
                Some(&self.concerns[i].1)
            },
            None => {
                proof {
                    assert(forall|j: int| 0 <= j < dv.len() ==> (#[trigger] dv[j]).0 != id);
                }
                None
            },
        }
    }

    /// The proposal documents the identity voted for this round, if any.
    pub fn votes(&self, id: IdentityId) -> (r: Option<&Vec<ProposalCID>>)
        ensures
            match r {
                Some(list) => first_key_index(self@.proposal_votes, id) >= 0 && list.deep_view()
                    == self@.proposal_votes[first_key_index(self@.proposal_votes, id)].1,
                None => first_key_index(self@.proposal_votes, id) < 0,
            },
    {
        broadcast use lemma_deep_entry;

        let ghost dv = self@.proposal_votes;
        proof {
            lemma_first_key_index(dv, id);
        }
        match find_key(&self.proposal_votes, id) {
            Some(i) => {
                proof {
                    assert(dv[i as int].0 == id);
                    assert(forall|j: int| 0 <= j < i ==> (#[trigger] dv[j]).0 != id);
                    assert(first_key_index(dv, id) == i as int);
                }
                Some(&self.proposal_votes[i].1)
            },
            None => {
                proof {
                    assert(forall|j: int| 0 <= j < dv.len() ==> (#[trigger] dv[j]).0 != id);
                }
                None
            },
        }
    }

    /// The concern documents the identity voted for this round, if any.
    pub fn votes_concern(&self, id: IdentityId) -> (r: Option<&Vec<ConcernCID>>)
        ensures
            match r {
                Some(list) => first_key_index(self@.concern_votes, id) >= 0 && list.deep_view()
                    == self@.concern_votes[first_key_index(self@.concern_votes, id)].1,
                None => first_key_index(self@.concern_votes, id) < 0,
            },
    {
        broadcast use lemma_deep_entry;

        let ghost dv = self@.concern_votes;
        proof {
            lemma_first_key_index(dv, id);
        }
        match find_key(&self.concern_votes, id) {
            Some(i) => {
                proof {
                    assert(dv[i as int].0 == id);
                    assert(forall|j: int| 0 <= j < i ==> (#[trigger] dv[j]).0 != id);
                    assert(first_key_index(dv, id) == i as int);
                }
                Some(&self.concern_votes[i].1)
            },
            None => {
                proof {
                    assert(forall|j: int| 0 <= j < dv.len() ==> (#[trigger] dv[j]).0 != id);
                }
                None
            },
        }
    }

    /// The identity that claimed the proposal document, or 0 when none did.
    pub fn proposal_to_identity(&self, proposal: &Vec<u8>) -> (r: IdentityId)
        ensures
            r == rev_lookup(self@.proposal_to_identity, proposal@),
    {
        lookup_rev(&self.proposal_to_identity, proposal)
    }

    /// The identity that claimed the concern/proposal pair, or 0 when none
    /// did.
    pub fn concern_to_identity(&self, concern: &Vec<u8>, proposal: &Vec<u8>) -> (r: IdentityId)
        ensures
            r == crev_lookup(self@.concern_to_identity, concern@, proposal@),
    {
        lookup_crev(&self.concern_to_identity, concern, proposal)
    }
}

/// Whether two documents are the same bytes.
pub fn eq_bytes(a: &Vec<u8>, b: &Vec<u8>) -> (r: bool)
    ensures
        r <==> a@ == b@,
{
    if a.len() != b.len() {
        return false;
    }
    let mut i: usize = 0;
    while i < a.len()
        invariant
            a@.len() == b@.len(),
            i <= a@.len(),
            forall|j: int| 0 <= j < i ==> a@[j] == b@[j],
        decreases a@.len() - i,
    {
        if a[i] != b[i] {
            return false;
        }
        i += 1;
    }
    proof {
        assert(a@ =~= b@);
    }
    true
}

/// An owned copy of a document.
pub fn clone_bytes(v: &Vec<u8>) -> (r: Vec<u8>)
    ensures
        r@ == v@,
{
    let mut r: Vec<u8> = Vec::new();
    let mut i: usize = 0;
    while i < v.len()
        invariant
            i <= v@.len(),
            r@ == v@.subrange(0, i as int),
        decreases v@.len() - i,
    {
        r.push(v[i]);
        proof {
            assert(r@ =~= v@.subrange(0, i + 1 as int));
        }
        i += 1;
    }
    proof {
        assert(r@ =~= v@);
    }
    r
}

/// Find the first entry keyed by `id`.
pub fn find_key<T>(entries: &Vec<(u64, T)>, id: u64) -> (r: Option<usize>)
    ensures
        match r {
            Some(i) => i < entries@.len() && (#[trigger] entries@[i as int]).0 == id && forall|
                j: int,
            | 0 <= j < i ==> (#[trigger] entries@[j]).0 != id,
            None => forall|j: int| 0 <= j < entries@.len() ==> (#[trigger] entries@[j]).0 != id,
        },
{
    let mut i: usize = 0;
    while i < entries.len()
        invariant
            i <= entries@.len(),
            forall|j: int| 0 <= j < i ==> (#[trigger] entries@[j]).0 != id,
        decreases entries@.len() - i,
    {
        if entries[i].0 == id {
            return Some(i);
        }
        i += 1;
    }
    None
}

/// Deep views agree with shallow views entry by entry.
pub broadcast proof fn lemma_deep_entry<T: DeepView>(v: Vec<T>, i: int)
    requires
        0 <= i < v@.len(),
    ensures
        #[trigger] v.deep_view()[i] == v@[i].deep_view(),
        v.deep_view().len() == v@.len(),
{
}

/// A document's deep view is its byte sequence.
pub broadcast proof fn lemma_bytes_deep(v: Vec<u8>)
    ensures
        #[trigger] v.deep_view() == v@,
{
    assert(v.deep_view() =~= v@);
}

/// Append `v` to the list stored for `id`, creating the entry on first use.
pub fn push_to_key_list<T: DeepView>(entries: &mut Vec<(u64, Vec<T>)>, id: u64, v: T)
    ensures
        final(entries).deep_view() == key_list_push(old(entries).deep_view(), id, v.deep_view()),
{
    broadcast use lemma_deep_entry;

    let ghost dv0 = entries.deep_view();
    proof {
        lemma_first_key_index(dv0, id);
        assert(dv0.len() == entries@.len());
    }
    let idx = find_key(entries, id);
    match idx {
        Some(i) => {
            proof {
                assert(dv0[i as int].0 == id);
                assert(forall|j: int| 0 <= j < i ==> (#[trigger] dv0[j]).0 != id);
                assert(first_key_index(dv0, id) == i as int);
            }
            let mut entry: (u64, Vec<T>) = (id, Vec::new());
            entries.set_and_swap(i, &mut entry);
            entry.1.push(v);
            entries.set_and_swap(i, &mut entry);
            proof {
                let dv1 = entries.deep_view();
                let target = key_list_push(dv0, id, v.deep_view());
                assert(entries@[i as int].1@ == old(entries)@[i as int].1@.push(v));
                assert(dv1[i as int].1 =~= dv0[i as int].1.push(v.deep_view()));
                assert(dv1[i as int] == (id, dv0[i as int].1.push(v.deep_view())));
                assert forall|j: int| 0 <= j < dv1.len() implies dv1[j] == target[j] by {
                    if j != i {
                        assert(entries@[j] == old(entries)@[j]);
                    }
                }
                assert(dv1 =~= target);
            }
        },
        None => {
            proof {
                assert(forall|j: int| 0 <= j < dv0.len() ==> (#[trigger] dv0[j]).0 != id);
                assert(first_key_index(dv0, id) < 0);
            }
            let mut list: Vec<T> = Vec::new();
            list.push(v);
            entries.push((id, list));
            proof {
                let dv1 = entries.deep_view();
                let target = key_list_push(dv0, id, v.deep_view());
                assert(dv1[dv0.len() as int].1 =~= seq![v.deep_view()]);
                assert(dv1[dv0.len() as int] == (id, seq![v.deep_view()]));
                assert forall|j: int| 0 <= j < dv1.len() implies dv1[j] == target[j] by {
                    if j < dv0.len() {
                        assert(entries@[j] == old(entries)@[j]);
                    }
                }
                assert(dv1 =~= target);
            }
        },
    }
}

/// The identity that claimed the proposal document, or 0 when none did.
pub fn lookup_rev(rev: &Vec<(ProposalCID, IdentityId)>, cid: &Vec<u8>) -> (r: IdentityId)
    ensures
        r == rev_lookup(rev.deep_view(), cid@),
{
    broadcast use lemma_deep_entry;

    let ghost dv = rev.deep_view();
    proof {
        assert(dv.skip(0) =~= dv);
    }
    let mut i: usize = 0;
    while i < rev.len()
        invariant
            i <= rev@.len(),
            dv == rev.deep_view(),
            dv.len() == rev@.len(),
            rev_lookup(dv, cid@) == rev_lookup(dv.skip(i as int), cid@),
        decreases rev@.len() - i,
    {
        proof {
            assert(dv.skip(i as int)[0] == dv[i as int]);
            assert(dv[i as int].0 =~= rev@[i as int].0@);
        }
        let hit = eq_bytes(&rev[i].0, cid);
        if hit {
            return rev[i].1;
        }
        proof {
            assert(dv.skip(i as int).drop_first() =~= dv.skip(i as int + 1));
        }
        i += 1;
    }
    0
}

/// Whether any entry claims the proposal document.
pub fn contains_rev(rev: &Vec<(ProposalCID, IdentityId)>, cid: &Vec<u8>) -> (r: bool)
    ensures
        r == rev_contains(rev.deep_view(), cid@),
{
    broadcast use lemma_deep_entry;

    let ghost dv = rev.deep_view();
    let mut i: usize = 0;
    while i < rev.len()
        invariant
            i <= rev@.len(),
            dv == rev.deep_view(),
            dv.len() == rev@.len(),
            forall|j: int| 0 <= j < i ==> (#[trigger] dv[j]).0 != cid@,
        decreases rev@.len() - i,
    {
        proof {
            assert(dv[i as int].0 =~= rev@[i as int].0@);
        }
        let hit = eq_bytes(&rev[i].0, cid);
        if hit {
            assert(dv[i as int].0 == cid@);
            return true;
        }
        i += 1;
    }
    false
}

/// The identity that claimed the concern/proposal pair, or 0 when none did.
pub fn lookup_crev(
    rev: &Vec<((ConcernCID, ProposalCID), IdentityId)>,
    concern: &Vec<u8>,
    proposal: &Vec<u8>,
) -> (r: IdentityId)
    ensures
        r == crev_lookup(rev.deep_view(), concern@, proposal@),
{
    broadcast use lemma_deep_entry;

    let ghost dv = rev.deep_view();
    proof {
        assert(dv.skip(0) =~= dv);
    }
    let mut i: usize = 0;
    while i < rev.len()
        invariant
            i <= rev@.len(),
            dv == rev.deep_view(),
            dv.len() == rev@.len(),
            crev_lookup(dv, concern@, proposal@) == crev_lookup(
                dv.skip(i as int),
                concern@,
                proposal@,
            ),
        decreases rev@.len() - i,
    {
        proof {
            assert(dv.skip(i as int)[0] == dv[i as int]);
            assert(dv[i as int].0.0 =~= rev@[i as int].0.0@);
            assert(dv[i as int].0.1 =~= rev@[i as int].0.1@);
        }
        let hit_c = eq_bytes(&rev[i].0.0, concern);
        let hit_p = eq_bytes(&rev[i].0.1, proposal);
        if hit_c && hit_p {
            proof {
                assert(dv[i as int].0 == (concern@, proposal@));
            }
            return rev[i].1;
        }
        proof {
            assert(dv[i as int].0 != (concern@, proposal@));
            assert(dv.skip(i as int).drop_first() =~= dv.skip(i as int + 1));
        }
        i += 1;
    }
    0
}

/// Whether any entry claims the concern/proposal pair.
pub fn contains_crev(
    rev: &Vec<((ConcernCID, ProposalCID), IdentityId)>,
    concern: &Vec<u8>,
    proposal: &Vec<u8>,
) -> (r: bool)
    ensures
        r == crev_contains(rev.deep_view(), concern@, proposal@),
{
    broadcast use lemma_deep_entry;

    let ghost dv = rev.deep_view();
    let mut i: usize = 0;
    while i < rev.len()
        invariant
            i <= rev@.len(),
            dv == rev.deep_view(),
            dv.len() == rev@.len(),
            forall|j: int| 0 <= j < i ==> (#[trigger] dv[j]).0 != (concern@, proposal@),
        decreases rev@.len() - i,
    {
        proof {
            assert(dv[i as int].0.0 =~= rev@[i as int].0.0@);
            assert(dv[i as int].0.1 =~= rev@[i as int].0.1@);
        }
        let hit_c = eq_bytes(&rev[i].0.0, concern);
        let hit_p = eq_bytes(&rev[i].0.1, proposal);
        if hit_c && hit_p {
            proof {
                assert(dv[i as int].0 == (concern@, proposal@));
            }
            return true;
        }
        proof {
            assert(dv[i as int].0 != (concern@, proposal@));
        }
        i += 1;
    }
    false
}

} // verus!
