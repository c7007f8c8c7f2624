//! The caller-facing commands: submit a proposal or a concern, vote on
//! either. Each command validates first and commits only when every check
//! passed; a rejected command leaves the engine exactly as it was.
//!
//! The host resolves the caller's address to an identity and its level
//! through the identity collaborator and hands both in as plain values.

use crate::engine::{
    clone_bytes, contains_crev, contains_rev, eq_bytes, find_key, lemma_bytes_deep,
    lemma_deep_entry, lookup_crev, lookup_rev, push_to_key_list, Engine,
};
use crate::model::{
    bump_concern_vote, bump_proposal_vote, concern_apply, concern_check, first_concern_match,
    first_key_index, first_prop_match, key_list_contains, key_list_len, lemma_concern_preserves_wf,
    lemma_first_concern_match, lemma_first_key_index, lemma_first_prop_match,
    lemma_propose_preserves_wf, lemma_vote_concern_preserves_wf, lemma_vote_proposal_preserves_wf,
    propose_apply, propose_check, vote_concern_apply, vote_concern_check, vote_proposal_apply,
    vote_proposal_check,
};
use crate::types::{
    Concern, ConcernCID, Error, IdentityId, IdentityLevel, Proposal, ProposalCID, States,
};
use vstd::pervasive::VecAdditionalExecFns;
use vstd::prelude::*;

verus! {

/// Find the first proposal in the list carrying the document.
fn find_prop_index(list: &Vec<Proposal>, cid: &Vec<u8>) -> (r: Option<usize>)
    ensures
        match r {
            Some(k) => k < list.deep_view().len() && (#[trigger] list.deep_view()[k as int]).proposal
                == cid@ && forall|j: int|
                0 <= j < k ==> (#[trigger] list.deep_view()[j]).proposal != cid@,
            None => forall|j: int|
                0 <= j < list.deep_view().len() ==> (#[trigger] list.deep_view()[j]).proposal
                    != cid@,
        },
{
    broadcast use lemma_deep_entry;

    let ghost dv = list.deep_view();
    let mut i: usize = 0;
    while i < list.len()
        invariant
            i <= list@.len(),
            dv == list.deep_view(),
            dv.len() == list@.len(),
            forall|j: int| 0 <= j < i ==> (#[trigger] dv[j]).proposal != cid@,
        decreases list@.len() - i,
    {
        proof {
            assert(dv[i as int].proposal =~= list@[i as int].proposal@);
        }
        let hit = eq_bytes(&list[i].proposal, cid);
        if hit {
            return Some(i);
        }
        i += 1;
    }
    None
}

/// Find the first concern in the list carrying both documents.
fn find_concern_index(list: &Vec<Concern>, concern: &Vec<u8>, proposal: &Vec<u8>) -> (r: Option<
    usize,
>)
    ensures
        match r {
            Some(k) => k < list.deep_view().len() && (#[trigger] list.deep_view()[k as int]).concern
                == concern@ && list.deep_view()[k as int].associated_proposal == proposal@
                && forall|j: int|
                0 <= j < k ==> !((#[trigger] list.deep_view()[j]).concern == concern@
                    && list.deep_view()[j].associated_proposal == proposal@),
            None => forall|j: int|
                0 <= j < list.deep_view().len() ==> !((#[trigger] list.deep_view()[j]).concern
                    == concern@ && list.deep_view()[j].associated_proposal == proposal@),
        },
{
    broadcast use lemma_deep_entry;

    let ghost dv = list.deep_view();
    let mut i: usize = 0;
    while i < list.len()
        invariant
            i <= list@.len(),
            dv == list.deep_view(),
            dv.len() == list@.len(),
            forall|j: int|
                0 <= j < i ==> !((#[trigger] dv[j]).concern == concern@
                    && dv[j].associated_proposal == proposal@),
        decreases list@.len() - i,
    {
        proof {
            assert(dv[i as int].concern =~= list@[i as int].concern@);
            assert(dv[i as int].associated_proposal =~= list@[i as int].associated_proposal@);
        }
        let hit_c = eq_bytes(&list[i].concern, concern);
        let hit_p = eq_bytes(&list[i].associated_proposal, proposal);
        if hit_c && hit_p {
            return Some(i);
        }
        i += 1;
    }
    None
}

/// Whether the ledger list holds a ballot for the document.
fn list_contains_cid(list: &Vec<Vec<u8>>, cid: &Vec<u8>) -> (r: bool)
    ensures
        r == exists|k: int|
            0 <= k < list.deep_view().len() && (#[trigger] list.deep_view()[k]) == cid@,
{
    broadcast use lemma_deep_entry;
    broadcast use lemma_bytes_deep;

    let ghost dv = list.deep_view();
    let mut k: usize = 0;
    while k < list.len()
        invariant
            k <= list@.len(),
            dv == list.deep_view(),
            dv.len() == list@.len(),
            forall|j: int| 0 <= j < k ==> (#[trigger] dv[j]) != cid@,
        decreases list@.len() - k,
    {
        proof {
            assert(dv[k as int] == list@[k as int]@);
        }
        let hit = eq_bytes(&list[k], cid);
        if hit {
            proof {
                assert(dv[k as int] == cid@);
            }
            return true;
        }
        k += 1;
    }
    false
}

/// Count one more vote for the first proposal with the document in the
/// claimant's list.
fn bump_prop(entries: &mut Vec<(IdentityId, Vec<Proposal>)>, proposer: IdentityId, cid: &Vec<u8>)
    ensures
        final(entries).deep_view() == bump_proposal_vote(
            old(entries).deep_view(),
            proposer,
            cid@,
        ),
{
    broadcast use lemma_deep_entry;

    let ghost dv0 = entries.deep_view();
    proof {
        lemma_first_key_index(dv0, proposer);
    }
    let idx = find_key(entries, proposer);
    match idx {
        None => {
            proof {
                assert(forall|j: int| 0 <= j < dv0.len() ==> (#[trigger] dv0[j]).0 != proposer);
                assert(first_key_index(dv0, proposer) < 0);
            }
        },
        Some(i) => {
            proof {
                assert(dv0[i as int].0 == proposer);
                assert(forall|j: int| 0 <= j < i ==> (#[trigger] dv0[j]).0 != proposer);
                assert(first_key_index(dv0, proposer) == i as int);
            }
            let mut entry: (IdentityId, Vec<Proposal>) = (proposer, Vec::new());
            entries.set_and_swap(i, &mut entry);
            let ghost lv0 = entry.1.deep_view();
            proof {
                assert(lv0 =~= dv0[i as int].1);
                lemma_first_prop_match(lv0, cid@);
            }
            let kidx = find_prop_index(&entry.1, cid);
            match kidx {
                Some(k) => {
                    proof {
                        assert(first_prop_match(lv0, cid@) == k as int);
                    }
                    let mut p = Proposal { proposal: Vec::new(), votes: 0 };
                    entry.1.set_and_swap(k, &mut p);
                    p.votes = p.votes.saturating_add(1);
                    entry.1.set_and_swap(k, &mut p);
                    proof {
                        let tlist = dv0[i as int].1.update(
                            k as int,
                            crate::types::ProposalV {
                                votes: crate::model::sat_add32(dv0[i as int].1[k as int].votes as int, 1),
                                ..dv0[i as int].1[k as int]
                            },
                        );
                        assert(entry.1.deep_view() =~= tlist);
                    }
                },
                None => {
                    proof {
                        assert(first_prop_match(lv0, cid@) < 0);
                        assert(entry.1.deep_view() =~= dv0[i as int].1);
                    }
                },
            }
            entries.set_and_swap(i, &mut entry);
            proof {
                let dv1 = entries.deep_view();
                let target = bump_proposal_vote(dv0, proposer, cid@);
                assert forall|j: int| 0 <= j < dv1.len() implies dv1[j] == target[j] by {
                    if j != i {
                        assert(entries@[j] == old(entries)@[j]);
                    }
                }
                assert(dv1 =~= target);
            }
        },
    }
}

/// Count one more vote for the first concern with both documents in the
/// claimant's list.
fn bump_concern(
    entries: &mut Vec<(IdentityId, Vec<Concern>)>,
    proposer: IdentityId,
    concern: &Vec<u8>,
    proposal: &Vec<u8>,
)
    ensures
        final(entries).deep_view() == bump_concern_vote(
            old(entries).deep_view(),
            proposer,
            concern@,
            proposal@,
        ),
{
    broadcast use lemma_deep_entry;

    let ghost dv0 = entries.deep_view();
    proof {
        lemma_first_key_index(dv0, proposer);
    }
    let idx = find_key(entries, proposer);
    match idx {
        None => {
            proof {
                assert(forall|j: int| 0 <= j < dv0.len() ==> (#[trigger] dv0[j]).0 != proposer);
                assert(first_key_index(dv0, proposer) < 0);
            }
        },
        Some(i) => {
            proof {
                assert(dv0[i as int].0 == proposer);
                assert(forall|j: int| 0 <= j < i ==> (#[trigger] dv0[j]).0 != proposer);
                assert(first_key_index(dv0, proposer) == i as int);
            }
            let mut entry: (IdentityId, Vec<Concern>) = (proposer, Vec::new());
            entries.set_and_swap(i, &mut entry);
            let ghost lv0 = entry.1.deep_view();
            proof {
                assert(lv0 =~= dv0[i as int].1);
                lemma_first_concern_match(lv0, concern@, proposal@);
            }
            let kidx = find_concern_index(&entry.1, concern, proposal);
            match kidx {
                Some(k) => {
                    proof {
                        assert(first_concern_match(lv0, concern@, proposal@) == k as int);
                    }
                    let mut c = Concern {
                        associated_proposal: Vec::new(),
                        concern: Vec::new(),
                        votes: 0,
                    };
                    entry.1.set_and_swap(k, &mut c);
                    c.votes = c.votes.saturating_add(1);
                    entry.1.set_and_swap(k, &mut c);
                    proof {
                        let tlist = dv0[i as int].1.update(
                            k as int,
                            crate::types::ConcernV {
                                votes: crate::model::sat_add32(dv0[i as int].1[k as int].votes as int, 1),
                                ..dv0[i as int].1[k as int]
                            },
                        );
                        assert(entry.1.deep_view() =~= tlist);
                    }
                },
                None => {
                    proof {
                        assert(first_concern_match(lv0, concern@, proposal@) < 0);
                        assert(entry.1.deep_view() =~= dv0[i as int].1);
                    }
                },
            }
            entries.set_and_swap(i, &mut entry);
            proof {
                let dv1 = entries.deep_view();
                let target = bump_concern_vote(dv0, proposer, concern@, proposal@);
                assert forall|j: int| 0 <= j < dv1.len() implies dv1[j] == target[j] by {
                    if j != i {
                        assert(entries@[j] == old(entries)@[j]);
                    }
                }
                assert(dv1 =~= target);
            }
        },
    }
}

impl Engine {
    /// As an identified user, submit a proposal for the running round.
    ///
    /// Validation order and effect are exactly [`propose_check`] and
    /// [`propose_apply`]; a rejected submission changes nothing.
    pub fn propose(&mut self, id: IdentityId, level: IdentityLevel, proposal: ProposalCID) -> (r:
        Result<(), Error>)
        requires
            old(self).wf(),
            id != 0,
        ensures
            final(self).wf(),
            r == propose_check(old(self)@, id, level, proposal@),
            r is Ok ==> final(self)@ == propose_apply(old(self)@, id, proposal@),
            r is Err ==> *final(self) == *old(self),
    {
        broadcast use lemma_deep_entry;

        if self.state != States::Propose {
            return Err(Error::WrongState);
        }
        if self.proposal_count >= self.config.propose_cap {
            return Err(Error::ProposalLimitReached);
        }
        if level < self.config.propose_identity_level {
            return Err(Error::IdentityLevelTooLow);
        }
        let ghost dvp = self.proposals.deep_view();
        proof {
            lemma_first_key_index(dvp, id);
        }
        let idx = find_key(&self.proposals, id);
        let user_len: usize = match idx {
            Some(i) => {
                proof {
                    assert(dvp[i as int].0 == id);
                    assert(forall|j: int| 0 <= j < i ==> (#[trigger] dvp[j]).0 != id);
                    assert(first_key_index(dvp, id) == i as int);
                }
                self.proposals[i].1.len()
            },
            None => {
                proof {
                    assert(forall|j: int| 0 <= j < dvp.len() ==> (#[trigger] dvp[j]).0 != id);
                    assert(first_key_index(dvp, id) < 0);
                }
                0
            },
        };
        proof {
            assert(key_list_len(dvp, id) == user_len as int);
        }
        if user_len >= self.config.propose_user_cap as usize {
            return Err(Error::UserProposalLimitReached);
        }
        let dup = contains_rev(&self.proposal_to_identity, &proposal);
        if dup {
            return Err(Error::ProposalAlreadySubmitted);
        }
        let cid2 = clone_bytes(&proposal);
        let doc = Proposal::new(proposal);
        proof {
            assert(cid2.deep_view() =~= proposal@);
            assert(doc.deep_view() == (crate::types::ProposalV { proposal: proposal@, votes: 0 }));
        }
        push_to_key_list(&mut self.proposals, id, doc);
        self.proposal_to_identity.push((cid2, id));
        self.proposal_count = self.proposal_count + 1;
        proof {
            let dv1 = self.proposal_to_identity.deep_view();
            let t = old(self)@.proposal_to_identity.push((proposal@, id));
            assert forall|j: int| 0 <= j < dv1.len() implies dv1[j] == t[j] by {
                if j < old(self).proposal_to_identity@.len() {
                    assert(self.proposal_to_identity@[j] == old(self).proposal_to_identity@[j]);
                } else {
                    assert(self.proposal_to_identity@[j] == (cid2, id));
                }
            }
            assert(dv1 =~= t);
            assert(self@ =~= propose_apply(old(self)@, id, proposal@));
            lemma_propose_preserves_wf(old(self)@, id, level, proposal@);
        }
        Ok(())
    }

    /// As an identified user, submit a concern against a proposal.
    ///
    /// Validation order and effect are exactly [`concern_check`] and
    /// [`concern_apply`]; a rejected submission changes nothing.
    pub fn concern(
        &mut self,
        id: IdentityId,
        level: IdentityLevel,
        concern: ConcernCID,
        proposal: ProposalCID,
    ) -> (r: Result<(), Error>)
        requires
            old(self).wf(),
            id != 0,
        ensures
            final(self).wf(),
            r == concern_check(old(self)@, id, level, concern@, proposal@),
            r is Ok ==> final(self)@ == concern_apply(old(self)@, id, concern@, proposal@),
            r is Err ==> *final(self) == *old(self),
    {
        broadcast use lemma_deep_entry;

        if self.state != States::Concern {
            return Err(Error::WrongState);
        }
        if self.concern_count >= self.config.concern_cap {
            return Err(Error::ConcernLimitReached);
        }
        if level < self.config.concern_identity_level {
            return Err(Error::IdentityLevelTooLow);
        }
        let ghost dvc = self.concerns.deep_view();
        proof {
            lemma_first_key_index(dvc, id);
        }
        let idx = find_key(&self.concerns, id);
        let user_len: usize = match idx {
            Some(i) => {
                proof {
                    assert(dvc[i as int].0 == id);
                    assert(forall|j: int| 0 <= j < i ==> (#[trigger] dvc[j]).0 != id);
                    assert(first_key_index(dvc, id) == i as int);
                }
                self.concerns[i].1.len()
            },
            None => {
                proof {
                    assert(forall|j: int| 0 <= j < dvc.len() ==> (#[trigger] dvc[j]).0 != id);
                    assert(first_key_index(dvc, id) < 0);
                }
                0
            },
        };
        proof {
            assert(key_list_len(dvc, id) == user_len as int);
        }
        if user_len >= self.config.concern_user_cap as usize {
            return Err(Error::UserConcernLimitReached);
        }
        let dup = contains_crev(&self.concern_to_identity, &concern, &proposal);
        if dup {
            return Err(Error::ConcernAlreadySubmitted);
        }
        let ccid2 = clone_bytes(&concern);
        let pcid2 = clone_bytes(&proposal);
        let doc = Concern::new(concern, proposal);
        proof {
            assert(ccid2.deep_view() =~= concern@);
            assert(pcid2.deep_view() =~= proposal@);
            assert(doc.deep_view() == (crate::types::ConcernV {
                associated_proposal: proposal@,
                concern: concern@,
                votes: 0,
            }));
        }
        push_to_key_list(&mut self.concerns, id, doc);
        self.concern_to_identity.push(((ccid2, pcid2), id));
        self.concern_count = self.concern_count + 1;
        proof {
            let dv1 = self.concern_to_identity.deep_view();
            let t = old(self)@.concern_to_identity.push(((concern@, proposal@), id));
            assert forall|j: int| 0 <= j < dv1.len() implies dv1[j] == t[j] by {
                if j < old(self).concern_to_identity@.len() {
                    assert(self.concern_to_identity@[j] == old(self).concern_to_identity@[j]);
                } else {
                    assert(self.concern_to_identity@[j] == ((ccid2, pcid2), id));
                }
            }
            assert(dv1 =~= t);
            assert(self@ =~= concern_apply(old(self)@, id, concern@, proposal@));
            lemma_concern_preserves_wf(old(self)@, id, level, concern@, proposal@);
        }
        Ok(())
    }

    /// As an identified user, vote for a proposal.
    ///
    /// Validation order and effect are exactly [`vote_proposal_check`] and
    /// [`vote_proposal_apply`]; a rejected vote changes nothing.
    pub fn vote_proposal(
        &mut self,
        id: IdentityId,
        level: IdentityLevel,
        proposal: ProposalCID,
    ) -> (r: Result<(), Error>)
        requires
            old(self).wf(),
            id != 0,
        ensures
            final(self).wf(),
            r == vote_proposal_check(old(self)@, id, level, proposal@),
            r is Ok ==> final(self)@ == vote_proposal_apply(old(self)@, id, proposal@),
            r is Err ==> *final(self) == *old(self),
    {
        broadcast use lemma_deep_entry;

        if self.state != States::VotePropose {
            return Err(Error::WrongState);
        }
        let proposer = lookup_rev(&self.proposal_to_identity, &proposal);
        if proposer == 0 {
            return Err(Error::ProposalNotExistant);
        }
        if level < self.config.propose_vote_identity_level {
            return Err(Error::IdentityLevelTooLow);
        }
        let ghost dvl = self.proposal_votes.deep_view();
        proof {
            lemma_first_key_index(dvl, id);
        }
        let idx = find_key(&self.proposal_votes, id);
        let user_len: usize = match idx {
            Some(i) => {
                proof {
                    assert(dvl[i as int].0 == id);
                    assert(forall|j: int| 0 <= j < i ==> (#[trigger] dvl[j]).0 != id);
                    assert(first_key_index(dvl, id) == i as int);
                }
                self.proposal_votes[i].1.len()
            },
            None => {
                proof {
                    assert(forall|j: int| 0 <= j < dvl.len() ==> (#[trigger] dvl[j]).0 != id);
                    assert(first_key_index(dvl, id) < 0);
                }
                0
            },
        };
        proof {
            assert(key_list_len(dvl, id) == user_len as int);
        }
        if user_len >= self.config.propose_vote_max_per_user as usize {
            return Err(Error::UserProposalVoteLimitReached);
        }
        if self.config.reject_repeat_votes {
            let repeated = match idx {
                Some(i) => {
                    let r = list_contains_cid(&self.proposal_votes[i].1, &proposal);
                    proof {
                        assert(dvl[i as int].1 == self.proposal_votes@[i as int].1.deep_view());
                    }
                    r
                },
                None => false,
            };
            proof {
                assert(repeated == key_list_contains(dvl, id, proposal@));
            }
            if repeated {
                return Err(Error::ProposalAlreadySubmitted);
            }
        }
        let cid2 = clone_bytes(&proposal);
        proof {
            assert(cid2.deep_view() =~= proposal@);
        }
        push_to_key_list(&mut self.proposal_votes, id, cid2);
        bump_prop(&mut self.proposals, proposer, &proposal);
        self.proposal_vote_count = self.proposal_vote_count.saturating_add(1);
        proof {
            assert(self@ =~= vote_proposal_apply(old(self)@, id, proposal@));
            lemma_vote_proposal_preserves_wf(old(self)@, id, level, proposal@);
        }
        Ok(())
    }

    /// As an identified user, vote for a concern.
    ///
    /// Validation order and effect are exactly [`vote_concern_check`] and
    /// [`vote_concern_apply`]; a rejected vote changes nothing.
    pub fn vote_concern(
        &mut self,
        id: IdentityId,
        level: IdentityLevel,
        concern: ConcernCID,
        proposal: ProposalCID,
    ) -> (r: Result<(), Error>)
        requires
            old(self).wf(),
            id != 0,
        ensures
            final(self).wf(),
            r == vote_concern_check(old(self)@, id, level, concern@, proposal@),
            r is Ok ==> final(self)@ == vote_concern_apply(old(self)@, id, concern@, proposal@),
            r is Err ==> *final(self) == *old(self),
    {
        broadcast use lemma_deep_entry;

        if self.state != States::VoteConcern {
            return Err(Error::WrongState);
        }
        let proposer = lookup_crev(&self.concern_to_identity, &concern, &proposal);
        if proposer == 0 {
            return Err(Error::ConcernNotExistant);
        }
        if level < self.config.concern_vote_identity_level {
            return Err(Error::IdentityLevelTooLow);
        }
        let ghost dvl = self.concern_votes.deep_view();
        proof {
            lemma_first_key_index(dvl, id);
        }
        let idx = find_key(&self.concern_votes, id);
        let user_len: usize = match idx {
            Some(i) => {
                proof {
                    assert(dvl[i as int].0 == id);
                    assert(forall|j: int| 0 <= j < i ==> (#[trigger] dvl[j]).0 != id);
                    assert(first_key_index(dvl, id) == i as int);
                }
                self.concern_votes[i].1.len()
            },
            None => {
                proof {
                    assert(forall|j: int| 0 <= j < dvl.len() ==> (#[trigger] dvl[j]).0 != id);
                    assert(first_key_index(dvl, id) < 0);
                }
                0
            },
        };
        proof {
            assert(key_list_len(dvl, id) == user_len as int);
        }
        if user_len >= self.config.concern_vote_max_per_user as usize {
            return Err(Error::UserConcernVoteLimitReached);
        }
        if self.config.reject_repeat_votes {
            let repeated = match idx {
                Some(i) => {
                    let r = list_contains_cid(&self.concern_votes[i].1, &concern);
                    proof {
                        assert(dvl[i as int].1 == self.concern_votes@[i as int].1.deep_view());
                    }
                    r
                },
                None => false,
            };
            proof {
                assert(repeated == key_list_contains(dvl, id, concern@));
            }
            if repeated {
                return Err(Error::ConcernAlreadySubmitted);
            }
        }
        let ccid2 = clone_bytes(&concern);
        proof {
            assert(ccid2.deep_view() =~= concern@);
        }
        push_to_key_list(&mut self.concern_votes, id, ccid2);
        bump_concern(&mut self.concerns, proposer, &concern, &proposal);
        self.concern_vote_count = self.concern_vote_count.saturating_add(1);
        proof {
            assert(self@ =~= vote_concern_apply(old(self)@, id, concern@, proposal@));
            lemma_vote_concern_preserves_wf(old(self)@, id, level, concern@, proposal@);
        }
        Ok(())
    }
}

} // verus!
