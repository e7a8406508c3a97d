//! Community voting on campaigns and their verification.
use vstd::prelude::*;

use crate::constants::{BPS_DENOMINATOR, MAX_BATCH_SIZE};
use crate::laws::{law_bulk_verify_partial_success, verifiable_in};
use crate::campaigns::{lemma_wf_with_campaign, require_unverified_campaign};
use crate::state::{lemma_raised_same, lemma_set_backer, raised_from, share_of, Backer, CampaignEntry, Model, ProofOfHeart};
use crate::types::{refused_as, Address, Campaign, Effects, Error, Event, Ledger};

verus! {

impl Model {
    pub open spec fn vote_error(self, ledger: Ledger, id: u32, voter: Address, balance: i128) -> Option<Error> {
        if self.config.paused {
            Some(Error::ContractPaused)
        } else if !self.has_campaign(id) {
            Some(Error::CampaignNotFound)
        } else if !self.camp(id).spec_running() || ledger.timestamp > self.camp(id).deadline {
            Some(Error::CampaignNotActive)
        } else if self.camp(id).is_verified {
            Some(Error::CampaignAlreadyVerified)
        } else if self.backer(id, voter).has_voted {
            Some(Error::AlreadyVoted)
        } else if balance <= 0 || balance < self.config.min_voting_balance {
            Some(Error::NotTokenHolder)
        } else {
            None
        }
    }

    /// The vote tallies stay in range.
    pub open spec fn vote_fits(self, id: u32, approve: bool, balance: i128) -> bool {
        self.has_campaign(id) ==> if approve {
            self.entry(id).approve_votes < u32::MAX && i128::MIN <= self.entry(id).approve_weight + balance
                <= i128::MAX
        } else {
            self.entry(id).reject_votes < u32::MAX && i128::MIN <= self.entry(id).reject_weight + balance
                <= i128::MAX
        }
    }

    /// The state after a vote: the voter is marked, and the vote and its token weight are counted.
    pub open spec fn after_vote(self, id: u32, voter: Address, approve: bool, balance: i128) -> Model {
        let e = self.entry(id);
        let m = self.with_backer(id, voter, Backer { has_voted: true, ..self.backer(id, voter) });
        m.with_entry(
            id,
            if approve {
                CampaignEntry {
                    approve_votes: (e.approve_votes + 1) as u32,
                    approve_weight: (e.approve_weight + balance) as i128,
                    ..e
                }
            } else {
                CampaignEntry {
                    reject_votes: (e.reject_votes + 1) as u32,
                    reject_weight: (e.reject_weight + balance) as i128,
                    ..e
                }
            },
        )
    }

    pub open spec fn admin_verify_error(self, id: u32) -> Option<Error> {
        if !self.has_campaign(id) {
            Some(Error::CampaignNotFound)
        } else if self.camp(id).is_verified {
            Some(Error::AdminVerificationConflict)
        } else {
            None
        }
    }

    pub open spec fn verified(self, id: u32) -> Model {
        self.with_campaign(id, Campaign { is_verified: true, ..self.camp(id) })
    }

    /// Verifies, one after the other, the given campaigns: the state afterwards,
    /// the number verified, the first refusal and the events.
    pub open spec fn bulk_verify(self, ids: Seq<u32>) -> (Model, u32, Option<Error>, Seq<Event>)
        decreases ids.len(),
    {
        if ids.len() == 0 {
            (self, 0, None, Seq::empty())
        } else {
            let (m, count, first, events) = self.bulk_verify(ids.drop_last());
            let id = ids.last();
            match m.admin_verify_error(id) {
                None => (
                    m.verified(id),
                    (count + 1) as u32,
                    first,
                    events.push(Event::CampaignVerifiedByAdmin { campaign_id: id }),
                ),
                Some(e) => (m, count, if first is None {
                    Some(e)
                } else {
                    first
                }, events),
            }
        }
    }

    pub open spec fn batch_of(ids: Seq<u32>) -> Seq<u32> {
        if ids.len() > MAX_BATCH_SIZE {
            ids.take(MAX_BATCH_SIZE as int)
        } else {
            ids
        }
    }

    pub open spec fn votes_verify_error(self, id: u32) -> Option<Error> {
        if self.config.paused {
            Some(Error::ContractPaused)
        } else if !self.has_campaign(id) {
            Some(Error::CampaignNotFound)
        } else if self.camp(id).is_verified {
            Some(Error::CommunityVerificationConflict)
        } else if self.entry(id).approve_votes + self.entry(id).reject_votes < self.config.min_votes_quorum {
            Some(Error::VotingQuorumNotMet)
        } else if self.entry(id).approve_votes * BPS_DENOMINATOR < (self.entry(id).approve_votes
            + self.entry(id).reject_votes) * self.config.approval_threshold_bps {
            Some(Error::VotingThresholdNotMet)
        } else {
            None
        }
    }

    pub open spec fn purge_error(self, id: u32) -> Option<Error> {
        if !self.has_campaign(id) {
            Some(Error::CampaignNotFound)
        } else if !self.camp(id).funds_withdrawn && !self.camp(id).is_cancelled {
            Some(Error::ValidationFailed)
        } else {
            None
        }
    }

    /// The records after the votes of `voters` on campaign `id` are forgotten.
    pub open spec fn purged_backers(self, id: u32, voters: Seq<Address>) -> Seq<Backer> {
        self.backers.map_values(
            |b: Backer|
                if b.campaign_id == id && voters.contains(b.who) {
                    Backer { has_voted: false, ..b }
                } else {
                    b
                },
        )
    }

    pub open spec fn after_purge(self, id: u32, voters: Seq<Address>) -> Model {
        Model {
            backers: self.purged_backers(id, voters),
            ..self.with_entry(
                id,
                CampaignEntry { approve_votes: 0, reject_votes: 0, approve_weight: 0, reject_weight: 0, ..self.entry(id) },
            )
        }
    }
}

/// Verifying a campaign keeps the state well formed.
proof fn lemma_wf_verified(m: Model, id: u32)
    requires
        m.wf(),
        m.has_campaign(id),
    ensures
        m.verified(id).wf(),
{
    lemma_wf_with_campaign(m, id, Campaign { is_verified: true, ..m.camp(id) });
}

impl ProofOfHeart {
    /// Records a vote of `voter`, who holds `voter_balance` tokens, on an unverified running campaign.
    pub fn vote_on_campaign(&mut self, ledger: Ledger, id: u32, voter: Address, approve: bool, voter_balance: i128) -> (r:
        Result<Effects, Error>)
        requires
            old(self).wf(),
            old(self)@.vote_fits(id, approve, voter_balance),
        ensures
            final(self).wf(),
            refused_as(r, old(self)@.vote_error(ledger, id, voter, voter_balance)),
            r is Err ==> final(self)@ == old(self)@,
            r is Ok ==> {
                let e = old(self)@.campaigns[id - 1];
                &&& 1 <= id <= old(self)@.campaigns.len()
                &&& !old(self)@.config.paused && !e.campaign.is_verified && !e.campaign.is_cancelled && e.campaign.is_active
                &&& ledger.timestamp <= e.campaign.deadline
                &&& !old(self)@.backer(id, voter).has_voted && final(self)@.backer(id, voter).has_voted
                &&& voter_balance > 0 && voter_balance >= old(self)@.config.min_voting_balance
                &&& (approve ==> final(self)@.campaigns[id - 1].approve_votes == e.approve_votes + 1
                    && final(self)@.campaigns[id - 1].reject_votes == e.reject_votes)
                &&& (!approve ==> final(self)@.campaigns[id - 1].reject_votes == e.reject_votes + 1
                    && final(self)@.campaigns[id - 1].approve_votes == e.approve_votes)
            },
            r matches Ok(fx) ==> {
                &&& final(self)@ == old(self)@.after_vote(id, voter, approve, voter_balance)
                &&& fx.is(
                    Some(voter),
                    seq![],
                    seq![Event::CampaignVoteCast { campaign_id: id, voter, approve }],
                )
            },
    {
        self.require_not_paused()?;
        let i = self.slot(id)?;
        if self.campaigns[i].campaign.is_cancelled || !self.campaigns[i].campaign.is_active
            || ledger.timestamp > self.campaigns[i].campaign.deadline {
            return Err(Error::CampaignNotActive);
        }
        require_unverified_campaign(&self.campaigns[i].campaign)?;
        let b = self.backer_of(id, voter);
        if b.has_voted {
            return Err(Error::AlreadyVoted);
        }
        if voter_balance <= 0 || voter_balance < self.config.min_voting_balance {
            return Err(Error::NotTokenHolder);
        }
        let ghost pre = self@;
        let nb = Backer { has_voted: true, ..b };
        proof {
            lemma_set_backer(pre, nb);
        }
        self.put_backer(nb);
        if approve {
            self.campaigns[i].approve_votes = self.campaigns[i].approve_votes + 1;
            self.campaigns[i].approve_weight = self.campaigns[i].approve_weight + voter_balance;
        } else {
            self.campaigns[i].reject_votes = self.campaigns[i].reject_votes + 1;
            self.campaigns[i].reject_weight = self.campaigns[i].reject_weight + voter_balance;
        }
        proof {
            let want = pre.after_vote(id, voter, approve, voter_balance);
            assert(self@.campaigns =~= want.campaigns);
            assert(self@ == want);
            let n = self@;
            assert forall|k: int| 0 <= k < n.campaigns.len() && !(#[trigger] n.campaigns[k]).reused@ implies raised_from(
                n.backers,
                (k + 1) as u32,
            ) + n.campaigns[k].refunded@ == n.campaigns[k].campaign.amount_raised by {
                assert(raised_from(n.backers, (k + 1) as u32) == raised_from(pre.backers, (k + 1) as u32) - share_of(
                    pre.backer(id, voter),
                    (k + 1) as u32,
                ) + share_of(nb, (k + 1) as u32));
                assert(pre.campaigns[k].reused@ == n.campaigns[k].reused@);
            }
            assert forall|k: int| 0 <= k < n.campaigns.len() implies Model::entry_ok(#[trigger] n.campaigns[k]) by {
                assert(Model::entry_ok(pre.campaigns[k]));
            }
        }
        proof {
            crate::laws::law_vote_rules(old(self)@, ledger, id, voter, approve, voter_balance);
        }
        Ok(Effects::one(Some(voter), Event::CampaignVoteCast { campaign_id: id, voter, approve }))
    }

    /// Marks one campaign verified on the admin's authority (no pause or auth check here).
    fn admin_verify(&mut self, id: u32) -> (r: Result<(), Error>)
        requires
            old(self).wf(),
        ensures
            final(self).wf(),
            refused_as(r, old(self)@.admin_verify_error(id)),
            r is Err ==> final(self)@ == old(self)@,
            r is Ok ==> final(self)@ == old(self)@.verified(id),
    {
        let i = self.slot(id)?;
        if self.campaigns[i].campaign.is_verified {
            return Err(Error::AdminVerificationConflict);
        }
        proof {
            lemma_wf_verified(self@, id);
        }
        self.campaigns[i].campaign.is_verified = true;
        Ok(())
    }

    /// The admin verifies a campaign directly.
    pub fn verify_campaign(&mut self, id: u32) -> (r: Result<Effects, Error>)
        requires
            old(self).wf(),
            old(self)@.config.admin is Some,
        ensures
            final(self).wf(),
            refused_as(
                r,
                if old(self)@.config.paused {
                    Some(Error::ContractPaused)
                } else {
                    old(self)@.admin_verify_error(id)
                },
            ),
            r is Err ==> final(self)@ == old(self)@,
            r is Ok ==> 1 <= id <= old(self)@.campaigns.len() && !old(self)@.config.paused
                && !old(self)@.campaigns[id - 1].campaign.is_verified && final(self)@.campaigns[id - 1].campaign.is_verified,
            r matches Ok(fx) ==> {
                &&& final(self)@ == old(self)@.verified(id)
                &&& fx.is(Some(old(self)@.admin()), seq![], seq![Event::CampaignVerifiedByAdmin { campaign_id: id }])
            },
    {
        let admin = self.stored_admin();
        self.require_not_paused()?;
        self.admin_verify(id)?;
        Ok(Effects::one(Some(admin), Event::CampaignVerifiedByAdmin { campaign_id: id }))
    }

    /// The admin verifies up to 50 campaigns at once; returns how many were
    /// verified and the first refusal met.
    pub fn verify_campaigns(&mut self, campaign_ids: &Vec<u32>) -> (r: Result<(u32, Option<Error>, Effects), Error>)
        requires
            old(self).wf(),
            old(self)@.config.admin is Some,
            campaign_ids@.len() <= u32::MAX,
        ensures
            final(self).wf(),
            refused_as(r, old(self)@.paused_error()),
            r is Err ==> final(self)@ == old(self)@,
            r matches Ok((count, first, fx)) ==> {
                let (m, c, f, evs) = old(self)@.bulk_verify(Model::batch_of(campaign_ids@));
                let batch = if campaign_ids@.len() > MAX_BATCH_SIZE {
                    campaign_ids@.take(MAX_BATCH_SIZE as int)
                } else {
                    campaign_ids@
                };
                let after = final(self)@.campaigns;
                &&& forall|x: u32| #![trigger after[x - 1]]
                    batch.contains(x) && 1 <= x <= old(self)@.campaigns.len() ==> after[x - 1].campaign.is_verified
                &&& forall|i: int|
                    #![trigger after[i]]
                    0 <= i < old(self)@.campaigns.len() && !batch.contains((i + 1) as u32) ==> after[i]
                        == old(self)@.campaigns[i]
                &&& count == verifiable_in(old(self)@, batch).len()
                &&& (first is None <==> count == batch.len())
                &&& final(self)@ == m
                &&& count == c
                &&& first == f
                &&& fx.is(
                    Some(old(self)@.admin()),
                    seq![],
                    evs.push(Event::CampaignsBulkVerified { verified: c, requested: campaign_ids@.len() as u32 }),
                )
            },
    {
        let admin = self.stored_admin();
        self.require_not_paused()?;
        let n = campaign_ids.len();
        let batch = if n > MAX_BATCH_SIZE as usize {
            MAX_BATCH_SIZE as usize
        } else {
            n
        };
        let ghost pre = self@;
        let ghost ids = Model::batch_of(campaign_ids@);
        assert(ids.len() == batch);
        let mut count: u32 = 0;
        let mut first: Option<Error> = None;
        let mut events: Vec<Event> = Vec::new();
        let mut k: usize = 0;
        while k < batch
            invariant
                self.wf(),
                k <= batch,
                batch <= MAX_BATCH_SIZE,
                batch <= campaign_ids@.len(),
                ids == Model::batch_of(campaign_ids@),
                ids.len() == batch,
                count <= k,
                (self@, count, first, events@) == pre.bulk_verify(ids.take(k as int)),
            decreases batch - k,
        {
            let id = campaign_ids[k];
            proof {
                assert(ids.take(k + 1).drop_last() =~= ids.take(k as int));
                assert(ids[k as int] == campaign_ids@[k as int]);
            }
            match self.admin_verify(id) {
                Ok(()) => {
                    count = count + 1;
                    events.push(Event::CampaignVerifiedByAdmin { campaign_id: id });
                },
                Err(e) => {
                    if first.is_none() {
                        first = Some(e);
                    }
                },
            }
            k = k + 1;
        }
        assert(ids.take(batch as int) =~= ids);
        proof {
            law_bulk_verify_partial_success(pre, campaign_ids@);
        }
        events.push(Event::CampaignsBulkVerified { verified: count, requested: n as u32 });
        Ok((count, first, Effects { auth: Some(admin), transfers: Vec::new(), events }))
    }

    /// Verifies a campaign whose votes meet the quorum and the approval threshold.
    pub fn verify_campaign_with_votes(&mut self, id: u32) -> (r: Result<Effects, Error>)
        requires
            old(self).wf(),
        ensures
            final(self).wf(),
            refused_as(r, old(self)@.votes_verify_error(id)),
            r is Err ==> final(self)@ == old(self)@,
            r is Ok ==> {
                let e = old(self)@.campaigns[id - 1];
                let total = e.approve_votes + e.reject_votes;
                &&& 1 <= id <= old(self)@.campaigns.len()
                &&& !old(self)@.config.paused && !e.campaign.is_verified
                &&& total >= old(self)@.config.min_votes_quorum
                &&& e.approve_votes * 10000 >= total * old(self)@.config.approval_threshold_bps
                &&& final(self)@.campaigns[id - 1].campaign.is_verified
            },
            r matches Ok(fx) ==> {
                &&& final(self)@ == old(self)@.verified(id)
                &&& fx.is(
                    None,
                    seq![],
                    seq![
                        Event::CampaignVerifiedByVotes {
                            campaign_id: id,
                            approve_votes: old(self)@.entry(id).approve_votes,
                        },
                    ],
                )
            },
    {
        self.require_not_paused()?;
        let i = self.slot(id)?;
        if self.campaigns[i].campaign.is_verified {
            return Err(Error::CommunityVerificationConflict);
        }
        let approve = self.campaigns[i].approve_votes as u64;
        let reject = self.campaigns[i].reject_votes as u64;
        let total = approve + reject;
        if total < self.config.min_votes_quorum as u64 {
            return Err(Error::VotingQuorumNotMet);
        }
        let threshold = self.config.approval_threshold_bps as u64;
        assert(total * threshold <= 0x2_0000_0000u64 * 10000) by (nonlinear_arith)
            requires
                total < 0x2_0000_0000u64,
                threshold <= 10000,
        ;
        if approve * 10000 < total * threshold {
            return Err(Error::VotingThresholdNotMet);
        }
        let approve_votes = self.campaigns[i].approve_votes;
        proof {
            lemma_wf_verified(self@, id);
        }
        self.campaigns[i].campaign.is_verified = true;
        Ok(Effects::one(None, Event::CampaignVerifiedByVotes { campaign_id: id, approve_votes }))
    }

    /// Forgets the votes on a finished (withdrawn or cancelled) campaign (stored admin only).
    pub fn purge_voting_state(&mut self, id: u32, voters: &Vec<Address>) -> (r: Result<Effects, Error>)
        requires
            old(self).wf(),
            old(self)@.config.admin is Some,
        ensures
            final(self).wf(),
            refused_as(r, old(self)@.purge_error(id)),
            r is Err ==> final(self)@ == old(self)@,
            r matches Ok(fx) ==> {
                &&& final(self)@ == old(self)@.after_purge(id, voters@)
                &&& fx.is(Some(old(self)@.admin()), seq![], seq![Event::VotingStatePurged { campaign_id: id }])
            },
    {
        let admin = self.stored_admin();
        let i = self.slot(id)?;
        if !self.campaigns[i].campaign.funds_withdrawn && !self.campaigns[i].campaign.is_cancelled {
            return Err(Error::ValidationFailed);
        }
        let ghost pre = self@;
        self.campaigns[i].approve_votes = 0;
        self.campaigns[i].reject_votes = 0;
        self.campaigns[i].approve_weight = 0;
        self.campaigns[i].reject_weight = 0;
        let ghost mid = self@;
        assert(pre.purged_backers(id, voters@.take(0)) =~= pre.backers);
        let mut k: usize = 0;
        while k < voters.len()
            invariant
                k <= voters.len(),
                pre.wf(),
                self@ == (Model { backers: pre.purged_backers(id, voters@.take(k as int)), ..mid }),
                mid.backers == pre.backers,
            decreases voters.len() - k,
        {
            let v = voters[k];
            let ghost before = self@;
            proof {
                assert(before.backers_unique()) by {
                    assert forall|j: int, l: int|
                        0 <= j < before.backers.len() && 0 <= l < before.backers.len() && j != l implies !(
                        #[trigger] before.backers[j]).is_for(
                        (#[trigger] before.backers[l]).campaign_id,
                        before.backers[l].who,
                    ) by {
                        assert(!pre.backers[j].is_for(pre.backers[l].campaign_id, pre.backers[l].who));
                    }
                }
            }
            match self.find_backer(id, v) {
                Some(j) => {
                    let b = self.backers[j];
                    self.backers.set(j, Backer { has_voted: false, ..b });
                },
                None => {},
            }
            proof {
                let t = voters@.take(k + 1);
                assert(t =~= voters@.take(k as int).push(v));
                let want = pre.purged_backers(id, t);
                assert forall|j: int| 0 <= j < want.len() implies #[trigger] self@.backers[j] == want[j] by {
                    let pb = pre.backers[j];
                    if pb.campaign_id == id && pb.who == v {
                        assert(before.backers[j].is_for(id, v));
                        assert(before.has_backer(id, v));
                        let p = before.backer_pos(id, v);
                        assert(before.backers[p].is_for(id, v));
                        assert(t.contains(v)) by {
                            assert(t[k as int] == v);
                        }
                    } else {
                        if before.has_backer(id, v) {
                            let p = before.backer_pos(id, v);
                            assert(before.backers[p].is_for(id, v));
                            assert(p != j);
                        }
                        if pb.campaign_id == id {
                            assert(voters@.take(k as int).contains(pb.who) == t.contains(pb.who)) by {
                                if t.contains(pb.who) {
                                    let q = choose|q: int| 0 <= q < t.len() && t[q] == pb.who;
                                    assert(q < k);
                                    assert(voters@.take(k as int)[q] == pb.who);
                                }
                            }
                        }
                    }
                }
                assert(self@.backers =~= want);
            }
            k = k + 1;
        }
        proof {
            assert(voters@.take(voters@.len() as int) =~= voters@);
            let n = self@;
            assert(n == pre.after_purge(id, voters@)) by {
                assert(n.campaigns =~= pre.after_purge(id, voters@).campaigns);
            }
            assert forall|c: u32| #[trigger] raised_from(n.backers, c) == raised_from(pre.backers, c) by {
                lemma_raised_same(n.backers, pre.backers, c);
            }
            assert forall|k2: int| 0 <= k2 < n.campaigns.len() && !(#[trigger] n.campaigns[k2]).reused@ implies raised_from(
                n.backers,
                (k2 + 1) as u32,
            ) + n.campaigns[k2].refunded@ == n.campaigns[k2].campaign.amount_raised by {
                assert(pre.campaigns[k2].reused@ == n.campaigns[k2].reused@);
            }
            assert forall|k2: int| 0 <= k2 < n.campaigns.len() implies Model::entry_ok(#[trigger] n.campaigns[k2]) by {
                assert(Model::entry_ok(pre.campaigns[k2]));
            }
            assert forall|j: int, l: int|
                0 <= j < n.backers.len() && 0 <= l < n.backers.len() && j != l implies !(#[trigger] n.backers[j]).is_for(
                (#[trigger] n.backers[l]).campaign_id,
                n.backers[l].who,
            ) by {
                assert(!pre.backers[j].is_for(pre.backers[l].campaign_id, pre.backers[l].who));
            }
            assert forall|j: int| 0 <= j < n.backers.len() implies Model::backer_ok(#[trigger] n.backers[j]) by {
                assert(Model::backer_ok(pre.backers[j]));
            }
            assert forall|j: int| 0 <= j < n.backers.len() implies 1 <= #[trigger] n.backers[j].campaign_id
                <= n.campaigns.len() by {
                assert(1 <= pre.backers[j].campaign_id <= pre.campaigns.len());
            }
        }
        Ok(Effects::one(Some(admin), Event::VotingStatePurged { campaign_id: id }))
    }

    pub fn get_approve_votes(&self, id: u32) -> (r: u32)
        requires
            self.wf(),
        ensures
            r == (if self@.has_campaign(id) {
                self@.entry(id).approve_votes
            } else {
                0
            }),
    {
        match self.slot(id) {
            Ok(i) => self.campaigns[i].approve_votes,
            Err(_) => 0,
        }
    }

    pub fn get_reject_votes(&self, id: u32) -> (r: u32)
        requires
            self.wf(),
        ensures
            r == (if self@.has_campaign(id) {
                self@.entry(id).reject_votes
            } else {
                0
            }),
    {
        match self.slot(id) {
            Ok(i) => self.campaigns[i].reject_votes,
            Err(_) => 0,
        }
    }

    /// Whether `voter` has voted on campaign `id`.
    pub fn has_voted(&self, id: u32, voter: Address) -> (r: bool)
        requires
            self.wf(),
        ensures
            r == self@.backer(id, voter).has_voted,
    {
        self.backer_of(id, voter).has_voted
    }
}

} // verus!
