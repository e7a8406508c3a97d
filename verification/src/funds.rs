//! Money: contributions, withdrawal with fee and vesting reserve, refunds and revenue sharing.
use vstd::prelude::*;

use crate::constants::{
    AUTO_PAUSE_BURST_THRESHOLD, AUTO_PAUSE_SINGLE_CONTRIBUTION_BPS_THRESHOLD, BPS_DENOMINATOR, SECONDS_PER_DAY,
};
use crate::campaigns::{require_active_campaign, require_revenue_sharing};
use crate::state::{lemma_set_backer, raised_from, share_of, Backer, CampaignEntry, Model, ProofOfHeart};
use crate::types::{refused_as, Address, Campaign, CampaignReserve, Effects, Error, Event, Ledger, Transfer};

verus! {

/// Platform fee taken from `raised` at `fee_bps` basis points.
pub open spec fn spec_fee_amount(raised: int, fee_bps: int) -> int {
    raised * fee_bps / (BPS_DENOMINATOR as int)
}

/// What is withheld, in basis points, from what remains after the fee.
pub open spec fn spec_reserve_amount(after_fee: int, reserve_bps: int) -> int {
    after_fee * reserve_bps / (BPS_DENOMINATOR as int)
}

/// Part of a revenue pool that belongs to the contributors.
pub open spec fn spec_contributor_pool(pool: int, share_bps: int) -> int {
    pool * share_bps / (BPS_DENOMINATOR as int)
}

/// A contributor's due from the contributor pool, proportional to its contribution.
pub open spec fn spec_revenue_due(contribution: int, contributor_pool: int, raised: int) -> int {
    contribution * contributor_pool / raised
}

impl Model {
    /// The fee, in basis points, that applies to campaign `id`.
    pub open spec fn fee_bps_of(self, id: u32) -> u32 {
        match self.camp(id).fee_override {
            Some(f) => f,
            None => self.config.platform_fee,
        }
    }

    /// The number of contributions in the current ledger after one more.
    pub open spec fn next_block_count(self, sequence: u32) -> u32 {
        if sequence == self.block_sequence {
            (self.block_count + 1) as u32
        } else {
            1
        }
    }

    pub open spec fn contribute_error(self, ledger: Ledger, id: u32, who: Address, amount: i128) -> Option<Error> {
        if self.config.paused {
            Some(Error::ContractPaused)
        } else if amount <= 0 {
            Some(Error::ContributionMustBePositive)
        } else if !self.has_campaign(id) {
            Some(Error::CampaignNotFound)
        } else if !self.camp(id).is_verified {
            Some(Error::CampaignNotVerified)
        } else if !self.camp(id).spec_running() {
            Some(Error::CampaignNotActive)
        } else if who == self.camp(id).creator || who == self.camp(id).original_creator {
            Some(Error::NotAuthorized)
        } else if ledger.timestamp > self.camp(id).deadline {
            Some(Error::DeadlinePassed)
        } else if self.camp(id).max_contribution_per_user > 0 && self.backer(id, who).lifetime + amount
            > self.camp(id).max_contribution_per_user {
            Some(Error::ContributionCapExceeded)
        } else if self.backer(id, who).personal_cap matches Some(cap) && self.backer(id, who).contribution + amount
            > cap {
            Some(Error::ContributionCapExceeded)
        } else if amount * BPS_DENOMINATOR > self.camp(id).funding_goal * AUTO_PAUSE_SINGLE_CONTRIBUTION_BPS_THRESHOLD {
            Some(Error::ContractPaused)
        } else if self.next_block_count(ledger.sequence) > AUTO_PAUSE_BURST_THRESHOLD {
            Some(Error::ContractPaused)
        } else {
            None
        }
    }

    /// No amount computed by a contribution leaves the range of its type.
    pub open spec fn contribute_fits(self, id: u32, who: Address, amount: i128) -> bool {
        (self.has_campaign(id) && amount > 0) ==> {
            let b = self.backer(id, who);
            &&& b.lifetime + amount <= i128::MAX
            &&& b.contribution + amount <= i128::MAX
            &&& amount * BPS_DENOMINATOR <= i128::MAX
            &&& self.camp(id).funding_goal * AUTO_PAUSE_SINGLE_CONTRIBUTION_BPS_THRESHOLD <= i128::MAX
            &&& self.camp(id).funding_goal * AUTO_PAUSE_SINGLE_CONTRIBUTION_BPS_THRESHOLD >= i128::MIN
            &&& self.camp(id).amount_raised + amount <= i128::MAX
            &&& self.total_raised + amount <= i128::MAX
            &&& self.entry(id).contributor_count < u32::MAX
        }
    }

    pub open spec fn after_contribute(self, ledger: Ledger, id: u32, who: Address, amount: i128) -> Model {
        let b = self.backer(id, who);
        let e = self.entry(id);
        let m = self.with_backer(
            id,
            who,
            Backer {
                contribution: (b.contribution + amount) as i128,
                lifetime: (b.lifetime + amount) as i128,
                ..b
            },
        );
        Model {
            block_sequence: ledger.sequence,
            block_count: self.next_block_count(ledger.sequence),
            total_raised: (self.total_raised + amount) as i128,
            ..m.with_entry(
                id,
                CampaignEntry {
                    campaign: Campaign { amount_raised: (e.campaign.amount_raised + amount) as i128, ..e.campaign },
                    contributor_count: if b.lifetime == 0 {
                        (e.contributor_count + 1) as u32
                    } else {
                        e.contributor_count
                    },
                    ..e
                },
            )
        }
    }

    pub open spec fn withdraw_error(self, ledger: Ledger, id: u32) -> Option<Error> {
        if !self.has_campaign(id) {
            Some(Error::CampaignNotFound)
        } else if self.config.paused {
            Some(Error::ContractPaused)
        } else if !self.camp(id).is_verified {
            Some(Error::CampaignNotVerified)
        } else if self.camp(id).is_cancelled {
            Some(Error::CampaignNotActive)
        } else if self.camp(id).funds_withdrawn {
            Some(Error::NoFundsToWithdraw)
        } else if self.camp(id).amount_raised == 0 {
            Some(Error::NoFundsToWithdraw)
        } else if self.camp(id).amount_raised < self.camp(id).funding_goal {
            Some(Error::FundingGoalNotReached)
        } else if self.withdraw_reserve_amount(id) > 0 && ledger.timestamp + self.config.withdraw_delay_days
            * SECONDS_PER_DAY > u64::MAX {
            Some(Error::Overflow)
        } else {
            None
        }
    }

    pub open spec fn withdraw_fee_amount(self, id: u32) -> int {
        spec_fee_amount(self.camp(id).amount_raised as int, self.fee_bps_of(id) as int)
    }

    pub open spec fn withdraw_after_fee(self, id: u32) -> int {
        self.camp(id).amount_raised - self.withdraw_fee_amount(id)
    }

    pub open spec fn withdraw_reserve_amount(self, id: u32) -> int {
        spec_reserve_amount(self.withdraw_after_fee(id), self.config.withdraw_reserve_bps as int)
    }

    /// What the creator receives at once.
    pub open spec fn withdraw_creator_amount(self, id: u32) -> int {
        self.withdraw_after_fee(id) - self.withdraw_reserve_amount(id)
    }

    pub open spec fn withdraw_fits(self, id: u32) -> bool {
        self.has_campaign(id) ==> {
            &&& self.camp(id).amount_raised * self.fee_bps_of(id) <= i128::MAX
            &&& self.withdraw_after_fee(id) * self.config.withdraw_reserve_bps <= i128::MAX
            &&& self.total_raised - self.camp(id).amount_raised >= i128::MIN
        }
    }

    pub open spec fn after_withdraw(self, ledger: Ledger, id: u32) -> Model {
        let e = self.entry(id);
        let reserve = self.withdraw_reserve_amount(id);
        Model {
            total_raised: (self.total_raised - e.campaign.amount_raised) as i128,
            ..self.with_entry(
                id,
                CampaignEntry {
                    campaign: Campaign { funds_withdrawn: true, is_active: false, ..e.campaign },
                    reserve: if reserve > 0 {
                        Some(
                            CampaignReserve {
                                amount: reserve as i128,
                                release_timestamp: (ledger.timestamp + self.config.withdraw_delay_days
                                    * SECONDS_PER_DAY) as u64,
                                released: false,
                            },
                        )
                    } else {
                        e.reserve
                    },
                    ..e
                },
            )
        }
    }

    /// The events of a successful withdrawal.
    pub open spec fn withdraw_events(self, id: u32) -> Seq<Event> {
        let w = Event::Withdrawal {
            campaign_id: id,
            creator: self.camp(id).creator,
            amount: self.withdraw_creator_amount(id) as i128,
        };
        if self.withdraw_reserve_amount(id) > 0 {
            seq![w, Event::ReserveWithheld { campaign_id: id, amount: self.withdraw_reserve_amount(id) as i128 }]
        } else {
            seq![w]
        }
    }

    pub open spec fn reserve_of(self, id: u32) -> Option<CampaignReserve> {
        if self.has_campaign(id) {
            self.entry(id).reserve
        } else {
            None
        }
    }

    pub open spec fn withdraw_reserve_error(self, ledger: Ledger, id: u32) -> Option<Error> {
        match self.reserve_of(id) {
            None => Some(Error::NoFundsToWithdraw),
            Some(r) => if r.released {
                Some(Error::FundsAlreadyWithdrawn)
            } else if ledger.timestamp < r.release_timestamp {
                Some(Error::ValidationFailed)
            } else {
                None
            },
        }
    }

    pub open spec fn refund_error(self, ledger: Ledger, id: u32, who: Address) -> Option<Error> {
        if self.config.paused {
            Some(Error::ContractPaused)
        } else if !self.has_campaign(id) {
            Some(Error::CampaignNotFound)
        } else if !(self.camp(id).is_cancelled || (ledger.timestamp > self.camp(id).deadline
            && self.camp(id).amount_raised < self.camp(id).funding_goal)) {
            Some(Error::ValidationFailed)
        } else if self.backer(id, who).contribution == 0 {
            Some(Error::NoFundsToWithdraw)
        } else {
            None
        }
    }

    pub open spec fn refund_fits(self, id: u32, who: Address) -> bool {
        self.has_campaign(id) ==> self.total_raised - self.backer(id, who).contribution >= i128::MIN
    }

    pub open spec fn after_refund(self, id: u32, who: Address) -> Model {
        let b = self.backer(id, who);
        let e = self.entry(id);
        let m = self.with_backer(id, who, Backer { contribution: 0, lifetime: 0, revenue_claimed: 0, ..b });
        Model {
            total_raised: (self.total_raised - b.contribution) as i128,
            ..m.with_entry(
                id,
                CampaignEntry {
                    contributor_count: if e.contributor_count > 0 {
                        (e.contributor_count - 1) as u32
                    } else {
                        0
                    },
                    refunded: Ghost(e.refunded@ + b.contribution),
                    ..e
                },
            )
        }
    }

    pub open spec fn deposit_error(self, id: u32, amount: i128) -> Option<Error> {
        if !self.has_campaign(id) {
            Some(Error::CampaignNotFound)
        } else if self.config.paused {
            Some(Error::ContractPaused)
        } else if amount <= 0 {
            Some(Error::ValidationFailed)
        } else if self.camp(id).is_cancelled {
            Some(Error::CampaignNotActive)
        } else if !self.camp(id).has_revenue_sharing {
            Some(Error::RevenueSharingNotEnabled)
        } else {
            None
        }
    }

    pub open spec fn contributor_pool_of(self, id: u32) -> int {
        spec_contributor_pool(self.entry(id).revenue_pool as int, self.camp(id).revenue_share_percentage as int)
    }

    pub open spec fn revenue_due_of(self, id: u32, who: Address) -> int {
        spec_revenue_due(
            self.backer(id, who).contribution as int,
            self.contributor_pool_of(id),
            self.camp(id).amount_raised as int,
        )
    }

    pub open spec fn claim_revenue_error(self, id: u32, who: Address) -> Option<Error> {
        if self.config.paused {
            Some(Error::ContractPaused)
        } else if !self.has_campaign(id) {
            Some(Error::CampaignNotFound)
        } else if !self.camp(id).has_revenue_sharing {
            Some(Error::ValidationFailed)
        } else if self.backer(id, who).contribution == 0 {
            Some(Error::ValidationFailed)
        } else if self.camp(id).amount_raised == 0 {
            Some(Error::AmountRaisedIsZero)
        } else if self.backer(id, who).contribution * self.contributor_pool_of(id) > i128::MAX {
            Some(Error::Overflow)
        } else if self.revenue_due_of(id, who) - self.backer(id, who).revenue_claimed <= 0 {
            Some(Error::NoFundsToWithdraw)
        } else {
            None
        }
    }

    /// The revenue pool computations stay in range.
    pub open spec fn pool_fits(self, id: u32) -> bool {
        self.has_campaign(id) ==> self.entry(id).revenue_pool * self.camp(id).revenue_share_percentage <= i128::MAX
    }

    pub open spec fn creator_share_of(self, id: u32) -> int {
        self.entry(id).revenue_pool - self.contributor_pool_of(id)
    }

    pub open spec fn claim_creator_revenue_error(self, id: u32) -> Option<Error> {
        if !self.has_campaign(id) {
            Some(Error::CampaignNotFound)
        } else if self.config.paused {
            Some(Error::ContractPaused)
        } else if !self.camp(id).has_revenue_sharing {
            Some(Error::ValidationFailed)
        } else if self.camp(id).revenue_share_percentage > BPS_DENOMINATOR {
            Some(Error::ValidationFailed)
        } else if self.creator_share_of(id) - self.entry(id).creator_revenue_claimed <= 0 {
            Some(Error::NoFundsToWithdraw)
        } else {
            None
        }
    }

    pub open spec fn personal_cap_error(self, id: u32, amount: i128) -> Option<Error> {
        if amount < 0 {
            Some(Error::ValidationFailed)
        } else if !self.has_campaign(id) {
            Some(Error::CampaignNotFound)
        } else {
            None
        }
    }
}

/// The platform fee and the reserve never exceed what they are taken from, and
/// the three parts of a withdrawal add up to the amount raised.
pub proof fn lemma_withdraw_split(raised: int, fee_bps: int, reserve_bps: int)
    requires
        raised >= 0,
        0 <= fee_bps <= BPS_DENOMINATOR,
        0 <= reserve_bps <= BPS_DENOMINATOR,
    ensures
        0 <= spec_fee_amount(raised, fee_bps) <= raised,
        0 <= spec_reserve_amount(raised - spec_fee_amount(raised, fee_bps), reserve_bps) <= raised - spec_fee_amount(
            raised,
            fee_bps,
        ),
{
    assert(0 <= raised * fee_bps <= raised * BPS_DENOMINATOR) by (nonlinear_arith)
        requires
            raised >= 0,
            0 <= fee_bps <= BPS_DENOMINATOR,
    ;
    let a = raised - spec_fee_amount(raised, fee_bps);
    assert(a >= 0);
    assert(0 <= a * reserve_bps <= a * BPS_DENOMINATOR) by (nonlinear_arith)
        requires
            a >= 0,
            0 <= reserve_bps <= BPS_DENOMINATOR,
    ;
}

/// The contributor pool is part of the revenue pool.
pub proof fn lemma_pool_split(pool: int, share_bps: int)
    requires
        pool >= 0,
        0 <= share_bps <= BPS_DENOMINATOR,
    ensures
        0 <= spec_contributor_pool(pool, share_bps) <= pool,
{
    assert(0 <= pool * share_bps <= pool * BPS_DENOMINATOR) by (nonlinear_arith)
        requires
            pool >= 0,
            0 <= share_bps <= BPS_DENOMINATOR,
    ;
}

/// A contributor's due is at most the contributor pool.
pub proof fn lemma_due_bounded(contribution: int, contributor_pool: int, raised: int)
    requires
        0 <= contribution <= raised,
        0 < raised,
        contributor_pool >= 0,
    ensures
        0 <= spec_revenue_due(contribution, contributor_pool, raised) <= contributor_pool,
{
    assert(0 <= contribution * contributor_pool <= raised * contributor_pool) by (nonlinear_arith)
        requires
            0 <= contribution <= raised,
            contributor_pool >= 0,
    ;
    assert((raised * contributor_pool) / raised == contributor_pool) by (nonlinear_arith)
        requires
            raised > 0,
    ;
    assert((contribution * contributor_pool) / raised <= (raised * contributor_pool) / raised) by (nonlinear_arith)
        requires
            0 <= contribution * contributor_pool <= raised * contributor_pool,
            raised > 0,
    ;
}


impl ProofOfHeart {
    /// Contributes `amount` tokens from `who` to a verified, running campaign.
    pub fn contribute(&mut self, ledger: Ledger, id: u32, who: Address, amount: i128) -> (r: Result<
        Effects,
        Error,
    >)
        requires
            old(self).wf(),
            old(self)@.contribute_fits(id, who, amount),
        ensures
            final(self).wf(),
            refused_as(r, old(self)@.contribute_error(ledger, id, who, amount)),
            r is Err ==> final(self)@ == old(self)@,
            r matches Ok(fx) ==> {
                let c = old(self)@.campaigns[id - 1].campaign;
                let b = old(self)@.backer(id, who);
                &&& 1 <= id <= old(self)@.campaigns.len()
                &&& !old(self)@.config.paused && amount > 0
                &&& c.is_verified && c.is_active && !c.is_cancelled && ledger.timestamp <= c.deadline
                &&& who != c.creator && who != c.original_creator
                &&& (c.max_contribution_per_user > 0 ==> b.lifetime + amount <= c.max_contribution_per_user)
                &&& (b.personal_cap matches Some(cap) ==> b.contribution + amount <= cap)
                &&& amount * 10000 <= c.funding_goal * 20000
                &&& fx.transfers@ == seq![Transfer { from: who, to: ledger.contract, amount }]
                &&& final(self)@.campaigns[id - 1].campaign.amount_raised == c.amount_raised + amount
                &&& final(self)@.backer(id, who).contribution == b.contribution + amount
                &&& final(self)@.backer(id, who).lifetime == b.lifetime + amount
                &&& final(self)@.total_raised == old(self)@.total_raised + amount
            },
            r matches Ok(fx) ==> {
                &&& final(self)@ == old(self)@.after_contribute(ledger, id, who, amount)
                &&& fx.is(
                    Some(who),
                    seq![Transfer { from: who, to: ledger.contract, amount }],
                    seq![Event::ContributionMade { campaign_id: id, contributor: who, amount }],
                )
            },
    {
        if self.config.paused {
            return Err(Error::ContractPaused);
        }
        if amount <= 0 {
            return Err(Error::ContributionMustBePositive);
        }
        let i = self.slot(id)?;
        if !self.campaigns[i].campaign.is_verified {
            return Err(Error::CampaignNotVerified);
        }
        require_active_campaign(&self.campaigns[i].campaign)?;
        if who == self.campaigns[i].campaign.creator || who == self.campaigns[i].campaign.original_creator {
            return Err(Error::NotAuthorized);
        }
        if ledger.timestamp > self.campaigns[i].campaign.deadline {
            return Err(Error::DeadlinePassed);
        }
        let b = self.backer_of(id, who);
        let max = self.campaigns[i].campaign.max_contribution_per_user;
        if max > 0 && b.lifetime + amount > max {
            return Err(Error::ContributionCapExceeded);
        }
        match b.personal_cap {
            Some(cap) => {
                if b.contribution + amount > cap {
                    return Err(Error::ContributionCapExceeded);
                }
            },
            None => {},
        }
        if amount * 10000 > self.campaigns[i].campaign.funding_goal * AUTO_PAUSE_SINGLE_CONTRIBUTION_BPS_THRESHOLD {
            return Err(Error::ContractPaused);
        }
        let count = if ledger.sequence == self.block_sequence {
            self.block_count + 1
        } else {
            1
        };
        if count > AUTO_PAUSE_BURST_THRESHOLD {
            return Err(Error::ContractPaused);
        }
        let ghost pre = self@;
        let nb = Backer { contribution: b.contribution + amount, lifetime: b.lifetime + amount, ..b };
        proof {
            lemma_set_backer(pre, nb);
        }
        self.put_backer(nb);
        let ghost m = self@;
        self.campaigns[i].campaign.amount_raised = self.campaigns[i].campaign.amount_raised + amount;
        if b.lifetime == 0 {
            self.campaigns[i].contributor_count = self.campaigns[i].contributor_count + 1;
        }
        self.block_sequence = ledger.sequence;
        self.block_count = count;
        self.total_raised = self.total_raised + amount;
        proof {
            let e = pre.entry(id);
            let want = pre.after_contribute(ledger, id, who, amount);
            assert(self@.campaigns =~= want.campaigns);
            assert(self@ == want);
            let n = self@;
            assert forall|k: int| 0 <= k < n.campaigns.len() && !(#[trigger] n.campaigns[k]).reused@ implies raised_from(
                n.backers,
                (k + 1) as u32,
            ) + n.campaigns[k].refunded@ == n.campaigns[k].campaign.amount_raised by {
                assert(raised_from(n.backers, (k + 1) as u32) == raised_from(pre.backers, (k + 1) as u32) - share_of(
                    pre.backer(id, who),
                    (k + 1) as u32,
                ) + share_of(nb, (k + 1) as u32));
                assert(pre.campaigns[k].reused@ == n.campaigns[k].reused@);
            }
            assert forall|k: int| 0 <= k < n.campaigns.len() implies Model::entry_ok(#[trigger] n.campaigns[k]) by {
                assert(Model::entry_ok(pre.campaigns[k]));
            }
        }
        proof {
            crate::laws::law_contribution_rules(old(self)@, ledger, id, who, amount);
        }
        Ok(
            Effects::with_transfer(
                Some(who),
                Transfer { from: who, to: ledger.contract, amount },
                Event::ContributionMade { campaign_id: id, contributor: who, amount },
            ),
        )
    }
}

impl ProofOfHeart {
    /// The creator withdraws what a successful campaign raised: the platform fee
    /// goes to the admin, a share of the rest is withheld as a reserve, the
    /// remainder goes to the creator.
    #[verifier::spinoff_prover]
    #[verifier::rlimit(60)]
    pub fn withdraw_funds(&mut self, ledger: Ledger, id: u32) -> (r: Result<Effects, Error>)
        requires
            old(self).wf(),
            old(self)@.config.admin is Some || old(self)@.withdraw_error(ledger, id) is Some,
            old(self)@.withdraw_fits(id),
        ensures
            final(self).wf(),
            refused_as(r, old(self)@.withdraw_error(ledger, id)),
            r is Err ==> final(self)@ == old(self)@,
            r matches Ok(fx) ==> {
                let e = old(self)@.campaigns[id - 1];
                let c = e.campaign;
                let bps: int = match c.fee_override {
                    Some(f) => f as int,
                    None => old(self)@.config.platform_fee as int,
                };
                let fee = c.amount_raised * bps / 10000;
                let rest = c.amount_raised - fee;
                let reserve = rest * (old(self)@.config.withdraw_reserve_bps as int) / 10000;
                &&& 1 <= id <= old(self)@.campaigns.len()
                &&& c.is_verified && !c.is_cancelled && !c.funds_withdrawn && 0 < c.amount_raised
                &&& c.funding_goal <= c.amount_raised
                &&& !old(self)@.config.paused
                &&& fx.transfers@.len() == 2
                &&& fx.transfers@[0] == Transfer { from: ledger.contract, to: old(self)@.config.admin->0, amount: fee as i128 }
                &&& fx.transfers@[1] == Transfer { from: ledger.contract, to: c.creator, amount: (rest - reserve) as i128 }
                &&& final(self)@.campaigns[id - 1].campaign.funds_withdrawn
                &&& !final(self)@.campaigns[id - 1].campaign.is_active
                &&& final(self)@.total_raised == old(self)@.total_raised - c.amount_raised
                &&& (reserve > 0 ==> final(self)@.campaigns[id - 1].reserve == Some(
                    CampaignReserve {
                        amount: reserve as i128,
                        release_timestamp: (ledger.timestamp + old(self)@.config.withdraw_delay_days * 86400) as u64,
                        released: false,
                    },
                ))
            },
            r matches Ok(fx) ==> {
                &&& final(self)@ == old(self)@.after_withdraw(ledger, id)
                &&& fx.is(
                    Some(old(self)@.camp(id).creator),
                    seq![
                        Transfer {
                            from: ledger.contract,
                            to: old(self)@.admin(),
                            amount: old(self)@.withdraw_fee_amount(id) as i128,
                        },
                        Transfer {
                            from: ledger.contract,
                            to: old(self)@.camp(id).creator,
                            amount: old(self)@.withdraw_creator_amount(id) as i128,
                        },
                    ],
                    old(self)@.withdraw_events(id),
                )
            },
    {
        let i = self.slot(id)?;
        self.require_not_paused()?;
        let ghost pre = self@;
        let creator = self.campaigns[i].campaign.creator;
        if !self.campaigns[i].campaign.is_verified {
            return Err(Error::CampaignNotVerified);
        }
        if self.campaigns[i].campaign.is_cancelled {
            return Err(Error::CampaignNotActive);
        }
        if self.campaigns[i].campaign.funds_withdrawn {
            return Err(Error::NoFundsToWithdraw);
        }
        let raised = self.campaigns[i].campaign.amount_raised;
        if raised == 0 {
            return Err(Error::NoFundsToWithdraw);
        }
        if raised < self.campaigns[i].campaign.funding_goal {
            return Err(Error::FundingGoalNotReached);
        }
        let fee_bps = match self.campaigns[i].campaign.fee_override {
            Some(f) => f,
            None => self.config.platform_fee,
        };
        assert(raised >= 0 && fee_bps <= BPS_DENOMINATOR);
        proof {
            lemma_withdraw_split(raised as int, fee_bps as int, pre.config.withdraw_reserve_bps as int);
        }
        let fee_amount = (raised * (fee_bps as i128)) / 10000;
        let after_fee = raised - fee_amount;
        let reserve_bps = self.config.withdraw_reserve_bps;
        let reserve_amount = (after_fee * (reserve_bps as i128)) / 10000;
        let creator_amount = after_fee - reserve_amount;
        assert(fee_amount == pre.withdraw_fee_amount(id));
        assert(reserve_amount == pre.withdraw_reserve_amount(id));
        let mut release: u64 = 0;
        if reserve_amount > 0 {
            release = match ledger.timestamp.checked_add(self.config.withdraw_delay_days * SECONDS_PER_DAY) {
                Some(t) => t,
                None => {
                    return Err(Error::Overflow);
                },
            };
        }
        let admin = self.stored_admin();
        self.campaigns[i].campaign.funds_withdrawn = true;
        self.campaigns[i].campaign.is_active = false;
        if reserve_amount > 0 {
            self.campaigns[i].reserve = Some(
                CampaignReserve { amount: reserve_amount, release_timestamp: release, released: false },
            );
        }
        self.total_raised = self.total_raised - raised;
        proof {
            let want = pre.after_withdraw(ledger, id);
            assert(self@.campaigns =~= want.campaigns);
            assert(self@ == want);
            let n = self@;
            assert forall|k: int| 0 <= k < n.campaigns.len() && !(#[trigger] n.campaigns[k]).reused@ implies raised_from(
                n.backers,
                (k + 1) as u32,
            ) + n.campaigns[k].refunded@ == n.campaigns[k].campaign.amount_raised by {
                assert(pre.campaigns[k].reused@ == n.campaigns[k].reused@);
            }
            assert forall|k: int| 0 <= k < n.campaigns.len() implies Model::entry_ok(#[trigger] n.campaigns[k]) by {
                assert(Model::entry_ok(pre.campaigns[k]));
            }
        }
        let mut transfers = Vec::new();
        transfers.push(Transfer { from: ledger.contract, to: admin, amount: fee_amount });
        transfers.push(Transfer { from: ledger.contract, to: creator, amount: creator_amount });
        let mut events = Vec::new();
        events.push(Event::Withdrawal { campaign_id: id, creator, amount: creator_amount });
        if reserve_amount > 0 {
            events.push(Event::ReserveWithheld { campaign_id: id, amount: reserve_amount });
        }
        assert(events@ =~= pre.withdraw_events(id));
        assert(transfers@ =~= seq![
            Transfer { from: ledger.contract, to: pre.admin(), amount: pre.withdraw_fee_amount(id) as i128 },
            Transfer { from: ledger.contract, to: pre.camp(id).creator, amount: pre.withdraw_creator_amount(id) as i128 },
        ]);
        proof {
            crate::laws::law_withdrawal_amounts(old(self)@, ledger, id);
        }
        Ok(Effects { auth: Some(creator), transfers, events })
    }

    /// The creator takes the withheld reserve once its release time has come.
    pub fn withdraw_reserve(&mut self, ledger: Ledger, id: u32) -> (r: Result<Effects, Error>)
        requires
            old(self).wf(),
        ensures
            final(self).wf(),
            refused_as(r, old(self)@.withdraw_reserve_error(ledger, id)),
            r is Err ==> final(self)@ == old(self)@,
            r matches Ok(fx) ==> {
                let res = old(self)@.entry(id).reserve.unwrap();
                &&& final(self)@ == old(self)@.with_entry(
                    id,
                    CampaignEntry {
                        reserve: Some(CampaignReserve { released: true, ..res }),
                        ..old(self)@.entry(id)
                    },
                )
                &&& fx.is(
                    Some(old(self)@.camp(id).creator),
                    seq![Transfer { from: ledger.contract, to: old(self)@.camp(id).creator, amount: res.amount }],
                    seq![
                        Event::ReserveReleased {
                            campaign_id: id,
                            creator: old(self)@.camp(id).creator,
                            amount: res.amount,
                        },
                    ],
                )
            },
    {
        let i = match self.slot(id) {
            Ok(i) => i,
            Err(_) => {
                return Err(Error::NoFundsToWithdraw);
            },
        };
        let res = match self.campaigns[i].reserve {
            Some(r) => r,
            None => {
                return Err(Error::NoFundsToWithdraw);
            },
        };
        if res.released {
            return Err(Error::FundsAlreadyWithdrawn);
        }
        if ledger.timestamp < res.release_timestamp {
            return Err(Error::ValidationFailed);
        }
        let ghost pre = self@;
        let creator = self.campaigns[i].campaign.creator;
        self.campaigns[i].reserve = Some(CampaignReserve { released: true, ..res });
        proof {
            let n = self@;
            assert(n.campaigns =~= pre.campaigns.update(
                i as int,
                CampaignEntry { reserve: Some(CampaignReserve { released: true, ..res }), ..pre.entry(id) },
            ));
            assert forall|k: int| 0 <= k < n.campaigns.len() && !(#[trigger] n.campaigns[k]).reused@ implies raised_from(
                n.backers,
                (k + 1) as u32,
            ) + n.campaigns[k].refunded@ == n.campaigns[k].campaign.amount_raised by {
                assert(pre.campaigns[k].reused@ == n.campaigns[k].reused@);
            }
            assert forall|k: int| 0 <= k < n.campaigns.len() implies Model::entry_ok(#[trigger] n.campaigns[k]) by {
                assert(Model::entry_ok(pre.campaigns[k]));
            }
        }
        Ok(
            Effects::with_transfer(
                Some(creator),
                Transfer { from: ledger.contract, to: creator, amount: res.amount },
                Event::ReserveReleased { campaign_id: id, creator, amount: res.amount },
            ),
        )
    }

    /// A contributor takes its contribution back from a cancelled campaign, or
    /// from one whose deadline passed short of its goal.
    pub fn claim_refund(&mut self, ledger: Ledger, id: u32, who: Address) -> (r: Result<Effects, Error>)
        requires
            old(self).wf(),
            old(self)@.refund_fits(id, who),
        ensures
            final(self).wf(),
            refused_as(r, old(self)@.refund_error(ledger, id, who)),
            r is Err ==> final(self)@ == old(self)@,
            r matches Ok(fx) ==> {
                let c = old(self)@.campaigns[id - 1].campaign;
                &&& 1 <= id <= old(self)@.campaigns.len()
                &&& !old(self)@.config.paused
                &&& (c.is_cancelled || (ledger.timestamp > c.deadline && c.amount_raised < c.funding_goal))
                &&& old(self)@.backer(id, who).contribution > 0
                &&& fx.transfers@ == seq![Transfer { from: ledger.contract, to: who, amount: old(self)@.backer(id, who).contribution }]
                &&& final(self)@.backer(id, who).contribution == 0
                &&& final(self)@.total_raised == old(self)@.total_raised - old(self)@.backer(id, who).contribution
            },
            r matches Ok(fx) ==> {
                let amount = old(self)@.backer(id, who).contribution;
                &&& final(self)@ == old(self)@.after_refund(id, who)
                &&& fx.is(
                    Some(who),
                    seq![Transfer { from: ledger.contract, to: who, amount }],
                    seq![Event::RefundClaimed { campaign_id: id, contributor: who, amount }],
                )
            },
    {
        self.require_not_paused()?;
        let i = self.slot(id)?;
        let failed = ledger.timestamp > self.campaigns[i].campaign.deadline && self.campaigns[i].campaign.amount_raised
            < self.campaigns[i].campaign.funding_goal;
        if !(self.campaigns[i].campaign.is_cancelled || failed) {
            return Err(Error::ValidationFailed);
        }
        let b = self.backer_of(id, who);
        let amount = b.contribution;
        if amount == 0 {
            return Err(Error::NoFundsToWithdraw);
        }
        let ghost pre = self@;
        let nb = Backer { contribution: 0, lifetime: 0, revenue_claimed: 0, ..b };
        proof {
            lemma_set_backer(pre, nb);
        }
        self.put_backer(nb);
        let count = self.campaigns[i].contributor_count;
        if count > 0 {
            self.campaigns[i].contributor_count = count - 1;
        }
        let ghost refunded = self.campaigns@[i as int].refunded@;
        self.campaigns[i].refunded = Ghost(refunded + amount);
        self.total_raised = self.total_raised - amount;
        proof {
            let want = pre.after_refund(id, who);
            assert(self@.campaigns =~= want.campaigns);
            assert(self@ == want);
            let n = self@;
            assert forall|k: int| 0 <= k < n.campaigns.len() && !(#[trigger] n.campaigns[k]).reused@ implies raised_from(
                n.backers,
                (k + 1) as u32,
            ) + n.campaigns[k].refunded@ == n.campaigns[k].campaign.amount_raised by {
                assert(raised_from(n.backers, (k + 1) as u32) == raised_from(pre.backers, (k + 1) as u32) - share_of(
                    pre.backer(id, who),
                    (k + 1) as u32,
                ) + share_of(nb, (k + 1) as u32));
                assert(pre.campaigns[k].reused@ == n.campaigns[k].reused@);
            }
            assert forall|k: int| 0 <= k < n.campaigns.len() implies Model::entry_ok(#[trigger] n.campaigns[k]) by {
                assert(Model::entry_ok(pre.campaigns[k]));
            }
        }
        Ok(
            Effects::with_transfer(
                Some(who),
                Transfer { from: ledger.contract, to: who, amount },
                Event::RefundClaimed { campaign_id: id, contributor: who, amount },
            ),
        )
    }
}

impl ProofOfHeart {
    /// The creator of a revenue-sharing campaign deposits revenue into its pool.
    pub fn deposit_revenue(&mut self, ledger: Ledger, id: u32, amount: i128) -> (r: Result<Effects, Error>)
        requires
            old(self).wf(),
            old(self)@.deposit_fits(id, amount),
        ensures
            final(self).wf(),
            refused_as(r, old(self)@.deposit_error(id, amount)),
            r is Err ==> final(self)@ == old(self)@,
            r is Ok ==> {
                let e = old(self)@.campaigns[id - 1];
                &&& 1 <= id <= old(self)@.campaigns.len()
                &&& !old(self)@.config.paused && amount > 0 && !e.campaign.is_cancelled && e.campaign.has_revenue_sharing
                &&& final(self)@.campaigns[id - 1].revenue_pool == e.revenue_pool + amount
            },
            r matches Ok(fx) ==> {
                &&& final(self)@ == old(self)@.with_entry(
                    id,
                    CampaignEntry {
                        revenue_pool: (old(self)@.entry(id).revenue_pool + amount) as i128,
                        ..old(self)@.entry(id)
                    },
                )
                &&& fx.is(
                    Some(old(self)@.camp(id).creator),
                    seq![Transfer { from: old(self)@.camp(id).creator, to: ledger.contract, amount }],
                    seq![Event::RevenueDeposited { campaign_id: id, amount }],
                )
            },
    {
        let i = self.slot(id)?;
        self.require_not_paused()?;
        if amount <= 0 {
            return Err(Error::ValidationFailed);
        }
        if self.campaigns[i].campaign.is_cancelled {
            return Err(Error::CampaignNotActive);
        }
        require_revenue_sharing(&self.campaigns[i].campaign, Error::RevenueSharingNotEnabled)?;
        let ghost pre = self@;
        let creator = self.campaigns[i].campaign.creator;
        self.campaigns[i].revenue_pool = self.campaigns[i].revenue_pool + amount;
        proof {
            let n = self@;
            assert(n.campaigns =~= pre.with_entry(
                id,
                CampaignEntry { revenue_pool: (pre.entry(id).revenue_pool + amount) as i128, ..pre.entry(id) },
            ).campaigns);
            assert forall|k: int| 0 <= k < n.campaigns.len() && !(#[trigger] n.campaigns[k]).reused@ implies raised_from(
                n.backers,
                (k + 1) as u32,
            ) + n.campaigns[k].refunded@ == n.campaigns[k].campaign.amount_raised by {
                assert(pre.campaigns[k].reused@ == n.campaigns[k].reused@);
            }
            assert forall|k: int| 0 <= k < n.campaigns.len() implies Model::entry_ok(#[trigger] n.campaigns[k]) by {
                assert(Model::entry_ok(pre.campaigns[k]));
            }
        }
        Ok(
            Effects::with_transfer(
                Some(creator),
                Transfer { from: creator, to: ledger.contract, amount },
                Event::RevenueDeposited { campaign_id: id, amount },
            ),
        )
    }

    /// A contributor claims its share of the contributor pool, in proportion to
    /// its contribution, less what it claimed before.
    pub fn claim_revenue(&mut self, ledger: Ledger, id: u32, who: Address) -> (r: Result<Effects, Error>)
        requires
            old(self).wf(),
            old(self)@.pool_fits(id),
        ensures
            final(self).wf(),
            refused_as(r, old(self)@.claim_revenue_error(id, who)),
            r is Err ==> final(self)@ == old(self)@,
            r matches Ok(fx) ==> {
                let e = old(self)@.campaigns[id - 1];
                let contributors_pool = e.revenue_pool * (e.campaign.revenue_share_percentage as int) / 10000;
                let due = old(self)@.backer(id, who).contribution * contributors_pool / (e.campaign.amount_raised as int);
                let paid = due - old(self)@.backer(id, who).revenue_claimed;
                &&& 1 <= id <= old(self)@.campaigns.len()
                &&& !old(self)@.config.paused && e.campaign.has_revenue_sharing
                &&& paid > 0
                &&& fx.transfers@ == seq![Transfer { from: ledger.contract, to: who, amount: paid as i128 }]
                &&& final(self)@.backer(id, who).revenue_claimed == due
            },
            r matches Ok(fx) ==> {
                let b = old(self)@.backer(id, who);
                let claimable = old(self)@.revenue_due_of(id, who) - b.revenue_claimed;
                &&& final(self)@ == old(self)@.with_backer(
                    id,
                    who,
                    Backer { revenue_claimed: old(self)@.revenue_due_of(id, who) as i128, ..b },
                )
                &&& fx.is(
                    Some(who),
                    seq![Transfer { from: ledger.contract, to: who, amount: claimable as i128 }],
                    seq![Event::RevenueClaimed { campaign_id: id, contributor: who, amount: claimable as i128 }],
                )
            },
    {
        self.require_not_paused()?;
        let i = self.slot(id)?;
        require_revenue_sharing(&self.campaigns[i].campaign, Error::ValidationFailed)?;
        let b = self.backer_of(id, who);
        let contribution = b.contribution;
        if contribution == 0 {
            return Err(Error::ValidationFailed);
        }
        let raised = self.campaigns[i].campaign.amount_raised;
        if raised == 0 {
            return Err(Error::AmountRaisedIsZero);
        }
        let ghost pre = self@;
        let pool = self.campaigns[i].revenue_pool;
        let pct = self.campaigns[i].campaign.revenue_share_percentage;
        proof {
            lemma_pool_split(pool as int, pct as int);
        }
        let contributor_pool = (pool * (pct as i128)) / 10000;
        assert(contributor_pool == pre.contributor_pool_of(id));
        let product = match contribution.checked_mul(contributor_pool) {
            Some(p) => p,
            None => {
                return Err(Error::Overflow);
            },
        };
        assert(contribution >= 0 && contributor_pool >= 0 && raised > 0);
        assert(product >= 0) by (nonlinear_arith)
            requires
                product == contribution * contributor_pool,
                contribution >= 0,
                contributor_pool >= 0,
        ;
        let total_due = product / raised;
        assert(total_due == pre.revenue_due_of(id, who));
        let already = b.revenue_claimed;
        let claimable = total_due - already;
        if claimable <= 0 {
            return Err(Error::NoFundsToWithdraw);
        }
        let nb = Backer { revenue_claimed: already + claimable, ..b };
        proof {
            lemma_set_backer(pre, nb);
        }
        self.put_backer(nb);
        proof {
            let n = self@;
            assert forall|k: int| 0 <= k < n.campaigns.len() && !(#[trigger] n.campaigns[k]).reused@ implies raised_from(
                n.backers,
                (k + 1) as u32,
            ) + n.campaigns[k].refunded@ == n.campaigns[k].campaign.amount_raised by {
                assert(raised_from(n.backers, (k + 1) as u32) == raised_from(pre.backers, (k + 1) as u32) - share_of(
                    pre.backer(id, who),
                    (k + 1) as u32,
                ) + share_of(nb, (k + 1) as u32));
            }
        }
        Ok(
            Effects::with_transfer(
                Some(who),
                Transfer { from: ledger.contract, to: who, amount: claimable },
                Event::RevenueClaimed { campaign_id: id, contributor: who, amount: claimable },
            ),
        )
    }

    /// The creator claims the part of the revenue pool that is not the contributors'.
    pub fn claim_creator_revenue(&mut self, ledger: Ledger, id: u32) -> (r: Result<Effects, Error>)
        requires
            old(self).wf(),
            old(self)@.pool_fits(id),
        ensures
            final(self).wf(),
            refused_as(r, old(self)@.claim_creator_revenue_error(id)),
            r is Err ==> final(self)@ == old(self)@,
            r matches Ok(fx) ==> {
                let e = old(self)@.campaigns[id - 1];
                let share = e.revenue_pool - e.revenue_pool * (e.campaign.revenue_share_percentage as int) / 10000;
                let paid = share - e.creator_revenue_claimed;
                &&& 1 <= id <= old(self)@.campaigns.len()
                &&& !old(self)@.config.paused && e.campaign.has_revenue_sharing
                &&& paid > 0
                &&& fx.transfers@ == seq![Transfer { from: ledger.contract, to: e.campaign.creator, amount: paid as i128 }]
                &&& final(self)@.campaigns[id - 1].creator_revenue_claimed == share
            },
            r matches Ok(fx) ==> {
                let e = old(self)@.entry(id);
                let claimable = old(self)@.creator_share_of(id) - e.creator_revenue_claimed;
                &&& final(self)@ == old(self)@.with_entry(
                    id,
                    CampaignEntry { creator_revenue_claimed: old(self)@.creator_share_of(id) as i128, ..e },
                )
                &&& fx.is(
                    Some(e.campaign.creator),
                    seq![Transfer { from: ledger.contract, to: e.campaign.creator, amount: claimable as i128 }],
                    seq![
                        Event::CreatorRevenueClaimed {
                            campaign_id: id,
                            creator: e.campaign.creator,
                            amount: claimable as i128,
                        },
                    ],
                )
            },
    {
        let i = self.slot(id)?;
        self.require_not_paused()?;
        require_revenue_sharing(&self.campaigns[i].campaign, Error::ValidationFailed)?;
        let pct = self.campaigns[i].campaign.revenue_share_percentage;
        if pct > BPS_DENOMINATOR {
            return Err(Error::ValidationFailed);
        }
        let ghost pre = self@;
        let pool = self.campaigns[i].revenue_pool;
        proof {
            lemma_pool_split(pool as int, pct as int);
        }
        let contributor_pool = (pool * (pct as i128)) / 10000;
        let creator_total = pool - contributor_pool;
        let already = self.campaigns[i].creator_revenue_claimed;
        let claimable = creator_total - already;
        if claimable <= 0 {
            return Err(Error::NoFundsToWithdraw);
        }
        let creator = self.campaigns[i].campaign.creator;
        self.campaigns[i].creator_revenue_claimed = already + claimable;
        proof {
            let n = self@;
            assert(n.campaigns =~= pre.with_entry(
                id,
                CampaignEntry { creator_revenue_claimed: pre.creator_share_of(id) as i128, ..pre.entry(id) },
            ).campaigns);
            assert forall|k: int| 0 <= k < n.campaigns.len() && !(#[trigger] n.campaigns[k]).reused@ implies raised_from(
                n.backers,
                (k + 1) as u32,
            ) + n.campaigns[k].refunded@ == n.campaigns[k].campaign.amount_raised by {
                assert(pre.campaigns[k].reused@ == n.campaigns[k].reused@);
            }
            assert forall|k: int| 0 <= k < n.campaigns.len() implies Model::entry_ok(#[trigger] n.campaigns[k]) by {
                assert(Model::entry_ok(pre.campaigns[k]));
            }
        }
        Ok(
            Effects::with_transfer(
                Some(creator),
                Transfer { from: ledger.contract, to: creator, amount: claimable },
                Event::CreatorRevenueClaimed { campaign_id: id, creator, amount: claimable },
            ),
        )
    }

    /// A contributor caps its own contribution to a campaign.
    pub fn set_personal_cap(&mut self, id: u32, who: Address, amount: i128) -> (r: Result<Effects, Error>)
        requires
            old(self).wf(),
        ensures
            final(self).wf(),
            refused_as(r, old(self)@.personal_cap_error(id, amount)),
            r is Err ==> final(self)@ == old(self)@,
            r matches Ok(fx) ==> {
                &&& final(self)@ == old(self)@.with_backer(
                    id,
                    who,
                    Backer { personal_cap: Some(amount), ..old(self)@.backer(id, who) },
                )
                &&& fx.is(
                    Some(who),
                    seq![],
                    seq![Event::PersonalCapSet { campaign_id: id, contributor: who, amount }],
                )
            },
    {
        if amount < 0 {
            return Err(Error::ValidationFailed);
        }
        let _i = self.slot(id)?;
        let ghost pre = self@;
        let b = self.backer_of(id, who);
        let nb = Backer { personal_cap: Some(amount), ..b };
        proof {
            lemma_set_backer(pre, nb);
        }
        self.put_backer(nb);
        proof {
            let n = self@;
            assert forall|k: int| 0 <= k < n.campaigns.len() && !(#[trigger] n.campaigns[k]).reused@ implies raised_from(
                n.backers,
                (k + 1) as u32,
            ) + n.campaigns[k].refunded@ == n.campaigns[k].campaign.amount_raised by {
                assert(raised_from(n.backers, (k + 1) as u32) == raised_from(pre.backers, (k + 1) as u32) - share_of(
                    pre.backer(id, who),
                    (k + 1) as u32,
                ) + share_of(nb, (k + 1) as u32));
            }
        }
        Ok(Effects::one(Some(who), Event::PersonalCapSet { campaign_id: id, contributor: who, amount }))
    }

    /// The personal cap of `who` on campaign `id` (0 when none is set).
    pub fn get_personal_cap(&self, id: u32, who: Address) -> (r: i128)
        requires
            self.wf(),
        ensures
            r == match self@.backer(id, who).personal_cap {
                Some(c) => c,
                None => 0,
            },
    {
        match self.backer_of(id, who).personal_cap {
            Some(c) => c,
            None => 0,
        }
    }

    /// The current contribution of `who` to campaign `id`.
    pub fn get_contribution(&self, id: u32, who: Address) -> (r: i128)
        requires
            self.wf(),
        ensures
            r == self@.backer(id, who).contribution,
    {
        self.backer_of(id, who).contribution
    }

    /// The contribution of `who` counted against the campaign cap.
    pub fn get_lifetime_contribution(&self, id: u32, who: Address) -> (r: i128)
        requires
            self.wf(),
        ensures
            r == self@.backer(id, who).lifetime,
    {
        self.backer_of(id, who).lifetime
    }

    /// Revenue `who` has claimed from campaign `id`.
    pub fn get_revenue_claimed(&self, id: u32, who: Address) -> (r: i128)
        requires
            self.wf(),
        ensures
            r == self@.backer(id, who).revenue_claimed,
    {
        self.backer_of(id, who).revenue_claimed
    }

    /// Revenue deposited into campaign `id` (0 for an unknown campaign).
    pub fn get_revenue_pool(&self, id: u32) -> (r: i128)
        requires
            self.wf(),
        ensures
            r == (if self@.has_campaign(id) {
                self@.entry(id).revenue_pool
            } else {
                0
            }),
    {
        match self.slot(id) {
            Ok(i) => self.campaigns[i].revenue_pool,
            Err(_) => 0,
        }
    }

    /// Number of distinct contributors of campaign `id` (0 for an unknown campaign).
    pub fn get_total_contributors_count(&self, id: u32) -> (r: u32)
        requires
            self.wf(),
        ensures
            r == (if self@.has_campaign(id) {
                self@.entry(id).contributor_count
            } else {
                0
            }),
    {
        match self.slot(id) {
            Ok(i) => self.campaigns[i].contributor_count,
            Err(_) => 0,
        }
    }
}
} // verus!
