//! Whether a call stays within the range of its number types; a host calls
//! these before the matching operation, which requires them.
use vstd::prelude::*;

use crate::constants::{
    AUTO_PAUSE_SINGLE_CONTRIBUTION_BPS_THRESHOLD, BPS_DENOMINATOR, CREATOR_CAMPAIGNS_BUCKET_SIZE, MAX_SCAN_WINDOW,
    SECONDS_PER_DAY,
};
use crate::state::{Model, ProofOfHeart};
use crate::types::{Address, Category, Ledger, MaybePendingCreator};

verus! {

impl Model {
    pub open spec fn create_fits(self, creator: Address) -> bool {
        self.campaign_count < u32::MAX && self.creator_count(creator) < u32::MAX
    }

    pub open spec fn accept_transfer_fits(self, id: u32) -> bool {
        self.has_campaign(id) ==> {
            &&& self.creator_count(self.camp(id).creator) + CREATOR_CAMPAIGNS_BUCKET_SIZE <= u32::MAX
            &&& self.creator_count(self.pending_of(id)) < u32::MAX
        }
    }

    pub open spec fn deposit_fits(self, id: u32, amount: i128) -> bool {
        self.has_campaign(id) ==> self.entry(id).revenue_pool + amount <= i128::MAX
    }

    pub open spec fn active_listing_fits(self, start: u32, limit: u32) -> bool {
        start < self.campaign_count && limit > 0 ==> start + MAX_SCAN_WINDOW <= u32::MAX && self.campaign_count
            < u32::MAX
    }

    pub open spec fn category_listing_fits(self, category: Category, start: u32, limit: u32) -> bool {
        &&& self.category_ids[category.spec_code() as int].len() <= u32::MAX
        &&& (limit > 0 && start < self.category_ids[category.spec_code() as int].len() ==> start + limit <= u32::MAX)
    }

    pub open spec fn creator_listing_fits(self, creator: Address) -> bool {
        self.creator_count(creator) + CREATOR_CAMPAIGNS_BUCKET_SIZE <= u32::MAX
    }
}

impl ProofOfHeart {
    pub fn create_fits(&self, creator: Address) -> (r: bool)
        requires
            self.wf(),
        ensures
            r == self@.create_fits(creator),
    {
        self.campaign_count < u32::MAX && self.creator_count_of(creator) < u32::MAX
    }

    pub fn accept_transfer_fits(&self, id: u32) -> (r: bool)
        requires
            self.wf(),
        ensures
            r == self@.accept_transfer_fits(id),
    {
        match self.slot(id) {
            Ok(i) => {
                let c = &self.campaigns[i].campaign;
                let pending = match c.pending_creator {
                    MaybePendingCreator::Pending(a) => a,
                    MaybePendingCreator::Absent => Address { id: 0 },
                };
                (self.creator_count_of(c.creator) as u64 + CREATOR_CAMPAIGNS_BUCKET_SIZE as u64 <= u32::MAX as u64)
                    && self.creator_count_of(pending) < u32::MAX
            },
            Err(_) => true,
        }
    }

    pub fn contribute_fits(&self, id: u32, who: Address, amount: i128) -> (r: bool)
        requires
            self.wf(),
        ensures
            r == self@.contribute_fits(id, who, amount),
    {
        let i = match self.slot(id) {
            Ok(i) => i,
            Err(_) => {
                return true;
            },
        };
        if amount <= 0 {
            return true;
        }
        let b = self.backer_of(id, who);
        let e = &self.campaigns[i];
        b.lifetime.checked_add(amount).is_some() && b.contribution.checked_add(amount).is_some()
            && amount.checked_mul(BPS_DENOMINATOR as i128).is_some() && e.campaign.funding_goal.checked_mul(
            AUTO_PAUSE_SINGLE_CONTRIBUTION_BPS_THRESHOLD,
        ).is_some() && e.campaign.amount_raised.checked_add(amount).is_some() && self.total_raised.checked_add(
            amount,
        ).is_some() && e.contributor_count < u32::MAX
    }

    pub fn withdraw_fits(&self, id: u32) -> (r: bool)
        requires
            self.wf(),
        ensures
            r == self@.withdraw_fits(id),
    {
        let i = match self.slot(id) {
            Ok(i) => i,
            Err(_) => {
                return true;
            },
        };
        let c = &self.campaigns[i].campaign;
        let fee_bps = match c.fee_override {
            Some(f) => f,
            None => self.config.platform_fee,
        };
        let product = match c.amount_raised.checked_mul(fee_bps as i128) {
            Some(p) => p,
            None => {
                return false;
            },
        };
        proof {
            crate::funds::lemma_withdraw_split(c.amount_raised as int, fee_bps as int, self.config.withdraw_reserve_bps as int);
        }
        assert(product >= 0) by (nonlinear_arith)
            requires
                product == c.amount_raised * fee_bps,
                c.amount_raised >= 0,
                fee_bps >= 0,
        ;
        let after_fee = c.amount_raised - product / 10000;
        assert(after_fee == self@.withdraw_after_fee(id));
        assert(after_fee * self.config.withdraw_reserve_bps >= 0) by (nonlinear_arith)
            requires
                after_fee >= 0,
        ;
        after_fee.checked_mul(self.config.withdraw_reserve_bps as i128).is_some() && self.total_raised.checked_sub(
            c.amount_raised,
        ).is_some()
    }

    /// Whether `withdraw_funds` may be called: the admin is set, or the call is
    /// refused before the admin is needed.
    pub fn withdraw_callable(&self, ledger: Ledger, id: u32) -> (r: bool)
        requires
            self.wf(),
            self@.withdraw_fits(id),
        ensures
            r == (self@.config.admin is Some || self@.withdraw_error(ledger, id) is Some),
    {
        if self.config.admin.is_some() {
            return true;
        }
        let i = match self.slot(id) {
            Ok(i) => i,
            Err(_) => {
                return true;
            },
        };
        let c = &self.campaigns[i].campaign;
        if self.config.paused || !c.is_verified || c.is_cancelled || c.funds_withdrawn || c.amount_raised == 0
            || c.amount_raised < c.funding_goal {
            return true;
        }
        let fee_bps = match c.fee_override {
            Some(f) => f,
            None => self.config.platform_fee,
        };
        proof {
            crate::funds::lemma_withdraw_split(c.amount_raised as int, fee_bps as int, self.config.withdraw_reserve_bps as int);
        }
        let fee = c.amount_raised * (fee_bps as i128) / 10000;
        let after_fee = c.amount_raised - fee;
        let reserve = after_fee * (self.config.withdraw_reserve_bps as i128) / 10000;
        assert(reserve == self@.withdraw_reserve_amount(id));
        reserve > 0 && ledger.timestamp.checked_add(self.config.withdraw_delay_days * SECONDS_PER_DAY).is_none()
    }

    /// Whether `accept_admin_transfer` may be called: the admin is set, or the
    /// call is refused before the admin is needed.
    pub fn accept_admin_callable(&self) -> (r: bool)
        ensures
            r == (self@.config.admin is Some || self@.accept_admin_transfer_error() is Some),
    {
        self.config.admin.is_some() || self.config.paused || self.config.pending_admin.is_none()
    }

    pub fn refund_fits(&self, id: u32, who: Address) -> (r: bool)
        requires
            self.wf(),
        ensures
            r == self@.refund_fits(id, who),
    {
        match self.slot(id) {
            Ok(_) => self.total_raised.checked_sub(self.backer_of(id, who).contribution).is_some(),
            Err(_) => true,
        }
    }

    pub fn deposit_fits(&self, id: u32, amount: i128) -> (r: bool)
        requires
            self.wf(),
        ensures
            r == self@.deposit_fits(id, amount),
    {
        match self.slot(id) {
            Ok(i) => self.campaigns[i].revenue_pool.checked_add(amount).is_some(),
            Err(_) => true,
        }
    }

    pub fn pool_fits(&self, id: u32) -> (r: bool)
        requires
            self.wf(),
        ensures
            r == self@.pool_fits(id),
    {
        match self.slot(id) {
            Ok(i) => self.campaigns[i].revenue_pool.checked_mul(
                self.campaigns[i].campaign.revenue_share_percentage as i128,
            ).is_some(),
            Err(_) => true,
        }
    }

    pub fn vote_fits(&self, id: u32, approve: bool, balance: i128) -> (r: bool)
        requires
            self.wf(),
        ensures
            r == self@.vote_fits(id, approve, balance),
    {
        match self.slot(id) {
            Ok(i) => {
                let e = &self.campaigns[i];
                if approve {
                    e.approve_votes < u32::MAX && e.approve_weight.checked_add(balance).is_some()
                } else {
                    e.reject_votes < u32::MAX && e.reject_weight.checked_add(balance).is_some()
                }
            },
            Err(_) => true,
        }
    }

    pub fn active_listing_fits(&self, start: u32, limit: u32) -> (r: bool)
        requires
            self.wf(),
        ensures
            r == self@.active_listing_fits(start, limit),
    {
        !(start < self.campaign_count && limit > 0) || (start as u64 + MAX_SCAN_WINDOW as u64 <= u32::MAX as u64
            && self.campaign_count < u32::MAX)
    }

    pub fn category_listing_fits(&self, category: Category, start: u32, limit: u32) -> (r: bool)
        requires
            self.wf(),
        ensures
            r == self@.category_listing_fits(category, start, limit),
    {
        let n = match category {
            Category::Learner => self.learner_ids.len(),
            Category::EducationalStartup => self.startup_ids.len(),
            Category::Educator => self.educator_ids.len(),
            Category::Publisher => self.publisher_ids.len(),
        };
        n as u64 <= u32::MAX as u64 && (!(limit > 0 && (start as usize) < n) || start as u64 + limit as u64
            <= u32::MAX as u64)
    }

    pub fn creator_listing_fits(&self, creator: Address) -> (r: bool)
        requires
            self.wf(),
        ensures
            r == self@.creator_listing_fits(creator),
    {
        self.creator_count_of(creator) as u64 + CREATOR_CAMPAIGNS_BUCKET_SIZE as u64 <= u32::MAX as u64
    }
}

} // verus!
