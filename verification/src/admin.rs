//! Initialization, platform settings and the two-step admin transfer.
use vstd::prelude::*;

use crate::constants::{
    BPS_DENOMINATOR, CAMPAIGN_DURATION_MAX_DAYS, CAMPAIGN_DURATION_MIN_DAYS, CAMPAIGN_FUNDING_GOAL_MIN,
    CONTRACT_VERSION, DEFAULT_APPROVAL_THRESHOLD_BPS, DEFAULT_MIN_VOTES_QUORUM, MAX_RELEASE_DELAY_DAYS,
    PLATFORM_FEE_MAX_BPS,
};
use crate::state::{Config, Model, ProofOfHeart};
use crate::types::{refused_as, Address, Category, Effects, Error, Event};

verus! {

/// A requested platform fee, capped at the maximum.
pub open spec fn spec_capped_fee(fee: u32) -> u32 {
    if fee > PLATFORM_FEE_MAX_BPS {
        PLATFORM_FEE_MAX_BPS
    } else {
        fee
    }
}

pub fn capped_fee(fee: u32) -> (r: u32)
    ensures
        r == spec_capped_fee(fee),
{
    if fee > PLATFORM_FEE_MAX_BPS {
        PLATFORM_FEE_MAX_BPS
    } else {
        fee
    }
}

impl Model {
    pub open spec fn paused_error(self) -> Option<Error> {
        if self.config.paused {
            Some(Error::ContractPaused)
        } else {
            None
        }
    }

    /// `caller` is refused unless it is the admin.
    pub open spec fn admin_error(self, caller: Address) -> Option<Error> {
        if caller != self.admin() {
            Some(Error::NotAuthorized)
        } else {
            None
        }
    }

    /// The admin check, then the pause check.
    pub open spec fn admin_unpaused_error(self, caller: Address) -> Option<Error> {
        if self.admin_error(caller) is Some {
            self.admin_error(caller)
        } else {
            self.paused_error()
        }
    }

    pub open spec fn init_error(self, token_is_valid: bool) -> Option<Error> {
        if self.config.initialized {
            Some(Error::AlreadyInitialized)
        } else if !token_is_valid {
            Some(Error::InvalidTokenContract)
        } else {
            None
        }
    }

    pub open spec fn after_init(self, admin: Address, token: Address, platform_fee: u32) -> Model {
        Model {
            config: Config {
                initialized: true,
                admin: Some(admin),
                pending_admin: None,
                token: Some(token),
                platform_fee: spec_capped_fee(platform_fee),
                version: CONTRACT_VERSION,
                min_goal: CAMPAIGN_FUNDING_GOAL_MIN,
                min_votes_quorum: DEFAULT_MIN_VOTES_QUORUM,
                approval_threshold_bps: DEFAULT_APPROVAL_THRESHOLD_BPS,
                withdraw_delay_days: 0,
                withdraw_reserve_bps: 0,
                ..self.config
            },
            campaign_count: 0,
            total_raised: 0,
            ..self
        }
    }

    pub open spec fn vesting_error(self, admin: Address, delay_days: u64, reserve_bps: u32) -> Option<Error> {
        if self.admin_error(admin) is Some {
            self.admin_error(admin)
        } else if reserve_bps > BPS_DENOMINATOR || delay_days > MAX_RELEASE_DELAY_DAYS {
            Some(Error::ValidationFailed)
        } else {
            None
        }
    }

    pub open spec fn voting_params_error(self, admin: Address, quorum: u32, threshold_bps: u32) -> Option<Error> {
        if self.admin_unpaused_error(admin) is Some {
            self.admin_unpaused_error(admin)
        } else if quorum == 0 || threshold_bps > BPS_DENOMINATOR {
            Some(Error::ValidationFailed)
        } else {
            None
        }
    }

    pub open spec fn min_voting_balance_error(self, admin: Address, min_balance: i128) -> Option<Error> {
        if self.admin_error(admin) is Some {
            self.admin_error(admin)
        } else if min_balance < 0 {
            Some(Error::ValidationFailed)
        } else {
            None
        }
    }

    pub open spec fn duration_cap_error(self, admin: Address, max_days: u64) -> Option<Error> {
        if self.admin_error(admin) is Some {
            self.admin_error(admin)
        } else if max_days < CAMPAIGN_DURATION_MIN_DAYS || max_days > CAMPAIGN_DURATION_MAX_DAYS {
            Some(Error::ValidationFailed)
        } else {
            None
        }
    }

    pub open spec fn min_goal_error(self, admin: Address, min_goal: i128) -> Option<Error> {
        if self.admin_unpaused_error(admin) is Some {
            self.admin_unpaused_error(admin)
        } else if min_goal <= 0 {
            Some(Error::FundingGoalMustBePositive)
        } else {
            None
        }
    }

    pub open spec fn max_goal_error(self, admin: Address, max_goal: i128) -> Option<Error> {
        if self.admin_unpaused_error(admin) is Some {
            self.admin_unpaused_error(admin)
        } else if max_goal <= 0 {
            Some(Error::FundingGoalMustBePositive)
        } else if max_goal < self.config.min_goal {
            Some(Error::ValidationFailed)
        } else {
            None
        }
    }

    pub open spec fn initiate_admin_transfer_error(self, admin: Address, new_admin: Address) -> Option<Error> {
        if self.admin_unpaused_error(admin) is Some {
            self.admin_unpaused_error(admin)
        } else if new_admin == self.admin() {
            Some(Error::InvalidNewOwner)
        } else {
            None
        }
    }

    pub open spec fn accept_admin_transfer_error(self) -> Option<Error> {
        if self.paused_error() is Some {
            self.paused_error()
        } else if self.config.pending_admin is None {
            Some(Error::NoTransferPending)
        } else {
            None
        }
    }

    pub open spec fn cancel_admin_transfer_error(self, admin: Address) -> Option<Error> {
        if self.admin_unpaused_error(admin) is Some {
            self.admin_unpaused_error(admin)
        } else if self.config.pending_admin is None {
            Some(Error::NoTransferPending)
        } else {
            None
        }
    }
}

impl ProofOfHeart {
    pub(crate) fn check_admin(&self, caller: Address) -> (r: Result<(), Error>)
        requires
            self@.config.admin is Some,
        ensures
            refused_as(r, self@.admin_error(caller)),
    {
        match self.config.admin {
            Some(a) => if caller == a {
                Ok(())
            } else {
                Err(Error::NotAuthorized)
            },
            None => Err(Error::NotAuthorized),
        }
    }

    pub(crate) fn require_not_paused(&self) -> (r: Result<(), Error>)
        ensures
            refused_as(r, self@.paused_error()),
    {
        if self.config.paused {
            Err(Error::ContractPaused)
        } else {
            Ok(())
        }
    }

    pub(crate) fn stored_admin(&self) -> (r: Address)
        requires
            self@.config.admin is Some,
        ensures
            r == self@.admin(),
    {
        match self.config.admin {
            Some(a) => a,
            None => Address { id: 0 },
        }
    }

    /// Initializes the platform: admin, token and capped platform fee; resets the
    /// campaign counter and the raised total; installs the default voting rules.
    /// `token_is_valid` tells whether the token answered as a token contract.
    pub fn init(&mut self, admin: Address, token: Address, platform_fee: u32, token_is_valid: bool) -> (r: Result<
        Effects,
        Error,
    >)
        requires
            old(self).wf(),
        ensures
            final(self).wf(),
            refused_as(r, old(self)@.init_error(token_is_valid)),
            r is Err ==> final(self)@ == old(self)@,
            r matches Ok(fx) ==> {
                &&& final(self)@ == old(self)@.after_init(admin, token, platform_fee)
                &&& fx.is(
                    Some(admin),
                    seq![],
                    seq![
                        Event::Initialized {
                            admin,
                            token,
                            platform_fee: spec_capped_fee(platform_fee),
                            min_votes_quorum: DEFAULT_MIN_VOTES_QUORUM,
                            approval_threshold_bps: DEFAULT_APPROVAL_THRESHOLD_BPS,
                            version: CONTRACT_VERSION,
                        },
                    ],
                )
            },
    {
        if self.config.initialized {
            return Err(Error::AlreadyInitialized);
        }
        if !token_is_valid {
            return Err(Error::InvalidTokenContract);
        }
        let fee = capped_fee(platform_fee);
        self.config = Config {
            initialized: true,
            admin: Some(admin),
            pending_admin: None,
            token: Some(token),
            platform_fee: fee,
            version: CONTRACT_VERSION,
            min_goal: CAMPAIGN_FUNDING_GOAL_MIN,
            min_votes_quorum: DEFAULT_MIN_VOTES_QUORUM,
            approval_threshold_bps: DEFAULT_APPROVAL_THRESHOLD_BPS,
            withdraw_delay_days: 0,
            withdraw_reserve_bps: 0,
            ..self.config
        };
        self.campaign_count = 0;
        self.total_raised = 0;
        Ok(
            Effects::one(
                Some(admin),
                Event::Initialized {
                    admin,
                    token,
                    platform_fee: fee,
                    min_votes_quorum: DEFAULT_MIN_VOTES_QUORUM,
                    approval_threshold_bps: DEFAULT_APPROVAL_THRESHOLD_BPS,
                    version: CONTRACT_VERSION,
                },
            ),
        )
    }

    /// Sets the vesting delay (days) and the share withheld at withdrawal (basis points).
    pub fn set_vesting_params(&mut self, admin: Address, delay_days: u64, reserve_bps: u32) -> (r: Result<
        Effects,
        Error,
    >)
        requires
            old(self).wf(),
            old(self)@.config.admin is Some,
        ensures
            final(self).wf(),
            refused_as(r, old(self)@.vesting_error(admin, delay_days, reserve_bps)),
            r is Err ==> final(self)@ == old(self)@,
            r is Ok ==> delay_days <= 365 && reserve_bps <= 10000,
            r is Ok ==> old(self)@.config.admin == Some(admin),
            r matches Ok(fx) ==> {
                &&& final(self)@ == old(self)@.with_config(
                    Config { withdraw_delay_days: delay_days, withdraw_reserve_bps: reserve_bps, ..old(self)@.config },
                )
                &&& fx.is(Some(admin), seq![], seq![Event::VestingParamsUpdated { admin, delay_days, reserve_bps }])
            },
    {
        self.check_admin(admin)?;
        if reserve_bps > BPS_DENOMINATOR || delay_days > MAX_RELEASE_DELAY_DAYS {
            return Err(Error::ValidationFailed);
        }
        self.config.withdraw_delay_days = delay_days;
        self.config.withdraw_reserve_bps = reserve_bps;
        Ok(Effects::one(Some(admin), Event::VestingParamsUpdated { admin, delay_days, reserve_bps }))
    }

    /// Sets the quorum and approval threshold of community verification.
    pub fn set_voting_params(&mut self, admin: Address, min_votes_quorum: u32, approval_threshold_bps: u32) -> (r:
        Result<Effects, Error>)
        requires
            old(self).wf(),
            old(self)@.config.admin is Some,
        ensures
            final(self).wf(),
            refused_as(r, old(self)@.voting_params_error(admin, min_votes_quorum, approval_threshold_bps)),
            r is Err ==> final(self)@ == old(self)@,
            r is Ok ==> approval_threshold_bps <= 10000 && !old(self)@.config.paused,
            r is Ok ==> old(self)@.config.admin == Some(admin),
            r matches Ok(fx) ==> {
                &&& final(self)@ == old(self)@.with_config(
                    Config { min_votes_quorum, approval_threshold_bps, ..old(self)@.config },
                )
                &&& fx.is(
                    Some(admin),
                    seq![],
                    seq![
                        Event::VotingParamsUpdated {
                            admin,
                            old_quorum: old(self)@.config.min_votes_quorum,
                            new_quorum: min_votes_quorum,
                            old_threshold_bps: old(self)@.config.approval_threshold_bps,
                            new_threshold_bps: approval_threshold_bps,
                        },
                    ],
                )
            },
    {
        self.check_admin(admin)?;
        self.require_not_paused()?;
        if min_votes_quorum == 0 || approval_threshold_bps > BPS_DENOMINATOR {
            return Err(Error::ValidationFailed);
        }
        let old_quorum = self.config.min_votes_quorum;
        let old_threshold = self.config.approval_threshold_bps;
        self.config.min_votes_quorum = min_votes_quorum;
        self.config.approval_threshold_bps = approval_threshold_bps;
        Ok(
            Effects::one(
                Some(admin),
                Event::VotingParamsUpdated {
                    admin,
                    old_quorum,
                    new_quorum: min_votes_quorum,
                    old_threshold_bps: old_threshold,
                    new_threshold_bps: approval_threshold_bps,
                },
            ),
        )
    }

    /// Sets the token balance a voter must hold.
    pub fn set_min_voting_balance(&mut self, admin: Address, min_balance: i128) -> (r: Result<Effects, Error>)
        requires
            old(self).wf(),
            old(self)@.config.admin is Some,
        ensures
            final(self).wf(),
            refused_as(r, old(self)@.min_voting_balance_error(admin, min_balance)),
            r is Err ==> final(self)@ == old(self)@,
            r is Ok ==> old(self)@.config.admin == Some(admin),
            r matches Ok(fx) ==> {
                &&& final(self)@ == old(self)@.with_config(
                    Config { min_voting_balance: min_balance, ..old(self)@.config },
                )
                &&& fx.is(
                    Some(admin),
                    seq![],
                    seq![
                        Event::MinVotingBalanceUpdated {
                            admin,
                            old_balance: old(self)@.config.min_voting_balance,
                            new_balance: min_balance,
                        },
                    ],
                )
            },
    {
        self.check_admin(admin)?;
        if min_balance < 0 {
            return Err(Error::ValidationFailed);
        }
        let old_balance = self.config.min_voting_balance;
        self.config.min_voting_balance = min_balance;
        Ok(
            Effects::one(
                Some(admin),
                Event::MinVotingBalanceUpdated { admin, old_balance, new_balance: min_balance },
            ),
        )
    }

    /// Pauses the platform (stored admin only).
    pub fn pause(&mut self) -> (r: Result<Effects, Error>)
        requires
            old(self).wf(),
            old(self)@.config.admin is Some,
        ensures
            final(self).wf(),
            r matches Ok(fx) && final(self)@ == old(self)@.with_config(Config { paused: true, ..old(self)@.config })
                && fx.is(
                Some(old(self)@.admin()),
                seq![],
                seq![Event::ContractPaused { admin: old(self)@.admin() }],
            ),
    {
        let admin = self.stored_admin();
        self.config.paused = true;
        Ok(Effects::one(Some(admin), Event::ContractPaused { admin }))
    }

    /// Lifts the pause (stored admin only).
    pub fn unpause(&mut self) -> (r: Result<Effects, Error>)
        requires
            old(self).wf(),
            old(self)@.config.admin is Some,
        ensures
            final(self).wf(),
            r matches Ok(fx) && final(self)@ == old(self)@.with_config(Config { paused: false, ..old(self)@.config })
                && fx.is(
                Some(old(self)@.admin()),
                seq![],
                seq![Event::ContractUnpaused { admin: old(self)@.admin() }],
            ),
    {
        let admin = self.stored_admin();
        self.config.paused = false;
        Ok(Effects::one(Some(admin), Event::ContractUnpaused { admin }))
    }

    pub fn is_paused(&self) -> (r: bool)
        ensures
            r == self@.config.paused,
    {
        self.config.paused
    }

    /// Turns the creation of new campaigns off or on (stored admin only).
    pub fn set_creation_disabled(&mut self, disabled: bool) -> (r: Result<Effects, Error>)
        requires
            old(self).wf(),
            old(self)@.config.admin is Some,
        ensures
            final(self).wf(),
            r matches Ok(fx) && final(self)@ == old(self)@.with_config(
                Config { creation_disabled: disabled, ..old(self)@.config },
            ) && fx.is(
                Some(old(self)@.admin()),
                seq![],
                seq![Event::CreationDisabledUpdated { admin: old(self)@.admin(), disabled }],
            ),
    {
        let admin = self.stored_admin();
        self.config.creation_disabled = disabled;
        Ok(Effects::one(Some(admin), Event::CreationDisabledUpdated { admin, disabled }))
    }

    pub fn is_creation_disabled(&self) -> (r: bool)
        ensures
            r == self@.config.creation_disabled,
    {
        self.config.creation_disabled
    }

    /// Sets the platform fee, capped at the maximum (stored admin only).
    pub fn update_platform_fee(&mut self, new_fee: u32) -> (r: Result<Effects, Error>)
        requires
            old(self).wf(),
            old(self)@.config.admin is Some,
        ensures
            final(self).wf(),
            refused_as(r, old(self)@.paused_error()),
            r is Err ==> final(self)@ == old(self)@,
            r matches Ok(fx) ==> {
                &&& final(self)@ == old(self)@.with_config(
                    Config { platform_fee: spec_capped_fee(new_fee), ..old(self)@.config },
                )
                &&& fx.is(
                    Some(old(self)@.admin()),
                    seq![],
                    seq![
                        Event::FeeUpdated {
                            old_fee: old(self)@.config.platform_fee,
                            new_fee: spec_capped_fee(new_fee),
                        },
                    ],
                )
            },
    {
        let admin = self.stored_admin();
        self.require_not_paused()?;
        let fee = capped_fee(new_fee);
        let old_fee = self.config.platform_fee;
        self.config.platform_fee = fee;
        Ok(Effects::one(Some(admin), Event::FeeUpdated { old_fee, new_fee: fee }))
    }

    /// Sets the longest duration, in days, of campaigns of one category.
    pub fn set_category_duration_cap(&mut self, admin: Address, category: Category, max_days: u64) -> (r: Result<
        Effects,
        Error,
    >)
        requires
            old(self).wf(),
            old(self)@.config.admin is Some,
        ensures
            final(self).wf(),
            refused_as(r, old(self)@.duration_cap_error(admin, max_days)),
            r is Err ==> final(self)@ == old(self)@,
            r is Ok ==> old(self)@.config.admin == Some(admin),
            r matches Ok(fx) ==> {
                &&& final(self)@ == old(self)@.with_config(old(self)@.config.spec_with_cap(category, max_days))
                &&& fx.is(
                    Some(admin),
                    seq![],
                    seq![Event::CategoryDurationCapSet { category: category.spec_code(), max_days }],
                )
            },
    {
        self.check_admin(admin)?;
        if max_days < CAMPAIGN_DURATION_MIN_DAYS || max_days > CAMPAIGN_DURATION_MAX_DAYS {
            return Err(Error::ValidationFailed);
        }
        match category {
            Category::Learner => {
                self.config.cap_learner = Some(max_days);
            },
            Category::EducationalStartup => {
                self.config.cap_startup = Some(max_days);
            },
            Category::Educator => {
                self.config.cap_educator = Some(max_days);
            },
            Category::Publisher => {
                self.config.cap_publisher = Some(max_days);
            },
        }
        Ok(Effects::one(Some(admin), Event::CategoryDurationCapSet { category: category.code(), max_days }))
    }

    /// Sets the smallest funding goal of new campaigns.
    pub fn set_min_campaign_funding_goal(&mut self, admin: Address, min_goal: i128) -> (r: Result<Effects, Error>)
        requires
            old(self).wf(),
            old(self)@.config.admin is Some,
        ensures
            final(self).wf(),
            refused_as(r, old(self)@.min_goal_error(admin, min_goal)),
            r is Err ==> final(self)@ == old(self)@,
            r is Ok ==> old(self)@.config.admin == Some(admin),
            r matches Ok(fx) ==> {
                &&& final(self)@ == old(self)@.with_config(Config { min_goal, ..old(self)@.config })
                &&& fx.is(
                    Some(admin),
                    seq![],
                    seq![Event::MinCampaignFundingGoalUpdated { old_goal: old(self)@.config.min_goal, new_goal: min_goal }],
                )
            },
    {
        self.check_admin(admin)?;
        self.require_not_paused()?;
        if min_goal <= 0 {
            return Err(Error::FundingGoalMustBePositive);
        }
        let old_goal = self.config.min_goal;
        self.config.min_goal = min_goal;
        Ok(Effects::one(Some(admin), Event::MinCampaignFundingGoalUpdated { old_goal, new_goal: min_goal }))
    }

    /// Sets the largest funding goal of new campaigns.
    pub fn set_max_campaign_funding_goal(&mut self, admin: Address, max_goal: i128) -> (r: Result<Effects, Error>)
        requires
            old(self).wf(),
            old(self)@.config.admin is Some,
        ensures
            final(self).wf(),
            refused_as(r, old(self)@.max_goal_error(admin, max_goal)),
            r is Err ==> final(self)@ == old(self)@,
            r is Ok ==> old(self)@.config.admin == Some(admin),
            r matches Ok(fx) ==> {
                &&& final(self)@ == old(self)@.with_config(Config { max_goal, ..old(self)@.config })
                &&& fx.is(
                    Some(admin),
                    seq![],
                    seq![Event::MaxCampaignFundingGoalUpdated { old_goal: old(self)@.config.max_goal, new_goal: max_goal }],
                )
            },
    {
        self.check_admin(admin)?;
        self.require_not_paused()?;
        if max_goal <= 0 {
            return Err(Error::FundingGoalMustBePositive);
        }
        if max_goal < self.config.min_goal {
            return Err(Error::ValidationFailed);
        }
        let old_goal = self.config.max_goal;
        self.config.max_goal = max_goal;
        Ok(Effects::one(Some(admin), Event::MaxCampaignFundingGoalUpdated { old_goal, new_goal: max_goal }))
    }

    /// Proposes a new admin; the proposal waits for acceptance.
    pub fn initiate_admin_transfer(&mut self, admin: Address, new_admin: Address) -> (r: Result<Effects, Error>)
        requires
            old(self).wf(),
            old(self)@.config.admin is Some,
        ensures
            final(self).wf(),
            refused_as(r, old(self)@.initiate_admin_transfer_error(admin, new_admin)),
            r is Err ==> final(self)@ == old(self)@,
            r is Ok ==> old(self)@.config.admin == Some(admin),
            r matches Ok(fx) ==> {
                &&& final(self)@ == old(self)@.with_config(
                    Config { pending_admin: Some(new_admin), ..old(self)@.config },
                )
                &&& fx.is(
                    Some(admin),
                    seq![],
                    seq![Event::AdminTransferInitiated { current_admin: old(self)@.admin(), new_admin }],
                )
            },
    {
        self.check_admin(admin)?;
        self.require_not_paused()?;
        let current = self.stored_admin();
        if new_admin == current {
            return Err(Error::InvalidNewOwner);
        }
        self.config.pending_admin = Some(new_admin);
        Ok(Effects::one(Some(admin), Event::AdminTransferInitiated { current_admin: current, new_admin }))
    }

    /// The proposed admin takes over.
    pub fn accept_admin_transfer(&mut self) -> (r: Result<Effects, Error>)
        requires
            old(self).wf(),
            old(self)@.config.admin is Some || old(self)@.accept_admin_transfer_error() is Some,
        ensures
            final(self).wf(),
            refused_as(r, old(self)@.accept_admin_transfer_error()),
            r is Err ==> final(self)@ == old(self)@,
            r matches Ok(fx) ==> {
                let pending = old(self)@.config.pending_admin.unwrap();
                &&& final(self)@ == old(self)@.with_config(
                    Config { admin: Some(pending), pending_admin: None, ..old(self)@.config },
                )
                &&& fx.is(
                    Some(pending),
                    seq![],
                    seq![Event::AdminUpdated { old_admin: old(self)@.admin(), new_admin: pending }],
                )
            },
    {
        self.require_not_paused()?;
        let pending = match self.config.pending_admin {
            Some(p) => p,
            None => {
                return Err(Error::NoTransferPending);
            },
        };
        let old_admin = self.stored_admin();
        self.config.admin = Some(pending);
        self.config.pending_admin = None;
        Ok(Effects::one(Some(pending), Event::AdminUpdated { old_admin, new_admin: pending }))
    }

    /// Withdraws a pending admin proposal.
    pub fn cancel_admin_transfer(&mut self, admin: Address) -> (r: Result<Effects, Error>)
        requires
            old(self).wf(),
            old(self)@.config.admin is Some,
        ensures
            final(self).wf(),
            refused_as(r, old(self)@.cancel_admin_transfer_error(admin)),
            r is Err ==> final(self)@ == old(self)@,
            r is Ok ==> old(self)@.config.admin == Some(admin),
            r matches Ok(fx) ==> {
                &&& final(self)@ == old(self)@.with_config(Config { pending_admin: None, ..old(self)@.config })
                &&& fx.is(Some(admin), seq![], seq![Event::AdminTransferCancelled { admin }])
            },
    {
        self.check_admin(admin)?;
        self.require_not_paused()?;
        if self.config.pending_admin.is_none() {
            return Err(Error::NoTransferPending);
        }
        self.config.pending_admin = None;
        Ok(Effects::one(Some(admin), Event::AdminTransferCancelled { admin }))
    }

    /// Starts an admin transfer on behalf of the stored admin.
    pub fn update_admin(&mut self, new_admin: Address) -> (r: Result<Effects, Error>)
        requires
            old(self).wf(),
            old(self)@.config.admin is Some,
        ensures
            final(self).wf(),
            refused_as(r, old(self)@.initiate_admin_transfer_error(old(self)@.admin(), new_admin)),
            r is Err ==> final(self)@ == old(self)@,
            r matches Ok(fx) ==> {
                &&& final(self)@ == old(self)@.with_config(
                    Config { pending_admin: Some(new_admin), ..old(self)@.config },
                )
                &&& fx.is(
                    Some(old(self)@.admin()),
                    seq![],
                    seq![Event::AdminTransferInitiated { current_admin: old(self)@.admin(), new_admin }],
                )
            },
    {
        let admin = self.stored_admin();
        self.initiate_admin_transfer(admin, new_admin)
    }

    // ---- settings read back ----
    pub fn get_pending_admin(&self) -> (r: Option<Address>)
        ensures
            r == self@.config.pending_admin,
    {
        self.config.pending_admin
    }

    pub fn get_admin(&self) -> (r: Address)
        requires
            self@.config.admin is Some,
        ensures
            r == self@.admin(),
    {
        self.stored_admin()
    }

    pub fn get_token(&self) -> (r: Address)
        requires
            self@.config.token is Some,
        ensures
            r == self@.config.token.unwrap(),
    {
        match self.config.token {
            Some(t) => t,
            None => Address { id: 0 },
        }
    }

    pub fn get_platform_fee(&self) -> (r: u32)
        ensures
            r == self@.config.platform_fee,
    {
        self.config.platform_fee
    }

    pub fn get_version(&self) -> (r: u32)
        ensures
            r == self@.config.version,
    {
        self.config.version
    }

    pub fn get_min_campaign_funding_goal(&self) -> (r: i128)
        ensures
            r == self@.config.min_goal,
    {
        self.config.min_goal
    }

    pub fn get_max_campaign_funding_goal(&self) -> (r: i128)
        ensures
            r == self@.config.max_goal,
    {
        self.config.max_goal
    }

    pub fn get_min_votes_quorum(&self) -> (r: u32)
        ensures
            r == self@.config.min_votes_quorum,
    {
        self.config.min_votes_quorum
    }

    pub fn get_approval_threshold_bps(&self) -> (r: u32)
        ensures
            r == self@.config.approval_threshold_bps,
    {
        self.config.approval_threshold_bps
    }

    pub fn get_min_voting_balance(&self) -> (r: i128)
        ensures
            r == self@.config.min_voting_balance,
    {
        self.config.min_voting_balance
    }

    pub fn get_total_raised_global(&self) -> (r: i128)
        ensures
            r == self@.total_raised,
    {
        self.total_raised
    }

    pub fn get_campaign_count(&self) -> (r: u32)
        ensures
            r == self@.campaign_count,
    {
        self.campaign_count
    }
}

} // verus!
