use vstd::prelude::*;

verus! {

/// Identity of an account or contract taking part in the platform.
///
/// The platform only ever compares identities and uses them as keys, so an
/// identity is held as a plain number that names exactly one address.
#[derive(Clone, Copy, Debug, PartialEq, Eq, Structural, Hash)]
pub struct Address {
    pub id: u64,
}

impl Address {
    pub fn new(id: u64) -> (r: Address)
        ensures
            r.id == id,
    {
        Address { id }
    }
}

/// Copies a byte text (titles and descriptions are byte strings).
pub fn copy_bytes(v: &Vec<u8>) -> (r: Vec<u8>)
    ensures
        r@ == v@,
{
    let r = v.clone();
    assert(r@ =~= v@);
    r
}

/// Represents an optional pending campaign creator for ownership transfers.
#[derive(Clone, Copy, Debug, PartialEq, Eq, Structural)]
pub enum MaybePendingCreator {
    /// No ownership transfer is in progress.
    Absent,
    /// An ownership transfer to this address is pending acceptance.
    Pending(Address),
}

/// Represents a category for a campaign, determining its type and eligibility for revenue sharing.
#[derive(Clone, Copy, Debug, PartialEq, Eq, Structural)]
pub enum Category {
    /// A learner seeking funding for education.
    Learner,
    /// An educational startup eligible for revenue sharing.
    EducationalStartup,
    /// An educator creating learning content.
    Educator,
    /// A publisher creating educational materials.
    Publisher,
}

impl Category {
    pub open spec fn spec_code(self) -> u32 {
        match self {
            Category::Learner => 0,
            Category::EducationalStartup => 1,
            Category::Educator => 2,
            Category::Publisher => 3,
        }
    }

    /// The stable number of the category (its position in the declaration).
    pub fn code(&self) -> (r: u32)
        ensures
            r == self.spec_code(),
    {
        match self {
            Category::Learner => 0,
            Category::EducationalStartup => 1,
            Category::Educator => 2,
            Category::Publisher => 3,
        }
    }
}

/// Stores all details related to a funding campaign.
#[derive(Clone, Debug, PartialEq, Eq)]
pub struct Campaign {
    /// Unique numeric identifier assigned at creation.
    pub id: u32,
    /// The address of the campaign creator.
    pub creator: Address,
    /// The address of the original creator at campaign creation.
    pub original_creator: Address,
    /// The address of the proposed new creator (for two-step transfer).
    pub pending_creator: MaybePendingCreator,
    /// Short display name of the campaign.
    pub title: Vec<u8>,
    /// Long description of the campaign's purpose.
    pub description: Vec<u8>,
    /// Target token amount required to consider the campaign successful.
    pub funding_goal: i128,
    /// Unix timestamp after which contributions are no longer accepted.
    pub deadline: u64,
    /// Total tokens raised so far.
    pub amount_raised: i128,
    /// Whether the campaign is currently accepting contributions.
    pub is_active: bool,
    /// Whether the creator has already withdrawn funds.
    pub funds_withdrawn: bool,
    /// Whether the campaign has been cancelled by the creator.
    pub is_cancelled: bool,
    /// Whether the campaign has been verified (by admin or community vote).
    pub is_verified: bool,
    /// The category of the campaign.
    pub category: Category,
    /// Whether contributors are entitled to a share of future revenue.
    pub has_revenue_sharing: bool,
    /// Percentage of deposited revenue distributed to contributors, in basis points.
    pub revenue_share_percentage: u32,
    /// Maximum tokens a single contributor may contribute in total. 0 means no cap.
    pub max_contribution_per_user: i128,
    /// Per-campaign platform fee override in basis points. None = use global fee.
    pub fee_override: Option<u32>,
    /// Whether the deadline has already been extended once.
    pub deadline_extended: bool,
}

impl Campaign {
    /// Two campaigns hold the same values (texts compared by content).
    pub open spec fn same(self, other: Campaign) -> bool {
        &&& self.id == other.id
        &&& self.creator == other.creator
        &&& self.original_creator == other.original_creator
        &&& self.pending_creator == other.pending_creator
        &&& self.title@ == other.title@
        &&& self.description@ == other.description@
        &&& self.funding_goal == other.funding_goal
        &&& self.deadline == other.deadline
        &&& self.amount_raised == other.amount_raised
        &&& self.is_active == other.is_active
        &&& self.funds_withdrawn == other.funds_withdrawn
        &&& self.is_cancelled == other.is_cancelled
        &&& self.is_verified == other.is_verified
        &&& self.category == other.category
        &&& self.has_revenue_sharing == other.has_revenue_sharing
        &&& self.revenue_share_percentage == other.revenue_share_percentage
        &&& self.max_contribution_per_user == other.max_contribution_per_user
        &&& self.fee_override == other.fee_override
        &&& self.deadline_extended == other.deadline_extended
    }

    /// Whether the campaign is running: neither cancelled nor closed.
    pub open spec fn spec_running(self) -> bool {
        !self.is_cancelled && self.is_active
    }

    /// A copy of the campaign.
    pub fn copy(&self) -> (r: Campaign)
        ensures
            r.same(*self),
    {
        Campaign {
            id: self.id,
            creator: self.creator,
            original_creator: self.original_creator,
            pending_creator: self.pending_creator,
            title: copy_bytes(&self.title),
            description: copy_bytes(&self.description),
            funding_goal: self.funding_goal,
            deadline: self.deadline,
            amount_raised: self.amount_raised,
            is_active: self.is_active,
            funds_withdrawn: self.funds_withdrawn,
            is_cancelled: self.is_cancelled,
            is_verified: self.is_verified,
            category: self.category,
            has_revenue_sharing: self.has_revenue_sharing,
            revenue_share_percentage: self.revenue_share_percentage,
            max_contribution_per_user: self.max_contribution_per_user,
            fee_override: self.fee_override,
            deadline_extended: self.deadline_extended,
        }
    }
}

/// Aggregate platform metrics for dashboard and indexer consumers.
#[derive(Clone, Copy, Debug, PartialEq, Eq, Structural)]
pub struct PlatformStats {
    /// Total campaigns ever created.
    pub total_campaigns: u32,
    /// Campaigns currently active and not cancelled.
    pub active_campaigns: u32,
    /// Campaigns that were verified (admin or voting).
    pub verified_campaigns: u32,
    /// Campaigns cancelled by their creators.
    pub cancelled_campaigns: u32,
    /// Sum of `amount_raised` across all campaigns.
    pub total_amount_raised: i128,
}

/// Parameters for `create_campaign`, grouped into a single struct to avoid
/// positional-argument mistakes.
#[derive(Clone, Debug, PartialEq, Eq)]
pub struct CreateCampaignParams {
    /// The address of the campaign creator (must sign the transaction).
    pub creator: Address,
    /// Short display name (1–100 bytes).
    pub title: Vec<u8>,
    /// Long description of the campaign's purpose (1–1000 bytes).
    pub description: Vec<u8>,
    /// Target token amount (must be positive).
    pub funding_goal: i128,
    /// How long the campaign runs, in days.
    pub duration_days: u64,
    /// Campaign category; only `EducationalStartup` may use revenue sharing.
    pub category: Category,
    /// Whether contributors receive a share of future revenue.
    pub has_revenue_sharing: bool,
    /// Contributor revenue share in basis points. Stored as 0 when
    /// `has_revenue_sharing` is `false`.
    pub revenue_share_percentage: u32,
    /// Per-user contribution cap in tokens. `0` means no cap.
    pub max_contribution_per_user: i128,
}

/// Stores details about withheld funds for a campaign.
#[derive(Clone, Copy, Debug, PartialEq, Eq, Structural)]
pub struct CampaignReserve {
    /// The amount held in reserve.
    pub amount: i128,
    /// Unix timestamp after which the reserve can be released.
    pub release_timestamp: u64,
    /// Whether the reserve has already been released.
    pub released: bool,
}

/// Every way in which a request can be refused.
#[derive(Clone, Copy, Debug, PartialEq, Eq, Structural)]
pub enum Error {
    AlreadyInitialized,
    NotAuthorized,
    InvalidTokenContract,
    CampaignNotFound,
    CampaignNotActive,
    CampaignNotVerified,
    CampaignAlreadyVerified,
    ContractPaused,
    CreationDisabled,
    ValidationFailed,
    FundingGoalMustBePositive,
    FundingGoalTooLow,
    FundingGoalTooHigh,
    InvalidDuration,
    RevenueShareOnlyForStartup,
    InvalidRevenueShare,
    ContributionMustBePositive,
    ContributionCapExceeded,
    DeadlinePassed,
    DeadlineAlreadyExtended,
    ExtensionTooLong,
    FundingGoalNotReached,
    NoFundsToWithdraw,
    FundsAlreadyWithdrawn,
    CancellationNotAllowed,
    RevenueSharingNotEnabled,
    AmountRaisedIsZero,
    Overflow,
    InvalidNewOwner,
    NoTransferPending,
    AlreadyVoted,
    NotTokenHolder,
    VotingQuorumNotMet,
    VotingThresholdNotMet,
    AdminVerificationConflict,
    CommunityVerificationConflict,
}

/// What the ledger tells a call: the current time, the current ledger number
/// and the address of the platform itself.
#[derive(Clone, Copy, Debug, PartialEq, Eq, Structural)]
pub struct Ledger {
    pub timestamp: u64,
    pub sequence: u32,
    pub contract: Address,
}

/// A movement of the platform's token that a successful call asks for.
#[derive(Clone, Copy, Debug, PartialEq, Eq, Structural)]
pub struct Transfer {
    pub from: Address,
    pub to: Address,
    pub amount: i128,
}

/// The events a successful call publishes.
#[derive(Clone, Debug, PartialEq, Eq)]
pub enum Event {
    Initialized {
        admin: Address,
        token: Address,
        platform_fee: u32,
        min_votes_quorum: u32,
        approval_threshold_bps: u32,
        version: u32,
    },
    CampaignCreated { campaign_id: u32, creator: Address, title: Vec<u8> },
    CampaignUpdated { campaign_id: u32, title: Vec<u8> },
    CampaignDescriptionUpdated { campaign_id: u32 },
    CampaignCancelled { campaign_id: u32 },
    CampaignTransferInitiated { campaign_id: u32, creator: Address, new_creator: Address },
    CampaignTransferCompleted { campaign_id: u32, old_creator: Address, new_creator: Address },
    CampaignTransferCancelled { campaign_id: u32 },
    ContributionMade { campaign_id: u32, contributor: Address, amount: i128 },
    PersonalCapSet { campaign_id: u32, contributor: Address, amount: i128 },
    RefundClaimed { campaign_id: u32, contributor: Address, amount: i128 },
    Withdrawal { campaign_id: u32, creator: Address, amount: i128 },
    ReserveWithheld { campaign_id: u32, amount: i128 },
    ReserveReleased { campaign_id: u32, creator: Address, amount: i128 },
    VestingParamsUpdated { admin: Address, delay_days: u64, reserve_bps: u32 },
    RevenueDeposited { campaign_id: u32, amount: i128 },
    RevenueClaimed { campaign_id: u32, contributor: Address, amount: i128 },
    CreatorRevenueClaimed { campaign_id: u32, creator: Address, amount: i128 },
    CampaignVoteCast { campaign_id: u32, voter: Address, approve: bool },
    CampaignVerifiedByAdmin { campaign_id: u32 },
    CampaignVerifiedByVotes { campaign_id: u32, approve_votes: u32 },
    CampaignsBulkVerified { verified: u32, requested: u32 },
    VotingParamsUpdated {
        admin: Address,
        old_quorum: u32,
        new_quorum: u32,
        old_threshold_bps: u32,
        new_threshold_bps: u32,
    },
    MinVotingBalanceUpdated { admin: Address, old_balance: i128, new_balance: i128 },
    ContractPaused { admin: Address },
    ContractUnpaused { admin: Address },
    CreationDisabledUpdated { admin: Address, disabled: bool },
    FeeUpdated { old_fee: u32, new_fee: u32 },
    CampaignFeeOverrideSet { campaign_id: u32, fee_bps: u32 },
    CategoryDurationCapSet { category: u32, max_days: u64 },
    CampaignDeadlineExtended { campaign_id: u32, additional_days: u64 },
    MinCampaignFundingGoalUpdated { old_goal: i128, new_goal: i128 },
    MaxCampaignFundingGoalUpdated { old_goal: i128, new_goal: i128 },
    AdminTransferInitiated { current_admin: Address, new_admin: Address },
    AdminUpdated { old_admin: Address, new_admin: Address },
    AdminTransferCancelled { admin: Address },
    VotingStatePurged { campaign_id: u32 },
}

/// `r` is refused exactly with `e` (and succeeds exactly when `e` is `None`).
pub open spec fn refused_as<T>(r: Result<T, Error>, e: Option<Error>) -> bool {
    match r {
        Ok(_) => e is None,
        Err(x) => e == Some(x),
    }
}

/// What a successful call asks its host to do: whose authorization the call
/// rests on, the token movements to make and the events to publish.
#[derive(Debug)]
pub struct Effects {
    pub auth: Option<Address>,
    pub transfers: Vec<Transfer>,
    pub events: Vec<Event>,
}

impl Effects {
    /// The effects are exactly the given authorizer, transfers and events.
    pub open spec fn is(self, auth: Option<Address>, transfers: Seq<Transfer>, events: Seq<Event>) -> bool {
        &&& self.auth == auth
        &&& self.transfers@ == transfers
        &&& self.events@ == events
    }

    pub fn one(auth: Option<Address>, event: Event) -> (r: Effects)
        ensures
            r.is(auth, seq![], seq![event]),
    {
        let mut events = Vec::new();
        events.push(event);
        Effects { auth, transfers: Vec::new(), events }
    }

    pub fn with_transfer(auth: Option<Address>, t: Transfer, event: Event) -> (r: Effects)
        ensures
            r.is(auth, seq![t], seq![event]),
    {
        let mut transfers = Vec::new();
        transfers.push(t);
        let mut events = Vec::new();
        events.push(event);
        Effects { auth, transfers, events }
    }
}

} // verus!
