use vstd::prelude::*;

verus! {

/// Current contract version, stored at initialization.
pub const CONTRACT_VERSION: u32 = 1;

pub const CAMPAIGN_TITLE_MIN_LEN: usize = 1;
pub const CAMPAIGN_TITLE_MAX_LEN: usize = 100;
pub const CAMPAIGN_DESCRIPTION_MIN_LEN: usize = 1;
pub const CAMPAIGN_DESCRIPTION_MAX_LEN: usize = 1000;
pub const CAMPAIGN_DURATION_MIN_DAYS: u64 = 1;
pub const CAMPAIGN_DURATION_MAX_DAYS: u64 = 365;
pub const CAMPAIGN_FUNDING_GOAL_MIN: i128 = 100_000;
pub const CAMPAIGN_FUNDING_GOAL_MAX: i128 = 1_000_000_000_000_000;
/// Highest platform fee, in basis points (10%).
pub const PLATFORM_FEE_MAX_BPS: u32 = 1000;
/// Platform fee before one is configured, in basis points (3%).
pub const PLATFORM_FEE_DEFAULT_BPS: u32 = 300;
/// Highest contributor revenue share, in basis points (50%).
pub const REVENUE_SHARE_MAX_BPS: u32 = 5000;
/// A single contribution above this share of the goal (in basis points) is refused as an anomaly.
pub const AUTO_PAUSE_SINGLE_CONTRIBUTION_BPS_THRESHOLD: i128 = 20000;
/// More contributions than this in one ledger are refused as an anomaly.
pub const AUTO_PAUSE_BURST_THRESHOLD: u32 = 10;
/// Largest page a listing returns.
pub const LIST_MAX_LIMIT: u32 = 50;
/// Largest number of campaigns one active-campaign listing scans.
pub const MAX_SCAN_WINDOW: u32 = 200;
/// Largest number of campaigns one bulk verification handles.
pub const MAX_BATCH_SIZE: u32 = 50;
/// Number of campaign ids one creator bucket holds.
pub const CREATOR_CAMPAIGNS_BUCKET_SIZE: u32 = 500;
pub const DEFAULT_MIN_VOTES_QUORUM: u32 = 3;
pub const DEFAULT_APPROVAL_THRESHOLD_BPS: u32 = 6000;
pub const SECONDS_PER_DAY: u64 = 86400;
/// Longest single deadline extension, in days.
pub const MAX_EXTENSION_DAYS: u64 = 30;
/// Basis points in a whole.
pub const BPS_DENOMINATOR: u32 = 10000;
/// Longest vesting delay, in days.
pub const MAX_RELEASE_DELAY_DAYS: u64 = 365;

} // verus!
