use vstd::prelude::*;

use crate::constants::{
    AUTO_PAUSE_BURST_THRESHOLD, BPS_DENOMINATOR, CAMPAIGN_DURATION_MAX_DAYS, CREATOR_CAMPAIGNS_BUCKET_SIZE, CAMPAIGN_FUNDING_GOAL_MAX,
    CAMPAIGN_FUNDING_GOAL_MIN, DEFAULT_APPROVAL_THRESHOLD_BPS, DEFAULT_MIN_VOTES_QUORUM, MAX_RELEASE_DELAY_DAYS,
    PLATFORM_FEE_DEFAULT_BPS, PLATFORM_FEE_MAX_BPS, REVENUE_SHARE_MAX_BPS,
};
use crate::types::{Address, Campaign, CampaignReserve, Category};

verus! {

/// Platform-wide settings.
#[derive(Clone, Copy, Debug, PartialEq, Eq, Structural)]
pub struct Config {
    pub initialized: bool,
    pub admin: Option<Address>,
    pub pending_admin: Option<Address>,
    pub token: Option<Address>,
    pub platform_fee: u32,
    pub min_goal: i128,
    pub max_goal: i128,
    pub version: u32,
    pub paused: bool,
    pub min_votes_quorum: u32,
    pub approval_threshold_bps: u32,
    pub min_voting_balance: i128,
    pub creation_disabled: bool,
    pub withdraw_delay_days: u64,
    pub withdraw_reserve_bps: u32,
    pub cap_learner: Option<u64>,
    pub cap_startup: Option<u64>,
    pub cap_educator: Option<u64>,
    pub cap_publisher: Option<u64>,
}

impl Config {
    /// The settings of a platform that has never been configured.
    pub open spec fn spec_fresh() -> Config {
        Config {
            initialized: false,
            admin: None,
            pending_admin: None,
            token: None,
            platform_fee: PLATFORM_FEE_DEFAULT_BPS,
            min_goal: CAMPAIGN_FUNDING_GOAL_MIN,
            max_goal: CAMPAIGN_FUNDING_GOAL_MAX,
            version: 0,
            paused: false,
            min_votes_quorum: DEFAULT_MIN_VOTES_QUORUM,
            approval_threshold_bps: DEFAULT_APPROVAL_THRESHOLD_BPS,
            min_voting_balance: 0,
            creation_disabled: false,
            withdraw_delay_days: 0,
            withdraw_reserve_bps: 0,
            cap_learner: None,
            cap_startup: None,
            cap_educator: None,
            cap_publisher: None,
        }
    }

    pub fn fresh() -> (r: Config)
        ensures
            r == Config::spec_fresh(),
    {
        Config {
            initialized: false,
            admin: None,
            pending_admin: None,
            token: None,
            platform_fee: PLATFORM_FEE_DEFAULT_BPS,
            min_goal: CAMPAIGN_FUNDING_GOAL_MIN,
            max_goal: CAMPAIGN_FUNDING_GOAL_MAX,
            version: 0,
            paused: false,
            min_votes_quorum: DEFAULT_MIN_VOTES_QUORUM,
            approval_threshold_bps: DEFAULT_APPROVAL_THRESHOLD_BPS,
            min_voting_balance: 0,
            creation_disabled: false,
            withdraw_delay_days: 0,
            withdraw_reserve_bps: 0,
            cap_learner: None,
            cap_startup: None,
            cap_educator: None,
            cap_publisher: None,
        }
    }

    /// The duration cap configured for a category, if any.
    pub open spec fn spec_cap(self, category: Category) -> Option<u64> {
        match category {
            Category::Learner => self.cap_learner,
            Category::EducationalStartup => self.cap_startup,
            Category::Educator => self.cap_educator,
            Category::Publisher => self.cap_publisher,
        }
    }

    pub fn cap(&self, category: Category) -> (r: Option<u64>)
        ensures
            r == self.spec_cap(category),
    {
        match category {
            Category::Learner => self.cap_learner,
            Category::EducationalStartup => self.cap_startup,
            Category::Educator => self.cap_educator,
            Category::Publisher => self.cap_publisher,
        }
    }

    /// The settings with the duration cap of one category replaced.
    pub open spec fn spec_with_cap(self, category: Category, max_days: u64) -> Config {
        match category {
            Category::Learner => Config { cap_learner: Some(max_days), ..self },
            Category::EducationalStartup => Config { cap_startup: Some(max_days), ..self },
            Category::Educator => Config { cap_educator: Some(max_days), ..self },
            Category::Publisher => Config { cap_publisher: Some(max_days), ..self },
        }
    }

    /// Longest campaign duration, in days, allowed for a category.
    pub open spec fn spec_max_duration(self, category: Category) -> u64 {
        match self.spec_cap(category) {
            Some(d) => d,
            None => CAMPAIGN_DURATION_MAX_DAYS,
        }
    }
}

/// A campaign together with the per-campaign records kept beside it.
pub struct CampaignEntry {
    pub campaign: Campaign,
    /// Time of creation.
    pub start_time: Option<u64>,
    /// Total revenue deposited by the creator.
    pub revenue_pool: i128,
    /// Revenue already claimed by the creator.
    pub creator_revenue_claimed: i128,
    pub approve_votes: u32,
    pub reject_votes: u32,
    /// Token weight behind the approving votes.
    pub approve_weight: i128,
    /// Token weight behind the rejecting votes.
    pub reject_weight: i128,
    /// Number of distinct contributors.
    pub contributor_count: u32,
    /// Funds withheld at withdrawal, released after a delay.
    pub reserve: Option<CampaignReserve>,
    /// Total refunded so far (bookkeeping for the accounting law).
    pub refunded: Ghost<int>,
    /// Whether this campaign slot was given to a later campaign.
    pub reused: Ghost<bool>,
}

/// What one address has to do with one campaign.
#[derive(Clone, Copy, Debug, PartialEq, Eq, Structural)]
pub struct Backer {
    pub campaign_id: u32,
    pub who: Address,
    /// Current contribution (cleared by a refund).
    pub contribution: i128,
    /// Contribution counted against the campaign cap (cleared by a refund).
    pub lifetime: i128,
    /// Revenue already claimed.
    pub revenue_claimed: i128,
    /// Personal contribution cap, if one was set.
    pub personal_cap: Option<i128>,
    /// Whether the address has voted on the campaign.
    pub has_voted: bool,
}

impl Backer {
    /// The record of an address that has done nothing with a campaign.
    pub open spec fn spec_blank(campaign_id: u32, who: Address) -> Backer {
        Backer {
            campaign_id,
            who,
            contribution: 0,
            lifetime: 0,
            revenue_claimed: 0,
            personal_cap: None,
            has_voted: false,
        }
    }

    pub fn blank(campaign_id: u32, who: Address) -> (r: Backer)
        ensures
            r == Backer::spec_blank(campaign_id, who),
    {
        Backer {
            campaign_id,
            who,
            contribution: 0,
            lifetime: 0,
            revenue_claimed: 0,
            personal_cap: None,
            has_voted: false,
        }
    }

    pub open spec fn is_for(self, campaign_id: u32, who: Address) -> bool {
        self.campaign_id == campaign_id && self.who == who
    }
}

/// Number of bucket slots one creator has used: ids recorded for it, counting
/// those of campaigns it has since handed over.
#[derive(Clone, Copy, Debug, PartialEq, Eq, Structural)]
pub struct CreatorCount {
    pub owner: Address,
    pub count: u32,
}

/// One bucket of the campaign ids owned by a creator.
#[derive(Debug)]
pub struct Bucket {
    pub owner: Address,
    pub index: u32,
    pub ids: Vec<u32>,
}

/// A bucket, by value.
pub struct BucketView {
    pub owner: Address,
    pub index: u32,
    pub ids: Seq<u32>,
}

impl View for Bucket {
    type V = BucketView;

    open spec fn view(&self) -> BucketView {
        BucketView { owner: self.owner, index: self.index, ids: self.ids@ }
    }
}

/// The whole platform state, by value.
pub struct Model {
    pub config: Config,
    pub campaign_count: u32,
    pub total_raised: i128,
    pub block_sequence: u32,
    pub block_count: u32,
    /// Campaign with id `i + 1` is at position `i`.
    pub campaigns: Seq<CampaignEntry>,
    pub backers: Seq<Backer>,
    /// Campaign ids by category code, in creation order.
    pub category_ids: Seq<Seq<u32>>,
    pub creator_counts: Seq<CreatorCount>,
    pub buckets: Seq<BucketView>,
}

/// The crowdfunding platform.
pub struct ProofOfHeart {
    pub config: Config,
    pub campaign_count: u32,
    pub total_raised: i128,
    pub block_sequence: u32,
    pub block_count: u32,
    pub campaigns: Vec<CampaignEntry>,
    pub backers: Vec<Backer>,
    pub learner_ids: Vec<u32>,
    pub startup_ids: Vec<u32>,
    pub educator_ids: Vec<u32>,
    pub publisher_ids: Vec<u32>,
    pub creator_counts: Vec<CreatorCount>,
    pub buckets: Vec<Bucket>,
}

impl View for ProofOfHeart {
    type V = Model;

    open spec fn view(&self) -> Model {
        Model {
            config: self.config,
            campaign_count: self.campaign_count,
            total_raised: self.total_raised,
            block_sequence: self.block_sequence,
            block_count: self.block_count,
            campaigns: self.campaigns@,
            backers: self.backers@,
            category_ids: seq![self.learner_ids@, self.startup_ids@, self.educator_ids@, self.publisher_ids@],
            creator_counts: self.creator_counts@,
            buckets: self.buckets@.map_values(|b: Bucket| b@),
        }
    }
}

/// Sum of the contributions recorded for one campaign.
pub open spec fn raised_from(s: Seq<Backer>, campaign_id: u32) -> int
    decreases s.len(),
{
    if s.len() == 0 {
        0
    } else {
        raised_from(s.drop_last(), campaign_id) + (if s.last().campaign_id == campaign_id {
            s.last().contribution as int
        } else {
            0
        })
    }
}

pub open spec fn share_of(b: Backer, campaign_id: u32) -> int {
    if b.campaign_id == campaign_id {
        b.contribution as int
    } else {
        0
    }
}

pub proof fn lemma_raised_update(s: Seq<Backer>, j: int, b: Backer, campaign_id: u32)
    requires
        0 <= j < s.len(),
    ensures
        raised_from(s.update(j, b), campaign_id) == raised_from(s, campaign_id) - share_of(s[j], campaign_id)
            + share_of(b, campaign_id),
    decreases s.len(),
{
    let t = s.update(j, b);
    if j == s.len() - 1 {
        assert(t.drop_last() =~= s.drop_last());
    } else {
        lemma_raised_update(s.drop_last(), j, b, campaign_id);
        assert(t.drop_last() =~= s.drop_last().update(j, b));
    }
}

pub proof fn lemma_raised_push(s: Seq<Backer>, b: Backer, campaign_id: u32)
    ensures
        raised_from(s.push(b), campaign_id) == raised_from(s, campaign_id) + share_of(b, campaign_id),
{
    assert(s.push(b).drop_last() =~= s);
}

/// Records with the same campaigns and contributions have the same sums.
pub proof fn lemma_raised_same(s: Seq<Backer>, t: Seq<Backer>, campaign_id: u32)
    requires
        s.len() == t.len(),
        forall|j: int|
            0 <= j < s.len() ==> (#[trigger] s[j]).campaign_id == t[j].campaign_id && s[j].contribution
                == t[j].contribution,
    ensures
        raised_from(s, campaign_id) == raised_from(t, campaign_id),
    decreases s.len(),
{
    if s.len() > 0 {
        lemma_raised_same(s.drop_last(), t.drop_last(), campaign_id);
    }
}

pub proof fn lemma_raised_none(s: Seq<Backer>, campaign_id: u32)
    requires
        forall|j: int| 0 <= j < s.len() ==> s[j].campaign_id != campaign_id,
    ensures
        raised_from(s, campaign_id) == 0,
    decreases s.len(),
{
    if s.len() > 0 {
        lemma_raised_none(s.drop_last(), campaign_id);
    }
}

pub open spec fn has_count_in(counts: Seq<CreatorCount>, who: Address) -> bool {
    exists|j: int| 0 <= j < counts.len() && #[trigger] counts[j].owner == who
}

pub open spec fn count_pos_in(counts: Seq<CreatorCount>, who: Address) -> int {
    choose|j: int| 0 <= j < counts.len() && #[trigger] counts[j].owner == who
}

/// The count recorded for `who` (0 if none).
pub open spec fn count_in(counts: Seq<CreatorCount>, who: Address) -> u32 {
    if has_count_in(counts, who) {
        counts[count_pos_in(counts, who)].count
    } else {
        0
    }
}

pub open spec fn has_bucket_in(buckets: Seq<BucketView>, who: Address, index: u32) -> bool {
    exists|j: int| 0 <= j < buckets.len() && #[trigger] buckets[j].owner == who && buckets[j].index == index
}

pub open spec fn bucket_pos_in(buckets: Seq<BucketView>, who: Address, index: u32) -> int {
    choose|j: int| 0 <= j < buckets.len() && #[trigger] buckets[j].owner == who && buckets[j].index == index
}

/// The ids in bucket `index` of `who` (empty if there is none).
pub open spec fn bucket_in(buckets: Seq<BucketView>, who: Address, index: u32) -> Seq<u32> {
    if has_bucket_in(buckets, who, index) {
        buckets[bucket_pos_in(buckets, who, index)].ids
    } else {
        Seq::empty()
    }
}

/// The ids in buckets `0..nb` of `who`, bucket after bucket.
pub open spec fn flat_in(buckets: Seq<BucketView>, who: Address, nb: u32) -> Seq<u32>
    decreases nb,
{
    if nb == 0 {
        Seq::empty()
    } else {
        flat_in(buckets, who, (nb - 1) as u32) + bucket_in(buckets, who, (nb - 1) as u32)
    }
}

/// Number of buckets in use for `slots` recorded ids.
pub open spec fn buckets_for(slots: u32) -> u32 {
    ((slots + CREATOR_CAMPAIGNS_BUCKET_SIZE - 1) / (CREATOR_CAMPAIGNS_BUCKET_SIZE as int)) as u32
}

/// The ids `who` holds, in the order they were recorded.
pub open spec fn ids_of(buckets: Seq<BucketView>, counts: Seq<CreatorCount>, who: Address) -> Seq<u32> {
    flat_in(buckets, who, buckets_for(count_in(counts, who)))
}

/// Only buckets below the slot count of their creator hold ids.
pub open spec fn buckets_in_range(buckets: Seq<BucketView>, counts: Seq<CreatorCount>) -> bool {
    forall|w: Address, i: u32|
        (#[trigger] bucket_in(buckets, w, i)).len() > 0 ==> i * CREATOR_CAMPAIGNS_BUCKET_SIZE < count_in(counts, w)
}

/// Every campaign is among the ids its creator holds.
pub open spec fn index_complete(campaigns: Seq<CampaignEntry>, buckets: Seq<BucketView>, counts: Seq<CreatorCount>) -> bool {
    forall|i: int|
        #![trigger campaigns[i]]
        0 <= i < campaigns.len() ==> ids_of(buckets, counts, campaigns[i].campaign.creator).contains((i + 1) as u32)
}

/// The id at position `k` of `ids`, held by `w`, names a campaign; unless that
/// campaign's slot was reused by a later campaign, `w` owns it and holds it once.
pub open spec fn held_ok(campaigns: Seq<CampaignEntry>, ids: Seq<u32>, w: Address, k: int) -> bool {
    let x = ids[k];
    &&& 1 <= x <= campaigns.len()
    &&& (!campaigns[x - 1].reused@ ==> {
        &&& campaigns[x - 1].campaign.creator == w
        &&& forall|k2: int| 0 <= k2 < ids.len() && k2 != k ==> ids[k2] != x
    })
}

/// Every id a creator holds is one of its own campaigns, held once (slots
/// reused by a later campaign excepted).
pub open spec fn index_exact(campaigns: Seq<CampaignEntry>, buckets: Seq<BucketView>, counts: Seq<CreatorCount>) -> bool {
    forall|w: Address, k: int|
        #![trigger ids_of(buckets, counts, w)[k]]
        0 <= k < ids_of(buckets, counts, w).len() ==> held_ok(campaigns, ids_of(buckets, counts, w), w, k)
}

impl Model {
    // ---- campaigns ----
    pub open spec fn has_campaign(self, id: u32) -> bool {
        1 <= id <= self.campaigns.len()
    }

    pub open spec fn entry(self, id: u32) -> CampaignEntry {
        self.campaigns[id - 1]
    }

    pub open spec fn camp(self, id: u32) -> Campaign {
        self.campaigns[id - 1].campaign
    }

    pub open spec fn admin(self) -> Address {
        self.config.admin.unwrap()
    }

    /// The model with the campaign of `id` replaced, everything beside it kept.
    pub open spec fn with_campaign(self, id: u32, c: Campaign) -> Model {
        Model {
            campaigns: self.campaigns.update(id - 1, CampaignEntry { campaign: c, ..self.entry(id) }),
            ..self
        }
    }

    pub open spec fn with_entry(self, id: u32, e: CampaignEntry) -> Model {
        Model { campaigns: self.campaigns.update(id - 1, e), ..self }
    }

    pub open spec fn with_config(self, config: Config) -> Model {
        Model { config, ..self }
    }

    // ---- backers ----
    pub open spec fn has_backer(self, campaign_id: u32, who: Address) -> bool {
        exists|j: int| 0 <= j < self.backers.len() && #[trigger] self.backers[j].is_for(campaign_id, who)
    }

    pub open spec fn backer_pos(self, campaign_id: u32, who: Address) -> int {
        choose|j: int| 0 <= j < self.backers.len() && #[trigger] self.backers[j].is_for(campaign_id, who)
    }

    /// What `who` has to do with campaign `campaign_id` (a blank record if nothing).
    pub open spec fn backer(self, campaign_id: u32, who: Address) -> Backer {
        if self.has_backer(campaign_id, who) {
            self.backers[self.backer_pos(campaign_id, who)]
        } else {
            Backer::spec_blank(campaign_id, who)
        }
    }

    /// The records with the one of (`campaign_id`, `who`) replaced by `b`.
    pub open spec fn set_backer(self, campaign_id: u32, who: Address, b: Backer) -> Seq<Backer> {
        if self.has_backer(campaign_id, who) {
            self.backers.update(self.backer_pos(campaign_id, who), b)
        } else {
            self.backers.push(b)
        }
    }

    pub open spec fn with_backer(self, campaign_id: u32, who: Address, b: Backer) -> Model {
        Model { backers: self.set_backer(campaign_id, who, b), ..self }
    }

    // ---- creator index ----
    pub open spec fn has_creator_count(self, who: Address) -> bool {
        has_count_in(self.creator_counts, who)
    }

    pub open spec fn creator_count_pos(self, who: Address) -> int {
        count_pos_in(self.creator_counts, who)
    }

    /// Number of bucket slots used by a creator: ids recorded for it, counting
    /// those that have since left.
    pub open spec fn creator_count(self, who: Address) -> u32 {
        count_in(self.creator_counts, who)
    }

    pub open spec fn set_creator_count(self, who: Address, count: u32) -> Seq<CreatorCount> {
        if self.has_creator_count(who) {
            self.creator_counts.update(self.creator_count_pos(who), CreatorCount { owner: who, count })
        } else {
            self.creator_counts.push(CreatorCount { owner: who, count })
        }
    }

    pub open spec fn has_bucket(self, who: Address, index: u32) -> bool {
        has_bucket_in(self.buckets, who, index)
    }

    pub open spec fn bucket_pos(self, who: Address, index: u32) -> int {
        bucket_pos_in(self.buckets, who, index)
    }

    /// The campaign ids in one bucket of a creator.
    pub open spec fn bucket(self, who: Address, index: u32) -> Seq<u32> {
        bucket_in(self.buckets, who, index)
    }

    pub open spec fn set_bucket(self, who: Address, index: u32, ids: Seq<u32>) -> Seq<BucketView> {
        if self.has_bucket(who, index) {
            self.buckets.update(self.bucket_pos(who, index), BucketView { owner: who, index, ids })
        } else {
            self.buckets.push(BucketView { owner: who, index, ids })
        }
    }

    /// Well-formedness: what every reachable state satisfies.
    pub open spec fn wf(self) -> bool {
        &&& self.config.platform_fee <= PLATFORM_FEE_MAX_BPS
        &&& self.config.withdraw_delay_days <= MAX_RELEASE_DELAY_DAYS
        &&& self.config.withdraw_reserve_bps <= BPS_DENOMINATOR
        &&& self.config.approval_threshold_bps <= BPS_DENOMINATOR
        &&& self.block_count <= AUTO_PAUSE_BURST_THRESHOLD
        &&& self.campaign_count <= self.campaigns.len()
        &&& self.campaigns.len() <= u32::MAX
        &&& self.category_ids.len() == 4
        &&& forall|i: int| 0 <= i < self.campaigns.len() ==> #[trigger] self.campaigns[i].campaign.id == i + 1
        &&& forall|i: int| 0 <= i < self.campaigns.len() ==> Self::entry_ok(#[trigger] self.campaigns[i])
        &&& forall|i: int|
            0 <= i < self.campaigns.len() && !(#[trigger] self.campaigns[i]).reused@ ==> raised_from(
                self.backers,
                (i + 1) as u32,
            ) + self.campaigns[i].refunded@ == self.campaigns[i].campaign.amount_raised
        &&& forall|j: int| 0 <= j < self.backers.len() ==> Self::backer_ok(#[trigger] self.backers[j])
        &&& forall|j: int|
            0 <= j < self.backers.len() ==> 1 <= #[trigger] self.backers[j].campaign_id <= self.campaigns.len()
        &&& self.backers_unique()
        &&& self.counts_unique()
        &&& self.buckets_unique()
        &&& buckets_in_range(self.buckets, self.creator_counts)
        &&& index_complete(self.campaigns, self.buckets, self.creator_counts)
        &&& index_exact(self.campaigns, self.buckets, self.creator_counts)
    }

    pub open spec fn backers_unique(self) -> bool {
        forall|j: int, k: int|
            0 <= j < self.backers.len() && 0 <= k < self.backers.len() && j != k ==> !(#[trigger] self.backers[j]).is_for(
                (#[trigger] self.backers[k]).campaign_id,
                self.backers[k].who,
            )
    }

    pub open spec fn counts_unique(self) -> bool {
        forall|j: int, k: int|
            0 <= j < self.creator_counts.len() && 0 <= k < self.creator_counts.len() && j != k ==> (#[trigger] self.creator_counts[j]).owner
                != (#[trigger] self.creator_counts[k]).owner
    }

    pub open spec fn buckets_unique(self) -> bool {
        forall|j: int, k: int|
            0 <= j < self.buckets.len() && 0 <= k < self.buckets.len() && j != k ==> !((#[trigger] self.buckets[j]).owner
                == (#[trigger] self.buckets[k]).owner && self.buckets[j].index == self.buckets[k].index)
    }

    pub open spec fn entry_ok(e: CampaignEntry) -> bool {
        &&& e.campaign.amount_raised >= 0
        &&& e.start_time is Some
        &&& e.campaign.revenue_share_percentage <= REVENUE_SHARE_MAX_BPS
        &&& (e.campaign.has_revenue_sharing <==> e.campaign.revenue_share_percentage > 0)
        &&& (e.campaign.fee_override matches Some(f) ==> f <= PLATFORM_FEE_MAX_BPS)
        &&& e.revenue_pool >= 0
        &&& e.creator_revenue_claimed >= 0
        &&& e.refunded@ >= 0
    }

    pub open spec fn backer_ok(b: Backer) -> bool {
        &&& b.contribution >= 0
        &&& b.lifetime >= 0
        &&& b.revenue_claimed >= 0
    }
}

/// Replacing one backer record keeps the records well formed, changes the
/// campaign sums by the difference, and leaves every other record as it was.
pub proof fn lemma_set_backer(m: Model, b: Backer)
    requires
        m.wf(),
        1 <= b.campaign_id <= m.campaigns.len(),
        Model::backer_ok(b),
    ensures
        ({
            let t = m.set_backer(b.campaign_id, b.who, b);
            let n = Model { backers: t, ..m };
            &&& forall|j: int| 0 <= j < t.len() ==> Model::backer_ok(#[trigger] t[j])
            &&& forall|j: int| 0 <= j < t.len() ==> 1 <= #[trigger] t[j].campaign_id <= m.campaigns.len()
            &&& forall|j: int, k: int|
                0 <= j < t.len() && 0 <= k < t.len() && j != k ==> !(#[trigger] t[j]).is_for(
                    (#[trigger] t[k]).campaign_id,
                    t[k].who,
                )
            &&& forall|c: u32|
                #[trigger] raised_from(t, c) == raised_from(m.backers, c) - share_of(
                    m.backer(b.campaign_id, b.who),
                    c,
                ) + share_of(b, c)
            &&& forall|c: u32, w: Address|
                #[trigger] n.backer(c, w) == if b.is_for(c, w) {
                    b
                } else {
                    m.backer(c, w)
                }
        }),
{
    let t = m.set_backer(b.campaign_id, b.who, b);
    let n = Model { backers: t, ..m };
    if m.has_backer(b.campaign_id, b.who) {
        let p = m.backer_pos(b.campaign_id, b.who);
        assert(m.backers[p].is_for(b.campaign_id, b.who));
        assert forall|j: int, k: int|
            0 <= j < t.len() && 0 <= k < t.len() && j != k implies !(#[trigger] t[j]).is_for(
                (#[trigger] t[k]).campaign_id,
                t[k].who,
            ) by {
            if j == p {
                assert(!m.backers[k].is_for(b.campaign_id, b.who));
            } else if k == p {
                assert(!m.backers[j].is_for(m.backers[p].campaign_id, m.backers[p].who));
            } else {
                assert(!m.backers[j].is_for(m.backers[k].campaign_id, m.backers[k].who));
            }
        }
        assert forall|c: u32| #[trigger] raised_from(t, c) == raised_from(m.backers, c) - share_of(
            m.backer(b.campaign_id, b.who),
            c,
        ) + share_of(b, c) by {
            lemma_raised_update(m.backers, p, b, c);
        }
        assert forall|c: u32, w: Address| #[trigger] n.backer(c, w) == if b.is_for(c, w) {
            b
        } else {
            m.backer(c, w)
        } by {
            if b.is_for(c, w) {
                assert(t[p].is_for(c, w));
                let q = n.backer_pos(c, w);
                assert(t[q].is_for(c, w));
            } else {
                if m.has_backer(c, w) {
                    let q = m.backer_pos(c, w);
                    assert(q != p);
                    assert(t[q] == m.backers[q]);
                    let q2 = n.backer_pos(c, w);
                    assert(t[q2].is_for(c, w));
                    if q2 != q {
                        assert(m.backers[q2].is_for(c, w));
                    }
                } else {
                    if n.has_backer(c, w) {
                        let q2 = n.backer_pos(c, w);
                        assert(m.backers[q2].is_for(c, w));
                    }
                }
            }
        }
    } else {
        assert forall|j: int, k: int|
            0 <= j < t.len() && 0 <= k < t.len() && j != k implies !(#[trigger] t[j]).is_for(
                (#[trigger] t[k]).campaign_id,
                t[k].who,
            ) by {
            let last = m.backers.len() as int;
            if j == last {
                assert(!m.backers[k].is_for(b.campaign_id, b.who));
            } else if k == last {
                assert(!m.backers[j].is_for(b.campaign_id, b.who));
            } else {
                assert(!m.backers[j].is_for(m.backers[k].campaign_id, m.backers[k].who));
            }
        }
        assert forall|c: u32| #[trigger] raised_from(t, c) == raised_from(m.backers, c) - share_of(
            m.backer(b.campaign_id, b.who),
            c,
        ) + share_of(b, c) by {
            lemma_raised_push(m.backers, b, c);
        }
        assert forall|c: u32, w: Address| #[trigger] n.backer(c, w) == if b.is_for(c, w) {
            b
        } else {
            m.backer(c, w)
        } by {
            let last = m.backers.len() as int;
            if b.is_for(c, w) {
                assert(t[last].is_for(c, w));
                let q = n.backer_pos(c, w);
                assert(t[q].is_for(c, w));
            } else {
                if m.has_backer(c, w) {
                    let q = m.backer_pos(c, w);
                    assert(t[q] == m.backers[q]);
                    let q2 = n.backer_pos(c, w);
                    assert(t[q2].is_for(c, w));
                    if q2 != q {
                        assert(m.backers[q2].is_for(c, w));
                    }
                } else {
                    if n.has_backer(c, w) {
                        let q2 = n.backer_pos(c, w);
                        assert(m.backers[q2].is_for(c, w));
                    }
                }
            }
        }
    }
}

impl ProofOfHeart {
    pub open spec fn wf(&self) -> bool {
        self@.wf()
    }

    /// A platform with nothing stored yet.
    pub fn new() -> (r: ProofOfHeart)
        ensures
            r.wf(),
            r@.config == Config::spec_fresh(),
            r@.campaign_count == 0,
            r@.total_raised == 0,
            r@.campaigns.len() == 0,
            r@.backers.len() == 0,
            r@.creator_counts.len() == 0,
            r@.buckets.len() == 0,
            r@.block_sequence == 0,
            r@.block_count == 0,
            forall|c: int| 0 <= c < 4 ==> (#[trigger] r@.category_ids[c]).len() == 0,
    {
        let r = ProofOfHeart {
            config: Config::fresh(),
            campaign_count: 0,
            total_raised: 0,
            block_sequence: 0,
            block_count: 0,
            campaigns: Vec::new(),
            backers: Vec::new(),
            learner_ids: Vec::new(),
            startup_ids: Vec::new(),
            educator_ids: Vec::new(),
            publisher_ids: Vec::new(),
            creator_counts: Vec::new(),
            buckets: Vec::new(),
        };
        assert(r@.buckets =~= Seq::<BucketView>::empty());
        r
    }

    // ---- lookups ----
    /// Position of the record of (`campaign_id`, `who`), if there is one.
    pub fn find_backer(&self, campaign_id: u32, who: Address) -> (r: Option<usize>)
        requires
            self@.backers_unique(),
        ensures
            match r {
                Some(j) => self@.has_backer(campaign_id, who) && j == self@.backer_pos(campaign_id, who),
                None => !self@.has_backer(campaign_id, who),
            },
    {
        let mut i: usize = 0;
        while i < self.backers.len()
            invariant
                self@.backers_unique(),
                i <= self.backers.len(),
                forall|j: int| 0 <= j < i ==> !(#[trigger] self.backers@[j]).is_for(campaign_id, who),
            decreases self.backers.len() - i,
        {
            let b = self.backers[i];
            if b.campaign_id == campaign_id && b.who == who {
                proof {
                    assert(self.backers@[i as int].is_for(campaign_id, who));
                    let p = self@.backer_pos(campaign_id, who);
                    assert(self@.backers[p].is_for(campaign_id, who));
                }
                return Some(i);
            }
            i = i + 1;
        }
        None
    }

    /// The record of (`campaign_id`, `who`), blank if there is none.
    pub fn backer_of(&self, campaign_id: u32, who: Address) -> (r: Backer)
        requires
            self@.backers_unique(),
        ensures
            r == self@.backer(campaign_id, who),
    {
        match self.find_backer(campaign_id, who) {
            Some(j) => self.backers[j],
            None => Backer::blank(campaign_id, who),
        }
    }

    /// Replaces the record of (`campaign_id`, `who`).
    pub fn put_backer(&mut self, b: Backer)
        requires
            old(self)@.backers_unique(),
        ensures
            final(self)@ == old(self)@.with_backer(b.campaign_id, b.who, b),
    {
        match self.find_backer(b.campaign_id, b.who) {
            Some(j) => {
                self.backers.set(j, b);
            },
            None => {
                self.backers.push(b);
            },
        }
        assert(self@.backers =~= old(self)@.set_backer(b.campaign_id, b.who, b));
        assert(self@ == old(self)@.with_backer(b.campaign_id, b.who, b));
    }
}

} // verus!
