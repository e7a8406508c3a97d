//! Creating campaigns and what their creators do with them afterwards.
use vstd::prelude::*;

use crate::constants::{
    CAMPAIGN_DESCRIPTION_MAX_LEN, CAMPAIGN_DESCRIPTION_MIN_LEN, CAMPAIGN_DURATION_MAX_DAYS, CAMPAIGN_DURATION_MIN_DAYS,
    CAMPAIGN_TITLE_MAX_LEN, CAMPAIGN_TITLE_MIN_LEN, CREATOR_CAMPAIGNS_BUCKET_SIZE, MAX_EXTENSION_DAYS,
    PLATFORM_FEE_MAX_BPS, REVENUE_SHARE_MAX_BPS, SECONDS_PER_DAY,
};
use crate::laws::{duration_cap_days, law_create_respects_duration_cap, law_extension_respects_duration_cap};
use crate::creators::{lemma_flat_remove_keeps, lemma_flat_same, lemma_index_append, lemma_set_bucket, lemma_set_creator_count};
use crate::state::{
    bucket_in, buckets_for, buckets_in_range, count_in, held_ok, ids_of, index_complete, index_exact, BucketView,
    CreatorCount, raised_from, CampaignEntry, Model, ProofOfHeart,
};
use crate::types::{
    copy_bytes, refused_as, Address, Campaign, CampaignReserve, Category, CreateCampaignParams, Effects, Error, Event,
    Ledger, MaybePendingCreator,
};

verus! {

/// Whether a title has an accepted length.
pub open spec fn title_ok(t: Seq<u8>) -> bool {
    CAMPAIGN_TITLE_MIN_LEN <= t.len() <= CAMPAIGN_TITLE_MAX_LEN
}

/// Whether a description has an accepted length.
pub open spec fn description_ok(d: Seq<u8>) -> bool {
    CAMPAIGN_DESCRIPTION_MIN_LEN <= d.len() <= CAMPAIGN_DESCRIPTION_MAX_LEN
}

/// The revenue share stored for a request: zero unless revenue sharing is on.
pub open spec fn stored_share(p: CreateCampaignParams) -> u32 {
    if p.has_revenue_sharing {
        p.revenue_share_percentage
    } else {
        0
    }
}

/// The deadline of a campaign of `duration_days` days starting at `now` (in plain numbers).
pub open spec fn spec_deadline(now: u64, duration_days: u64) -> int {
    now + duration_days * SECONDS_PER_DAY
}

/// Computes a deadline, refusing one that does not fit.
pub fn calculate_deadline(current_time: u64, duration_days: u64) -> (r: Result<u64, Error>)
    ensures
        match r {
            Ok(d) => d == spec_deadline(current_time, duration_days),
            Err(e) => e == Error::ValidationFailed && spec_deadline(current_time, duration_days) > u64::MAX,
        },
{
    let seconds = match duration_days.checked_mul(SECONDS_PER_DAY) {
        Some(s) => s,
        None => {
            assert(duration_days * SECONDS_PER_DAY > u64::MAX);
            return Err(Error::ValidationFailed);
        },
    };
    match current_time.checked_add(seconds) {
        Some(d) => Ok(d),
        None => Err(Error::ValidationFailed),
    }
}

/// Refuses a campaign that is not running (cancelled or closed).
pub fn require_active_campaign(campaign: &Campaign) -> (r: Result<(), Error>)
    ensures
        r is Ok <==> campaign.spec_running(),
        r matches Err(e) ==> e == Error::CampaignNotActive,
{
    if campaign.is_cancelled || !campaign.is_active {
        return Err(Error::CampaignNotActive);
    }
    Ok(())
}

/// Refuses a campaign that is already verified.
pub fn require_unverified_campaign(campaign: &Campaign) -> (r: Result<(), Error>)
    ensures
        r is Ok <==> !campaign.is_verified,
        r matches Err(e) ==> e == Error::CampaignAlreadyVerified,
{
    if campaign.is_verified {
        return Err(Error::CampaignAlreadyVerified);
    }
    Ok(())
}

/// Refuses, with `error`, a campaign that does not share revenue.
pub fn require_revenue_sharing(campaign: &Campaign, error: Error) -> (r: Result<(), Error>)
    ensures
        r is Ok <==> campaign.has_revenue_sharing,
        r matches Err(e) ==> e == error,
{
    if !campaign.has_revenue_sharing {
        return Err(error);
    }
    Ok(())
}

impl Model {
    /// The creator check of creator-only calls: the campaign must exist.
    pub open spec fn found_error(self, id: u32) -> Option<Error> {
        if !self.has_campaign(id) {
            Some(Error::CampaignNotFound)
        } else {
            None
        }
    }

    pub open spec fn create_error(self, now: u64, p: CreateCampaignParams) -> Option<Error> {
        if self.config.paused {
            Some(Error::ContractPaused)
        } else if self.config.creation_disabled {
            Some(Error::CreationDisabled)
        } else if p.funding_goal <= 0 {
            Some(Error::FundingGoalMustBePositive)
        } else if p.funding_goal < self.config.min_goal {
            Some(Error::FundingGoalTooLow)
        } else if p.funding_goal > self.config.max_goal {
            Some(Error::FundingGoalTooHigh)
        } else if p.duration_days < CAMPAIGN_DURATION_MIN_DAYS || p.duration_days > self.config.spec_max_duration(
            p.category,
        ) {
            Some(Error::InvalidDuration)
        } else if !title_ok(p.title@) || !description_ok(p.description@) {
            Some(Error::ValidationFailed)
        } else if p.category != Category::EducationalStartup && p.has_revenue_sharing {
            Some(Error::RevenueShareOnlyForStartup)
        } else if stored_share(p) > REVENUE_SHARE_MAX_BPS || (p.has_revenue_sharing && stored_share(p) == 0) {
            Some(Error::InvalidRevenueShare)
        } else if p.max_contribution_per_user < 0 {
            Some(Error::ValidationFailed)
        } else if spec_deadline(now, p.duration_days) > u64::MAX {
            Some(Error::ValidationFailed)
        } else {
            None
        }
    }

    /// The campaign a successful request creates.
    pub open spec fn new_campaign(self, now: u64, p: CreateCampaignParams) -> Campaign {
        Campaign {
            id: (self.campaign_count + 1) as u32,
            creator: p.creator,
            original_creator: p.creator,
            pending_creator: MaybePendingCreator::Absent,
            title: p.title,
            description: p.description,
            funding_goal: p.funding_goal,
            deadline: spec_deadline(now, p.duration_days) as u64,
            amount_raised: 0,
            is_active: true,
            funds_withdrawn: false,
            is_cancelled: false,
            is_verified: false,
            category: p.category,
            has_revenue_sharing: p.has_revenue_sharing,
            revenue_share_percentage: stored_share(p),
            max_contribution_per_user: p.max_contribution_per_user,
            fee_override: None,
            deadline_extended: false,
        }
    }

    /// The state after a successful creation: the campaign takes id `count + 1`
    /// (its slot, if one exists from before, is reused with fresh campaign data,
    /// start time and revenue pool), and is indexed by category and by creator.
    pub open spec fn after_create(self, now: u64, p: CreateCampaignParams) -> Model {
        let id = (self.campaign_count + 1) as u32;
        let c = self.new_campaign(now, p);
        let campaigns = if id <= self.campaigns.len() {
            self.campaigns.update(
                id - 1,
                CampaignEntry {
                    campaign: c,
                    start_time: Some(now),
                    revenue_pool: 0,
                    reused: Ghost(true),
                    ..self.entry(id)
                },
            )
        } else {
            self.campaigns.push(
                CampaignEntry {
                    campaign: c,
                    start_time: Some(now),
                    revenue_pool: 0,
                    creator_revenue_claimed: 0,
                    approve_votes: 0,
                    reject_votes: 0,
                    approve_weight: 0,
                    reject_weight: 0,
                    contributor_count: 0,
                    reserve: None,
                    refunded: Ghost(0),
                    reused: Ghost(false),
                },
            )
        };
        let cat = p.category.spec_code() as int;
        let count = self.creator_count(p.creator);
        let b = (count / CREATOR_CAMPAIGNS_BUCKET_SIZE) as u32;
        Model {
            campaigns,
            campaign_count: id,
            category_ids: self.category_ids.update(cat, self.category_ids[cat].push(id)),
            buckets: self.set_bucket(p.creator, b, self.bucket(p.creator, b).push(id)),
            creator_counts: self.set_creator_count(p.creator, (count + 1) as u32),
            ..self
        }
    }

    /// The creator check, then the pause check.
    pub open spec fn creator_unpaused_error(self, id: u32) -> Option<Error> {
        if !self.has_campaign(id) {
            Some(Error::CampaignNotFound)
        } else {
            self.paused_error()
        }
    }

    pub open spec fn cancel_error(self, id: u32) -> Option<Error> {
        if self.creator_unpaused_error(id) is Some {
            self.creator_unpaused_error(id)
        } else if !self.camp(id).spec_running() {
            Some(Error::CampaignNotActive)
        } else if self.camp(id).funds_withdrawn {
            Some(Error::CancellationNotAllowed)
        } else {
            None
        }
    }

    pub open spec fn update_error(self, id: u32, title: Seq<u8>, description: Seq<u8>) -> Option<Error> {
        if !self.has_campaign(id) {
            Some(Error::CampaignNotFound)
        } else if self.camp(id).amount_raised > 0 {
            Some(Error::ValidationFailed)
        } else if !self.camp(id).spec_running() {
            Some(Error::CampaignNotActive)
        } else if !title_ok(title) || !description_ok(description) {
            Some(Error::ValidationFailed)
        } else {
            None
        }
    }

    pub open spec fn update_description_error(self, id: u32, description: Seq<u8>) -> Option<Error> {
        if !self.has_campaign(id) {
            Some(Error::CampaignNotFound)
        } else if !self.camp(id).spec_running() {
            Some(Error::CampaignNotActive)
        } else if !description_ok(description) {
            Some(Error::ValidationFailed)
        } else {
            None
        }
    }

    pub open spec fn initiate_transfer_error(self, id: u32, new_creator: Address) -> Option<Error> {
        if self.creator_unpaused_error(id) is Some {
            self.creator_unpaused_error(id)
        } else if new_creator == self.camp(id).creator {
            Some(Error::InvalidNewOwner)
        } else {
            None
        }
    }

    pub open spec fn cancel_transfer_error(self, id: u32) -> Option<Error> {
        if self.creator_unpaused_error(id) is Some {
            self.creator_unpaused_error(id)
        } else if self.camp(id).pending_creator == MaybePendingCreator::Absent {
            Some(Error::NoTransferPending)
        } else {
            None
        }
    }

    pub open spec fn accept_transfer_error(self, id: u32) -> Option<Error> {
        if self.creator_unpaused_error(id) is Some {
            self.creator_unpaused_error(id)
        } else if self.camp(id).pending_creator == MaybePendingCreator::Absent {
            Some(Error::NoTransferPending)
        } else {
            None
        }
    }

    /// The pending creator of a campaign.
    pub open spec fn pending_of(self, id: u32) -> Address {
        match self.camp(id).pending_creator {
            MaybePendingCreator::Pending(a) => a,
            MaybePendingCreator::Absent => Address { id: 0 },
        }
    }

    /// The first bucket, among `b..nb`, of `who` that holds `id`.
    pub open spec fn first_bucket_with(self, who: Address, id: u32, b: u32, nb: u32) -> Option<u32>
        decreases nb - b,
    {
        if b >= nb {
            None
        } else if self.bucket(who, b).contains(id) {
            Some(b)
        } else {
            self.first_bucket_with(who, id, (b + 1) as u32, nb)
        }
    }

    /// The creator index after `id` leaves `who`: the id leaves the first bucket
    /// of `who` that holds it. The slot count of `who` stays, so later ids are
    /// still appended after every id `who` holds, and no bucket is skipped.
    pub open spec fn after_detach(self, who: Address, id: u32) -> Model {
        let count = self.creator_count(who);
        let nb = ((count + CREATOR_CAMPAIGNS_BUCKET_SIZE - 1) / (CREATOR_CAMPAIGNS_BUCKET_SIZE as int)) as u32;
        match self.first_bucket_with(who, id, 0, nb) {
            Some(b) => Model { buckets: self.set_bucket(who, b, remove_first(self.bucket(who, b), id)), ..self },
            None => self,
        }
    }

    /// The creator index after `id` joins `who`: the id is appended to the bucket
    /// numbered by the current count, and the count grows by one.
    pub open spec fn after_attach(self, who: Address, id: u32) -> Model {
        let count = self.creator_count(who);
        let b = (count / CREATOR_CAMPAIGNS_BUCKET_SIZE) as u32;
        let m1 = Model { buckets: self.set_bucket(who, b, self.bucket(who, b).push(id)), ..self };
        Model { creator_counts: m1.set_creator_count(who, (count + 1) as u32), ..m1 }
    }

    /// The state after the pending creator takes a campaign over: the id leaves
    /// the old creator's index (`after_detach`), joins the new creator's
    /// (`after_attach`), and the campaign changes hands with nothing pending.
    pub open spec fn after_accept_transfer(self, id: u32) -> Model {
        let old_creator = self.camp(id).creator;
        let pending = self.pending_of(id);
        self.after_detach(old_creator, id).after_attach(pending, id).with_campaign(
            id,
            Campaign { creator: pending, pending_creator: MaybePendingCreator::Absent, ..self.camp(id) },
        )
    }

    pub open spec fn extend_error(self, now: u64, id: u32, additional_days: u64) -> Option<Error> {
        if self.creator_unpaused_error(id) is Some {
            self.creator_unpaused_error(id)
        } else if self.camp(id).deadline_extended {
            Some(Error::DeadlineAlreadyExtended)
        } else if now >= self.camp(id).deadline {
            Some(Error::DeadlinePassed)
        } else if additional_days == 0 || additional_days > MAX_EXTENSION_DAYS {
            Some(Error::ExtensionTooLong)
        } else if self.camp(id).deadline + additional_days * SECONDS_PER_DAY > u64::MAX {
            Some(Error::Overflow)
        } else {
            match self.entry(id).start_time {
                Some(start) => {
                    let end = self.camp(id).deadline + additional_days * SECONDS_PER_DAY;
                    if end < start {
                        Some(Error::Overflow)
                    } else if (end - start) / (SECONDS_PER_DAY as int) > self.config.spec_max_duration(
                        self.camp(id).category,
                    ) {
                        Some(Error::InvalidDuration)
                    } else {
                        None
                    }
                },
                None => None,
            }
        }
    }

    pub open spec fn fee_override_error(self, admin: Address, id: u32, fee_bps: u32) -> Option<Error> {
        if self.admin_error(admin) is Some {
            self.admin_error(admin)
        } else if !self.has_campaign(id) {
            Some(Error::CampaignNotFound)
        } else if fee_bps > PLATFORM_FEE_MAX_BPS {
            Some(Error::ValidationFailed)
        } else {
            None
        }
    }
}

/// `s` without its first `x` (unchanged when `x` is absent).
pub open spec fn remove_first(s: Seq<u32>, x: u32) -> Seq<u32> {
    if s.contains(x) {
        s.remove(first_pos(s, x))
    } else {
        s
    }
}

/// Position of the first `x` in `s`.
pub open spec fn first_pos(s: Seq<u32>, x: u32) -> int
    decreases s.len(),
{
    if s.len() == 0 {
        0
    } else if s[0] == x {
        0
    } else {
        1 + first_pos(s.subrange(1, s.len() as int), x)
    }
}

proof fn lemma_first_pos(s: Seq<u32>, x: u32, i: int)
    requires
        0 <= i < s.len(),
        s[i] == x,
        forall|j: int| 0 <= j < i ==> s[j] != x,
    ensures
        first_pos(s, x) == i,
    decreases s.len(),
{
    if i > 0 {
        let t = s.subrange(1, s.len() as int);
        assert(t[i - 1] == x);
        lemma_first_pos(t, x, i - 1);
    }
}

/// The creator index of a well-formed state, after `who` records `id` in the
/// bucket its slot count points at and `id` becomes a campaign of `who`: the
/// buckets stay in range and every campaign is still among its creator's ids.
proof fn lemma_index_after_record(m: Model, who: Address, id: u32, campaigns: Seq<CampaignEntry>)
    requires
        m.counts_unique(),
        m.buckets_unique(),
        buckets_in_range(m.buckets, m.creator_counts),
        m.creator_count(who) < u32::MAX,
        1 <= id <= campaigns.len(),
        campaigns[id - 1].campaign.creator == who,
        forall|i: int| 0 <= i < campaigns.len() && i != id - 1 ==> ids_of(
            m.buckets,
            m.creator_counts,
            (#[trigger] campaigns[i]).campaign.creator,
        ).contains((i + 1) as u32),
    ensures
        ({
            let b = (m.creator_count(who) / CREATOR_CAMPAIGNS_BUCKET_SIZE) as u32;
            let bs = m.set_bucket(who, b, m.bucket(who, b).push(id));
            let cs = Model { buckets: bs, ..m }.set_creator_count(who, (m.creator_count(who) + 1) as u32);
            &&& buckets_in_range(bs, cs)
            &&& index_complete(campaigns, bs, cs)
            &&& forall|w: Address| #[trigger] ids_of(bs, cs, w) == if w == who {
                ids_of(m.buckets, m.creator_counts, who).push(id)
            } else {
                ids_of(m.buckets, m.creator_counts, w)
            }
        }),
{
    let count = m.creator_count(who);
    let b = (count / CREATOR_CAMPAIGNS_BUCKET_SIZE) as u32;
    let bs = m.set_bucket(who, b, m.bucket(who, b).push(id));
    let mb = Model { buckets: bs, ..m };
    let cs = mb.set_creator_count(who, (count + 1) as u32);
    let mc = Model { creator_counts: cs, ..mb };
    lemma_set_bucket(m, who, b, m.bucket(who, b).push(id));
    lemma_set_creator_count(mb, who, (count + 1) as u32);
    assert forall|w: Address, i: u32| #[trigger] bucket_in(bs, w, i) == if w == who && i == count_in(
        m.creator_counts,
        who,
    ) / CREATOR_CAMPAIGNS_BUCKET_SIZE {
        bucket_in(m.buckets, who, i).push(id)
    } else {
        bucket_in(m.buckets, w, i)
    } by {
        assert(mb.bucket(w, i) == bucket_in(bs, w, i));
    }
    assert forall|w: Address| #[trigger] count_in(cs, w) == if w == who {
        (count_in(m.creator_counts, who) + 1) as u32
    } else {
        count_in(m.creator_counts, w)
    } by {
        assert(mc.creator_count(w) == count_in(cs, w));
        assert(mb.creator_count(w) == m.creator_count(w));
    }
    lemma_index_append(m.buckets, m.creator_counts, bs, cs, who, id);
    assert forall|i: int| #![trigger campaigns[i]] 0 <= i < campaigns.len() implies ids_of(
        bs,
        cs,
        campaigns[i].campaign.creator,
    ).contains((i + 1) as u32) by {
        let w = campaigns[i].campaign.creator;
        if i == id - 1 {
            assert(ids_of(bs, cs, w)[ids_of(bs, cs, w).len() - 1] == id);
        } else {
            let f = ids_of(m.buckets, m.creator_counts, w);
            let j = choose|j: int| 0 <= j < f.len() && f[j] == (i + 1) as u32;
            assert(ids_of(bs, cs, w)[j] == (i + 1) as u32);
        }
    }
}

/// The first bucket found holds the id and lies in the range searched.
proof fn lemma_first_bucket_with(m: Model, who: Address, id: u32, b: u32, nb: u32)
    requires
        m.first_bucket_with(who, id, b, nb) is Some,
    ensures
        ({
            let t = m.first_bucket_with(who, id, b, nb)->0;
            b <= t < nb && m.bucket(who, t).contains(id)
        }),
    decreases nb - b,
{
    if b < nb && !m.bucket(who, b).contains(id) {
        lemma_first_bucket_with(m, who, id, (b + 1) as u32, nb);
    }
}

/// After `id` leaves the index of `who`, buckets stay in range, the slot counts
/// stay, and every other campaign is still among its creator's ids.
proof fn lemma_index_after_detach(m: Model, who: Address, id: u32)
    requires
        m.wf(),
        m.has_campaign(id),
    ensures
        ({
            let n = m.after_detach(who, id);
            &&& n.creator_counts == m.creator_counts
            &&& buckets_in_range(n.buckets, n.creator_counts)
            &&& forall|i: int| 0 <= i < m.campaigns.len() && i != id - 1 ==> ids_of(
                n.buckets,
                n.creator_counts,
                (#[trigger] m.campaigns[i]).campaign.creator,
            ).contains((i + 1) as u32)
        }),
{
    let n = m.after_detach(who, id);
    let count = m.creator_count(who);
    let nb = ((count + CREATOR_CAMPAIGNS_BUCKET_SIZE - 1) / (CREATOR_CAMPAIGNS_BUCKET_SIZE as int)) as u32;
    match m.first_bucket_with(who, id, 0, nb) {
        Some(b) => {
            lemma_first_bucket_with(m, who, id, 0, nb);
            let ids = remove_first(m.bucket(who, b), id);
            lemma_set_bucket(m, who, b, ids);
            let mb = Model { buckets: n.buckets, ..m };
            assert forall|w: Address, i: u32| (#[trigger] bucket_in(n.buckets, w, i)).len() > 0 implies i
                * CREATOR_CAMPAIGNS_BUCKET_SIZE < count_in(n.creator_counts, w) by {
                assert(mb.bucket(w, i) == bucket_in(n.buckets, w, i));
                if w == who && i == b {
                    assert(bucket_in(m.buckets, who, b).len() > 0);
                } else {
                    assert(bucket_in(m.buckets, w, i).len() > 0);
                }
            }
            assert forall|i: int| 0 <= i < m.campaigns.len() && i != id - 1 implies ids_of(
                n.buckets,
                n.creator_counts,
                (#[trigger] m.campaigns[i]).campaign.creator,
            ).contains((i + 1) as u32) by {
                let w = m.campaigns[i].campaign.creator;
                let wb = buckets_for(count_in(m.creator_counts, w));
                assert(ids_of(m.buckets, m.creator_counts, w).contains((i + 1) as u32));
                if w == who {
                    assert forall|k: u32| k != b implies #[trigger] bucket_in(n.buckets, who, k) == bucket_in(
                        m.buckets,
                        who,
                        k,
                    ) by {
                        assert(mb.bucket(who, k) == bucket_in(n.buckets, who, k));
                    }
                    assert(mb.bucket(who, b) == bucket_in(n.buckets, who, b));
                    lemma_flat_remove_keeps(m.buckets, n.buckets, who, wb, b, id, (i + 1) as u32);
                } else {
                    assert forall|k: u32| k < wb implies #[trigger] bucket_in(m.buckets, w, k) == bucket_in(
                        n.buckets,
                        w,
                        k,
                    ) by {
                        assert(mb.bucket(w, k) == bucket_in(n.buckets, w, k));
                    }
                    lemma_flat_same(m.buckets, n.buckets, w, wb);
                }
            }
        },
        None => {},
    }
}

/// Recording `id` for `who`, when `id` becomes a campaign of `who` and is held
/// by nobody (or its slot was reused), keeps every held id owned and held once.
proof fn lemma_exact_after_record(
    old_c: Seq<CampaignEntry>,
    campaigns: Seq<CampaignEntry>,
    b1: Seq<BucketView>,
    c1: Seq<CreatorCount>,
    b2: Seq<BucketView>,
    c2: Seq<CreatorCount>,
    who: Address,
    id: u32,
)
    requires
        index_exact(old_c, b1, c1),
        campaigns.len() >= old_c.len(),
        1 <= id <= campaigns.len(),
        campaigns[id - 1].campaign.creator == who,
        forall|i: int| 0 <= i < old_c.len() && i != id - 1 ==> (#[trigger] campaigns[i]).campaign.creator
            == old_c[i].campaign.creator && campaigns[i].reused@ == old_c[i].reused@,
        campaigns[id - 1].reused@ || forall|w: Address| !(#[trigger] ids_of(b1, c1, w)).contains(id),
        forall|w: Address| #[trigger] ids_of(b2, c2, w) == if w == who {
            ids_of(b1, c1, who).push(id)
        } else {
            ids_of(b1, c1, w)
        },
    ensures
        index_exact(campaigns, b2, c2),
{
    assert forall|w: Address, k: int|
        #![trigger ids_of(b2, c2, w)[k]]
        0 <= k < ids_of(b2, c2, w).len() implies held_ok(campaigns, ids_of(b2, c2, w), w, k) by {
        let l = ids_of(b1, c1, w);
        let l2 = ids_of(b2, c2, w);
        if k < l.len() {
            assert(l2[k] == l[k]);
            assert(held_ok(old_c, l, w, k));
            let x = l[k];
            if x == id {
                if !campaigns[id - 1].reused@ {
                    assert(l.contains(id));
                }
            } else {
                assert(campaigns[x - 1].campaign.creator == old_c[x - 1].campaign.creator);
                if !campaigns[x - 1].reused@ {
                    assert forall|k2: int| 0 <= k2 < l2.len() && k2 != k implies l2[k2] != x by {
                        if k2 < l.len() {
                            assert(l2[k2] == l[k2]);
                        }
                    }
                }
            }
        } else {
            assert(w == who);
            assert(l2[k] == id);
            if !campaigns[id - 1].reused@ {
                assert forall|k2: int| 0 <= k2 < l2.len() && k2 != k implies l2[k2] != id by {
                    assert(l2[k2] == l[k2]);
                    if l[k2] == id {
                        assert(l.contains(id));
                    }
                }
            }
        }
    }
}

/// After `id` leaves the index of its creator `who`, every held id is still
/// owned and held once, and an id whose slot was not reused is held by nobody.
proof fn lemma_exact_after_detach(m: Model, who: Address, id: u32)
    requires
        m.wf(),
        m.has_campaign(id),
        m.camp(id).creator == who,
    ensures
        ({
            let n = m.after_detach(who, id);
            &&& index_exact(m.campaigns, n.buckets, n.creator_counts)
            &&& !m.campaigns[id - 1].reused@ ==> forall|w: Address| !(#[trigger] ids_of(
                n.buckets,
                n.creator_counts,
                w,
            )).contains(id)
        }),
{
    let n = m.after_detach(who, id);
    let count = m.creator_count(who);
    let nb = ((count + CREATOR_CAMPAIGNS_BUCKET_SIZE - 1) / (CREATOR_CAMPAIGNS_BUCKET_SIZE as int)) as u32;
    let l = ids_of(m.buckets, m.creator_counts, who);
    assert(m.campaigns[id - 1] == m.campaigns[id - 1]);
    assert(l.contains(id));
    // Others never hold an id whose slot was not reused.
    assert forall|w: Address| w != who && !m.campaigns[id - 1].reused@ implies !(#[trigger] ids_of(
        m.buckets,
        m.creator_counts,
        w,
    )).contains(id) by {
        let lw = ids_of(m.buckets, m.creator_counts, w);
        if lw.contains(id) {
            let j = choose|j: int| 0 <= j < lw.len() && lw[j] == id;
            assert(held_ok(m.campaigns, lw, w, j));
        }
    }
    match m.first_bucket_with(who, id, 0, nb) {
        Some(b) => {
            lemma_first_bucket_with(m, who, id, 0, nb);
            let ids = remove_first(m.bucket(who, b), id);
            lemma_set_bucket(m, who, b, ids);
            let mb = Model { buckets: n.buckets, ..m };
            assert forall|k: u32| k != b implies #[trigger] bucket_in(n.buckets, who, k) == bucket_in(
                m.buckets,
                who,
                k,
            ) by {
                assert(mb.bucket(who, k) == bucket_in(n.buckets, who, k));
            }
            assert(mb.bucket(who, b) == bucket_in(n.buckets, who, b));
            let p = crate::creators::lemma_flat_remove_at(m.buckets, n.buckets, who, nb, b, id);
            let l2 = ids_of(n.buckets, n.creator_counts, who);
            assert(l2 == l.remove(p));
            assert forall|w: Address| w != who implies #[trigger] ids_of(n.buckets, n.creator_counts, w) == ids_of(
                m.buckets,
                m.creator_counts,
                w,
            ) by {
                let wb = buckets_for(count_in(m.creator_counts, w));
                assert forall|k: u32| k < wb implies #[trigger] bucket_in(m.buckets, w, k) == bucket_in(
                    n.buckets,
                    w,
                    k,
                ) by {
                    assert(mb.bucket(w, k) == bucket_in(n.buckets, w, k));
                }
                lemma_flat_same(m.buckets, n.buckets, w, wb);
            }
            assert forall|w: Address, k: int|
                #![trigger ids_of(n.buckets, n.creator_counts, w)[k]]
                0 <= k < ids_of(n.buckets, n.creator_counts, w).len() implies held_ok(
                m.campaigns,
                ids_of(n.buckets, n.creator_counts, w),
                w,
                k,
            ) by {
                if w == who {
                    let k1 = if k < p { k } else { k + 1 };
                    assert(l2[k] == l[k1]);
                    assert(held_ok(m.campaigns, l, who, k1));
                    let x = l[k1];
                    if !m.campaigns[x - 1].reused@ {
                        assert forall|k2: int| 0 <= k2 < l2.len() && k2 != k implies l2[k2] != x by {
                            let k3 = if k2 < p { k2 } else { k2 + 1 };
                            assert(l2[k2] == l[k3]);
                        }
                    }
                } else {
                    let lw = ids_of(m.buckets, m.creator_counts, w);
                    assert(held_ok(m.campaigns, lw, w, k));
                }
            }
            if !m.campaigns[id - 1].reused@ {
                assert(held_ok(m.campaigns, l, who, p));
                assert forall|w: Address| !(#[trigger] ids_of(n.buckets, n.creator_counts, w)).contains(id) by {
                    if w == who && l2.contains(id) {
                        let j = choose|j: int| 0 <= j < l2.len() && l2[j] == id;
                        let j1 = if j < p { j } else { j + 1 };
                        assert(l2[j] == l[j1]);
                    }
                }
            }
        },
        None => {
            lemma_first_bucket_none(m, who, id, 0, nb);
            crate::creators::lemma_flat_without(m.buckets, who, nb, id);
        },
    }
}

/// When no bucket in `b..nb` is found, none of them holds the id.
proof fn lemma_first_bucket_none(m: Model, who: Address, id: u32, b: u32, nb: u32)
    requires
        m.first_bucket_with(who, id, b, nb) is None,
    ensures
        forall|k: u32| b <= k < nb ==> !(#[trigger] bucket_in(m.buckets, who, k)).contains(id),
    decreases nb - b,
{
    if b < nb {
        lemma_first_bucket_none(m, who, id, (b + 1) as u32, nb);
        assert(!m.bucket(who, b).contains(id));
    }
}

/// A creation keeps the creator index complete, exact and in range.
proof fn lemma_index_after_create(m: Model, now: u64, p: CreateCampaignParams)
    requires
        m.wf(),
        m.create_fits(p.creator),
    ensures
        ({
            let n = m.after_create(now, p);
            &&& buckets_in_range(n.buckets, n.creator_counts)
            &&& index_complete(n.campaigns, n.buckets, n.creator_counts)
            &&& index_exact(n.campaigns, n.buckets, n.creator_counts)
        }),
{
    let n = m.after_create(now, p);
    let id = (m.campaign_count + 1) as u32;
    let who = p.creator;
    assert forall|k: int| 0 <= k < n.campaigns.len() && k != id - 1 implies ids_of(
        m.buckets,
        m.creator_counts,
        (#[trigger] n.campaigns[k]).campaign.creator,
    ).contains((k + 1) as u32) by {
        assert(n.campaigns[k] == m.campaigns[k]);
    }
    lemma_index_after_record(m, who, id, n.campaigns);
    assert forall|i: int| 0 <= i < m.campaigns.len() && i != id - 1 implies (#[trigger] n.campaigns[i]).campaign.creator
        == m.campaigns[i].campaign.creator && n.campaigns[i].reused@ == m.campaigns[i].reused@ by {
        assert(n.campaigns[i] == m.campaigns[i]);
    }
    if id > m.campaigns.len() {
        assert forall|w: Address| !(#[trigger] ids_of(m.buckets, m.creator_counts, w)).contains(id) by {
            let l = ids_of(m.buckets, m.creator_counts, w);
            if l.contains(id) {
                let j = choose|j: int| 0 <= j < l.len() && l[j] == id;
                assert(held_ok(m.campaigns, l, w, j));
            }
        }
    }
    lemma_exact_after_record(m.campaigns, n.campaigns, m.buckets, m.creator_counts, n.buckets, n.creator_counts, who, id);
}

/// Keeping the amounts of a campaign keeps the state well formed.
pub proof fn lemma_wf_with_campaign(m: Model, id: u32, c: Campaign)
    requires
        m.wf(),
        m.has_campaign(id),
        c.id == id,
        c.amount_raised == m.camp(id).amount_raised,
        c.revenue_share_percentage == m.camp(id).revenue_share_percentage,
        c.has_revenue_sharing == m.camp(id).has_revenue_sharing,
        c.creator == m.camp(id).creator,
        c.fee_override matches Some(f) ==> f <= PLATFORM_FEE_MAX_BPS,
    ensures
        m.with_campaign(id, c).wf(),
{
    let n = m.with_campaign(id, c);
    assert forall|i: int| 0 <= i < n.campaigns.len() implies ids_of(n.buckets, n.creator_counts, #[trigger] n.campaigns[i].campaign.creator).contains((i + 1) as u32) by {
        assert(m.campaigns[i].campaign.creator == n.campaigns[i].campaign.creator);
    }
    assert forall|i: int| 0 <= i < n.campaigns.len() && !(#[trigger] n.campaigns[i]).reused@ implies raised_from(
        n.backers,
        (i + 1) as u32,
    ) + n.campaigns[i].refunded@ == n.campaigns[i].campaign.amount_raised by {
        assert(m.campaigns[i].reused@ == n.campaigns[i].reused@);
    }
}

impl ProofOfHeart {
    /// Position of campaign `id`, or the refusal when it does not exist.
    pub fn slot(&self, id: u32) -> (r: Result<usize, Error>)
        requires
            self.wf(),
        ensures
            refused_as(r, self@.found_error(id)),
            r matches Ok(i) ==> i == id - 1 && self@.has_campaign(id),
    {
        if id == 0 || id as usize > self.campaigns.len() {
            Err(Error::CampaignNotFound)
        } else {
            Ok((id - 1) as usize)
        }
    }

    /// Creates a campaign and returns its id.
    pub fn create_campaign(&mut self, ledger: Ledger, params: CreateCampaignParams) -> (r: Result<
        (u32, Effects),
        Error,
    >)
        requires
            old(self).wf(),
            old(self)@.create_fits(params.creator),
        ensures
            final(self).wf(),
            refused_as(r, old(self)@.create_error(ledger.timestamp, params)),
            r is Err ==> final(self)@ == old(self)@,
            r is Ok ==> 1 <= params.duration_days <= duration_cap_days(old(self)@.config, params.category),
            r matches Ok((id, fx)) ==> {
                let c = final(self)@.campaigns[id - 1].campaign;
                &&& final(self)@.campaigns.len() >= id
                &&& c.id == id && c.creator == params.creator && c.original_creator == params.creator
                &&& c.title@ == params.title@ && c.description@ == params.description@
                &&& c.funding_goal == params.funding_goal && c.category == params.category
                &&& c.deadline == ledger.timestamp + params.duration_days * SECONDS_PER_DAY
                &&& c.amount_raised == 0 && c.is_active && !c.is_cancelled && !c.is_verified && !c.funds_withdrawn
                &&& c.has_revenue_sharing == params.has_revenue_sharing
                &&& c.revenue_share_percentage == (if params.has_revenue_sharing {
                    params.revenue_share_percentage
                } else {
                    0
                })
                &&& c.max_contribution_per_user == params.max_contribution_per_user
            },
            r matches Ok((id, fx)) ==> {
                &&& id == old(self)@.campaign_count + 1
                &&& final(self)@ == old(self)@.after_create(ledger.timestamp, params)
                &&& fx.auth == Some(params.creator)
                &&& fx.transfers@ == Seq::<crate::types::Transfer>::empty()
                &&& fx.events@.len() == 1
                &&& fx.events@[0] matches Event::CampaignCreated { campaign_id, creator, title } && campaign_id == id
                    && creator == params.creator && title@ == params.title@
            },
    {
        let now = ledger.timestamp;
        if self.config.paused {
            return Err(Error::ContractPaused);
        }
        if self.config.creation_disabled {
            return Err(Error::CreationDisabled);
        }
        if params.funding_goal <= 0 {
            return Err(Error::FundingGoalMustBePositive);
        }
        if params.funding_goal < self.config.min_goal {
            return Err(Error::FundingGoalTooLow);
        }
        if params.funding_goal > self.config.max_goal {
            return Err(Error::FundingGoalTooHigh);
        }
        let duration_max = match self.config.cap(params.category) {
            Some(d) => d,
            None => CAMPAIGN_DURATION_MAX_DAYS,
        };
        if params.duration_days < CAMPAIGN_DURATION_MIN_DAYS || params.duration_days > duration_max {
            return Err(Error::InvalidDuration);
        }
        if params.title.len() < CAMPAIGN_TITLE_MIN_LEN || params.title.len() > CAMPAIGN_TITLE_MAX_LEN {
            return Err(Error::ValidationFailed);
        }
        if params.description.len() < CAMPAIGN_DESCRIPTION_MIN_LEN || params.description.len()
            > CAMPAIGN_DESCRIPTION_MAX_LEN {
            return Err(Error::ValidationFailed);
        }
        if params.category != Category::EducationalStartup && params.has_revenue_sharing {
            return Err(Error::RevenueShareOnlyForStartup);
        }
        let share = if !params.has_revenue_sharing {
            0u32
        } else {
            params.revenue_share_percentage
        };
        if share > REVENUE_SHARE_MAX_BPS {
            return Err(Error::InvalidRevenueShare);
        }
        if params.has_revenue_sharing && share == 0 {
            return Err(Error::InvalidRevenueShare);
        }
        if params.max_contribution_per_user < 0 {
            return Err(Error::ValidationFailed);
        }
        let id = self.campaign_count + 1;
        let deadline = calculate_deadline(now, params.duration_days)?;
        let ghost pre = self@;
        let creator = params.creator;
        let category = params.category;
        let event_title = copy_bytes(&params.title);
        let c = Campaign {
            id,
            creator,
            original_creator: creator,
            pending_creator: MaybePendingCreator::Absent,
            title: params.title,
            description: params.description,
            funding_goal: params.funding_goal,
            deadline,
            amount_raised: 0,
            is_active: true,
            funds_withdrawn: false,
            is_cancelled: false,
            is_verified: false,
            category,
            has_revenue_sharing: params.has_revenue_sharing,
            revenue_share_percentage: share,
            max_contribution_per_user: params.max_contribution_per_user,
            fee_override: None,
            deadline_extended: false,
        };
        assert(c == pre.new_campaign(now, params));
        if (id as usize) <= self.campaigns.len() {
            let i = (id - 1) as usize;
            let e = CampaignEntry {
                campaign: c,
                start_time: Some(now),
                revenue_pool: 0,
                creator_revenue_claimed: self.campaigns[i].creator_revenue_claimed,
                approve_votes: self.campaigns[i].approve_votes,
                reject_votes: self.campaigns[i].reject_votes,
                approve_weight: self.campaigns[i].approve_weight,
                reject_weight: self.campaigns[i].reject_weight,
                contributor_count: self.campaigns[i].contributor_count,
                reserve: self.campaigns[i].reserve,
                refunded: Ghost(self.campaigns@[i as int].refunded@),
                reused: Ghost(true),
            };
            self.campaigns.set(i, e);
        } else {
            let e = CampaignEntry {
                campaign: c,
                start_time: Some(now),
                revenue_pool: 0,
                creator_revenue_claimed: 0,
                approve_votes: 0,
                reject_votes: 0,
                approve_weight: 0,
                reject_weight: 0,
                contributor_count: 0,
                reserve: None,
                refunded: Ghost(0),
                reused: Ghost(false),
            };
            self.campaigns.push(e);
        }
        self.campaign_count = id;
        match category {
            Category::Learner => self.learner_ids.push(id),
            Category::EducationalStartup => self.startup_ids.push(id),
            Category::Educator => self.educator_ids.push(id),
            Category::Publisher => self.publisher_ids.push(id),
        }
        let ghost mid = self@;
        let count = self.creator_count_of(creator);
        let b = count / CREATOR_CAMPAIGNS_BUCKET_SIZE;
        let mut ids = self.bucket_of(creator, b);
        ids.push(id);
        self.put_bucket(creator, b, ids);
        proof {
            lemma_set_bucket(mid, creator, b, mid.bucket(creator, b).push(id));
        }
        let ghost mid2 = self@;
        self.put_creator_count(creator, count + 1);
        proof {
            lemma_set_creator_count(mid2, creator, (count + 1) as u32);
            assert(mid.category_ids =~= pre.category_ids.update(
                category.spec_code() as int,
                pre.category_ids[category.spec_code() as int].push(id),
            ));
            assert(mid.bucket(creator, b) == pre.bucket(creator, b));
            assert(mid.creator_count(creator) == pre.creator_count(creator)) by {
                if pre.has_creator_count(creator) {
                    assert(mid.creator_count_pos(creator) == pre.creator_count_pos(creator));
                }
            }
            assert(mid.set_bucket(creator, b, mid.bucket(creator, b).push(id)) == pre.set_bucket(
                creator,
                b,
                pre.bucket(creator, b).push(id),
            )) by {
                if pre.has_bucket(creator, b) {
                    assert(mid.bucket_pos(creator, b) == pre.bucket_pos(creator, b));
                }
            }
            assert(mid2.set_creator_count(creator, (count + 1) as u32) == pre.set_creator_count(
                creator,
                (count + 1) as u32,
            )) by {
                if pre.has_creator_count(creator) {
                    assert(mid2.creator_count_pos(creator) == pre.creator_count_pos(creator));
                }
            }
            assert(self@ == pre.after_create(now, params));
            let n = self@;
            lemma_index_after_create(pre, now, params);
            assert forall|k: int| 0 <= k < n.campaigns.len() && !(#[trigger] n.campaigns[k]).reused@ implies raised_from(
                n.backers,
                (k + 1) as u32,
            ) + n.campaigns[k].refunded@ == n.campaigns[k].campaign.amount_raised by {
                if k == pre.campaigns.len() {
                    crate::state::lemma_raised_none(n.backers, (k + 1) as u32);
                }
            }
        }
        proof {
            law_create_respects_duration_cap(pre, now, params);
            crate::laws::law_created_campaign_readable(pre, now, params);
        }
        Ok((id, Effects::one(Some(creator), Event::CampaignCreated { campaign_id: id, creator, title: event_title })))
    }
}


impl ProofOfHeart {
    /// Cancels a running campaign (creator only).
    pub fn cancel_campaign(&mut self, id: u32) -> (r: Result<Effects, Error>)
        requires
            old(self).wf(),
        ensures
            final(self).wf(),
            refused_as(r, old(self)@.cancel_error(id)),
            r is Err ==> final(self)@ == old(self)@,
            r is Ok ==> {
                let c = old(self)@.campaigns[id - 1].campaign;
                &&& 1 <= id <= old(self)@.campaigns.len() && !old(self)@.config.paused
                &&& c.is_active && !c.is_cancelled && !c.funds_withdrawn
                &&& final(self)@.campaigns[id - 1].campaign.is_cancelled && !final(self)@.campaigns[id - 1].campaign.is_active
            },
            r matches Ok(fx) ==> {
                &&& final(self)@ == old(self)@.with_campaign(
                    id,
                    Campaign { is_cancelled: true, is_active: false, ..old(self)@.camp(id) },
                )
                &&& fx.is(Some(old(self)@.camp(id).creator), seq![], seq![Event::CampaignCancelled { campaign_id: id }])
            },
    {
        let i = self.slot(id)?;
        self.require_not_paused()?;
        let creator = self.campaigns[i].campaign.creator;
        require_active_campaign(&self.campaigns[i].campaign)?;
        if self.campaigns[i].campaign.funds_withdrawn {
            return Err(Error::CancellationNotAllowed);
        }
        proof {
            lemma_wf_with_campaign(
                self@,
                id,
                Campaign { is_cancelled: true, is_active: false, ..self@.camp(id) },
            );
        }
        self.campaigns[i].campaign.is_cancelled = true;
        self.campaigns[i].campaign.is_active = false;
        assert(self@.campaigns =~= old(self)@.with_campaign(
            id,
            Campaign { is_cancelled: true, is_active: false, ..old(self)@.camp(id) },
        ).campaigns);
        Ok(Effects::one(Some(creator), Event::CampaignCancelled { campaign_id: id }))
    }

    /// Replaces title and description while the campaign has raised nothing (creator only).
    pub fn update_campaign(&mut self, id: u32, title: Vec<u8>, description: Vec<u8>) -> (r: Result<
        Effects,
        Error,
    >)
        requires
            old(self).wf(),
        ensures
            final(self).wf(),
            refused_as(r, old(self)@.update_error(id, title@, description@)),
            r is Err ==> final(self)@ == old(self)@,
            r is Ok ==> {
                let c = old(self)@.campaigns[id - 1].campaign;
                &&& 1 <= id <= old(self)@.campaigns.len()
                &&& c.amount_raised == 0 && c.is_active && !c.is_cancelled
                &&& 1 <= title@.len() <= 100 && 1 <= description@.len() <= 1000
                &&& final(self)@.campaigns[id - 1].campaign.title@ == title@
                &&& final(self)@.campaigns[id - 1].campaign.description@ == description@
            },
            r matches Ok(fx) ==> {
                &&& final(self)@ == old(self)@.with_campaign(
                    id,
                    Campaign { title, description, ..old(self)@.camp(id) },
                )
                &&& fx.auth == Some(old(self)@.camp(id).creator)
                &&& fx.transfers@ == Seq::<crate::types::Transfer>::empty()
                &&& fx.events@.len() == 1
                &&& fx.events@[0] matches Event::CampaignUpdated { campaign_id, title: t } && campaign_id == id && t@
                    == title@
            },
    {
        let i = self.slot(id)?;
        let creator = self.campaigns[i].campaign.creator;
        if self.campaigns[i].campaign.amount_raised > 0 {
            return Err(Error::ValidationFailed);
        }
        require_active_campaign(&self.campaigns[i].campaign)?;
        if title.len() < CAMPAIGN_TITLE_MIN_LEN || title.len() > CAMPAIGN_TITLE_MAX_LEN {
            return Err(Error::ValidationFailed);
        }
        if description.len() < CAMPAIGN_DESCRIPTION_MIN_LEN || description.len() > CAMPAIGN_DESCRIPTION_MAX_LEN {
            return Err(Error::ValidationFailed);
        }
        let event_title = copy_bytes(&title);
        proof {
            lemma_wf_with_campaign(self@, id, Campaign { title, description, ..self@.camp(id) });
        }
        let ghost want = old(self)@.with_campaign(id, Campaign { title, description, ..old(self)@.camp(id) });
        self.campaigns[i].campaign.title = title;
        self.campaigns[i].campaign.description = description;
        assert(self@.campaigns =~= want.campaigns);
        Ok(Effects::one(Some(creator), Event::CampaignUpdated { campaign_id: id, title: event_title }))
    }

    /// Replaces the description of a running campaign (creator only).
    pub fn update_campaign_description(&mut self, id: u32, description: Vec<u8>) -> (r: Result<Effects, Error>)
        requires
            old(self).wf(),
        ensures
            final(self).wf(),
            refused_as(r, old(self)@.update_description_error(id, description@)),
            r is Err ==> final(self)@ == old(self)@,
            r is Ok ==> {
                let c = old(self)@.campaigns[id - 1].campaign;
                &&& 1 <= id <= old(self)@.campaigns.len()
                &&& c.is_active && !c.is_cancelled
                &&& 1 <= description@.len() <= 1000
                &&& final(self)@.campaigns[id - 1].campaign.description@ == description@
            },
            r matches Ok(fx) ==> {
                &&& final(self)@ == old(self)@.with_campaign(id, Campaign { description, ..old(self)@.camp(id) })
                &&& fx.is(
                    Some(old(self)@.camp(id).creator),
                    seq![],
                    seq![Event::CampaignDescriptionUpdated { campaign_id: id }],
                )
            },
    {
        let i = self.slot(id)?;
        let creator = self.campaigns[i].campaign.creator;
        require_active_campaign(&self.campaigns[i].campaign)?;
        if description.len() < CAMPAIGN_DESCRIPTION_MIN_LEN || description.len() > CAMPAIGN_DESCRIPTION_MAX_LEN {
            return Err(Error::ValidationFailed);
        }
        proof {
            lemma_wf_with_campaign(self@, id, Campaign { description, ..self@.camp(id) });
        }
        self.campaigns[i].campaign.description = description;
        Ok(Effects::one(Some(creator), Event::CampaignDescriptionUpdated { campaign_id: id }))
    }

    /// Proposes a new creator for a campaign (creator only); a new proposal replaces an older one.
    pub fn initiate_campaign_transfer(&mut self, id: u32, new_creator: Address) -> (r: Result<Effects, Error>)
        requires
            old(self).wf(),
        ensures
            final(self).wf(),
            refused_as(r, old(self)@.initiate_transfer_error(id, new_creator)),
            r is Err ==> final(self)@ == old(self)@,
            r is Ok ==> 1 <= id <= old(self)@.campaigns.len() && !old(self)@.config.paused && new_creator
                != old(self)@.campaigns[id - 1].campaign.creator && final(self)@.campaigns[id
                - 1].campaign.pending_creator == MaybePendingCreator::Pending(new_creator),
            r matches Ok(fx) ==> {
                &&& final(self)@ == old(self)@.with_campaign(
                    id,
                    Campaign { pending_creator: MaybePendingCreator::Pending(new_creator), ..old(self)@.camp(id) },
                )
                &&& fx.is(
                    Some(old(self)@.camp(id).creator),
                    seq![],
                    seq![
                        Event::CampaignTransferInitiated {
                            campaign_id: id,
                            creator: old(self)@.camp(id).creator,
                            new_creator,
                        },
                    ],
                )
            },
    {
        let i = self.slot(id)?;
        self.require_not_paused()?;
        let creator = self.campaigns[i].campaign.creator;
        if new_creator == creator {
            return Err(Error::InvalidNewOwner);
        }
        proof {
            lemma_wf_with_campaign(
                self@,
                id,
                Campaign { pending_creator: MaybePendingCreator::Pending(new_creator), ..self@.camp(id) },
            );
        }
        self.campaigns[i].campaign.pending_creator = MaybePendingCreator::Pending(new_creator);
        Ok(
            Effects::one(
                Some(creator),
                Event::CampaignTransferInitiated { campaign_id: id, creator, new_creator },
            ),
        )
    }

    /// Withdraws a pending creator proposal (creator only).
    pub fn cancel_campaign_transfer(&mut self, id: u32) -> (r: Result<Effects, Error>)
        requires
            old(self).wf(),
        ensures
            final(self).wf(),
            refused_as(r, old(self)@.cancel_transfer_error(id)),
            r is Err ==> final(self)@ == old(self)@,
            r matches Ok(fx) ==> {
                &&& final(self)@ == old(self)@.with_campaign(
                    id,
                    Campaign { pending_creator: MaybePendingCreator::Absent, ..old(self)@.camp(id) },
                )
                &&& fx.is(
                    Some(old(self)@.camp(id).creator),
                    seq![],
                    seq![Event::CampaignTransferCancelled { campaign_id: id }],
                )
            },
    {
        let i = self.slot(id)?;
        self.require_not_paused()?;
        let creator = self.campaigns[i].campaign.creator;
        if self.campaigns[i].campaign.pending_creator == MaybePendingCreator::Absent {
            return Err(Error::NoTransferPending);
        }
        proof {
            lemma_wf_with_campaign(
                self@,
                id,
                Campaign { pending_creator: MaybePendingCreator::Absent, ..self@.camp(id) },
            );
        }
        self.campaigns[i].campaign.pending_creator = MaybePendingCreator::Absent;
        Ok(Effects::one(Some(creator), Event::CampaignTransferCancelled { campaign_id: id }))
    }

    /// Extends the deadline once, by 1 to 30 days, before it passes, within the
    /// category's duration cap counted from the start (creator only).
    pub fn extend_campaign_deadline(&mut self, ledger: Ledger, id: u32, additional_days: u64) -> (r: Result<
        Effects,
        Error,
    >)
        requires
            old(self).wf(),
        ensures
            final(self).wf(),
            refused_as(r, old(self)@.extend_error(ledger.timestamp, id, additional_days)),
            r is Err ==> final(self)@ == old(self)@,
            r is Ok ==> 1 <= additional_days <= 30,
            r is Ok ==> old(self)@.entry(id).start_time is Some,
            r is Ok ==> (final(self)@.camp(id).deadline - old(self)@.entry(id).start_time->0) / (SECONDS_PER_DAY as int)
                <= duration_cap_days(old(self)@.config, old(self)@.camp(id).category),
            r matches Ok(fx) ==> {
                &&& final(self)@ == old(self)@.with_campaign(
                    id,
                    Campaign {
                        deadline: (old(self)@.camp(id).deadline + additional_days * SECONDS_PER_DAY) as u64,
                        deadline_extended: true,
                        ..old(self)@.camp(id)
                    },
                )
                &&& fx.is(
                    Some(old(self)@.camp(id).creator),
                    seq![],
                    seq![Event::CampaignDeadlineExtended { campaign_id: id, additional_days }],
                )
            },
    {
        let i = self.slot(id)?;
        self.require_not_paused()?;
        let creator = self.campaigns[i].campaign.creator;
        let deadline = self.campaigns[i].campaign.deadline;
        if self.campaigns[i].campaign.deadline_extended {
            return Err(Error::DeadlineAlreadyExtended);
        }
        if ledger.timestamp >= deadline {
            return Err(Error::DeadlinePassed);
        }
        if additional_days == 0 || additional_days > MAX_EXTENSION_DAYS {
            return Err(Error::ExtensionTooLong);
        }
        let new_deadline = match deadline.checked_add(additional_days * SECONDS_PER_DAY) {
            Some(d) => d,
            None => {
                return Err(Error::Overflow);
            },
        };
        match self.campaigns[i].start_time {
            Some(start) => {
                let cap = match self.config.cap(self.campaigns[i].campaign.category) {
                    Some(d) => d,
                    None => CAMPAIGN_DURATION_MAX_DAYS,
                };
                let total = match new_deadline.checked_sub(start) {
                    Some(t) => t,
                    None => {
                        return Err(Error::Overflow);
                    },
                };
                if total / SECONDS_PER_DAY > cap {
                    return Err(Error::InvalidDuration);
                }
            },
            None => {},
        }
        proof {
            lemma_wf_with_campaign(
                self@,
                id,
                Campaign { deadline: new_deadline, deadline_extended: true, ..self@.camp(id) },
            );
        }
        self.campaigns[i].campaign.deadline = new_deadline;
        self.campaigns[i].campaign.deadline_extended = true;
        assert(self@.campaigns =~= old(self)@.with_campaign(
            id,
            Campaign { deadline: new_deadline, deadline_extended: true, ..old(self)@.camp(id) },
        ).campaigns);
        proof {
            law_extension_respects_duration_cap(old(self)@, ledger.timestamp, id, additional_days);
        }
        Ok(Effects::one(Some(creator), Event::CampaignDeadlineExtended { campaign_id: id, additional_days }))
    }

    /// Sets the platform fee of one campaign, overriding the global fee (admin only).
    pub fn set_campaign_fee_override(&mut self, admin: Address, id: u32, fee_bps: u32) -> (r: Result<
        Effects,
        Error,
    >)
        requires
            old(self).wf(),
            old(self)@.config.admin is Some,
        ensures
            final(self).wf(),
            refused_as(r, old(self)@.fee_override_error(admin, id, fee_bps)),
            r is Err ==> final(self)@ == old(self)@,
            r is Ok ==> old(self)@.config.admin == Some(admin) && fee_bps <= 1000,
            r matches Ok(fx) ==> {
                &&& final(self)@ == old(self)@.with_campaign(
                    id,
                    Campaign { fee_override: Some(fee_bps), ..old(self)@.camp(id) },
                )
                &&& fx.is(Some(admin), seq![], seq![Event::CampaignFeeOverrideSet { campaign_id: id, fee_bps }])
            },
    {
        self.check_admin(admin)?;
        let i = self.slot(id)?;
        if fee_bps > PLATFORM_FEE_MAX_BPS {
            return Err(Error::ValidationFailed);
        }
        proof {
            lemma_wf_with_campaign(self@, id, Campaign { fee_override: Some(fee_bps), ..self@.camp(id) });
        }
        self.campaigns[i].campaign.fee_override = Some(fee_bps);
        Ok(Effects::one(Some(admin), Event::CampaignFeeOverrideSet { campaign_id: id, fee_bps }))
    }

    /// A copy of campaign `id`.
    pub fn get_campaign(&self, id: u32) -> (r: Result<Campaign, Error>)
        requires
            self.wf(),
        ensures
            refused_as(r, self@.found_error(id)),
            r matches Ok(c) ==> c.same(self@.camp(id)),
    {
        let i = self.slot(id)?;
        Ok(self.campaigns[i].campaign.copy())
    }

    /// A copy of campaign `id`, if it exists.
    pub fn get_campaign_optional(&self, id: u32) -> (r: Option<Campaign>)
        requires
            self.wf(),
        ensures
            r is Some <==> self@.has_campaign(id),
            r matches Some(c) ==> c.same(self@.camp(id)),
    {
        match self.get_campaign(id) {
            Ok(c) => Some(c),
            Err(_) => None,
        }
    }

    /// The reserve withheld from campaign `id`, if any.
    pub fn get_campaign_reserve(&self, id: u32) -> (r: Option<CampaignReserve>)
        requires
            self.wf(),
        ensures
            r == (if self@.has_campaign(id) {
                self@.entry(id).reserve
            } else {
                None
            }),
    {
        match self.slot(id) {
            Ok(i) => self.campaigns[i].reserve,
            Err(_) => None,
        }
    }
}

/// Position of the first `x` in `v`, if any.
pub fn position_of(v: &Vec<u32>, x: u32) -> (r: Option<usize>)
    ensures
        match r {
            Some(p) => v@.contains(x) && p == first_pos(v@, x) && p < v@.len(),
            None => !v@.contains(x),
        },
{
    let mut i: usize = 0;
    while i < v.len()
        invariant
            i <= v.len(),
            forall|j: int| 0 <= j < i ==> v@[j] != x,
        decreases v.len() - i,
    {
        if v[i] == x {
            proof {
                lemma_first_pos(v@, x, i as int);
            }
            return Some(i);
        }
        i = i + 1;
    }
    None
}

/// Models that differ only in their buckets record the same creator counts.
proof fn lemma_set_bucket_keeps_counts(m: Model, n: Model)
    requires
        n.creator_counts == m.creator_counts,
    ensures
        forall|w: Address| #[trigger] n.creator_count(w) == m.creator_count(w),
{
    assert forall|w: Address| #[trigger] n.creator_count(w) == m.creator_count(w) by {
        if m.has_creator_count(w) {
            assert(n.creator_count_pos(w) == m.creator_count_pos(w));
        }
    }
}

impl ProofOfHeart {
    /// Removes `id` from the creator index of `who`.
    fn detach_campaign(&mut self, who: Address, id: u32)
        requires
            old(self)@.counts_unique(),
            old(self)@.buckets_unique(),
            old(self)@.creator_count(who) + CREATOR_CAMPAIGNS_BUCKET_SIZE <= u32::MAX,
        ensures
            final(self)@ == old(self)@.after_detach(who, id),
            final(self)@.counts_unique(),
            final(self)@.buckets_unique(),
    {
        let ghost pre = self@;
        let count = self.creator_count_of(who);
        let nb = (count + CREATOR_CAMPAIGNS_BUCKET_SIZE - 1) / CREATOR_CAMPAIGNS_BUCKET_SIZE;
        let mut b: u32 = 0;
        let mut target: Option<u32> = None;
        while b < nb && target.is_none()
            invariant
                self@ == pre,
                pre.counts_unique(),
                pre.buckets_unique(),
                b <= nb,
                target is None ==> pre.first_bucket_with(who, id, 0, nb) == pre.first_bucket_with(who, id, b, nb),
                target matches Some(t) ==> pre.first_bucket_with(who, id, 0, nb) == Some(t),
            decreases (nb - b) as int + (if target is None { 1int } else { 0int }),
        {
            let ids = self.bucket_of(who, b);
            if position_of(&ids, id).is_some() {
                target = Some(b);
            } else {
                b = b + 1;
            }
        }
        match target {
            Some(t) => {
                let mut ids = self.bucket_of(who, t);
                match position_of(&ids, id) {
                    Some(pos) => {
                        ids.remove(pos);
                    },
                    None => {},
                }
                proof {
                    assert(ids@ == remove_first(pre.bucket(who, t), id));
                    lemma_set_bucket(pre, who, t, ids@);
                }
                self.put_bucket(who, t, ids);
            },
            None => {},
        }
    }

    /// Adds `id` to the creator index of `who`.
    fn attach_campaign(&mut self, who: Address, id: u32)
        requires
            old(self)@.counts_unique(),
            old(self)@.buckets_unique(),
            old(self)@.creator_count(who) < u32::MAX,
        ensures
            final(self)@ == old(self)@.after_attach(who, id),
            final(self)@.counts_unique(),
            final(self)@.buckets_unique(),
    {
        let ghost pre = self@;
        let count = self.creator_count_of(who);
        let b = count / CREATOR_CAMPAIGNS_BUCKET_SIZE;
        let mut ids = self.bucket_of(who, b);
        ids.push(id);
        proof {
            lemma_set_bucket(pre, who, b, ids@);
        }
        self.put_bucket(who, b, ids);
        let ghost m1 = self@;
        proof {
            lemma_set_bucket_keeps_counts(pre, m1);
            lemma_set_creator_count(m1, who, (count + 1) as u32);
        }
        self.put_creator_count(who, count + 1);
    }

    /// The pending creator takes the campaign over and the creator index follows.
    #[verifier::spinoff_prover]
    #[verifier::rlimit(40)]
    pub fn accept_campaign_transfer(&mut self, id: u32) -> (r: Result<Effects, Error>)
        requires
            old(self).wf(),
            old(self)@.accept_transfer_fits(id),
        ensures
            final(self).wf(),
            refused_as(r, old(self)@.accept_transfer_error(id)),
            r is Err ==> final(self)@ == old(self)@,
            r is Ok ==> 1 <= id <= old(self)@.campaigns.len() && old(self)@.campaigns[id - 1].campaign.pending_creator
                == MaybePendingCreator::Pending(final(self)@.campaigns[id - 1].campaign.creator)
                && final(self)@.campaigns[id - 1].campaign.pending_creator == MaybePendingCreator::Absent,
            r matches Ok(fx) ==> {
                &&& final(self)@ == old(self)@.after_accept_transfer(id)
                &&& fx.is(
                    Some(old(self)@.pending_of(id)),
                    seq![],
                    seq![
                        Event::CampaignTransferCompleted {
                            campaign_id: id,
                            old_creator: old(self)@.camp(id).creator,
                            new_creator: old(self)@.pending_of(id),
                        },
                    ],
                )
            },
    {
        let i = self.slot(id)?;
        self.require_not_paused()?;
        let pending = match self.campaigns[i].campaign.pending_creator {
            MaybePendingCreator::Pending(a) => a,
            MaybePendingCreator::Absent => {
                return Err(Error::NoTransferPending);
            },
        };
        let ghost pre = self@;
        let old_creator = self.campaigns[i].campaign.creator;
        self.detach_campaign(old_creator, id);
        let ghost m2 = self@;
        proof {
            lemma_index_after_detach(pre, old_creator, id);
            lemma_exact_after_detach(pre, old_creator, id);
            lemma_set_bucket_keeps_counts(pre, m2);
        }
        self.attach_campaign(pending, id);
        let ghost m4 = self@;
        self.campaigns[i].campaign.creator = pending;
        self.campaigns[i].campaign.pending_creator = MaybePendingCreator::Absent;
        proof {
            let n = self@;
            assert forall|k: int| 0 <= k < n.campaigns.len() && k != id - 1 implies ids_of(
                m2.buckets,
                m2.creator_counts,
                (#[trigger] n.campaigns[k]).campaign.creator,
            ).contains((k + 1) as u32) by {
                assert(n.campaigns[k] == pre.campaigns[k]);
            }
            lemma_index_after_record(m2, pending, id, n.campaigns);
            assert forall|k: int| 0 <= k < pre.campaigns.len() && k != id - 1 implies (#[trigger] n.campaigns[k]).campaign.creator
                == pre.campaigns[k].campaign.creator && n.campaigns[k].reused@ == pre.campaigns[k].reused@ by {
                assert(n.campaigns[k] == pre.campaigns[k]);
            }
            lemma_exact_after_record(pre.campaigns, n.campaigns, m2.buckets, m2.creator_counts, n.buckets, n.creator_counts, pending, id);
            assert(n.campaigns =~= m4.with_campaign(
                id,
                Campaign { creator: pending, pending_creator: MaybePendingCreator::Absent, ..m4.camp(id) },
            ).campaigns);
            assert forall|k: int| 0 <= k < n.campaigns.len() && !(#[trigger] n.campaigns[k]).reused@ implies raised_from(
                n.backers,
                (k + 1) as u32,
            ) + n.campaigns[k].refunded@ == n.campaigns[k].campaign.amount_raised by {
                assert(pre.campaigns[k].reused@ == n.campaigns[k].reused@);
            }
            assert forall|k: int| 0 <= k < n.campaigns.len() implies Model::entry_ok(#[trigger] n.campaigns[k]) by {
                assert(Model::entry_ok(pre.campaigns[k]));
            }
        }
        Ok(
            Effects::one(
                Some(pending),
                Event::CampaignTransferCompleted { campaign_id: id, old_creator, new_creator: pending },
            ),
        )
    }
}

} // verus!
