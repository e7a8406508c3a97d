//! Listings and platform statistics.
use vstd::prelude::*;

use crate::constants::{CREATOR_CAMPAIGNS_BUCKET_SIZE, LIST_MAX_LIMIT, MAX_SCAN_WINDOW};
use crate::laws::{active_ids, active_page_ok, cancelled_ids, law_stats_count_campaigns, lemma_active_page, verified_ids};
use crate::state::{flat_in, ids_of, Model, ProofOfHeart};
use crate::types::{Address, Campaign, Category, PlatformStats};

verus! {

/// The campaigns of `ids`, in order, as copies of the stored ones.
pub open spec fn copies_of(r: Seq<Campaign>, m: Model, ids: Seq<u32>) -> bool {
    &&& r.len() == ids.len()
    &&& forall|k: int| 0 <= k < ids.len() ==> (#[trigger] r[k]).same(m.camp(ids[k]))
}

/// The consecutive ids `lo..hi`.
pub open spec fn id_range(lo: int, hi: int) -> Seq<u32> {
    Seq::new((if hi > lo { hi - lo } else { 0 }) as nat, |k: int| (lo + k) as u32)
}

impl Model {
    /// The ids among `ids` that name existing campaigns, in order.
    pub open spec fn present(self, ids: Seq<u32>) -> Seq<u32>
        decreases ids.len(),
    {
        if ids.len() == 0 {
            Seq::empty()
        } else if self.has_campaign(ids.last()) {
            self.present(ids.drop_last()).push(ids.last())
        } else {
            self.present(ids.drop_last())
        }
    }

    /// Ids listed by `list_campaigns(start, limit)`: those after `start`, at
    /// most `min(limit, 50)` of them, none above the campaign count.
    pub open spec fn listed_ids(self, start: u32, limit: u32) -> Seq<u32> {
        let total = self.campaign_count as int;
        if start >= total || limit == 0 {
            Seq::empty()
        } else {
            let capped = if limit > LIST_MAX_LIMIT { LIST_MAX_LIMIT as int } else { limit as int };
            let end = if start + capped > total { total } else { start + capped };
            id_range(start + 1, end + 1)
        }
    }

    /// Whether campaign `id` is listed as active.
    pub open spec fn listed_active(self, id: int) -> bool {
        self.has_campaign(id as u32) && self.camp(id as u32).is_active && !self.camp(id as u32).is_cancelled
    }

    /// The scan of `list_active_campaigns` from id `cur` on, with `found` already
    /// collected: the ids collected, where the scan stopped, and whether it stopped
    /// at the scan window.
    pub open spec fn active_scan(self, start: u32, capped: u32, cur: int, found: Seq<u32>) -> (Seq<u32>, int, bool)
        decreases self.campaign_count + 1 - cur,
    {
        if found.len() >= capped || cur > self.campaign_count || cur < 0 {
            (found, cur, false)
        } else {
            let found2 = if self.listed_active(cur) {
                found.push(cur as u32)
            } else {
                found
            };
            if cur + 1 > start + MAX_SCAN_WINDOW {
                (found2, cur + 1, true)
            } else {
                self.active_scan(start, capped, cur + 1, found2)
            }
        }
    }

    /// Whether some campaign with id `from` or above is listed as active.
    pub open spec fn active_from(self, from: int) -> bool {
        exists|j: int| from <= j <= self.campaign_count && #[trigger] self.listed_active(j)
    }

    /// Result of `list_active_campaigns(start, limit)`: the ids and the cursor.
    /// The cursor is the next id to scan when the scan window was used up, or
    /// when the page is full and an active campaign remains after it; else 0.
    pub open spec fn active_listing(self, start: u32, limit: u32) -> (Seq<u32>, u32) {
        if start >= self.campaign_count || limit == 0 {
            (Seq::empty(), 0)
        } else {
            let capped = if limit > LIST_MAX_LIMIT { LIST_MAX_LIMIT } else { limit };
            let (found, cur, hit) = self.active_scan(start, capped, start + 1, Seq::empty());
            let cursor = if hit || (found.len() == capped && self.active_from(cur)) {
                cur as u32
            } else {
                0
            };
            (found, cursor)
        }
    }

    /// Ids listed by `get_campaigns_by_category(category, start, limit)`.
    pub open spec fn category_listing(self, category: Category, start: u32, limit: u32) -> Seq<u32> {
        let ids = self.category_ids[category.spec_code() as int];
        if limit == 0 || start >= ids.len() {
            Seq::empty()
        } else {
            let end = if start + limit > ids.len() { ids.len() as int } else { start + limit };
            self.present(ids.subrange(start as int, end))
        }
    }

    /// The ids in buckets `0..nb` of `who`, bucket after bucket.
    pub open spec fn creator_flat(self, who: Address, nb: u32) -> Seq<u32> {
        flat_in(self.buckets, who, nb)
    }

    /// The ids `who` holds, in the order they were recorded: its buckets in use,
    /// one after the other.
    pub open spec fn creator_ids(self, who: Address) -> Seq<u32> {
        ids_of(self.buckets, self.creator_counts, who)
    }

    /// Ids listed by `get_creator_campaigns(who, start, limit)`: positions
    /// `start..start + min(limit, 50)` of the ids `who` holds.
    pub open spec fn creator_listing(self, who: Address, start: u32, limit: u32) -> Seq<u32> {
        let capped = if limit > LIST_MAX_LIMIT { LIST_MAX_LIMIT as int } else { limit as int };
        let flat = self.creator_ids(who);
        if start >= flat.len() || capped == 0 {
            Seq::empty()
        } else {
            let hi = if start + capped > flat.len() { flat.len() as int } else { start + capped };
            self.present(flat.subrange(start as int, hi))
        }
    }

    /// Campaigns among ids `1..=n` that are active and not cancelled, verified, cancelled.
    pub open spec fn stats_upto(self, n: int) -> (int, int, int)
        decreases n,
    {
        if n <= 0 {
            (0, 0, 0)
        } else {
            let (a, v, c) = self.stats_upto(n - 1);
            if self.has_campaign(n as u32) {
                let camp = self.camp(n as u32);
                (
                    a + (if camp.is_active && !camp.is_cancelled { 1int } else { 0int }),
                    v + (if camp.is_verified { 1int } else { 0int }),
                    c + (if camp.is_cancelled { 1int } else { 0int }),
                )
            } else {
                (a, v, c)
            }
        }
    }
}

proof fn lemma_stats_bounded(m: Model, n: int)
    requires
        n >= 0,
    ensures
        0 <= m.stats_upto(n).0 <= n,
        0 <= m.stats_upto(n).1 <= n,
        0 <= m.stats_upto(n).2 <= n,
    decreases n,
{
    if n > 0 {
        lemma_stats_bounded(m, n - 1);
    }
}

impl ProofOfHeart {
    /// Copies of the campaigns with the given ids (all must exist).
    fn copies(&self, ids: &Vec<u32>) -> (r: Vec<Campaign>)
        requires
            self.wf(),
            forall|k: int| 0 <= k < ids@.len() ==> self@.has_campaign(#[trigger] ids@[k]),
        ensures
            copies_of(r@, self@, ids@),
    {
        let mut r: Vec<Campaign> = Vec::new();
        let mut k: usize = 0;
        while k < ids.len()
            invariant
                self.wf(),
                k <= ids.len(),
                forall|j: int| 0 <= j < ids@.len() ==> self@.has_campaign(#[trigger] ids@[j]),
                r@.len() == k,
                forall|j: int| 0 <= j < k ==> (#[trigger] r@[j]).same(self@.camp(ids@[j])),
            decreases ids.len() - k,
        {
            let id = ids[k];
            assert(self@.has_campaign(ids@[k as int]));
            r.push(self.campaigns[(id - 1) as usize].campaign.copy());
            k = k + 1;
        }
        r
    }

    /// Campaigns in id order after the cursor `start` (exclusive), at most 50.
    pub fn list_campaigns(&self, start: u32, limit: u32) -> (r: Vec<Campaign>)
        requires
            self.wf(),
        ensures
            copies_of(r@, self@, self@.listed_ids(start, limit)),
    {
        let total = self.campaign_count;
        let mut ids: Vec<u32> = Vec::new();
        if start >= total || limit == 0 {
            return self.copies(&ids);
        }
        let capped = if limit > LIST_MAX_LIMIT {
            LIST_MAX_LIMIT
        } else {
            limit
        };
        let end = if start as u64 + capped as u64 > total as u64 {
            total
        } else {
            start + capped
        };
        let mut id: u64 = start as u64 + 1;
        while id <= end as u64
            invariant
                start < end <= total,
                total == self@.campaign_count,
                start + 1 <= id <= end + 1,
                ids@ == id_range(start + 1, id as int),
            decreases end + 1 - id,
        {
            ids.push(id as u32);
            assert(ids@ =~= id_range(start + 1, id + 1));
            id = id + 1;
        }
        assert(ids@ =~= self@.listed_ids(start, limit));
        self.copies(&ids)
    }

    /// Active campaigns after the cursor `start`, scanning at most 200 ids; also
    /// returns where to continue (0 when there is nothing more).
    pub fn list_active_campaigns(&self, start: u32, limit: u32) -> (r: (Vec<Campaign>, u32))
        requires
            self.wf(),
            self@.active_listing_fits(start, limit),
        ensures
            copies_of(r.0@, self@, self@.active_listing(start, limit).0),
            r.1 == self@.active_listing(start, limit).1,
            active_page_ok(self@, start, limit, r.0@, r.1),
    {
        let total = self.campaign_count;
        let mut ids: Vec<u32> = Vec::new();
        if start >= total || limit == 0 {
            let page = self.copies(&ids);
            proof {
                lemma_active_page(self@, start, limit, page@);
            }
            return (page, 0);
        }
        let capped = if limit > LIST_MAX_LIMIT {
            LIST_MAX_LIMIT
        } else {
            limit
        };
        let mut collected: u32 = 0;
        let mut current = start + 1;
        let mut next_cursor: u32 = 0;
        let mut hit = false;
        while collected < capped && current <= total && !hit
            invariant
                self.wf(),
                total == self@.campaign_count,
                total < u32::MAX,
                start < total,
                start + MAX_SCAN_WINDOW <= u32::MAX,
                start + 1 <= current <= total + 1,
                collected == ids@.len(),
                collected <= capped,
                capped <= LIST_MAX_LIMIT,
                forall|k: int| 0 <= k < ids@.len() ==> self@.has_campaign(#[trigger] ids@[k]),
                !hit ==> self@.active_scan(start, capped, start + 1, Seq::empty()) == self@.active_scan(
                    start,
                    capped,
                    current as int,
                    ids@,
                ),
                hit ==> self@.active_scan(start, capped, start + 1, Seq::empty()) == (ids@, current as int, true),
                hit ==> next_cursor == current,
                !hit ==> next_cursor == 0,
            decreases total + 1 - current + (if hit { 0int } else { 1int }),
        {
            let i = (current - 1) as usize;
            if self.campaigns[i].campaign.is_active && !self.campaigns[i].campaign.is_cancelled {
                ids.push(current);
                collected = collected + 1;
            }
            current = current + 1;
            if current > start + MAX_SCAN_WINDOW {
                next_cursor = current;
                hit = true;
            }
        }
        if next_cursor == 0 && collected == capped && self.has_active_from(current) {
            next_cursor = current;
        }
        let page = self.copies(&ids);
        proof {
            lemma_active_page(self@, start, limit, page@);
        }
        (page, next_cursor)
    }

    /// Whether an active campaign has id `from` or above.
    fn has_active_from(&self, from: u32) -> (r: bool)
        requires
            self.wf(),
            1 <= from,
            self@.campaign_count < u32::MAX,
        ensures
            r == self@.active_from(from as int),
    {
        let total = self.campaign_count;
        let mut j = from;
        while j <= total
            invariant
                self.wf(),
                total == self@.campaign_count,
                total < u32::MAX,
                1 <= from <= j,
                forall|k: int| from <= k < j && k <= total ==> !self@.listed_active(k),
            decreases total + 1 - j,
        {
            let i = (j - 1) as usize;
            if self.campaigns[i].campaign.is_active && !self.campaigns[i].campaign.is_cancelled {
                assert(self@.listed_active(j as int));
                return true;
            }
            j = j + 1;
        }
        assert forall|k: int| from <= k <= self@.campaign_count implies !#[trigger] self@.listed_active(k) by {}
        false
    }

    /// Campaigns of one category, in creation order, from position `start`, at most `limit`.
    pub fn get_campaigns_by_category(&self, category: Category, start: u32, limit: u32) -> (r: Vec<Campaign>)
        requires
            self.wf(),
            self@.category_listing_fits(category, start, limit),
        ensures
            copies_of(r@, self@, self@.category_listing(category, start, limit)),
    {
        let list = match category {
            Category::Learner => &self.learner_ids,
            Category::EducationalStartup => &self.startup_ids,
            Category::Educator => &self.educator_ids,
            Category::Publisher => &self.publisher_ids,
        };
        assert(list@ == self@.category_ids[category.spec_code() as int]);
        let mut ids: Vec<u32> = Vec::new();
        if limit == 0 {
            return self.copies(&ids);
        }
        let total = list.len() as u32;
        if start >= total {
            return self.copies(&ids);
        }
        let end = if start + limit > total {
            total
        } else {
            start + limit
        };
        let mut idx = start;
        assert(list@.subrange(start as int, start as int) =~= Seq::<u32>::empty());
        while idx < end
            invariant
                self.wf(),
                start <= idx <= end,
                end <= list@.len(),
                list@ == self@.category_ids[category.spec_code() as int],
                ids@ == self@.present(list@.subrange(start as int, idx as int)),
                forall|k: int| 0 <= k < ids@.len() ==> self@.has_campaign(#[trigger] ids@[k]),
            decreases end - idx,
        {
            let id = list[idx as usize];
            proof {
                assert(list@.subrange(start as int, idx + 1).drop_last() =~= list@.subrange(start as int, idx as int));
            }
            if id >= 1 && (id as usize) <= self.campaigns.len() {
                ids.push(id);
            }
            idx = idx + 1;
        }
        self.copies(&ids)
    }

    /// Counts of campaigns by state and the total raised.
    pub fn get_platform_stats(&self) -> (r: PlatformStats)
        requires
            self.wf(),
        ensures
            r.total_campaigns == self@.campaign_count,
            r.active_campaigns == self@.stats_upto(self@.campaign_count as int).0,
            r.verified_campaigns == self@.stats_upto(self@.campaign_count as int).1,
            r.cancelled_campaigns == self@.stats_upto(self@.campaign_count as int).2,
            r.active_campaigns == active_ids(self@, self@.campaign_count as int).len(),
            r.verified_campaigns == verified_ids(self@, self@.campaign_count as int).len(),
            r.cancelled_campaigns == cancelled_ids(self@, self@.campaign_count as int).len(),
            r.total_amount_raised == self@.total_raised,
    {
        let total = self.campaign_count;
        let mut active: u32 = 0;
        let mut verified: u32 = 0;
        let mut cancelled: u32 = 0;
        let mut id: u64 = 1;
        while id <= total as u64
            invariant
                self.wf(),
                total == self@.campaign_count,
                1 <= id <= total as int + 1,
                (active as int, verified as int, cancelled as int) == self@.stats_upto(id - 1),
            decreases total + 1 - id,
        {
            proof {
                lemma_stats_bounded(self@, id - 1);
            }
            let c = &self.campaigns[(id - 1) as usize].campaign;
            if c.is_active && !c.is_cancelled {
                active = active + 1;
            }
            if c.is_verified {
                verified = verified + 1;
            }
            if c.is_cancelled {
                cancelled = cancelled + 1;
            }
            id = id + 1;
        }
        proof {
            law_stats_count_campaigns(self@, total as int);
        }
        PlatformStats {
            total_campaigns: total,
            active_campaigns: active,
            verified_campaigns: verified,
            cancelled_campaigns: cancelled,
            total_amount_raised: self.total_raised,
        }
    }
}


impl ProofOfHeart {
    /// Campaigns of one creator, bucket after bucket, from position `start`, at most 50.
    pub fn get_creator_campaigns(&self, creator: Address, start: u32, limit: u32) -> (r: Vec<Campaign>)
        requires
            self.wf(),
            self@.creator_listing_fits(creator),
        ensures
            copies_of(r@, self@, self@.creator_listing(creator, start, limit)),
    {
        let capped = if limit > LIST_MAX_LIMIT {
            LIST_MAX_LIMIT
        } else {
            limit
        };
        let total = self.creator_count_of(creator);
        let mut ids: Vec<u32> = Vec::new();
        if capped == 0 {
            return self.copies(&ids);
        }
        let nb = (total + CREATOR_CAMPAIGNS_BUCKET_SIZE - 1) / CREATOR_CAMPAIGNS_BUCKET_SIZE;
        let mut flat: Vec<u32> = Vec::new();
        let mut b: u32 = 0;
        while b < nb
            invariant
                self.wf(),
                b <= nb,
                flat@ == self@.creator_flat(creator, b),
            decreases nb - b,
        {
            let bucket = self.bucket_of(creator, b);
            let mut i: usize = 0;
            let ghost base = flat@;
            while i < bucket.len()
                invariant
                    i <= bucket.len(),
                    flat@ == base + bucket@.take(i as int),
                decreases bucket.len() - i,
            {
                flat.push(bucket[i]);
                assert(bucket@.take(i + 1) =~= bucket@.take(i as int).push(bucket@[i as int]));
                assert(flat@ =~= base + bucket@.take(i + 1));
                i = i + 1;
            }
            assert(bucket@.take(bucket@.len() as int) =~= bucket@);
            b = b + 1;
        }
        let len = flat.len();
        if (start as usize) >= len {
            return self.copies(&ids);
        }
        let lo = start as usize;
        let hi = if (capped as usize) > len - (start as usize) {
            len
        } else {
            (start as usize) + (capped as usize)
        };
        let mut k = lo;
        assert(flat@.subrange(lo as int, lo as int) =~= Seq::<u32>::empty());
        while k < hi
            invariant
                self.wf(),
                lo <= k <= hi,
                hi <= flat@.len(),
                ids@ == self@.present(flat@.subrange(lo as int, k as int)),
                forall|j: int| 0 <= j < ids@.len() ==> self@.has_campaign(#[trigger] ids@[j]),
            decreases hi - k,
        {
            let id = flat[k];
            proof {
                assert(flat@.subrange(lo as int, k + 1).drop_last() =~= flat@.subrange(lo as int, k as int));
            }
            if id >= 1 && (id as usize) <= self.campaigns.len() {
                ids.push(id);
            }
            k = k + 1;
        }
        self.copies(&ids)
    }
}
} // verus!
