//! Properties of the platform as a whole, over its operations' specifications.
use vstd::prelude::*;

use crate::constants::{
    BPS_DENOMINATOR, CAMPAIGN_DURATION_MAX_DAYS, MAX_BATCH_SIZE, MAX_SCAN_WINDOW, PLATFORM_FEE_MAX_BPS, REVENUE_SHARE_MAX_BPS,
    SECONDS_PER_DAY,
};
use crate::funds::{lemma_due_bounded, lemma_pool_split, lemma_withdraw_split};
use crate::state::{CampaignEntry, held_ok, ids_of, lemma_set_backer, raised_from, Backer, Model};
use crate::state::Config;
use crate::types::{Address, Campaign, Category, CreateCampaignParams, Error, Event, Ledger};

verus! {

/// A single record's contribution is part of its campaign's sum.
proof fn lemma_one_contribution_within_sum(s: Seq<Backer>, j: int, campaign_id: u32)
    requires
        0 <= j < s.len(),
        s[j].campaign_id == campaign_id,
        forall|k: int| 0 <= k < s.len() ==> (#[trigger] s[k]).contribution >= 0,
    ensures
        s[j].contribution <= raised_from(s, campaign_id),
        raised_from(s, campaign_id) >= 0,
    decreases s.len(),
{
    lemma_sum_nonnegative(s.drop_last(), campaign_id);
    if j < s.len() - 1 {
        lemma_one_contribution_within_sum(s.drop_last(), j, campaign_id);
    }
}

proof fn lemma_sum_nonnegative(s: Seq<Backer>, campaign_id: u32)
    requires
        forall|k: int| 0 <= k < s.len() ==> (#[trigger] s[k]).contribution >= 0,
    ensures
        raised_from(s, campaign_id) >= 0,
    decreases s.len(),
{
    if s.len() > 0 {
        lemma_sum_nonnegative(s.drop_last(), campaign_id);
    }
}

/// Backer lookups depend on the backer records alone.
proof fn lemma_same_backers(a: Model, b: Model)
    requires
        a.backers == b.backers,
    ensures
        forall|c: u32, w: Address| #[trigger] a.backer(c, w) == b.backer(c, w),
{
    assert forall|c: u32, w: Address| #[trigger] a.backer(c, w) == b.backer(c, w) by {
        if a.has_backer(c, w) {
            assert(a.backer_pos(c, w) == b.backer_pos(c, w));
        }
    }
}

/// Every contribution to a campaign whose slot was never reused is at most what it raised.
proof fn lemma_contribution_within_raised(m: Model, id: u32, who: Address)
    requires
        m.wf(),
        m.has_campaign(id),
        !m.entry(id).reused@,
    ensures
        0 <= m.backer(id, who).contribution <= m.camp(id).amount_raised,
{
    assert forall|k: int| 0 <= k < m.backers.len() implies (#[trigger] m.backers[k]).contribution >= 0 by {
        assert(Model::backer_ok(m.backers[k]));
    }
    assert(m.campaigns[id - 1].campaign.id == id);
    lemma_sum_nonnegative(m.backers, id);
    if m.has_backer(id, who) {
        let p = m.backer_pos(id, who);
        lemma_one_contribution_within_sum(m.backers, p, id);
    }
}

/// Accounting: the contributions recorded for a campaign, plus what was refunded
/// from it, add up to its amount raised; so while no refund has been paid, the
/// contributions alone add up to the amount raised. (Not for a campaign whose
/// slot was taken over by a later campaign after a re-initialization.)
pub proof fn law_contributions_add_up(m: Model, id: u32)
    requires
        m.wf(),
        m.has_campaign(id),
        !m.entry(id).reused@,
    ensures
        raised_from(m.backers, id) + m.entry(id).refunded@ == m.camp(id).amount_raised,
        m.entry(id).refunded@ == 0 ==> raised_from(m.backers, id) == m.camp(id).amount_raised,
{
    assert(m.campaigns[id - 1].campaign.id == id);
    assert(((id - 1) + 1) as u32 == id);
}

/// Withdrawal: the platform fee, the reserve and the creator's part are never
/// negative and add up to the amount raised.
pub proof fn law_withdrawal_split(m: Model, id: u32)
    requires
        m.wf(),
        m.has_campaign(id),
    ensures
        m.withdraw_fee_amount(id) + m.withdraw_reserve_amount(id) + m.withdraw_creator_amount(id)
            == m.camp(id).amount_raised,
        0 <= m.withdraw_fee_amount(id),
        0 <= m.withdraw_reserve_amount(id),
        0 <= m.withdraw_creator_amount(id),
        m.fee_bps_of(id) <= PLATFORM_FEE_MAX_BPS,
{
    assert(Model::entry_ok(m.campaigns[id - 1]));
    lemma_withdraw_split(
        m.camp(id).amount_raised as int,
        m.fee_bps_of(id) as int,
        m.config.withdraw_reserve_bps as int,
    );
}

/// Revenue: the contributors' pool and the creator's share are never negative
/// and make up the whole revenue pool.
pub proof fn law_revenue_split(m: Model, id: u32)
    requires
        m.wf(),
        m.has_campaign(id),
    ensures
        m.contributor_pool_of(id) + m.creator_share_of(id) == m.entry(id).revenue_pool,
        0 <= m.contributor_pool_of(id),
        0 <= m.creator_share_of(id),
{
    assert(Model::entry_ok(m.campaigns[id - 1]));
    lemma_pool_split(m.entry(id).revenue_pool as int, m.camp(id).revenue_share_percentage as int);
}

/// Revenue: what a contributor is due never exceeds the contributors' pool.
pub proof fn law_revenue_due_within_pool(m: Model, id: u32, who: Address)
    requires
        m.wf(),
        m.has_campaign(id),
        !m.entry(id).reused@,
        m.camp(id).amount_raised > 0,
    ensures
        0 <= m.revenue_due_of(id, who) <= m.contributor_pool_of(id),
{
    assert(Model::entry_ok(m.campaigns[id - 1]));
    lemma_pool_split(m.entry(id).revenue_pool as int, m.camp(id).revenue_share_percentage as int);
    lemma_contribution_within_raised(m, id, who);
    lemma_due_bounded(
        m.backer(id, who).contribution as int,
        m.contributor_pool_of(id),
        m.camp(id).amount_raised as int,
    );
}

/// The platform fee never exceeds 10%, globally or for one campaign.
pub proof fn law_fee_capped(m: Model, id: u32)
    requires
        m.wf(),
        m.has_campaign(id),
    ensures
        m.config.platform_fee <= PLATFORM_FEE_MAX_BPS,
        m.fee_bps_of(id) <= PLATFORM_FEE_MAX_BPS,
{
    assert(Model::entry_ok(m.campaigns[id - 1]));
}

/// Revenue sharing is coherent in every state: a campaign shares revenue exactly
/// when its stored share is positive, and the share is at most 50%.
pub proof fn law_revenue_share_coherent(m: Model, id: u32)
    requires
        m.wf(),
        m.has_campaign(id),
    ensures
        m.camp(id).has_revenue_sharing <==> m.camp(id).revenue_share_percentage > 0,
        m.camp(id).revenue_share_percentage <= REVENUE_SHARE_MAX_BPS,
{
    assert(Model::entry_ok(m.campaigns[id - 1]));
}

/// A refund clears the contributor's record, and a second refund finds nothing to pay.
pub proof fn law_refund_once(m: Model, ledger: Ledger, id: u32, who: Address)
    requires
        m.wf(),
        m.refund_fits(id, who),
        m.refund_error(ledger, id, who) is None,
    ensures
        m.after_refund(id, who).backer(id, who).contribution == 0,
        m.after_refund(id, who).backer(id, who).lifetime == 0,
        m.after_refund(id, who).backer(id, who).revenue_claimed == 0,
        m.after_refund(id, who).total_raised == m.total_raised - m.backer(id, who).contribution,
        m.after_refund(id, who).refund_error(ledger, id, who) == Some(Error::NoFundsToWithdraw),
{
    let b = m.backer(id, who);
    let nb = Backer { contribution: 0, lifetime: 0, revenue_claimed: 0, ..b };
    lemma_set_backer(m, nb);
    lemma_same_backers(m.after_refund(id, who), m.with_backer(id, who, nb));
}

/// A contributor can always get a refund of what it put into a cancelled
/// campaign, or into one whose deadline passed short of its goal, while the
/// platform is not paused.
pub proof fn law_refund_available(m: Model, ledger: Ledger, id: u32, who: Address)
    requires
        m.has_campaign(id),
        !m.config.paused,
        m.camp(id).is_cancelled || (ledger.timestamp > m.camp(id).deadline && m.camp(id).amount_raised
            < m.camp(id).funding_goal),
        m.backer(id, who).contribution > 0,
    ensures
        m.refund_error(ledger, id, who) is None,
{
}

/// Funds leave a campaign only when it is verified, not cancelled, has reached
/// its goal and has not been withdrawn before; its creator then receives them.
pub proof fn law_withdrawal_needs_goal(m: Model, ledger: Ledger, id: u32)
    requires
        m.wf(),
        m.withdraw_error(ledger, id) is None,
    ensures
        m.has_campaign(id),
        m.camp(id).is_verified,
        !m.camp(id).is_cancelled,
        !m.camp(id).funds_withdrawn,
        m.camp(id).amount_raised >= m.camp(id).funding_goal,
        m.camp(id).amount_raised > 0,
        !m.config.paused,
{
    assert(Model::entry_ok(m.campaigns[id - 1]));
}

/// Funds are withdrawn at most once.
pub proof fn law_withdraw_once(m: Model, ledger: Ledger, id: u32, later: Ledger)
    requires
        m.wf(),
        m.withdraw_error(ledger, id) is None,
    ensures
        m.after_withdraw(ledger, id).withdraw_error(later, id) == Some(Error::NoFundsToWithdraw),
{
}

/// Each address votes at most once on a campaign.
pub proof fn law_one_vote_per_voter(
    m: Model,
    ledger: Ledger,
    id: u32,
    voter: Address,
    approve: bool,
    balance: i128,
    later_balance: i128,
)
    requires
        m.wf(),
        m.vote_error(ledger, id, voter, balance) is None,
    ensures
        m.after_vote(id, voter, approve, balance).vote_error(ledger, id, voter, later_balance) == Some(
            Error::AlreadyVoted,
        ),
{
    let nb = Backer { has_voted: true, ..m.backer(id, voter) };
    lemma_set_backer(m, nb);
    lemma_same_backers(m.after_vote(id, voter, approve, balance), m.with_backer(id, voter, nb));
}

/// A revenue claim pays out everything due; claiming again before more revenue
/// is deposited finds nothing to pay.
pub proof fn law_revenue_claim_settles(m: Model, id: u32, who: Address)
    requires
        m.wf(),
        m.claim_revenue_error(id, who) is None,
    ensures
        ({
            let n = m.with_backer(id, who, Backer { revenue_claimed: m.revenue_due_of(id, who) as i128, ..m.backer(id, who) });
            &&& n.backer(id, who).revenue_claimed == m.revenue_due_of(id, who)
            &&& n.claim_revenue_error(id, who) == Some(Error::NoFundsToWithdraw)
        }),
{
    let nb = Backer { revenue_claimed: m.revenue_due_of(id, who) as i128, ..m.backer(id, who) };
    lemma_set_backer(m, nb);
}

/// The creator's revenue claim pays out its whole share; claiming again before
/// more revenue is deposited finds nothing to pay.
pub proof fn law_creator_revenue_claim_settles(m: Model, id: u32)
    requires
        m.wf(),
        m.claim_creator_revenue_error(id) is None,
    ensures
        ({
            let e = m.entry(id);
            let n = m.with_entry(id, crate::state::CampaignEntry { creator_revenue_claimed: m.creator_share_of(id) as i128, ..e });
            n.claim_creator_revenue_error(id) == Some(Error::NoFundsToWithdraw)
        }),
{
}

/// Contribution caps hold after every accepted contribution: the lifetime
/// total stays within the campaign cap, the contribution within the personal cap.
pub proof fn law_contribution_caps(m: Model, ledger: Ledger, id: u32, who: Address, amount: i128)
    requires
        m.wf(),
        m.contribute_fits(id, who, amount),
        m.contribute_error(ledger, id, who, amount) is None,
    ensures
        ({
            let n = m.after_contribute(ledger, id, who, amount);
            &&& n.backer(id, who).contribution == m.backer(id, who).contribution + amount
            &&& n.camp(id).amount_raised == m.camp(id).amount_raised + amount
            &&& n.total_raised == m.total_raised + amount
            &&& (m.camp(id).max_contribution_per_user > 0 ==> n.backer(id, who).lifetime
                <= m.camp(id).max_contribution_per_user)
            &&& (m.backer(id, who).personal_cap matches Some(cap) ==> n.backer(id, who).contribution <= cap)
        }),
{
    let b = m.backer(id, who);
    let nb = Backer { contribution: (b.contribution + amount) as i128, lifetime: (b.lifetime + amount) as i128, ..b };
    lemma_set_backer(m, nb);
    lemma_same_backers(m.after_contribute(ledger, id, who, amount), m.with_backer(id, who, nb));
}

/// While the platform is paused, every call that moves money or changes a
/// campaign's course is refused as paused (creator-only calls once the campaign is found).
pub proof fn law_pause_blocks(
    m: Model,
    ledger: Ledger,
    id: u32,
    who: Address,
    amount: i128,
    params: CreateCampaignParams,
    approve_balance: i128,
)
    requires
        m.config.paused,
    ensures
        m.create_error(ledger.timestamp, params) == Some(Error::ContractPaused),
        m.contribute_error(ledger, id, who, amount) == Some(Error::ContractPaused),
        m.refund_error(ledger, id, who) == Some(Error::ContractPaused),
        m.claim_revenue_error(id, who) == Some(Error::ContractPaused),
        m.vote_error(ledger, id, who, approve_balance) == Some(Error::ContractPaused),
        m.votes_verify_error(id) == Some(Error::ContractPaused),
        m.has_campaign(id) ==> {
            &&& m.withdraw_error(ledger, id) == Some(Error::ContractPaused)
            &&& m.cancel_error(id) == Some(Error::ContractPaused)
            &&& m.deposit_error(id, amount) == Some(Error::ContractPaused)
            &&& m.claim_creator_revenue_error(id) == Some(Error::ContractPaused)
            &&& m.extend_error(ledger.timestamp, id, 1) == Some(Error::ContractPaused)
            &&& m.initiate_transfer_error(id, who) == Some(Error::ContractPaused)
            &&& m.accept_transfer_error(id) == Some(Error::ContractPaused)
        },
{
}

/// Initialization happens once: afterwards every further attempt is refused.
pub proof fn law_init_once(m: Model, admin: Address, token: Address, fee: u32, token_is_valid: bool)
    ensures
        m.after_init(admin, token, fee).init_error(token_is_valid) == Some(Error::AlreadyInitialized),
        m.after_init(admin, token, fee).config.platform_fee <= PLATFORM_FEE_MAX_BPS,
{
}

/// A created campaign can be read back: it has the next id, holds what was asked
/// for, ends `duration_days` days from its creation, and stores a zero share when
/// it does not share revenue.
pub proof fn law_created_campaign_readable(m: Model, now: u64, p: CreateCampaignParams)
    requires
        m.wf(),
        m.create_fits(p.creator),
        m.create_error(now, p) is None,
    ensures
        ({
            let n = m.after_create(now, p);
            let id = (m.campaign_count + 1) as u32;
            &&& n.campaign_count == id
            &&& n.has_campaign(id)
            &&& n.camp(id) == m.new_campaign(now, p)
            &&& n.camp(id).amount_raised == 0
            &&& !n.camp(id).is_verified
            &&& n.camp(id).creator == p.creator
            &&& n.camp(id).title == p.title
            &&& n.camp(id).description == p.description
            &&& n.camp(id).funding_goal == p.funding_goal
            &&& n.camp(id).deadline == now + p.duration_days * SECONDS_PER_DAY
            &&& n.camp(id).is_active && !n.camp(id).is_cancelled && !n.camp(id).funds_withdrawn
            &&& n.camp(id).category == p.category
            &&& n.camp(id).max_contribution_per_user == p.max_contribution_per_user
            &&& n.camp(id).has_revenue_sharing == p.has_revenue_sharing
            &&& n.camp(id).fee_override is None && !n.camp(id).deadline_extended
            &&& (!p.has_revenue_sharing ==> n.camp(id).revenue_share_percentage == 0)
            &&& (p.has_revenue_sharing ==> n.camp(id).revenue_share_percentage == p.revenue_share_percentage)
        }),
{
}

/// Every campaign is among the ids its creator holds, so the creator's listing
/// returns it at that position; this holds after any number of creations and
/// ownership transfers.
pub proof fn law_creator_lists_owned(m: Model, id: u32)
    requires
        m.wf(),
        m.has_campaign(id),
    ensures
        ({
            let w = m.camp(id).creator;
            let ids = m.creator_ids(w);
            &&& ids.contains(id)
            &&& forall|k: int|
                0 <= k < ids.len() && k <= u32::MAX && ids[k] == id ==> #[trigger] m.creator_listing(w, k as u32, 1)
                    == seq![id]
        }),
{
    assert(m.campaigns[id - 1] == m.campaigns[id - 1]);
    let w = m.camp(id).creator;
    let ids = m.creator_ids(w);
    assert forall|k: int|
        0 <= k < ids.len() && k <= u32::MAX && ids[k] == id implies #[trigger] m.creator_listing(w, k as u32, 1)
            == seq![id] by {
        let sub = ids.subrange(k, k + 1);
        assert(sub =~= seq![id]);
        assert(sub.drop_last() =~= Seq::<u32>::empty());
        assert(m.present(sub) == m.present(sub.drop_last()).push(id));
        assert(m.present(sub) =~= seq![id]);
    }
}

/// A creator's listing holds only campaigns: each is one the creator owns and
/// appears once, except an id whose slot a later campaign took over after a
/// second initialization (the earlier owner's listing still names that id).
pub proof fn law_creator_holds_only_own(m: Model, w: Address, k: int)
    requires
        m.wf(),
        0 <= k < m.creator_ids(w).len(),
    ensures
        ({
            let ids = m.creator_ids(w);
            let x = ids[k];
            &&& m.has_campaign(x)
            &&& !m.entry(x).reused@ ==> m.camp(x).creator == w && forall|k2: int|
                0 <= k2 < ids.len() && k2 != k ==> ids[k2] != x
        }),
{
    assert(held_ok(m.campaigns, ids_of(m.buckets, m.creator_counts, w), w, k));
}

/// Two-step admin transfer: after a proposal, the proposed admin can take over,
/// and then holds the admin role with nothing pending.
pub proof fn law_admin_handover(m: Model, admin: Address, new_admin: Address)
    requires
        m.config.admin is Some,
        m.initiate_admin_transfer_error(admin, new_admin) is None,
    ensures
        ({
            let n = m.with_config(crate::state::Config { pending_admin: Some(new_admin), ..m.config });
            let k = n.with_config(crate::state::Config { admin: Some(new_admin), pending_admin: None, ..n.config });
            &&& n.accept_admin_transfer_error() is None
            &&& k.config.admin == Some(new_admin)
            &&& k.config.pending_admin is None
        }),
{
}

/// Two-step campaign transfer: after a proposal, the proposed creator can take
/// the campaign over and then owns it with nothing pending.
pub proof fn law_campaign_handover(m: Model, id: u32, new_creator: Address)
    requires
        m.wf(),
        m.initiate_transfer_error(id, new_creator) is None,
    ensures
        ({
            let n = m.with_campaign(
                id,
                crate::types::Campaign {
                    pending_creator: crate::types::MaybePendingCreator::Pending(new_creator),
                    ..m.camp(id)
                },
            );
            &&& n.accept_transfer_error(id) is None
            &&& n.pending_of(id) == new_creator
            &&& n.after_accept_transfer(id).camp(id).creator == new_creator
            &&& n.after_accept_transfer(id).camp(id).pending_creator == crate::types::MaybePendingCreator::Absent
        }),
{
}

/// Longest campaign duration, in days, for a category: the cap the admin set
/// for it, or 365 days when none is set.
pub open spec fn duration_cap_days(c: Config, category: Category) -> int {
    let cap = match category {
        Category::Learner => c.cap_learner,
        Category::EducationalStartup => c.cap_startup,
        Category::Educator => c.cap_educator,
        Category::Publisher => c.cap_publisher,
    };
    match cap {
        Some(d) => d as int,
        None => CAMPAIGN_DURATION_MAX_DAYS as int,
    }
}

/// Creation respects the category's duration cap: an accepted request runs
/// between 1 day and the cap, and a request outside that range is refused.
pub proof fn law_create_respects_duration_cap(m: Model, now: u64, p: CreateCampaignParams)
    ensures
        m.create_error(now, p) is None ==> 1 <= p.duration_days <= duration_cap_days(m.config, p.category),
        (p.duration_days < 1 || p.duration_days > duration_cap_days(m.config, p.category)) ==> m.create_error(
            now,
            p,
        ) is Some,
{
}

/// An accepted extension keeps the whole campaign, from its start to its new
/// deadline, within the category's duration cap; it adds 1 to 30 days to a
/// deadline that has not passed, once.
pub proof fn law_extension_respects_duration_cap(m: Model, now: u64, id: u32, days: u64)
    requires
        m.wf(),
        m.extend_error(now, id, days) is None,
    ensures
        m.has_campaign(id),
        1 <= days <= 30,
        now < m.camp(id).deadline,
        !m.camp(id).deadline_extended,
        m.entry(id).start_time is Some,
        (m.camp(id).deadline + days * SECONDS_PER_DAY - m.entry(id).start_time->0) / (SECONDS_PER_DAY as int)
            <= duration_cap_days(m.config, m.camp(id).category),
{
    assert(Model::entry_ok(m.campaigns[id - 1]));
}

/// The campaigns a bulk verification of `batch` is owed to verify: those named
/// in it that exist and are not verified yet.
pub open spec fn verifiable_in(m: Model, batch: Seq<u32>) -> Set<u32> {
    Set::new(|x: u32| batch.contains(x) && 1 <= x <= m.campaigns.len() && !m.campaigns[x - 1].campaign.is_verified)
}

/// Bulk verification, step by step over any list of ids: what it does to the campaigns.
proof fn lemma_bulk_verify_shape(m: Model, ids: Seq<u32>)
    requires
        m.campaigns.len() <= u32::MAX,
        ids.len() < u32::MAX,
    ensures
        ({
            let (n, count, first, events) = m.bulk_verify(ids);
            &&& n == Model { campaigns: n.campaigns, ..m }
            &&& n.campaigns.len() == m.campaigns.len()
            &&& forall|i: int|
                #![trigger n.campaigns[i]]
                0 <= i < m.campaigns.len() ==> n.campaigns[i] == if ids.contains((i + 1) as u32) {
                    CampaignEntry {
                        campaign: Campaign { is_verified: true, ..m.campaigns[i].campaign },
                        ..m.campaigns[i]
                    }
                } else {
                    m.campaigns[i]
                }
            &&& count <= ids.len()
            &&& (first is None <==> count == ids.len())
        }),
    decreases ids.len(),
{
    if ids.len() > 0 {
        let pre = ids.drop_last();
        let x = ids.last();
        lemma_bulk_verify_shape(m, pre);
        let (k, count, first, events) = m.bulk_verify(pre);
        assert(ids =~= pre.push(x));
        lemma_contains_push(pre, x);
        if 1 <= x <= m.campaigns.len() {
            assert(k.campaigns[x - 1] == k.campaigns[x - 1]);
        }
        match k.admin_verify_error(x) {
            None => {
                let n = k.verified(x);
                assert forall|i: int|
                    #![trigger n.campaigns[i]]
                    0 <= i < m.campaigns.len() implies n.campaigns[i] == if ids.contains((i + 1) as u32) {
                        CampaignEntry {
                            campaign: Campaign { is_verified: true, ..m.campaigns[i].campaign },
                            ..m.campaigns[i]
                        }
                    } else {
                        m.campaigns[i]
                    } by {
                    assert(k.campaigns[i] == k.campaigns[i]);
                    if i == x - 1 {
                        assert(!pre.contains((i + 1) as u32));
                        assert(k.campaigns[i] == m.campaigns[i]);
                        assert(ids.contains((i + 1) as u32));
                    } else {
                        assert((i + 1) as u32 != x);
                        assert(n.campaigns[i] == k.campaigns[i]);
                        assert(ids.contains((i + 1) as u32) == pre.contains((i + 1) as u32));
                    }
                }
            },
            Some(e) => {
                assert forall|i: int|
                    #![trigger k.campaigns[i]]
                    0 <= i < m.campaigns.len() implies k.campaigns[i] == if ids.contains((i + 1) as u32) {
                        CampaignEntry {
                            campaign: Campaign { is_verified: true, ..m.campaigns[i].campaign },
                            ..m.campaigns[i]
                        }
                    } else {
                        m.campaigns[i]
                    } by {
                    assert(k.campaigns[i] == k.campaigns[i]);
                    if (i + 1) as u32 == x {
                        assert(i == x - 1);
                        if !pre.contains(x) {
                            assert(k.campaigns[i] == m.campaigns[i]);
                        }
                    } else {
                        assert(ids.contains((i + 1) as u32) == pre.contains((i + 1) as u32));
                    }
                }
            },
        }
    }
}

/// A list with one more id holds what the shorter one held and that id.
proof fn lemma_contains_push(pre: Seq<u32>, x: u32)
    ensures
        forall|y: u32| #[trigger] pre.push(x).contains(y) <==> pre.contains(y) || y == x,
{
    let ids = pre.push(x);
    assert forall|y: u32| #[trigger] ids.contains(y) <==> pre.contains(y) || y == x by {
        if ids.contains(y) {
            let j = choose|j: int| 0 <= j < ids.len() && ids[j] == y;
            if j < pre.len() {
                assert(pre[j] == y);
            }
        }
        if pre.contains(y) {
            let j = choose|j: int| 0 <= j < pre.len() && pre[j] == y;
            assert(ids[j] == y);
        }
        if y == x {
            assert(ids[ids.len() - 1] == y);
        }
    }
}

/// Bulk verification, step by step over any list of ids: what it counts.
proof fn lemma_bulk_verify_count(m: Model, ids: Seq<u32>)
    requires
        m.campaigns.len() <= u32::MAX,
        ids.len() < u32::MAX,
    ensures
        verifiable_in(m, ids).finite(),
        m.bulk_verify(ids).1 == verifiable_in(m, ids).len(),
    decreases ids.len(),
{
    if ids.len() == 0 {
        assert(verifiable_in(m, ids) =~= Set::<u32>::empty());
    } else {
        let pre = ids.drop_last();
        let x = ids.last();
        assert(ids =~= pre.push(x));
        lemma_bulk_verify_count(m, pre);
        lemma_bulk_verify_shape(m, pre);
        lemma_contains_push(pre, x);
        let (k, count, first, events) = m.bulk_verify(pre);
        let s = verifiable_in(m, pre);
        let eligible = 1 <= x <= m.campaigns.len() && !m.campaigns[x - 1].campaign.is_verified;
        if 1 <= x <= m.campaigns.len() {
            assert(k.campaigns[x - 1] == k.campaigns[x - 1]);
        }
        if eligible {
            assert(verifiable_in(m, ids) =~= s.insert(x));
            vstd::set::axiom_set_insert_len(s, x);
            assert(s.contains(x) <==> pre.contains(x));
            if pre.contains(x) {
                assert(k.admin_verify_error(x) is Some);
            } else {
                assert(k.admin_verify_error(x) is None);
            }
        } else {
            assert(verifiable_in(m, ids) =~= s);
            assert(k.admin_verify_error(x) is Some);
        }
    }
}

/// Bulk verification verifies as many as it can: every id among the first 50
/// that names an existing campaign is verified afterwards whatever happened to
/// the other ids, nothing else changes, the count is the number of distinct
/// such campaigns that were not verified before, and a refusal is reported
/// exactly when some id could not be counted.
pub proof fn law_bulk_verify_partial_success(m: Model, ids: Seq<u32>)
    requires
        m.wf(),
    ensures
        ({
            let batch = if ids.len() > MAX_BATCH_SIZE { ids.take(MAX_BATCH_SIZE as int) } else { ids };
            let (n, count, first, events) = m.bulk_verify(Model::batch_of(ids));
            &&& forall|x: u32| #![trigger n.campaigns[x - 1]]
                batch.contains(x) && 1 <= x <= m.campaigns.len() ==> n.campaigns[x - 1].campaign.is_verified
            &&& forall|i: int|
                #![trigger n.campaigns[i]]
                0 <= i < m.campaigns.len() && !batch.contains((i + 1) as u32) ==> n.campaigns[i] == m.campaigns[i]
            &&& n.campaigns.len() == m.campaigns.len()
            &&& n == Model { campaigns: n.campaigns, ..m }
            &&& verifiable_in(m, batch).finite()
            &&& count == verifiable_in(m, batch).len()
            &&& (first is None <==> count == batch.len())
        }),
{
    let batch = if ids.len() > MAX_BATCH_SIZE { ids.take(MAX_BATCH_SIZE as int) } else { ids };
    assert(Model::batch_of(ids) == batch);
    lemma_bulk_verify_shape(m, batch);
    lemma_bulk_verify_count(m, batch);
    let (n, count, first, events) = m.bulk_verify(batch);
    assert forall|x: u32| #![trigger n.campaigns[x - 1]]
        batch.contains(x) && 1 <= x <= m.campaigns.len() implies n.campaigns[x - 1].campaign.is_verified by {
        assert(n.campaigns[(x - 1) as int] == n.campaigns[(x - 1) as int]);
    }
}

/// The campaigns among ids `1..=n` that are active (open and not cancelled).
pub open spec fn active_ids(m: Model, n: int) -> Set<int> {
    Set::new(|i: int| 1 <= i <= n && i <= m.campaigns.len() && m.campaigns[i - 1].campaign.is_active
        && !m.campaigns[i - 1].campaign.is_cancelled)
}

/// The campaigns among ids `1..=n` that are verified.
pub open spec fn verified_ids(m: Model, n: int) -> Set<int> {
    Set::new(|i: int| 1 <= i <= n && i <= m.campaigns.len() && m.campaigns[i - 1].campaign.is_verified)
}

/// The campaigns among ids `1..=n` that are cancelled.
pub open spec fn cancelled_ids(m: Model, n: int) -> Set<int> {
    Set::new(|i: int| 1 <= i <= n && i <= m.campaigns.len() && m.campaigns[i - 1].campaign.is_cancelled)
}

/// The statistics count campaigns: among ids `1..=n`, the active ones (open and
/// not cancelled), the verified ones and the cancelled ones.
pub proof fn law_stats_count_campaigns(m: Model, n: int)
    requires
        m.wf(),
        0 <= n <= m.campaigns.len(),
    ensures
        active_ids(m, n).finite(),
        verified_ids(m, n).finite(),
        cancelled_ids(m, n).finite(),
        m.stats_upto(n).0 == active_ids(m, n).len(),
        m.stats_upto(n).1 == verified_ids(m, n).len(),
        m.stats_upto(n).2 == cancelled_ids(m, n).len(),
    decreases n,
{
    if n == 0 {
        assert(active_ids(m, n) =~= Set::<int>::empty());
        assert(verified_ids(m, n) =~= Set::<int>::empty());
        assert(cancelled_ids(m, n) =~= Set::<int>::empty());
    } else {
        law_stats_count_campaigns(m, n - 1);
        assert(!active_ids(m, n - 1).contains(n));
        assert(!verified_ids(m, n - 1).contains(n));
        assert(!cancelled_ids(m, n - 1).contains(n));
        if n <= m.campaigns.len() {
            let c = m.campaigns[n - 1].campaign;
            assert(m.has_campaign(n as u32) && m.camp(n as u32) == c);
            if c.is_active && !c.is_cancelled {
                assert(active_ids(m, n) =~= active_ids(m, n - 1).insert(n));
            } else {
                assert(active_ids(m, n) =~= active_ids(m, n - 1));
            }
            if c.is_verified {
                assert(verified_ids(m, n) =~= verified_ids(m, n - 1).insert(n));
            } else {
                assert(verified_ids(m, n) =~= verified_ids(m, n - 1));
            }
            if c.is_cancelled {
                assert(cancelled_ids(m, n) =~= cancelled_ids(m, n - 1).insert(n));
            } else {
                assert(cancelled_ids(m, n) =~= cancelled_ids(m, n - 1));
            }
        }
    }
}

/// A campaign whose funds were withdrawn is closed: it no longer counts as active.
pub proof fn law_withdrawn_campaign_is_closed(m: Model, ledger: Ledger, id: u32)
    requires
        m.withdraw_error(ledger, id) is None,
    ensures
        !m.after_withdraw(ledger, id).campaigns[id - 1].campaign.is_active,
        m.after_withdraw(ledger, id).campaigns[id - 1].campaign.funds_withdrawn,
{
}

/// Whether campaign `j` is open and not cancelled (ids counted from 1).
pub open spec fn is_open_campaign(m: Model, j: int) -> bool {
    1 <= j <= m.campaign_count && j <= m.campaigns.len() && m.campaigns[j - 1].campaign.is_active
        && !m.campaigns[j - 1].campaign.is_cancelled
}

/// What the scan of the active listing has gathered so far, below `cur`.
pub open spec fn scan_sound(m: Model, start: u32, found: Seq<u32>, cur: int) -> bool {
    &&& forall|k: int| 0 <= k < found.len() ==> start < #[trigger] found[k] < cur && is_open_campaign(m, found[k] as int)
    &&& forall|k1: int, k2: int| 0 <= k1 < k2 < found.len() ==> #[trigger] found[k1] < #[trigger] found[k2]
    &&& forall|j: int| start < j < cur && #[trigger] is_open_campaign(m, j) ==> found.contains(j as u32)
}

proof fn lemma_active_scan(m: Model, start: u32, capped: u32, cur: int, found: Seq<u32>)
    requires
        m.wf(),
        m.campaign_count < u32::MAX,
        start + 1 <= cur <= start + MAX_SCAN_WINDOW,
        cur <= m.campaign_count + 1,
        found.len() <= capped,
        scan_sound(m, start, found, cur),
    ensures
        ({
            let (f, c, hit) = m.active_scan(start, capped, cur, found);
            &&& scan_sound(m, start, f, c)
            &&& f.len() <= capped
            &&& cur <= c <= m.campaign_count + 1
            &&& (!hit && f.len() < capped ==> c > m.campaign_count)
            &&& (hit ==> c == start + MAX_SCAN_WINDOW + 1)
        }),
    decreases m.campaign_count + 1 - cur,
{
    if !(found.len() >= capped || cur > m.campaign_count || cur < 0) {
        assert(cur <= u32::MAX);
        let open = m.listed_active(cur);
        assert(open == is_open_campaign(m, cur));
        let f2 = if open { found.push(cur as u32) } else { found };
        assert(scan_sound(m, start, f2, cur + 1)) by {
            assert forall|j: int| start < j < cur + 1 && #[trigger] is_open_campaign(m, j) implies f2.contains(
                j as u32,
            ) by {
                if j < cur {
                    let k = choose|k: int| 0 <= k < found.len() && found[k] == j as u32;
                    assert(f2[k] == j as u32);
                } else {
                    assert(f2[f2.len() - 1] == j as u32);
                }
            }
        }
        if cur + 1 <= start + MAX_SCAN_WINDOW {
            lemma_active_scan(m, start, capped, cur + 1, f2);
        }
    }
}

/// The active listing returns, in increasing id order, only campaigns after
/// `start` that are open and not cancelled, at most `min(limit, 50)` of them,
/// and skips none before where it stopped; a zero cursor means every such
/// campaign after `start` has been returned, and a nonzero one is where to go on.
pub proof fn law_active_listing(m: Model, start: u32, limit: u32)
    requires
        m.wf(),
        m.active_listing_fits(start, limit),
    ensures
        ({
            let (ids, cursor) = m.active_listing(start, limit);
            &&& ids.len() <= limit && ids.len() <= 50
            &&& forall|k: int| 0 <= k < ids.len() ==> start < #[trigger] ids[k] && is_open_campaign(m, ids[k] as int)
            &&& forall|k1: int, k2: int| 0 <= k1 < k2 < ids.len() ==> #[trigger] ids[k1] < #[trigger] ids[k2]
            &&& (cursor == 0 && limit > 0) ==> forall|j: int| start < j && #[trigger] is_open_campaign(m, j) ==> ids.contains(
                j as u32,
            )
            &&& cursor != 0 ==> start < cursor && forall|j: int| start < j < cursor && #[trigger] is_open_campaign(m, j)
                ==> ids.contains(j as u32)
        }),
{
    if !(start >= m.campaign_count || limit == 0) {
        let capped = if limit > 50 { 50u32 } else { limit };
        assert(scan_sound(m, start, Seq::empty(), start + 1));
        lemma_active_scan(m, start, capped, start + 1, Seq::empty());
        let (f, c, hit) = m.active_scan(start, capped, start + 1, Seq::empty());
        if !hit && f.len() == capped && !m.active_from(c) {
            assert forall|j: int| start < j && #[trigger] is_open_campaign(m, j) implies f.contains(j as u32) by {
                if j >= c {
                    assert(m.listed_active(j));
                }
            }
        }
    }
}

/// What the active listing's caller sees: the campaigns themselves.
pub open spec fn active_page_ok(m: Model, start: u32, limit: u32, page: Seq<Campaign>, cursor: u32) -> bool {
    &&& page.len() <= limit && page.len() <= 50
    &&& forall|k: int| 0 <= k < page.len() ==> start < (#[trigger] page[k]).id && page[k].is_active
        && !page[k].is_cancelled && is_open_campaign(m, page[k].id as int)
    &&& forall|k1: int, k2: int| 0 <= k1 < k2 < page.len() ==> (#[trigger] page[k1]).id < (#[trigger] page[k2]).id
    &&& (cursor == 0 && limit > 0) ==> forall|j: int| start < j && #[trigger] is_open_campaign(m, j) ==> exists|k: int|
        0 <= k < page.len() && page[k].id == j
    &&& cursor != 0 ==> start < cursor && forall|j: int| start < j < cursor && #[trigger] is_open_campaign(m, j)
        ==> exists|k: int| 0 <= k < page.len() && page[k].id == j
}

/// Copies of the listed campaigns show the listing's laws.
pub proof fn lemma_active_page(m: Model, start: u32, limit: u32, page: Seq<Campaign>)
    requires
        m.wf(),
        m.active_listing_fits(start, limit),
        crate::queries::copies_of(page, m, m.active_listing(start, limit).0),
    ensures
        active_page_ok(m, start, limit, page, m.active_listing(start, limit).1),
{
    law_active_listing(m, start, limit);
    let (ids, cursor) = m.active_listing(start, limit);
    assert forall|k: int| 0 <= k < page.len() implies page[k].id == ids[k] by {
        assert(page[k].same(m.camp(ids[k])));
        assert(is_open_campaign(m, ids[k] as int));
        assert(m.campaigns[ids[k] - 1].campaign.id == ids[k]);
    }
    assert forall|j: int| #[trigger] ids.contains(j as u32) && is_open_campaign(m, j) implies exists|k: int|
        0 <= k < page.len() && page[k].id == j by {
        let k = choose|k: int| 0 <= k < ids.len() && ids[k] == j as u32;
        assert(page[k].id == ids[k]);
    }
}

/// An accepted contribution goes to a verified, running campaign before its
/// deadline, from someone other than its creators, within the campaign cap,
/// the personal cap and twice the goal, and adds exactly its amount to the
/// campaign, to the contributor's record and to the platform total.
pub proof fn law_contribution_rules(m: Model, ledger: Ledger, id: u32, who: Address, amount: i128)
    requires
        m.wf(),
        m.contribute_fits(id, who, amount),
        m.contribute_error(ledger, id, who, amount) is None,
    ensures
        ({
            let c = m.campaigns[id - 1].campaign;
            let b = m.backer(id, who);
            let n = m.after_contribute(ledger, id, who, amount);
            &&& 1 <= id <= m.campaigns.len()
            &&& !m.config.paused && amount > 0
            &&& c.is_verified && c.is_active && !c.is_cancelled && ledger.timestamp <= c.deadline
            &&& who != c.creator && who != c.original_creator
            &&& (c.max_contribution_per_user > 0 ==> b.lifetime + amount <= c.max_contribution_per_user)
            &&& (b.personal_cap matches Some(cap) ==> b.contribution + amount <= cap)
            &&& amount * 10000 <= c.funding_goal * 20000
            &&& n.campaigns[id - 1].campaign.amount_raised == c.amount_raised + amount
            &&& n.backer(id, who).contribution == b.contribution + amount
            &&& n.backer(id, who).lifetime == b.lifetime + amount
            &&& n.total_raised == m.total_raised + amount
        }),
{
    let b = m.backer(id, who);
    let nb = Backer { contribution: (b.contribution + amount) as i128, lifetime: (b.lifetime + amount) as i128, ..b };
    lemma_set_backer(m, nb);
    lemma_same_backers(m.after_contribute(ledger, id, who, amount), m.with_backer(id, who, nb));
}

/// An accepted withdrawal takes the platform fee (the campaign's override or
/// the platform fee, in basis points of the amount raised) for the admin,
/// withholds the reserve share of the rest, pays the remainder to the creator,
/// and closes the campaign.
pub proof fn law_withdrawal_amounts(m: Model, ledger: Ledger, id: u32)
    requires
        m.wf(),
        m.withdraw_fits(id),
        m.withdraw_error(ledger, id) is None,
    ensures
        ({
            let c = m.campaigns[id - 1].campaign;
            let bps: int = match c.fee_override {
                Some(f) => f as int,
                None => m.config.platform_fee as int,
            };
            let fee = c.amount_raised * bps / 10000;
            let rest = c.amount_raised - fee;
            let reserve = rest * (m.config.withdraw_reserve_bps as int) / 10000;
            let n = m.after_withdraw(ledger, id);
            &&& 1 <= id <= m.campaigns.len()
            &&& !m.config.paused
            &&& c.is_verified && !c.is_cancelled && !c.funds_withdrawn && 0 < c.amount_raised
            &&& c.funding_goal <= c.amount_raised
            &&& m.withdraw_fee_amount(id) == fee
            &&& m.withdraw_creator_amount(id) == rest - reserve
            &&& n.campaigns[id - 1].campaign.funds_withdrawn && !n.campaigns[id - 1].campaign.is_active
            &&& n.total_raised == m.total_raised - c.amount_raised
            &&& (reserve > 0 ==> n.campaigns[id - 1].reserve == Some(
                crate::types::CampaignReserve {
                    amount: reserve as i128,
                    release_timestamp: (ledger.timestamp + m.config.withdraw_delay_days * 86400) as u64,
                    released: false,
                },
            ))
        }),
{
    let c = m.campaigns[id - 1].campaign;
    let bps: int = match c.fee_override {
        Some(f) => f as int,
        None => m.config.platform_fee as int,
    };
    assert(m.fee_bps_of(id) == bps);
    let rest = c.amount_raised - c.amount_raised * bps / 10000;
    assert(m.withdraw_after_fee(id) == rest);
    assert(m.withdraw_reserve_amount(id) == rest * (m.config.withdraw_reserve_bps as int) / 10000);
}

/// An accepted vote comes from a holder of at least the minimum balance who
/// has not voted, on a running, unverified campaign before its deadline, and
/// adds one vote on the chosen side only.
pub proof fn law_vote_rules(m: Model, ledger: Ledger, id: u32, voter: Address, approve: bool, balance: i128)
    requires
        m.wf(),
        m.vote_fits(id, approve, balance),
        m.vote_error(ledger, id, voter, balance) is None,
    ensures
        ({
            let e = m.campaigns[id - 1];
            let n = m.after_vote(id, voter, approve, balance);
            &&& 1 <= id <= m.campaigns.len()
            &&& !m.config.paused && !e.campaign.is_verified && !e.campaign.is_cancelled && e.campaign.is_active
            &&& ledger.timestamp <= e.campaign.deadline
            &&& !m.backer(id, voter).has_voted && n.backer(id, voter).has_voted
            &&& balance > 0 && balance >= m.config.min_voting_balance
            &&& (approve ==> n.campaigns[id - 1].approve_votes == e.approve_votes + 1
                && n.campaigns[id - 1].reject_votes == e.reject_votes)
            &&& (!approve ==> n.campaigns[id - 1].reject_votes == e.reject_votes + 1
                && n.campaigns[id - 1].approve_votes == e.approve_votes)
        }),
{
    let nb = Backer { has_voted: true, ..m.backer(id, voter) };
    lemma_set_backer(m, nb);
    lemma_same_backers(m.after_vote(id, voter, approve, balance), m.with_backer(id, voter, nb));
}

} // verus!
