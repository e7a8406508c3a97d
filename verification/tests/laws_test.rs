use proof_of_heart::admin::capped_fee;
use proof_of_heart::campaigns::calculate_deadline;
use proof_of_heart::constants::SECONDS_PER_DAY;
use proof_of_heart::{
    Address, Category, CreateCampaignParams, Effects, Error, Event, Ledger, MaybePendingCreator, ProofOfHeart,
    Transfer,
};

const GOAL: i128 = 100_000;

fn admin() -> Address {
    Address::new(1)
}

fn token() -> Address {
    Address::new(2)
}

fn creator() -> Address {
    Address::new(3)
}

fn alice() -> Address {
    Address::new(4)
}

fn bob() -> Address {
    Address::new(5)
}

fn contract() -> Address {
    Address::new(9)
}

fn at(timestamp: u64, sequence: u32) -> Ledger {
    Ledger { timestamp, sequence, contract: contract() }
}

fn platform() -> ProofOfHeart {
    let mut p = ProofOfHeart::new();
    p.init(admin(), token(), 300, true).unwrap();
    p
}

fn params(category: Category, revenue_share: u32, cap: i128) -> CreateCampaignParams {
    CreateCampaignParams {
        creator: creator(),
        title: b"Learn".to_vec(),
        description: b"A campaign".to_vec(),
        funding_goal: GOAL,
        duration_days: 10,
        category,
        has_revenue_sharing: revenue_share > 0,
        revenue_share_percentage: revenue_share,
        max_contribution_per_user: cap,
    }
}

/// A verified campaign, created at time 1000.
fn verified_campaign(p: &mut ProofOfHeart, category: Category, revenue_share: u32, cap: i128) -> u32 {
    let (id, _) = p.create_campaign(at(1000, 1), params(category, revenue_share, cap)).unwrap();
    p.verify_campaign(id).unwrap();
    id
}

fn transfers(fx: &Effects) -> Vec<Transfer> {
    fx.transfers.clone()
}

#[test]
fn contributions_add_up_to_amount_raised() {
    let mut p = platform();
    let id = verified_campaign(&mut p, Category::Learner, 0, 0);
    p.contribute(at(2000, 2), id, alice(), 30_000).unwrap();
    p.contribute(at(2000, 3), id, bob(), 70_000).unwrap();
    p.contribute(at(2000, 4), id, alice(), 5_000).unwrap();
    let c = p.get_campaign(id).unwrap();
    assert_eq!(p.get_contribution(id, alice()) + p.get_contribution(id, bob()), c.amount_raised);
    assert_eq!(c.amount_raised, 105_000);
    assert_eq!(p.get_total_raised_global(), 105_000);
    assert_eq!(p.get_total_contributors_count(id), 2);
}

#[test]
fn withdrawal_splits_into_fee_reserve_and_creator_part() {
    let mut p = platform();
    p.set_vesting_params(admin(), 10, 2000).unwrap();
    let id = verified_campaign(&mut p, Category::Learner, 0, 0);
    p.contribute(at(2000, 2), id, alice(), 100_000).unwrap();
    let fx = p.withdraw_funds(at(3000, 3), id).unwrap();
    // fee: 3% of 100000 = 3000; reserve: 20% of 97000 = 19400; creator: 77600
    assert_eq!(
        transfers(&fx),
        vec![
            Transfer { from: contract(), to: admin(), amount: 3_000 },
            Transfer { from: contract(), to: creator(), amount: 77_600 },
        ]
    );
    assert_eq!(3_000 + 19_400 + 77_600, 100_000);
    let r = p.get_campaign_reserve(id).unwrap();
    assert_eq!(r.amount, 19_400);
    assert_eq!(r.release_timestamp, 3000 + 10 * SECONDS_PER_DAY);
    assert!(!r.released);
    assert_eq!(
        fx.events,
        vec![
            Event::Withdrawal { campaign_id: id, creator: creator(), amount: 77_600 },
            Event::ReserveWithheld { campaign_id: id, amount: 19_400 },
        ]
    );
    // the reserve is released once, after the delay
    assert_eq!(p.withdraw_reserve(at(3000, 4), id).unwrap_err(), Error::ValidationFailed);
    let later = at(3000 + 10 * SECONDS_PER_DAY, 5);
    let fx = p.withdraw_reserve(later, id).unwrap();
    assert_eq!(transfers(&fx), vec![Transfer { from: contract(), to: creator(), amount: 19_400 }]);
    assert_eq!(p.withdraw_reserve(later, id).unwrap_err(), Error::FundsAlreadyWithdrawn);
}

#[test]
fn revenue_pool_splits_between_contributors_and_creator() {
    let mut p = platform();
    let id = verified_campaign(&mut p, Category::EducationalStartup, 1000, 0);
    p.contribute(at(2000, 2), id, alice(), 25_000).unwrap();
    p.contribute(at(2000, 3), id, bob(), 75_000).unwrap();
    p.withdraw_funds(at(3000, 4), id).unwrap();
    p.deposit_revenue(at(3000, 5), id, 10_000).unwrap();
    // contributor pool: 10% of 10000 = 1000, creator share 9000
    let fa = p.claim_revenue(at(3000, 6), id, alice()).unwrap();
    let fb = p.claim_revenue(at(3000, 7), id, bob()).unwrap();
    let fc = p.claim_creator_revenue(at(3000, 8), id).unwrap();
    assert_eq!(transfers(&fa), vec![Transfer { from: contract(), to: alice(), amount: 250 }]);
    assert_eq!(transfers(&fb), vec![Transfer { from: contract(), to: bob(), amount: 750 }]);
    assert_eq!(transfers(&fc), vec![Transfer { from: contract(), to: creator(), amount: 9_000 }]);
    assert_eq!(250 + 750 + 9_000, p.get_revenue_pool(id));
}

#[test]
fn platform_fee_is_capped_everywhere() {
    assert_eq!(capped_fee(5000), 1000);
    assert_eq!(capped_fee(999), 999);
    let mut p = ProofOfHeart::new();
    p.init(admin(), token(), 5000, true).unwrap();
    assert_eq!(p.get_platform_fee(), 1000);
    p.update_platform_fee(2500).unwrap();
    assert_eq!(p.get_platform_fee(), 1000);
    let id = verified_campaign(&mut p, Category::Learner, 0, 0);
    assert_eq!(p.set_campaign_fee_override(admin(), id, 1001).unwrap_err(), Error::ValidationFailed);
    p.set_campaign_fee_override(admin(), id, 500).unwrap();
    p.contribute(at(2000, 2), id, alice(), 100_000).unwrap();
    let fx = p.withdraw_funds(at(3000, 3), id).unwrap();
    assert_eq!(transfers(&fx)[0], Transfer { from: contract(), to: admin(), amount: 5_000 });
}

#[test]
fn refund_is_paid_once() {
    let mut p = platform();
    let id = verified_campaign(&mut p, Category::Learner, 0, 0);
    p.contribute(at(2000, 2), id, alice(), 40_000).unwrap();
    p.cancel_campaign(id).unwrap();
    let fx = p.claim_refund(at(3000, 3), id, alice()).unwrap();
    assert_eq!(transfers(&fx), vec![Transfer { from: contract(), to: alice(), amount: 40_000 }]);
    assert_eq!(p.get_contribution(id, alice()), 0);
    assert_eq!(p.claim_refund(at(3000, 4), id, alice()).unwrap_err(), Error::NoFundsToWithdraw);
}

#[test]
fn funds_are_withdrawn_once() {
    let mut p = platform();
    let id = verified_campaign(&mut p, Category::Learner, 0, 0);
    p.contribute(at(2000, 2), id, alice(), 100_000).unwrap();
    p.withdraw_funds(at(3000, 3), id).unwrap();
    assert_eq!(p.withdraw_funds(at(4000, 4), id).unwrap_err(), Error::NoFundsToWithdraw);
    assert_eq!(p.cancel_campaign(id).unwrap_err(), Error::CampaignNotActive);
}

#[test]
fn each_address_votes_once() {
    let mut p = platform();
    let (id, _) = p.create_campaign(at(1000, 1), params(Category::Learner, 0, 0)).unwrap();
    p.vote_on_campaign(at(1500, 2), id, alice(), true, 10).unwrap();
    assert_eq!(p.vote_on_campaign(at(1500, 3), id, alice(), false, 10).unwrap_err(), Error::AlreadyVoted);
    assert_eq!(p.get_approve_votes(id), 1);
    assert_eq!(p.get_reject_votes(id), 0);
    assert!(p.has_voted(id, alice()));
    assert!(!p.has_voted(id, bob()));
}

#[test]
fn revenue_claims_settle() {
    let mut p = platform();
    let id = verified_campaign(&mut p, Category::EducationalStartup, 2000, 0);
    p.contribute(at(2000, 2), id, alice(), 100_000).unwrap();
    p.withdraw_funds(at(3000, 3), id).unwrap();
    p.deposit_revenue(at(3000, 4), id, 1_000).unwrap();
    p.claim_revenue(at(3000, 5), id, alice()).unwrap();
    assert_eq!(p.get_revenue_claimed(id, alice()), 200);
    assert_eq!(p.claim_revenue(at(3000, 6), id, alice()).unwrap_err(), Error::NoFundsToWithdraw);
    p.claim_creator_revenue(at(3000, 7), id).unwrap();
    assert_eq!(p.claim_creator_revenue(at(3000, 8), id).unwrap_err(), Error::NoFundsToWithdraw);
    // more revenue makes more due
    p.deposit_revenue(at(3000, 9), id, 1_000).unwrap();
    let fx = p.claim_revenue(at(3000, 10), id, alice()).unwrap();
    assert_eq!(transfers(&fx), vec![Transfer { from: contract(), to: alice(), amount: 200 }]);
}

#[test]
fn contribution_caps_hold() {
    let mut p = platform();
    let id = verified_campaign(&mut p, Category::Learner, 0, 50_000);
    p.contribute(at(2000, 2), id, alice(), 40_000).unwrap();
    assert_eq!(p.contribute(at(2000, 3), id, alice(), 10_001).unwrap_err(), Error::ContributionCapExceeded);
    p.contribute(at(2000, 4), id, alice(), 10_000).unwrap();
    assert_eq!(p.get_lifetime_contribution(id, alice()), 50_000);
    p.set_personal_cap(id, bob(), 1_000).unwrap();
    assert_eq!(p.get_personal_cap(id, bob()), 1_000);
    assert_eq!(p.contribute(at(2000, 5), id, bob(), 1_001).unwrap_err(), Error::ContributionCapExceeded);
    p.contribute(at(2000, 6), id, bob(), 1_000).unwrap();
}

#[test]
fn pause_blocks_money_and_campaign_changes() {
    let mut p = platform();
    let id = verified_campaign(&mut p, Category::EducationalStartup, 1000, 0);
    p.contribute(at(2000, 2), id, alice(), 100_000).unwrap();
    p.pause().unwrap();
    assert!(p.is_paused());
    assert_eq!(p.contribute(at(2000, 3), id, bob(), 1_000).unwrap_err(), Error::ContractPaused);
    assert_eq!(p.withdraw_funds(at(3000, 4), id).unwrap_err(), Error::ContractPaused);
    assert_eq!(p.cancel_campaign(id).unwrap_err(), Error::ContractPaused);
    assert_eq!(p.deposit_revenue(at(3000, 5), id, 10).unwrap_err(), Error::ContractPaused);
    assert_eq!(
        p.create_campaign(at(3000, 6), params(Category::Learner, 0, 0)).unwrap_err(),
        Error::ContractPaused
    );
    p.unpause().unwrap();
    p.withdraw_funds(at(3000, 7), id).unwrap();
}

#[test]
fn initialization_happens_once() {
    let mut p = ProofOfHeart::new();
    assert_eq!(p.init(admin(), token(), 300, false).unwrap_err(), Error::InvalidTokenContract);
    let fx = p.init(admin(), token(), 300, true).unwrap();
    assert_eq!(fx.auth, Some(admin()));
    assert_eq!(p.init(bob(), token(), 100, true).unwrap_err(), Error::AlreadyInitialized);
    assert_eq!(p.get_admin(), admin());
    assert_eq!(p.get_platform_fee(), 300);
}

#[test]
fn created_campaign_reads_back() {
    let mut p = platform();
    let (id, fx) = p.create_campaign(at(5000, 1), params(Category::Educator, 0, 7)).unwrap();
    assert_eq!(id, 1);
    assert_eq!(fx.auth, Some(creator()));
    let c = p.get_campaign(id).unwrap();
    assert_eq!(c.id, 1);
    assert_eq!(c.creator, creator());
    assert_eq!(c.original_creator, creator());
    assert_eq!(c.pending_creator, MaybePendingCreator::Absent);
    assert_eq!(c.title, b"Learn".to_vec());
    assert_eq!(c.deadline, 5000 + 10 * SECONDS_PER_DAY);
    assert_eq!(c.amount_raised, 0);
    assert!(c.is_active && !c.is_verified && !c.is_cancelled && !c.funds_withdrawn);
    assert_eq!(c.max_contribution_per_user, 7);
    assert_eq!(p.get_campaign_count(), 1);
    let (id2, _) = p.create_campaign(at(5000, 2), params(Category::Educator, 0, 0)).unwrap();
    assert_eq!(id2, 2);
}

#[test]
fn admin_handover_takes_two_steps() {
    let mut p = platform();
    assert_eq!(p.accept_admin_transfer().unwrap_err(), Error::NoTransferPending);
    p.initiate_admin_transfer(admin(), bob()).unwrap();
    assert_eq!(p.get_pending_admin(), Some(bob()));
    assert_eq!(p.get_admin(), admin());
    let fx = p.accept_admin_transfer().unwrap();
    assert_eq!(fx.auth, Some(bob()));
    assert_eq!(p.get_admin(), bob());
    assert_eq!(p.get_pending_admin(), None);
}

#[test]
fn campaign_handover_takes_two_steps() {
    let mut p = platform();
    let (id, _) = p.create_campaign(at(1000, 1), params(Category::Learner, 0, 0)).unwrap();
    p.initiate_campaign_transfer(id, bob()).unwrap();
    assert_eq!(p.get_campaign(id).unwrap().creator, creator());
    let fx = p.accept_campaign_transfer(id).unwrap();
    assert_eq!(fx.auth, Some(bob()));
    let c = p.get_campaign(id).unwrap();
    assert_eq!(c.creator, bob());
    assert_eq!(c.pending_creator, MaybePendingCreator::Absent);
    assert_eq!(c.original_creator, creator());
    assert_eq!(p.get_creator_campaigns(bob(), 0, 10).len(), 1);
    assert_eq!(p.get_creator_campaigns(creator(), 0, 10).len(), 0);
}

#[test]
fn deadline_is_start_plus_days() {
    assert_eq!(calculate_deadline(1_000, 2), Ok(1_000 + 172_800));
    assert_eq!(calculate_deadline(0, 0), Ok(0));
    assert_eq!(calculate_deadline(u64::MAX, 1), Err(Error::ValidationFailed));
    assert_eq!(calculate_deadline(0, u64::MAX), Err(Error::ValidationFailed));
}

#[test]
fn creation_can_be_disabled() {
    let mut p = platform();
    p.set_creation_disabled(true).unwrap();
    assert!(p.is_creation_disabled());
    assert_eq!(
        p.create_campaign(at(1000, 1), params(Category::Learner, 0, 0)).unwrap_err(),
        Error::CreationDisabled
    );
    p.set_creation_disabled(false).unwrap();
    assert!(p.create_campaign(at(1000, 1), params(Category::Learner, 0, 0)).is_ok());
}

#[test]
fn contribution_must_be_positive() {
    let mut p = platform();
    let id = verified_campaign(&mut p, Category::Learner, 0, 0);
    assert_eq!(p.contribute(at(2000, 2), id, alice(), 0).unwrap_err(), Error::ContributionMustBePositive);
    assert_eq!(p.contribute(at(2000, 3), id, alice(), -5).unwrap_err(), Error::ContributionMustBePositive);
}

#[test]
fn deadline_extension_rules() {
    let mut p = platform();
    let (id, _) = p.create_campaign(at(1000, 1), params(Category::Learner, 0, 0)).unwrap();
    assert_eq!(p.extend_campaign_deadline(at(2000, 2), id, 0).unwrap_err(), Error::ExtensionTooLong);
    assert_eq!(p.extend_campaign_deadline(at(2000, 3), id, 31).unwrap_err(), Error::ExtensionTooLong);
    p.extend_campaign_deadline(at(2000, 4), id, 30).unwrap();
    assert_eq!(p.get_campaign(id).unwrap().deadline, 1000 + 40 * SECONDS_PER_DAY);
    assert_eq!(p.extend_campaign_deadline(at(2000, 5), id, 1).unwrap_err(), Error::DeadlineAlreadyExtended);
    let (id2, _) = p.create_campaign(at(1000, 6), params(Category::Learner, 0, 0)).unwrap();
    let after = at(1000 + 10 * SECONDS_PER_DAY, 7);
    assert_eq!(p.extend_campaign_deadline(after, id2, 1).unwrap_err(), Error::DeadlinePassed);
}

#[test]
fn withdrawn_campaign_cannot_be_cancelled() {
    let mut p = platform();
    let id = verified_campaign(&mut p, Category::Learner, 0, 0);
    p.contribute(at(2000, 2), id, alice(), 100_000).unwrap();
    // a withdrawn campaign is no longer running; reopening it directly shows the second check
    p.withdraw_funds(at(3000, 3), id).unwrap();
    p.campaigns[(id - 1) as usize].campaign.is_active = true;
    assert_eq!(p.cancel_campaign(id).unwrap_err(), Error::CancellationNotAllowed);
}

#[test]
fn revenue_claim_on_campaign_without_funds() {
    let mut p = platform();
    let id = verified_campaign(&mut p, Category::EducationalStartup, 1000, 0);
    p.contribute(at(2000, 2), id, alice(), 100_000).unwrap();
    // a record that contributed to a campaign whose raised amount is zero
    p.campaigns[(id - 1) as usize].campaign.amount_raised = 0;
    assert_eq!(p.claim_revenue(at(2000, 3), id, alice()).unwrap_err(), Error::AmountRaisedIsZero);
}

#[test]
fn extension_past_the_end_of_time_overflows() {
    let mut p = platform();
    let (id, _) = p.create_campaign(at(1000, 1), params(Category::Learner, 0, 0)).unwrap();
    p.campaigns[(id - 1) as usize].campaign.deadline = u64::MAX - 10;
    assert_eq!(p.extend_campaign_deadline(at(2000, 2), id, 1).unwrap_err(), Error::Overflow);
}

#[test]
fn burst_of_contributions_in_one_ledger_is_refused() {
    let mut p = platform();
    let id = verified_campaign(&mut p, Category::Learner, 0, 0);
    for i in 0..10u64 {
        p.contribute(at(2000, 7), id, Address::new(100 + i), 10).unwrap();
    }
    assert_eq!(p.contribute(at(2000, 7), id, alice(), 10).unwrap_err(), Error::ContractPaused);
    p.contribute(at(2000, 8), id, alice(), 10).unwrap();
}

#[test]
fn oversized_single_contribution_is_refused() {
    let mut p = platform();
    let id = verified_campaign(&mut p, Category::Learner, 0, 0);
    assert_eq!(p.contribute(at(2000, 2), id, alice(), 2 * GOAL + 1).unwrap_err(), Error::ContractPaused);
    p.contribute(at(2000, 3), id, alice(), 2 * GOAL).unwrap();
}

#[test]
fn platform_stats_count_campaigns() {
    let mut p = platform();
    let a = verified_campaign(&mut p, Category::Learner, 0, 0);
    let b = verified_campaign(&mut p, Category::Educator, 0, 0);
    p.create_campaign(at(1000, 1), params(Category::Publisher, 0, 0)).unwrap();
    p.contribute(at(2000, 2), a, alice(), 500).unwrap();
    p.cancel_campaign(b).unwrap();
    let s = p.get_platform_stats();
    assert_eq!(s.total_campaigns, 3);
    assert_eq!(s.active_campaigns, 2);
    assert_eq!(s.verified_campaigns, 2);
    assert_eq!(s.cancelled_campaigns, 1);
    assert_eq!(s.total_amount_raised, 500);
}

#[test]
fn revenue_share_is_stored_coherently() {
    let mut p = platform();
    let mut asked = params(Category::Learner, 0, 0);
    asked.revenue_share_percentage = 1234;
    let (id, _) = p.create_campaign(at(1000, 1), asked).unwrap();
    let c = p.get_campaign(id).unwrap();
    assert!(!c.has_revenue_sharing);
    assert_eq!(c.revenue_share_percentage, 0);

    let mut zero_share = params(Category::EducationalStartup, 0, 0);
    zero_share.has_revenue_sharing = true;
    assert_eq!(p.create_campaign(at(1000, 2), zero_share).unwrap_err(), Error::InvalidRevenueShare);

    let (id2, _) = p.create_campaign(at(1000, 3), params(Category::EducationalStartup, 5000, 0)).unwrap();
    let c2 = p.get_campaign(id2).unwrap();
    assert!(c2.has_revenue_sharing);
    assert_eq!(c2.revenue_share_percentage, 5000);
    assert_eq!(
        p.create_campaign(at(1000, 4), params(Category::EducationalStartup, 5001, 0)).unwrap_err(),
        Error::InvalidRevenueShare
    );
}

#[test]
fn failed_campaign_refunds_and_cannot_be_withdrawn() {
    let mut p = platform();
    let id = verified_campaign(&mut p, Category::Learner, 0, 0);
    p.contribute(at(2000, 2), id, alice(), 50_000).unwrap();
    assert_eq!(p.withdraw_funds(at(3000, 3), id).unwrap_err(), Error::FundingGoalNotReached);
    // before the deadline a running campaign pays no refund
    assert_eq!(p.claim_refund(at(3000, 4), id, alice()).unwrap_err(), Error::ValidationFailed);
    let after = at(1000 + 10 * SECONDS_PER_DAY + 1, 5);
    let fx = p.claim_refund(after, id, alice()).unwrap();
    assert_eq!(transfers(&fx), vec![Transfer { from: contract(), to: alice(), amount: 50_000 }]);
    assert_eq!(p.get_total_raised_global(), 0);
}

#[test]
fn active_listing_cursor_is_zero_when_nothing_remains() {
    let mut p = platform();
    let a = verified_campaign(&mut p, Category::Learner, 0, 0);
    let b = verified_campaign(&mut p, Category::Learner, 0, 0);
    p.cancel_campaign(b).unwrap();
    let (page, cursor) = p.list_active_campaigns(0, 1);
    assert_eq!(page.len(), 1);
    assert_eq!(page[0].id, a);
    assert_eq!(cursor, 0);
    let c = verified_campaign(&mut p, Category::Learner, 0, 0);
    let (page, cursor) = p.list_active_campaigns(0, 1);
    assert_eq!(page[0].id, a);
    assert_eq!(cursor, 2);
    let (page, cursor) = p.list_active_campaigns(cursor - 1, 1);
    assert_eq!(page[0].id, c);
    assert_eq!(cursor, 0);
}

#[test]
fn creator_listing_keeps_every_owned_campaign_after_a_transfer() {
    let mut p = platform();
    for i in 0..501u32 {
        p.create_campaign(at(1000, i), params(Category::Learner, 0, 0)).unwrap();
    }
    p.initiate_campaign_transfer(1, bob()).unwrap();
    p.accept_campaign_transfer(1).unwrap();
    let last = p.get_creator_campaigns(creator(), 499, 1);
    assert_eq!(last.len(), 1);
    assert_eq!(last[0].id, 501);
    assert_eq!(p.get_creator_campaigns(creator(), 500, 1).len(), 0);
    let first = p.get_creator_campaigns(creator(), 0, 2);
    assert_eq!(first[0].id, 2);
    assert_eq!(first[1].id, 3);
    let theirs = p.get_creator_campaigns(bob(), 0, 10);
    assert_eq!(theirs.len(), 1);
    assert_eq!(theirs[0].id, 1);
    // a campaign taken over later is listed after the ones held before
    p.initiate_campaign_transfer(1, creator()).unwrap();
    p.accept_campaign_transfer(1).unwrap();
    let tail = p.get_creator_campaigns(creator(), 499, 5);
    assert_eq!(tail.len(), 2);
    assert_eq!(tail[0].id, 501);
    assert_eq!(tail[1].id, 1);
    assert_eq!(p.get_creator_campaigns(bob(), 0, 10).len(), 0);
}
