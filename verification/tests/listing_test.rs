#![allow(dead_code, unused_imports, unused_variables, unused_mut)]

use proof_of_heart::constants::{
    CAMPAIGN_FUNDING_GOAL_MAX, CAMPAIGN_FUNDING_GOAL_MIN, DEFAULT_APPROVAL_THRESHOLD_BPS, DEFAULT_MIN_VOTES_QUORUM,
};
use proof_of_heart::{
    Address, Campaign, CampaignReserve, Category, CreateCampaignParams, Effects, Error, Event, Ledger,
    MaybePendingCreator, PlatformStats, ProofOfHeart, Transfer,
};
use std::cell::RefCell;
use std::collections::{HashMap, HashSet};
use std::rc::Rc;

// ---- a small host: ledger, token balances, events and authorizations ----

struct World {
    poh: ProofOfHeart,
    timestamp: u64,
    sequence: u32,
    contract: Address,
    balances: HashMap<u64, i128>,
    tokens: HashSet<u64>,
    events: Vec<HostEvent>,
    auths: Vec<(Address, &'static str)>,
    next_id: u64,
}

/// What the host logged: token movements and the contract's own events.
#[derive(Clone, Debug, PartialEq)]
enum HostEvent {
    Token(Transfer),
    Contract(Event),
}

#[derive(Clone)]
struct Env(Rc<RefCell<World>>);

#[derive(Clone, Debug, PartialEq)]
struct LedgerInfo {
    timestamp: u64,
    protocol_version: u32,
    sequence_number: u32,
    network_id: [u8; 32],
    base_reserve: u32,
    min_temp_entry_ttl: u32,
    min_persistent_entry_ttl: u32,
    max_entry_ttl: u32,
}

struct LedgerHandle(Env);
struct EventLog(Env);

trait Generate {
    fn generate(env: &Env) -> Self;
}

impl Generate for Address {
    fn generate(env: &Env) -> Address {
        let mut w = env.0.borrow_mut();
        w.next_id += 1;
        Address::new(w.next_id)
    }
}

impl Env {
    fn default() -> Env {
        Env(Rc::new(RefCell::new(World {
            poh: ProofOfHeart::new(),
            timestamp: 0,
            sequence: 0,
            contract: Address::new(0),
            balances: HashMap::new(),
            tokens: HashSet::new(),
            events: Vec::new(),
            auths: Vec::new(),
            next_id: 100,
        })))
    }

    fn mock_all_auths(&self) {}

    fn ledger(&self) -> LedgerHandle {
        LedgerHandle(self.clone())
    }

    fn events(&self) -> EventLog {
        EventLog(self.clone())
    }

    fn auths(&self) -> Vec<(Address, &'static str)> {
        self.0.borrow().auths.clone()
    }

    fn register_stellar_asset_contract(&self, _admin: Address) -> Address {
        let a = Address::generate(self);
        self.0.borrow_mut().tokens.insert(a.id);
        a
    }

    fn register_contract(&self) -> Address {
        Address::generate(self)
    }
}

impl LedgerHandle {
    fn set(&self, li: LedgerInfo) {
        let mut w = (self.0).0.borrow_mut();
        w.timestamp = li.timestamp;
        w.sequence = li.sequence_number;
    }

    fn timestamp(&self) -> u64 {
        (self.0).0.borrow().timestamp
    }

    fn sequence(&self) -> u32 {
        (self.0).0.borrow().sequence
    }

    fn with_mut<F: FnOnce(&mut LedgerInfo)>(&self, f: F) {
        let mut li = LedgerInfo {
            timestamp: self.timestamp(),
            protocol_version: 22,
            sequence_number: self.sequence(),
            network_id: [0; 32],
            base_reserve: 10,
            min_temp_entry_ttl: 10,
            min_persistent_entry_ttl: 10,
            max_entry_ttl: 10,
        };
        f(&mut li);
        self.set(li);
    }
}

impl EventLog {
    fn all(&self) -> Vec<HostEvent> {
        (self.0).0.borrow().events.clone()
    }
}

struct TokenClient {
    env: Env,
    address: Address,
}

impl TokenClient {
    fn new(env: &Env, address: &Address) -> TokenClient {
        TokenClient { env: env.clone(), address: *address }
    }

    fn balance(&self, who: &Address) -> i128 {
        *self.env.0.borrow().balances.get(&who.id).unwrap_or(&0)
    }
}

struct TokenAdminClient {
    env: Env,
    address: Address,
}

impl TokenAdminClient {
    fn new(env: &Env, address: &Address) -> TokenAdminClient {
        TokenAdminClient { env: env.clone(), address: *address }
    }

    fn mint(&self, to: &Address, amount: &i128) {
        let mut w = self.env.0.borrow_mut();
        *w.balances.entry(to.id).or_insert(0) += *amount;
    }
}

fn text(s: &str) -> Vec<u8> {
    s.as_bytes().to_vec()
}

type TryResult<T> = Result<T, Result<Error, ()>>;

struct ProofOfHeartClient {
    env: Env,
    address: Address,
}

impl ProofOfHeartClient {
    fn new(env: &Env, address: &Address) -> ProofOfHeartClient {
        env.0.borrow_mut().contract = *address;
        ProofOfHeartClient { env: env.clone(), address: *address }
    }

    fn ledger(&self) -> Ledger {
        let w = self.env.0.borrow();
        Ledger { timestamp: w.timestamp, sequence: w.sequence, contract: w.contract }
    }

    /// Runs one call; on success records its authorization, moves the tokens and publishes its events.
    fn run<T>(
        &self,
        name: &'static str,
        f: impl FnOnce(&mut ProofOfHeart, Ledger) -> Result<(T, Effects), Error>,
    ) -> TryResult<T> {
        let ledger = self.ledger();
        let mut w = self.env.0.borrow_mut();
        w.auths.clear();
        match f(&mut w.poh, ledger) {
            Ok((v, fx)) => {
                if let Some(a) = fx.auth {
                    w.auths.push((a, name));
                }
                for t in fx.transfers.iter() {
                    let from = *w.balances.get(&t.from.id).unwrap_or(&0);
                    assert!(from >= t.amount, "token balance too low for a transfer");
                    w.balances.insert(t.from.id, from - t.amount);
                    *w.balances.entry(t.to.id).or_insert(0) += t.amount;
                    w.events.push(HostEvent::Token(*t));
                }
                for e in fx.events.into_iter() {
                    w.events.push(HostEvent::Contract(e));
                }
                Ok(v)
            },
            Err(e) => Err(Ok(e)),
        }
    }

    fn read<T>(&self, f: impl FnOnce(&ProofOfHeart) -> T) -> T {
        let w = self.env.0.borrow();
        f(&w.poh)
    }

    /// Writes settings directly, as a test may write the contract's storage.
    fn poke(&self, f: impl FnOnce(&mut ProofOfHeart)) {
        let mut w = self.env.0.borrow_mut();
        f(&mut w.poh)
    }

    fn unit(r: Result<Effects, Error>) -> Result<((), Effects), Error> {
        r.map(|fx| ((), fx))
    }

    fn try_init(&self, admin: &Address, token: &Address, fee: &u32) -> TryResult<()> {
        let valid = self.env.0.borrow().tokens.contains(&token.id);
        self.run("init", |p, _| Self::unit(p.init(*admin, *token, *fee, valid)))
    }
    fn init(&self, admin: &Address, token: &Address, fee: &u32) {
        self.try_init(admin, token, fee).unwrap()
    }

    fn try_create_campaign(&self, params: &CreateCampaignParams) -> TryResult<u32> {
        let params = params.clone();
        self.run("create_campaign", |p, l| {
            assert!(p.create_fits(params.creator));
            p.create_campaign(l, params)
        })
    }
    fn create_campaign(&self, params: &CreateCampaignParams) -> u32 {
        self.try_create_campaign(params).unwrap()
    }

    fn try_contribute(&self, id: &u32, who: &Address, amount: &i128) -> TryResult<()> {
        self.run("contribute", |p, l| {
            assert!(p.contribute_fits(*id, *who, *amount));
            Self::unit(p.contribute(l, *id, *who, *amount))
        })
    }
    fn contribute(&self, id: &u32, who: &Address, amount: &i128) {
        self.try_contribute(id, who, amount).unwrap()
    }

    fn try_withdraw_funds(&self, id: &u32) -> TryResult<()> {
        self.run("withdraw_funds", |p, l| {
            assert!(p.withdraw_fits(*id));
            Self::unit(p.withdraw_funds(l, *id))
        })
    }
    fn withdraw_funds(&self, id: &u32) {
        self.try_withdraw_funds(id).unwrap()
    }

    fn try_withdraw_reserve(&self, id: &u32) -> TryResult<()> {
        self.run("withdraw_reserve", |p, l| Self::unit(p.withdraw_reserve(l, *id)))
    }
    fn withdraw_reserve(&self, id: &u32) {
        self.try_withdraw_reserve(id).unwrap()
    }

    fn try_set_vesting_params(&self, admin: &Address, delay: &u64, bps: &u32) -> TryResult<()> {
        self.run("set_vesting_params", |p, _| Self::unit(p.set_vesting_params(*admin, *delay, *bps)))
    }
    fn set_vesting_params(&self, admin: &Address, delay: &u64, bps: &u32) {
        self.try_set_vesting_params(admin, delay, bps).unwrap()
    }

    fn try_cancel_campaign(&self, id: &u32) -> TryResult<()> {
        self.run("cancel_campaign", |p, _| Self::unit(p.cancel_campaign(*id)))
    }
    fn cancel_campaign(&self, id: &u32) {
        self.try_cancel_campaign(id).unwrap()
    }

    fn try_update_campaign(&self, id: &u32, title: &Vec<u8>, description: &Vec<u8>) -> TryResult<()> {
        self.run("update_campaign", |p, _| Self::unit(p.update_campaign(*id, title.clone(), description.clone())))
    }
    fn update_campaign(&self, id: &u32, title: &Vec<u8>, description: &Vec<u8>) {
        self.try_update_campaign(id, title, description).unwrap()
    }

    fn try_update_campaign_description(&self, id: &u32, description: &Vec<u8>) -> TryResult<()> {
        self.run("update_campaign_description", |p, _| {
            Self::unit(p.update_campaign_description(*id, description.clone()))
        })
    }
    fn update_campaign_description(&self, id: &u32, description: &Vec<u8>) {
        self.try_update_campaign_description(id, description).unwrap()
    }

    fn try_claim_refund(&self, id: &u32, who: &Address) -> TryResult<()> {
        self.run("claim_refund", |p, l| {
            assert!(p.refund_fits(*id, *who));
            Self::unit(p.claim_refund(l, *id, *who))
        })
    }
    fn claim_refund(&self, id: &u32, who: &Address) {
        self.try_claim_refund(id, who).unwrap()
    }

    fn try_deposit_revenue(&self, id: &u32, amount: &i128) -> TryResult<()> {
        self.run("deposit_revenue", |p, l| {
            assert!(p.deposit_fits(*id, *amount));
            Self::unit(p.deposit_revenue(l, *id, *amount))
        })
    }
    fn deposit_revenue(&self, id: &u32, amount: &i128) {
        self.try_deposit_revenue(id, amount).unwrap()
    }

    fn try_claim_revenue(&self, id: &u32, who: &Address) -> TryResult<()> {
        self.run("claim_revenue", |p, l| {
            assert!(p.pool_fits(*id));
            Self::unit(p.claim_revenue(l, *id, *who))
        })
    }
    fn claim_revenue(&self, id: &u32, who: &Address) {
        self.try_claim_revenue(id, who).unwrap()
    }

    fn try_claim_creator_revenue(&self, id: &u32) -> TryResult<()> {
        self.run("claim_creator_revenue", |p, l| {
            assert!(p.pool_fits(*id));
            Self::unit(p.claim_creator_revenue(l, *id))
        })
    }
    fn claim_creator_revenue(&self, id: &u32) {
        self.try_claim_creator_revenue(id).unwrap()
    }

    fn try_set_voting_params(&self, admin: &Address, quorum: &u32, threshold: &u32) -> TryResult<()> {
        self.run("set_voting_params", |p, _| Self::unit(p.set_voting_params(*admin, *quorum, *threshold)))
    }
    fn set_voting_params(&self, admin: &Address, quorum: &u32, threshold: &u32) {
        self.try_set_voting_params(admin, quorum, threshold).unwrap()
    }

    fn try_set_min_voting_balance(&self, admin: &Address, min: &i128) -> TryResult<()> {
        self.run("set_min_voting_balance", |p, _| Self::unit(p.set_min_voting_balance(*admin, *min)))
    }
    fn set_min_voting_balance(&self, admin: &Address, min: &i128) {
        self.try_set_min_voting_balance(admin, min).unwrap()
    }

    fn try_pause(&self) -> TryResult<()> {
        self.run("pause", |p, _| Self::unit(p.pause()))
    }
    fn pause(&self) {
        self.try_pause().unwrap()
    }

    fn try_unpause(&self) -> TryResult<()> {
        self.run("unpause", |p, _| Self::unit(p.unpause()))
    }
    fn unpause(&self) {
        self.try_unpause().unwrap()
    }

    fn is_paused(&self) -> bool {
        self.read(|p| p.is_paused())
    }

    fn try_set_creation_disabled(&self, disabled: &bool) -> TryResult<()> {
        self.run("set_creation_disabled", |p, _| Self::unit(p.set_creation_disabled(*disabled)))
    }
    fn set_creation_disabled(&self, disabled: &bool) {
        self.try_set_creation_disabled(disabled).unwrap()
    }

    fn is_creation_disabled(&self) -> bool {
        self.read(|p| p.is_creation_disabled())
    }

    fn try_vote_on_campaign(&self, id: &u32, voter: &Address, approve: &bool) -> TryResult<()> {
        let balance = *self.env.0.borrow().balances.get(&voter.id).unwrap_or(&0);
        self.run("vote_on_campaign", |p, l| {
            assert!(p.vote_fits(*id, *approve, balance));
            Self::unit(p.vote_on_campaign(l, *id, *voter, *approve, balance))
        })
    }
    fn vote_on_campaign(&self, id: &u32, voter: &Address, approve: &bool) {
        self.try_vote_on_campaign(id, voter, approve).unwrap()
    }

    fn try_verify_campaign(&self, id: &u32) -> TryResult<()> {
        self.run("verify_campaign", |p, _| Self::unit(p.verify_campaign(*id)))
    }
    fn verify_campaign(&self, id: &u32) {
        self.try_verify_campaign(id).unwrap()
    }

    fn try_verify_campaigns(&self, ids: &Vec<u32>) -> TryResult<(u32, Option<Error>)> {
        self.run("verify_campaigns", |p, _| p.verify_campaigns(ids).map(|(c, e, fx)| ((c, e), fx)))
    }
    fn verify_campaigns(&self, ids: &Vec<u32>) -> (u32, Option<Error>) {
        self.try_verify_campaigns(ids).unwrap()
    }

    fn try_verify_campaign_with_votes(&self, id: &u32) -> TryResult<()> {
        self.run("verify_campaign_with_votes", |p, _| Self::unit(p.verify_campaign_with_votes(*id)))
    }
    fn verify_campaign_with_votes(&self, id: &u32) {
        self.try_verify_campaign_with_votes(id).unwrap()
    }

    fn try_get_campaign(&self, id: &u32) -> TryResult<Campaign> {
        self.read(|p| p.get_campaign(*id)).map_err(Ok)
    }
    fn get_campaign(&self, id: &u32) -> Campaign {
        self.try_get_campaign(id).unwrap()
    }

    fn get_campaign_optional(&self, id: &u32) -> Option<Campaign> {
        self.read(|p| p.get_campaign_optional(*id))
    }

    fn get_campaign_count(&self) -> u32 {
        self.read(|p| p.get_campaign_count())
    }

    fn get_total_raised_global(&self) -> i128 {
        self.read(|p| p.get_total_raised_global())
    }

    fn get_total_contributors_count(&self, id: &u32) -> u32 {
        self.read(|p| p.get_total_contributors_count(*id))
    }

    fn get_creator_campaigns(&self, creator: &Address, start: &u32, limit: &u32) -> Vec<Campaign> {
        self.read(|p| {
            assert!(p.creator_listing_fits(*creator));
            p.get_creator_campaigns(*creator, *start, *limit)
        })
    }

    fn get_contribution(&self, id: &u32, who: &Address) -> i128 {
        self.read(|p| p.get_contribution(*id, *who))
    }

    fn get_lifetime_contribution(&self, id: &u32, who: &Address) -> i128 {
        self.read(|p| p.get_lifetime_contribution(*id, *who))
    }

    fn get_revenue_pool(&self, id: &u32) -> i128 {
        self.read(|p| p.get_revenue_pool(*id))
    }

    fn get_revenue_claimed(&self, id: &u32, who: &Address) -> i128 {
        self.read(|p| p.get_revenue_claimed(*id, *who))
    }

    fn get_version(&self) -> u32 {
        self.read(|p| p.get_version())
    }

    fn try_update_platform_fee(&self, fee: &u32) -> TryResult<()> {
        self.run("update_platform_fee", |p, _| Self::unit(p.update_platform_fee(*fee)))
    }
    fn update_platform_fee(&self, fee: &u32) {
        self.try_update_platform_fee(fee).unwrap()
    }

    fn try_set_campaign_fee_override(&self, admin: &Address, id: &u32, fee: &u32) -> TryResult<()> {
        self.run("set_campaign_fee_override", |p, _| Self::unit(p.set_campaign_fee_override(*admin, *id, *fee)))
    }
    fn set_campaign_fee_override(&self, admin: &Address, id: &u32, fee: &u32) {
        self.try_set_campaign_fee_override(admin, id, fee).unwrap()
    }

    fn try_set_category_duration_cap(&self, admin: &Address, category: &Category, max_days: &u64) -> TryResult<()> {
        self.run("set_category_duration_cap", |p, _| {
            Self::unit(p.set_category_duration_cap(*admin, *category, *max_days))
        })
    }
    fn set_category_duration_cap(&self, admin: &Address, category: &Category, max_days: &u64) {
        self.try_set_category_duration_cap(admin, category, max_days).unwrap()
    }

    fn try_extend_campaign_deadline(&self, id: &u32, days: &u64) -> TryResult<()> {
        self.run("extend_campaign_deadline", |p, l| Self::unit(p.extend_campaign_deadline(l, *id, *days)))
    }
    fn extend_campaign_deadline(&self, id: &u32, days: &u64) {
        self.try_extend_campaign_deadline(id, days).unwrap()
    }

    fn try_set_personal_cap(&self, id: &u32, who: &Address, amount: &i128) -> TryResult<()> {
        self.run("set_personal_cap", |p, _| Self::unit(p.set_personal_cap(*id, *who, *amount)))
    }
    fn set_personal_cap(&self, id: &u32, who: &Address, amount: &i128) {
        self.try_set_personal_cap(id, who, amount).unwrap()
    }

    fn get_personal_cap(&self, id: &u32, who: &Address) -> i128 {
        self.read(|p| p.get_personal_cap(*id, *who))
    }

    fn try_initiate_admin_transfer(&self, admin: &Address, new_admin: &Address) -> TryResult<()> {
        self.run("initiate_admin_transfer", |p, _| Self::unit(p.initiate_admin_transfer(*admin, *new_admin)))
    }
    fn initiate_admin_transfer(&self, admin: &Address, new_admin: &Address) {
        self.try_initiate_admin_transfer(admin, new_admin).unwrap()
    }

    fn try_accept_admin_transfer(&self) -> TryResult<()> {
        self.run("accept_admin_transfer", |p, _| Self::unit(p.accept_admin_transfer()))
    }
    fn accept_admin_transfer(&self) {
        self.try_accept_admin_transfer().unwrap()
    }

    fn try_cancel_admin_transfer(&self, admin: &Address) -> TryResult<()> {
        self.run("cancel_admin_transfer", |p, _| Self::unit(p.cancel_admin_transfer(*admin)))
    }
    fn cancel_admin_transfer(&self, admin: &Address) {
        self.try_cancel_admin_transfer(admin).unwrap()
    }

    fn try_update_admin(&self, new_admin: &Address) -> TryResult<()> {
        self.run("update_admin", |p, _| Self::unit(p.update_admin(*new_admin)))
    }
    fn update_admin(&self, new_admin: &Address) {
        self.try_update_admin(new_admin).unwrap()
    }

    fn get_pending_admin(&self) -> Option<Address> {
        self.read(|p| p.get_pending_admin())
    }

    fn get_approve_votes(&self, id: &u32) -> u32 {
        self.read(|p| p.get_approve_votes(*id))
    }

    fn get_reject_votes(&self, id: &u32) -> u32 {
        self.read(|p| p.get_reject_votes(*id))
    }

    fn has_voted(&self, id: &u32, voter: &Address) -> bool {
        self.read(|p| p.has_voted(*id, *voter))
    }

    fn get_min_votes_quorum(&self) -> u32 {
        self.read(|p| p.get_min_votes_quorum())
    }

    fn get_approval_threshold_bps(&self) -> u32 {
        self.read(|p| p.get_approval_threshold_bps())
    }

    fn get_admin(&self) -> Address {
        self.read(|p| p.get_admin())
    }

    fn get_token(&self) -> Address {
        self.read(|p| p.get_token())
    }

    fn get_platform_fee(&self) -> u32 {
        self.read(|p| p.get_platform_fee())
    }

    fn get_min_campaign_funding_goal(&self) -> i128 {
        self.read(|p| p.get_min_campaign_funding_goal())
    }

    fn try_set_min_campaign_funding_goal(&self, admin: &Address, goal: &i128) -> TryResult<()> {
        self.run("set_min_campaign_funding_goal", |p, _| Self::unit(p.set_min_campaign_funding_goal(*admin, *goal)))
    }
    fn set_min_campaign_funding_goal(&self, admin: &Address, goal: &i128) {
        self.try_set_min_campaign_funding_goal(admin, goal).unwrap()
    }

    fn get_max_campaign_funding_goal(&self) -> i128 {
        self.read(|p| p.get_max_campaign_funding_goal())
    }

    fn try_set_max_campaign_funding_goal(&self, admin: &Address, goal: &i128) -> TryResult<()> {
        self.run("set_max_campaign_funding_goal", |p, _| Self::unit(p.set_max_campaign_funding_goal(*admin, *goal)))
    }
    fn set_max_campaign_funding_goal(&self, admin: &Address, goal: &i128) {
        self.try_set_max_campaign_funding_goal(admin, goal).unwrap()
    }

    fn get_min_voting_balance(&self) -> i128 {
        self.read(|p| p.get_min_voting_balance())
    }

    fn list_campaigns(&self, start: &u32, limit: &u32) -> Vec<Campaign> {
        self.read(|p| p.list_campaigns(*start, *limit))
    }

    fn list_active_campaigns(&self, start: &u32, limit: &u32) -> (Vec<Campaign>, u32) {
        self.read(|p| {
            assert!(p.active_listing_fits(*start, *limit));
            p.list_active_campaigns(*start, *limit)
        })
    }

    fn get_campaigns_by_category(&self, category: &Category, start: &u32, limit: &u32) -> Vec<Campaign> {
        self.read(|p| {
            assert!(p.category_listing_fits(*category, *start, *limit));
            p.get_campaigns_by_category(*category, *start, *limit)
        })
    }

    fn get_platform_stats(&self) -> PlatformStats {
        self.read(|p| p.get_platform_stats())
    }

    fn try_initiate_campaign_transfer(&self, id: &u32, new_creator: &Address) -> TryResult<()> {
        self.run("initiate_campaign_transfer", |p, _| Self::unit(p.initiate_campaign_transfer(*id, *new_creator)))
    }
    fn initiate_campaign_transfer(&self, id: &u32, new_creator: &Address) {
        self.try_initiate_campaign_transfer(id, new_creator).unwrap()
    }

    fn try_accept_campaign_transfer(&self, id: &u32) -> TryResult<()> {
        self.run("accept_campaign_transfer", |p, _| {
            assert!(p.accept_transfer_fits(*id));
            Self::unit(p.accept_campaign_transfer(*id))
        })
    }
    fn accept_campaign_transfer(&self, id: &u32) {
        self.try_accept_campaign_transfer(id).unwrap()
    }

    fn try_purge_voting_state(&self, id: &u32, voters: &Vec<Address>) -> TryResult<()> {
        self.run("purge_voting_state", |p, _| Self::unit(p.purge_voting_state(*id, voters)))
    }
    fn purge_voting_state(&self, id: &u32, voters: &Vec<Address>) {
        self.try_purge_voting_state(id, voters).unwrap()
    }

    fn try_cancel_campaign_transfer(&self, id: &u32) -> TryResult<()> {
        self.run("cancel_campaign_transfer", |p, _| Self::unit(p.cancel_campaign_transfer(*id)))
    }
    fn cancel_campaign_transfer(&self, id: &u32) {
        self.try_cancel_campaign_transfer(id).unwrap()
    }

    fn get_campaign_reserve(&self, id: &u32) -> Option<CampaignReserve> {
        self.read(|p| p.get_campaign_reserve(*id))
    }
}

fn make_params(
    creator: Address,
    title: Vec<u8>,
    description: Vec<u8>,
    funding_goal: i128,
    duration_days: u64,
    category: Category,
    has_revenue_sharing: bool,
    revenue_share_percentage: u32,
    max_contribution_per_user: i128,
) -> CreateCampaignParams {
    CreateCampaignParams {
        creator,
        title,
        description,
        funding_goal,
        duration_days,
        category,
        has_revenue_sharing,
        revenue_share_percentage,
        max_contribution_per_user,
    }
}

fn setup_env_with_default_min() -> (
    Env,
    Address,
    Address,
    Address,
    Address,
    TokenClient,
    TokenAdminClient,
    ProofOfHeartClient,
) {
    let env = Env::default();
    env.mock_all_auths();

    let admin = Address::generate(&env);
    let creator = Address::generate(&env);
    let contributor1 = Address::generate(&env);
    let contributor2 = Address::generate(&env);

    let token_address = env.register_stellar_asset_contract(admin.clone());
    let token = TokenClient::new(&env, &token_address);
    let token_admin = TokenAdminClient::new(&env, &token_address);

    let contract_id = env.register_contract();
    let client = ProofOfHeartClient::new(&env, &contract_id);

    client.init(&admin, &token_address, &300);

    (env, admin, creator, contributor1, contributor2, token, token_admin, client)
}

fn setup_env() -> (
    Env,
    Address,
    Address,
    Address,
    Address,
    TokenClient,
    TokenAdminClient,
    ProofOfHeartClient,
) {
    let setup = setup_env_with_default_min();
    setup.7.poke(|p| p.config.min_goal = 1);
    setup
}

// ---- tests ----

#[test]
fn test_listing_test_list_campaigns_exclusive_cursor_semantics() {
    let (env, _admin, creator, _c1, _c2, _token, _token_admin, client) = setup_env();

    for i in 0..3 {
        let id = client.create_campaign(&make_params(
            creator.clone(),
            text("Campaign"),
            text("Desc"),
            1000 + i as i128,
            30,
            Category::Learner,
            false,
            0,
            0i128,
        ));
        assert_eq!(id, (i + 1) as u32);
    }

    let page1 = client.list_campaigns(&0, &2);
    assert_eq!(page1.len(), 2);
    assert_eq!(page1.get(0).unwrap().id, 1);
    assert_eq!(page1.get(1).unwrap().id, 2);

    let page2 = client.list_campaigns(&2, &2);
    assert_eq!(page2.len(), 1);
    assert_eq!(page2.get(0).unwrap().id, 3);
}

#[test]
fn test_listing_test_list_active_campaigns_exclusive_cursor_semantics() {
    let (env, _admin, creator, _c1, _c2, _token, _token_admin, client) = setup_env();

    for _ in 0..4 {
        let _ = client.create_campaign(&make_params(
            creator.clone(),
            text("Campaign"),
            text("Desc"),
            1000,
            30,
            Category::Learner,
            false,
            0,
            0i128,
        ));
    }

    client.cancel_campaign(&2);

    let active1 = client.list_active_campaigns(&0, &2);
    assert_eq!(active1.0.len(), 2);
    assert_eq!(active1.0.get(0).unwrap().id, 1);
    assert_eq!(active1.0.get(1).unwrap().id, 3);

    let active2 = client.list_active_campaigns(&3, &2);
    assert_eq!(active2.0.len(), 1);
    assert_eq!(active2.0.get(0).unwrap().id, 4);
}

#[test]
fn test_listing_test_get_campaigns_by_category_with_pagination() {
    let (env, _admin, creator, _, _, _, _, client) = setup_env();

    let id1 = client.create_campaign(&make_params(
        creator.clone(),
        text("Learner 1"),
        text("a"),
        100,
        30,
        Category::Learner,
        false,
        0,
        0i128,
    ));
    let _id2 = client.create_campaign(&make_params(
        creator.clone(),
        text("Publisher 1"),
        text("b"),
        100,
        30,
        Category::Publisher,
        false,
        0,
        0i128,
    ));
    let id3 = client.create_campaign(&make_params(
        creator.clone(),
        text("Learner 2"),
        text("c"),
        100,
        30,
        Category::Learner,
        false,
        0,
        0i128,
    ));

    let learner_page_1 = client.get_campaigns_by_category(&Category::Learner, &0, &1);
    assert_eq!(learner_page_1.len(), 1);
    assert_eq!(learner_page_1.get(0).unwrap().id, id1);

    let learner_page_2 = client.get_campaigns_by_category(&Category::Learner, &1, &1);
    assert_eq!(learner_page_2.len(), 1);
    assert_eq!(learner_page_2.get(0).unwrap().id, id3);

    let publisher = client.get_campaigns_by_category(&Category::Publisher, &0, &10);
    assert_eq!(publisher.len(), 1);
    assert_eq!(publisher.get(0).unwrap().category, Category::Publisher);
}

#[test]
fn test_listing_test_get_platform_stats_returns_aggregates() {
    let (env, _admin, creator, contributor1, contributor2, _token, token_admin, client) =
        setup_env();
    token_admin.mint(&contributor1, &2_000);
    token_admin.mint(&contributor2, &2_000);

    let c1 = client.create_campaign(&make_params(
        creator.clone(),
        text("Stats 1"),
        text("s1"),
        500,
        30,
        Category::Learner,
        false,
        0,
        0i128,
    ));
    let c2 = client.create_campaign(&make_params(
        creator.clone(),
        text("Stats 2"),
        text("s2"),
        500,
        30,
        Category::Learner,
        false,
        0,
        0i128,
    ));

    let _ = client.try_verify_campaign(&c1);
    let _ = client.try_verify_campaign(&c2);
    client.contribute(&c1, &contributor1, &400);
    client.contribute(&c2, &contributor2, &300);
    client.cancel_campaign(&c2);

    let stats = client.get_platform_stats();
    assert_eq!(stats.total_campaigns, 2);
    assert_eq!(stats.active_campaigns, 1);
    assert_eq!(stats.verified_campaigns, 2);
    assert_eq!(stats.cancelled_campaigns, 1);
    assert_eq!(stats.total_amount_raised, 700);
}

#[test]
fn test_listing_test_total_raised_global_tracking() {
    let (env, _admin, creator, contributor1, contributor2, _token, token_admin, client) =
        setup_env();

    token_admin.mint(&contributor1, &5000);
    token_admin.mint(&contributor2, &5000);

    let c1 = client.create_campaign(&make_params(
        creator.clone(),
        text("Campaign 1"),
        text("First"),
        1000,
        30,
        Category::Educator,
        false,
        0,
        0i128,
    ));
    client.verify_campaign(&c1);

    let c2 = client.create_campaign(&make_params(
        creator.clone(),
        text("Campaign 2"),
        text("Second"),
        2000,
        30,
        Category::Learner,
        false,
        0,
        0i128,
    ));
    client.verify_campaign(&c2);

    assert_eq!(client.get_total_raised_global(), 0);

    client.contribute(&c1, &contributor1, &500);
    assert_eq!(client.get_total_raised_global(), 500);

    client.contribute(&c2, &contributor2, &1000);
    assert_eq!(client.get_total_raised_global(), 1500);

    client.cancel_campaign(&c2);
    client.claim_refund(&c2, &contributor2);
    assert_eq!(client.get_total_raised_global(), 500);

    client.contribute(&c1, &contributor2, &500);
    assert_eq!(client.get_total_raised_global(), 1000);

    client.withdraw_funds(&c1);
    assert_eq!(client.get_total_raised_global(), 0);
}

#[test]
fn test_listing_test_creator_campaigns_listing_and_transfer() {
    let (env, _admin, creator1, _c1, _c2, _token, _token_admin, client) = setup_env();
    let creator2 = Address::generate(&env);

    let id1 = client.create_campaign(&make_params(
        creator1.clone(),
        text("Campaign 1"),
        text("First"),
        1000,
        30,
        Category::Educator,
        false,
        0,
        0i128,
    ));

    let id2 = client.create_campaign(&make_params(
        creator1.clone(),
        text("Campaign 2"),
        text("Second"),
        2000,
        30,
        Category::Learner,
        false,
        0,
        0i128,
    ));

    let list1 = client.get_creator_campaigns(&creator1, &0, &10);
    assert_eq!(list1.len(), 2);
    assert_eq!(list1.get(0).unwrap().id, id1);
    assert_eq!(list1.get(1).unwrap().id, id2);

    let paginated1 = client.get_creator_campaigns(&creator1, &0, &1);
    assert_eq!(paginated1.len(), 1);
    assert_eq!(paginated1.get(0).unwrap().id, id1);

    let paginated2 = client.get_creator_campaigns(&creator1, &1, &1);
    assert_eq!(paginated2.len(), 1);
    assert_eq!(paginated2.get(0).unwrap().id, id2);

    let list2 = client.get_creator_campaigns(&creator2, &0, &10);
    assert_eq!(list2.len(), 0);

    client.initiate_campaign_transfer(&id1, &creator2);
    client.accept_campaign_transfer(&id1);

    let list1_after = client.get_creator_campaigns(&creator1, &0, &10);
    assert_eq!(list1_after.len(), 1);
    assert_eq!(list1_after.get(0).unwrap().id, id2);

    let list2_after = client.get_creator_campaigns(&creator2, &0, &10);
    assert_eq!(list2_after.len(), 1);
    assert_eq!(list2_after.get(0).unwrap().id, id1);
}

/// Verifies that list_active_campaigns correctly advances the cursor and returns
/// all active campaigns when the majority of campaigns are cancelled (sparse distribution).
///
/// Scenario: 12 campaigns created, campaigns 1–10 cancelled, only 11 and 12 active.
/// Paginating with page size 1 must return campaign 11 then 12 with no omissions,
/// no duplicates, and a zero cursor after the final page.
#[test]
fn test_list_active_campaigns_sparse_active_distribution() {
    let (env, _admin, creator, _c1, _c2, _token, _token_admin, client) = setup_env();

    let total = 12u32;
    let active_from = 11u32; // campaigns 11 and 12 are active; 1–10 are cancelled

    for _ in 0..total {
        client.create_campaign(&make_params(
            creator.clone(),
            text("Campaign"),
            text("Desc"),
            1000,
            30,
            Category::Learner,
            false,
            0,
            0i128,
        ));
    }

    for id in 1..active_from {
        client.cancel_campaign(&id);
    }

    // Page 1: expect campaign 11, cursor should advance past it
    let (page1, cursor1) = client.list_active_campaigns(&0, &1);
    assert_eq!(page1.len(), 1);
    assert_eq!(page1.get(0).unwrap().id, 11);
    assert!(cursor1 > 0, "cursor must be non-zero when more results remain");

    // Page 2: continue from cursor1, expect campaign 12
    let (page2, cursor2) = client.list_active_campaigns(&cursor1.saturating_sub(1), &1);
    assert_eq!(page2.len(), 1);
    assert_eq!(page2.get(0).unwrap().id, 12);

    // No duplicates across pages
    assert_ne!(
        page1.get(0).unwrap().id,
        page2.get(0).unwrap().id,
        "pages must not overlap"
    );

    // Final page: cursor must be zero (no more results)
    let (page3, cursor3) = client.list_active_campaigns(&12, &1);
    assert_eq!(page3.len(), 0);
    assert_eq!(cursor3, 0);

    // Full sweep with large limit returns exactly the two active campaigns
    let (all, _) = client.list_active_campaigns(&0, &50);
    assert_eq!(all.len(), 2);
    assert_eq!(all.get(0).unwrap().id, 11);
    assert_eq!(all.get(1).unwrap().id, 12);
}
