use geev_core::admin::AdminContract;
use geev_core::events::{Deposit, GiveawayWinnerSelected, Payout};
use geev_core::giveaway::{GiveawayContract, PrizeClaim, CLAIM_WINDOW_SECONDS};
use geev_core::mutual_aid::{MutualAidContract, HELP_REQUEST_EXPIRY_SECONDS};
use geev_core::store::{GiveawayRecord, HelpRequestRecord, Storage, MAX_FEE_BPS};
use geev_core::types::{
    AccountId, Error, Giveaway, GiveawayStatus, HelpRequest, HelpRequestStatus,
    ParticipantVerification, SelectionMethod,
};
use std::collections::HashMap;

/// The contract's own account in the test ledger.
const CONTRACT: AccountId = 0;
const TOKEN: AccountId = 9_000;
const START: u64 = 0;

/// A token ledger and clock standing in for the chain around the contract.
struct Chain {
    store: Storage,
    balances: HashMap<(AccountId, AccountId), i128>,
    now: u64,
    seed: u64,
    next_account: AccountId,
}

impl Chain {
    fn new() -> Chain {
        Chain { store: Storage::new(), balances: HashMap::new(), now: START, seed: 7, next_account: 100 }
    }

    fn with_store(store: Storage) -> Chain {
        Chain { store, balances: HashMap::new(), now: START, seed: 7, next_account: 100 }
    }

    fn account(&mut self) -> AccountId {
        self.next_account += 1;
        self.next_account
    }

    fn mint(&mut self, token: AccountId, to: AccountId, amount: i128) {
        *self.balances.entry((token, to)).or_insert(0) += amount;
    }

    fn balance(&self, token: AccountId, who: AccountId) -> i128 {
        *self.balances.get(&(token, who)).unwrap_or(&0)
    }

    fn transfer(&mut self, token: AccountId, from: AccountId, to: AccountId, amount: i128) {
        assert!(amount >= 0, "negative transfer");
        assert!(self.balance(token, from) >= amount, "insufficient balance");
        *self.balances.entry((token, from)).or_insert(0) -= amount;
        *self.balances.entry((token, to)).or_insert(0) += amount;
    }

    fn deposit(&mut self, d: Deposit) {
        self.transfer(d.token, d.from, CONTRACT, d.amount);
    }

    fn pay(&mut self, p: Payout) {
        self.transfer(p.token, CONTRACT, p.to, p.amount);
    }

    fn advance(&mut self, seconds: u64) {
        self.now += seconds;
    }

    fn create(
        &mut self,
        creator: AccountId,
        token: AccountId,
        amount: i128,
        title: &str,
        duration: u64,
        winner_count: u32,
        verification: Option<ParticipantVerification>,
        fee_bps: Option<u32>,
    ) -> Result<u64, Error> {
        self.create_with(creator, token, amount, title, duration, winner_count, verification, SelectionMethod::Random, fee_bps)
    }

    fn create_with(
        &mut self,
        creator: AccountId,
        token: AccountId,
        amount: i128,
        title: &str,
        duration: u64,
        winner_count: u32,
        verification: Option<ParticipantVerification>,
        method: SelectionMethod,
        fee_bps: Option<u32>,
    ) -> Result<u64, Error> {
        let created = GiveawayContract::create_giveaway_with_selection(
            &mut self.store,
            creator,
            token,
            amount,
            title.to_string(),
            duration,
            winner_count,
            verification,
            method,
            fee_bps,
            self.now,
        )?;
        self.deposit(Deposit { token: created.token_address, from: creator, amount: created.total_amount });
        Ok(created.giveaway_id)
    }

    fn enter(&mut self, participant: AccountId, id: u64) -> Result<(), Error> {
        self.enter_with_reputation(participant, id, 0)
    }

    fn enter_with_reputation(&mut self, participant: AccountId, id: u64, reputation: u64) -> Result<(), Error> {
        GiveawayContract::enter_giveaway(&mut self.store, participant, id, self.now, reputation)
    }

    fn pick(&mut self, id: u64) -> Result<AccountId, Error> {
        self.pick_events(id).map(|(w, _)| w)
    }

    fn pick_events(&mut self, id: u64) -> Result<(AccountId, Vec<GiveawayWinnerSelected>), Error> {
        self.seed = self.seed.wrapping_mul(6364136223846793005).wrapping_add(1442695040888963407);
        GiveawayContract::pick_winner(&mut self.store, id, self.seed, self.now)
    }

    fn claim(&mut self, id: u64, winner: AccountId) -> Result<PrizeClaim, Error> {
        let claim = GiveawayContract::claim_prize(&mut self.store, id, winner, self.now)?;
        self.pay(claim.payout);
        Ok(claim)
    }

    fn recover(&mut self, id: u64, caller: AccountId) -> Result<Payout, Error> {
        let payout = GiveawayContract::recover_unclaimed_prize(&mut self.store, id, caller, self.now)?;
        if payout.amount > 0 {
            self.pay(payout);
        }
        Ok(payout)
    }

    fn cancel(&mut self, creator: AccountId, id: u64) -> Result<(), Error> {
        let payout = GiveawayContract::cancel_giveaway(&mut self.store, creator, id)?;
        self.pay(payout);
        Ok(())
    }

    fn giveaway(&self, id: u64) -> &Giveaway {
        &self.store.giveaway_record(id).unwrap().giveaway
    }

    fn donate(&mut self, donor: AccountId, id: u64, amount: i128) -> Result<i128, Error> {
        let (deposit, event) = MutualAidContract::donate(&mut self.store, donor, id, amount, self.now)?;
        self.deposit(deposit);
        Ok(event.new_total_raised)
    }

    fn request(&self, id: u64) -> HelpRequest {
        MutualAidContract::get_request(&self.store, id).unwrap()
    }

    fn donation(&self, id: u64, donor: AccountId) -> Option<i128> {
        self.store.request_record(id).unwrap().donations.get(&donor).copied()
    }

    fn seed_request(&mut self, request: HelpRequest) {
        let rec = HelpRequestRecord { request, donations: HashMap::new(), funds_claimed: false };
        assert!(self.store.load_request(rec));
    }
}

/// A contract with `admin`, `fee` and `TOKEN` allowed, as the original tests seed it.
fn setup(admin: Option<AccountId>, fee: Option<u32>) -> Chain {
    let store = Storage::with_settings(admin, fee, false, 0).unwrap();
    let mut chain = Chain::with_store(store);
    assert!(chain.store.load_token(TOKEN, Some(true), None, None));
    chain
}

fn open_request(id: u64, creator: AccountId, goal: i128, now: u64) -> HelpRequest {
    HelpRequest {
        id,
        creator,
        token: TOKEN,
        goal,
        raised_amount: 0,
        status: HelpRequestStatus::Open,
        is_verified: false,
        created_at: now,
        expires_at: Some(now + 30 * 24 * 60 * 60),
    }
}

// ── Giveaway lifecycle ───────────────────────────────────────────────────────

#[test]
fn test_giveaway_flow() {
    let mut chain = setup(None, None);
    let creator = chain.account();
    let user1 = chain.account();
    let user2 = chain.account();
    chain.mint(TOKEN, creator, 1000);

    let id = chain.create(creator, TOKEN, 500, "Test Giveaway", 60, 1, None, None).unwrap();
    assert_eq!(chain.balance(TOKEN, creator), 500);
    assert_eq!(chain.balance(TOKEN, CONTRACT), 500);
    assert_eq!(id, 1);

    chain.enter(user1, id).unwrap();
    chain.enter(user2, id).unwrap();
    chain.advance(100);

    let (winner, events) = chain.pick_events(id).unwrap();
    assert!(winner == user1 || winner == user2);
    assert!(events.iter().any(|e| e.winner == winner && e.giveaway_id == id));
}

#[test]
fn test_creator_cancels_empty_giveaway_and_recovers_escrow() {
    let mut chain = setup(None, None);
    let creator = chain.account();
    chain.mint(TOKEN, creator, 500);
    let id = chain.create(creator, TOKEN, 500, "Cancelled giveaway", 60, 1, None, None).unwrap();
    chain.cancel(creator, id).unwrap();

    assert_eq!(chain.balance(TOKEN, creator), 500);
    assert_eq!(chain.balance(TOKEN, CONTRACT), 0);
    assert_eq!(chain.giveaway(id).status, GiveawayStatus::Cancelled);

    let participant = chain.account();
    assert_eq!(chain.enter(participant, id), Err(Error::InvalidStatus));
    assert_eq!(chain.pick(id), Err(Error::InvalidStatus));
}

#[test]
fn test_giveaway_cancellation_rejects_non_creator_and_existing_entries() {
    let mut chain = setup(None, None);
    let creator = chain.account();
    let participant = chain.account();
    let impostor = chain.account();
    chain.mint(TOKEN, creator, 500);
    let id = chain.create(creator, TOKEN, 500, "Active giveaway", 60, 1, None, None).unwrap();
    assert_eq!(chain.cancel(impostor, id), Err(Error::NotCreator));

    chain.enter(participant, id).unwrap();
    assert_eq!(chain.cancel(creator, id), Err(Error::InvalidStatus));
    assert_eq!(chain.balance(TOKEN, creator), 0);
    assert_eq!(chain.balance(TOKEN, CONTRACT), 500);
}

#[test]
fn test_allowlist_rejects_unverified_participant() {
    let mut chain = setup(None, None);
    let creator = chain.account();
    let allowed_user = chain.account();
    let blocked_user = chain.account();
    chain.mint(TOKEN, creator, 1000);
    let verification = ParticipantVerification { allowlist: vec![allowed_user], min_reputation: 0, uses_reputation: false };
    let id = chain.create(creator, TOKEN, 500, "Allowlist Giveaway", 60, 1, Some(verification), None).unwrap();
    chain.enter(allowed_user, id).unwrap();
    assert_eq!(chain.enter(blocked_user, id), Err(Error::UnauthorizedParticipant));
}

#[test]
fn test_reputation_gated_giveaway_rejects_low_reputation() {
    let mut chain = setup(None, None);
    let creator = chain.account();
    let high_rep_user = chain.account();
    let low_rep_user = chain.account();
    chain.mint(TOKEN, creator, 1000);
    let verification = ParticipantVerification { allowlist: vec![], min_reputation: 5, uses_reputation: true };
    let id = chain.create(creator, TOKEN, 500, "Reputation Giveaway", 60, 1, Some(verification), None).unwrap();
    chain.enter_with_reputation(high_rep_user, id, 10).unwrap();
    assert_eq!(chain.enter_with_reputation(low_rep_user, id, 0), Err(Error::UnauthorizedParticipant));
}

#[test]
fn test_multi_winner_giveaway_selects_unique_winners() {
    let mut chain = setup(None, None);
    let creator = chain.account();
    let p1 = chain.account();
    let p2 = chain.account();
    let p3 = chain.account();
    chain.mint(TOKEN, creator, 1000);
    let id = chain.create(creator, TOKEN, 400, "Multi Winner Giveaway", 60, 2, None, None).unwrap();
    chain.enter(p1, id).unwrap();
    chain.enter(p2, id).unwrap();
    chain.enter(p3, id).unwrap();
    chain.advance(100);

    let winner = chain.pick(id).unwrap();
    assert!(winner == p1 || winner == p2 || winner == p3);
    let winners = chain.giveaway(id).winners.clone();
    assert_eq!(winners.len(), 2);
    assert!(winners[0] != winners[1]);

    chain.claim(id, winners[0]).unwrap();
    chain.claim(id, winners[1]).unwrap();
    assert_eq!(chain.balance(TOKEN, winners[0]) + chain.balance(TOKEN, winners[1]), 396);
    assert_eq!(chain.balance(TOKEN, CONTRACT), 4);
}

#[test]
fn test_double_entry_fails() {
    let mut chain = setup(None, None);
    let creator = chain.account();
    let greedy_user = chain.account();
    chain.mint(TOKEN, creator, 1000);
    let id = chain.create(creator, TOKEN, 500, "Test", 60, 1, None, None).unwrap();
    chain.enter(greedy_user, id).unwrap();
    assert_eq!(chain.enter(greedy_user, id), Err(Error::AlreadyEntered));
}

#[test]
fn test_enter_late_fails() {
    let mut chain = setup(None, None);
    let creator = chain.account();
    let late_user = chain.account();
    chain.mint(TOKEN, creator, 1000);
    let id = chain.create(creator, TOKEN, 500, "Test", 60, 1, None, None).unwrap();
    chain.advance(100);
    assert_eq!(chain.enter(late_user, id), Err(Error::GiveawayEnded));
}

#[test]
fn test_pick_winner_early_fails() {
    let mut chain = setup(None, None);
    let creator = chain.account();
    let user = chain.account();
    chain.mint(TOKEN, creator, 1000);
    let id = chain.create(creator, TOKEN, 500, "Test", 60, 1, None, None).unwrap();
    chain.enter(user, id).unwrap();
    assert_eq!(chain.pick(id), Err(Error::GiveawayStillActive));
}

// ── Mutual aid ───────────────────────────────────────────────────────────────

#[test]
fn test_donation_flow() {
    let mut chain = setup(None, None);
    let creator = chain.account();
    let donor1 = chain.account();
    let donor2 = chain.account();
    chain.mint(TOKEN, donor1, 1000);
    chain.mint(TOKEN, donor2, 1000);
    let request_id: u64 = 1;
    let goal = 1000;
    let now = chain.now;
    chain.seed_request(open_request(request_id, creator, goal, now));

    assert_eq!(chain.balance(TOKEN, donor1), 1000);
    assert_eq!(chain.balance(TOKEN, CONTRACT), 0);
    chain.donate(donor1, request_id, 300).unwrap();
    assert_eq!(chain.balance(TOKEN, donor1), 700);
    assert_eq!(chain.balance(TOKEN, CONTRACT), 300);
    chain.donate(donor2, request_id, 700).unwrap();
    assert_eq!(chain.balance(TOKEN, donor2), 300);
    assert_eq!(chain.balance(TOKEN, CONTRACT), 1000);

    let request = chain.request(request_id);
    assert_eq!(request.raised_amount, goal);
    assert_eq!(request.status, HelpRequestStatus::FullyFunded);
}

#[test]
fn test_donation_reaches_goal() {
    let mut chain = setup(None, None);
    let creator = chain.account();
    let donor = chain.account();
    chain.mint(TOKEN, donor, 2000);
    let now = chain.now;
    chain.seed_request(open_request(2, creator, 500, now));
    chain.donate(donor, 2, 500).unwrap();
    let request = chain.request(2);
    assert_eq!(request.raised_amount, 500);
    assert_eq!(request.status, HelpRequestStatus::FullyFunded);
}

#[test]
fn test_donation_emits_contributor_tracking_event() {
    let mut chain = setup(None, None);
    let creator = chain.account();
    let donor = chain.account();
    chain.mint(TOKEN, donor, 1000);
    let now = chain.now;
    chain.seed_request(open_request(42, creator, 500, now));
    let (_, event) = MutualAidContract::donate(&mut chain.store, donor, 42, 125, now).unwrap();
    assert_eq!(event.request_id, 42);
    assert_eq!(event.donor, donor);
}

#[test]
fn test_donation_to_expired_request_fails() {
    let mut chain = setup(None, None);
    let creator = chain.account();
    let donor = chain.account();
    chain.mint(TOKEN, donor, 1000);
    chain.now = 1000;
    let mut request = open_request(99, creator, 500, 0);
    request.expires_at = Some(100);
    chain.seed_request(request);
    assert_eq!(chain.donate(donor, 99, 100), Err(Error::HelpRequestExpired));
}

#[test]
fn test_donation_to_nonexistent_request_fails() {
    let mut chain = setup(None, None);
    let donor = chain.account();
    chain.mint(TOKEN, donor, 1000);
    assert_eq!(chain.donate(donor, 999, 100), Err(Error::HelpRequestNotFound));
}

#[test]
fn test_donation_to_fully_funded_request_fails() {
    let mut chain = setup(None, None);
    let creator = chain.account();
    let donor = chain.account();
    chain.mint(TOKEN, donor, 1000);
    let now = chain.now;
    let mut request = open_request(3, creator, 500, now);
    request.raised_amount = 500;
    request.status = HelpRequestStatus::FullyFunded;
    chain.seed_request(request);
    assert_eq!(chain.donate(donor, 3, 100), Err(Error::HelpRequestAlreadyFullyFunded));
}

#[test]
fn test_donation_with_invalid_amount_fails() {
    let mut chain = setup(None, None);
    let creator = chain.account();
    let donor = chain.account();
    chain.mint(TOKEN, donor, 1000);
    let now = chain.now;
    chain.seed_request(open_request(4, creator, 500, now));
    assert_eq!(chain.donate(donor, 4, 0), Err(Error::InvalidDonationAmount));
}

#[test]
fn test_claim_prize() {
    let mut chain = setup(None, None);
    let creator = chain.account();
    let winner = chain.account();
    chain.mint(TOKEN, creator, 1000);
    let id = chain.create(creator, TOKEN, 500, "Prize Test", 60, 1, None, None).unwrap();
    chain.enter(winner, id).unwrap();
    chain.advance(100);
    assert_eq!(chain.pick(id).unwrap(), winner);
    assert_eq!(chain.balance(TOKEN, winner), 0);
    assert_eq!(chain.balance(TOKEN, CONTRACT), 500);

    chain.claim(id, winner).unwrap();
    assert_eq!(chain.balance(TOKEN, winner), 495);
    assert_eq!(chain.balance(TOKEN, CONTRACT), 5);
}

#[test]
fn test_init_contract() {
    let mut store = Storage::new();
    GiveawayContract::init(&mut store, 77, 100).unwrap();
    assert_eq!(store.check_admin(), Ok(77));
    assert_eq!(store.fee(), Some(100));
}

#[test]
fn test_claim_prize_wrong_status_fails() {
    let mut chain = setup(None, None);
    let creator = chain.account();
    chain.mint(TOKEN, creator, 1000);
    let id = chain.create(creator, TOKEN, 500, "Prize Test", 60, 1, None, None).unwrap();
    assert_eq!(chain.claim(id, creator).map(|_| ()), Err(Error::InvalidStatus));
}

#[test]
fn test_init_twice_fails() {
    let mut store = Storage::new();
    GiveawayContract::init(&mut store, 77, 100).unwrap();
    assert_eq!(GiveawayContract::init(&mut store, 77, 100), Err(Error::AlreadyInitialized));
}

// ── Administration ───────────────────────────────────────────────────────────

#[test]
fn test_admin_withdraw_success() {
    let admin = 50;
    let safe_address = 51;
    let mut chain = setup(Some(admin), None);
    chain.mint(TOKEN, CONTRACT, 1000);
    assert_eq!(chain.balance(TOKEN, CONTRACT), 1000);
    assert_eq!(chain.balance(TOKEN, safe_address), 0);
    let (payout, event) = AdminContract::admin_withdraw(&chain.store, TOKEN, 500, safe_address).unwrap();
    assert_eq!(event.amount, 500);
    chain.pay(payout);
    assert_eq!(chain.balance(TOKEN, CONTRACT), 500);
    assert_eq!(chain.balance(TOKEN, safe_address), 500);
}

#[test]
fn test_admin_withdraw_fails_non_admin() {
    let chain = setup(None, None);
    assert_eq!(AdminContract::admin_withdraw(&chain.store, TOKEN, 500, 51).map(|_| ()), Err(Error::NotAdmin));
}

#[test]
fn test_admin_withdraw_full_balance() {
    let admin = 50;
    let safe_address = 51;
    let mut chain = setup(Some(admin), None);
    chain.mint(TOKEN, CONTRACT, 5000);
    assert_eq!(chain.balance(TOKEN, CONTRACT), 5000);
    let (payout, _) = AdminContract::admin_withdraw(&chain.store, TOKEN, 5000, safe_address).unwrap();
    chain.pay(payout);
    assert_eq!(chain.balance(TOKEN, CONTRACT), 0);
    assert_eq!(chain.balance(TOKEN, safe_address), 5000);
}

#[test]
fn test_refund_flow() {
    let mut chain = setup(None, None);
    let creator = chain.account();
    let donor = chain.account();
    chain.mint(TOKEN, donor, 1000);
    let now = chain.now;
    chain.seed_request(open_request(10, creator, 1000, now));

    chain.donate(donor, 10, 500).unwrap();
    assert_eq!(chain.balance(TOKEN, donor), 500);
    assert_eq!(chain.balance(TOKEN, CONTRACT), 500);

    MutualAidContract::cancel_request(&mut chain.store, creator, 10, chain.now).unwrap();
    let (payout, refund) = MutualAidContract::claim_refund(&mut chain.store, donor, 10).unwrap();
    assert_eq!(refund.amount, 500);
    chain.pay(payout);

    assert_eq!(chain.balance(TOKEN, donor), 1000);
    assert_eq!(chain.balance(TOKEN, CONTRACT), 0);
    assert_eq!(chain.donation(10, donor), Some(0));
}

#[test]
fn test_add_token_to_whitelist() {
    let mut store = Storage::with_settings(Some(50), None, false, 0).unwrap();
    AdminContract::add_token(&mut store, 7).unwrap();
    assert!(store.is_token_allowed(7));
}

#[test]
fn test_add_token_fails_non_admin() {
    let mut store = Storage::new();
    assert_eq!(AdminContract::add_token(&mut store, 7).map(|_| ()), Err(Error::NotAdmin));
}

#[test]
fn test_create_giveaway_with_whitelisted_token() {
    let mut chain = setup(Some(50), None);
    let creator = chain.account();
    chain.mint(TOKEN, creator, 1000);
    let id = chain.create(creator, TOKEN, 500, "Whitelisted Token Test", 60, 1, None, None).unwrap();
    assert_eq!(id, 1);
}

#[test]
fn test_create_giveaway_with_non_whitelisted_token_fails() {
    let mut chain = Chain::new();
    let creator = chain.account();
    chain.mint(TOKEN, creator, 1000);
    assert_eq!(
        chain.create(creator, TOKEN, 500, "Non-Whitelisted Token Test", 60, 1, None, None),
        Err(Error::TokenNotSupported)
    );
}

#[test]
fn test_check_admin_helper() {
    let store = Storage::with_settings(Some(50), None, false, 0).unwrap();
    assert_eq!(store.check_admin(), Ok(50));
}

#[test]
fn test_check_admin_fails_when_not_initialized() {
    let store = Storage::new();
    assert_eq!(store.check_admin(), Err(Error::NotAdmin));
}

#[test]
fn test_withdraw_fees() {
    let admin = 50;
    let mut chain = Chain::new();
    GiveawayContract::init(&mut chain.store, admin, 100).unwrap();
    assert!(chain.store.load_token(TOKEN, Some(true), None, None));
    let creator = chain.account();
    let winner = chain.account();
    chain.mint(TOKEN, creator, 1000);
    let id = chain.create(creator, TOKEN, 500, "Fee Test", 60, 1, None, None).unwrap();
    chain.enter(winner, id).unwrap();
    chain.advance(100);
    chain.pick(id).unwrap();
    chain.claim(id, winner).unwrap();

    assert_eq!(chain.balance(TOKEN, CONTRACT), 5);
    assert_eq!(chain.balance(TOKEN, winner), 495);
    assert_eq!(chain.balance(TOKEN, admin), 0);
    assert_eq!(chain.store.collected_fees(TOKEN), 5);

    let payout = GiveawayContract::withdraw_fees(&mut chain.store, TOKEN).unwrap().unwrap();
    chain.pay(payout);
    assert_eq!(chain.balance(TOKEN, admin), 5);
    assert_eq!(chain.balance(TOKEN, CONTRACT), 0);
    assert_eq!(chain.store.collected_fees(TOKEN), 0);
}

#[test]
fn test_withdraw_fees_fails_non_admin() {
    let mut store = Storage::new();
    assert_eq!(GiveawayContract::withdraw_fees(&mut store, TOKEN), Err(Error::NotAdmin));
}

#[test]
fn test_toggle_request_verification() {
    let admin = 50;
    let mut chain = setup(Some(admin), None);
    let creator = chain.account();
    let now = chain.now;
    chain.seed_request(open_request(42, creator, 1000, now));
    let changed = AdminContract::toggle_request_verification(&mut chain.store, 42).unwrap();
    assert!(changed.is_verified);
    assert!(chain.request(42).is_verified);
    AdminContract::toggle_request_verification(&mut chain.store, 42).unwrap();
    assert!(!chain.request(42).is_verified);
}

#[test]
fn test_toggle_request_verification_fails_non_admin() {
    let mut store = Storage::new();
    assert_eq!(AdminContract::toggle_request_verification(&mut store, 1).map(|_| ()), Err(Error::NotAdmin));
}

#[test]
fn test_donate_event_emits_exact_amount_and_total() {
    let mut chain = setup(None, None);
    let creator = chain.account();
    let donor1 = chain.account();
    let donor2 = chain.account();
    chain.mint(TOKEN, donor1, 250);
    chain.mint(TOKEN, donor2, 350);
    let now = chain.now;
    chain.seed_request(open_request(55, creator, 1000, now));
    chain.donate(donor1, 55, 250).unwrap();
    let (deposit, event) = MutualAidContract::donate(&mut chain.store, donor2, 55, 350, now).unwrap();
    chain.deposit(deposit);
    assert_eq!(event.donor, donor2);
    assert_eq!(event.amount_donated, 350);
    assert_eq!(event.new_total_raised, 600);
}

/// A giveaway record as the original tests seed storage directly.
fn seeded_giveaway(id: u64, creator: AccountId, status: GiveawayStatus, end_time: u64) -> GiveawayRecord {
    GiveawayRecord {
        giveaway: Giveaway {
            id,
            creator,
            token: TOKEN,
            amount: 500,
            title: "Seeded".to_string(),
            participant_count: 0,
            end_time,
            status,
            winner_count: 1,
            winners: vec![],
            verification_type: 0,
            min_reputation: 0,
            selection_method: SelectionMethod::Random,
            claim_deadline: 0,
            claimed_count: 0,
            fee_bps: None,
        },
        participants: vec![],
        allowlist: vec![],
        claimed: vec![],
    }
}

#[test]
fn test_enter_suspended_giveaway_fails() {
    let store = Storage::with_settings(None, None, false, 1).unwrap();
    let mut chain = Chain::with_store(store);
    let creator = chain.account();
    let participant = chain.account();
    let end = chain.now + 3600;
    assert!(chain.store.load_giveaway(seeded_giveaway(1, creator, GiveawayStatus::Suspended, end)));
    assert_eq!(chain.enter(participant, 1), Err(Error::InvalidStatus));
}

#[test]
fn test_donate_to_suspended_request_fails() {
    let mut chain = setup(None, None);
    let creator = chain.account();
    let donor = chain.account();
    chain.mint(TOKEN, donor, 1000);
    let now = chain.now;
    let mut request = open_request(5, creator, 1000, now);
    request.status = HelpRequestStatus::Suspended;
    chain.seed_request(request);
    assert_eq!(chain.donate(donor, 5, 100), Err(Error::InvalidStatus));
}

#[test]
fn test_reputation_increments_after_claim_prize() {
    let mut chain = setup(None, None);
    let creator = chain.account();
    let participant = chain.account();
    chain.mint(TOKEN, creator, 1000);
    let id = chain.create(creator, TOKEN, 500, "Rep Test", 60, 1, None, None).unwrap();
    chain.enter(participant, id).unwrap();
    chain.advance(100);
    chain.pick(id).unwrap();
    let claim = chain.claim(id, participant).unwrap();
    assert_eq!(claim.credit_creator, Some(creator));
}

#[test]
fn test_reputation_accumulates_across_giveaways() {
    let mut chain = setup(None, None);
    let creator = chain.account();
    let participant = chain.account();
    chain.mint(TOKEN, creator, 2000);
    let mut credits = 0;
    for _ in 0..2u32 {
        let id = chain.create(creator, TOKEN, 500, "Rep Test", 60, 1, None, None).unwrap();
        chain.enter(participant, id).unwrap();
        chain.advance(100);
        chain.pick(id).unwrap();
        if chain.claim(id, participant).unwrap().credit_creator == Some(creator) {
            credits += 1;
        }
    }
    assert_eq!(credits, 2);
}

#[test]
fn test_manual_winner_selection() {
    let mut chain = setup(None, None);
    let creator = chain.account();
    let p1 = chain.account();
    let p2 = chain.account();
    let p3 = chain.account();
    chain.mint(TOKEN, creator, 1000);
    let id = chain.create_with(creator, TOKEN, 500, "Manual Test", 60, 2, None, SelectionMethod::Manual, None).unwrap();
    chain.enter(p1, id).unwrap();
    chain.enter(p2, id).unwrap();
    chain.enter(p3, id).unwrap();
    chain.advance(100);
    let (winner, _) = GiveawayContract::finalize_manual_winners(&mut chain.store, creator, id, vec![p2, p3], chain.now).unwrap();
    assert!(winner == p2 || winner == p3);
    let stored = chain.giveaway(id).winners.clone();
    assert_eq!(stored.len(), 2);
    assert!(stored.contains(&p2));
    assert!(stored.contains(&p3));
}

#[test]
fn test_manual_winner_selection_fails_non_creator() {
    let mut chain = setup(None, None);
    let creator = chain.account();
    let participant = chain.account();
    let random_user = chain.account();
    chain.mint(TOKEN, creator, 1000);
    let id = chain.create_with(creator, TOKEN, 500, "Manual Test", 60, 1, None, SelectionMethod::Manual, None).unwrap();
    chain.enter(participant, id).unwrap();
    chain.advance(100);
    let r = GiveawayContract::finalize_manual_winners(&mut chain.store, random_user, id, vec![participant], chain.now);
    assert_eq!(r.map(|_| ()), Err(Error::NotCreator));
}

#[test]
fn test_merit_winner_selection() {
    let mut chain = setup(None, None);
    let creator = chain.account();
    let p1 = chain.account();
    let p2 = chain.account();
    let p3 = chain.account();
    chain.mint(TOKEN, creator, 1000);
    let id = chain.create_with(creator, TOKEN, 500, "Merit Test", 60, 2, None, SelectionMethod::Merit, None).unwrap();
    chain.enter(p1, id).unwrap();
    chain.enter(p2, id).unwrap();
    chain.enter(p3, id).unwrap();
    chain.advance(100);
    let (winner, _) = GiveawayContract::finalize_merit_winners(&mut chain.store, creator, id, vec![10, 50, 30], chain.now).unwrap();
    assert_eq!(winner, p2);
    let stored = chain.giveaway(id).winners.clone();
    assert_eq!(stored.len(), 2);
    assert_eq!(stored[0], p2);
    assert_eq!(stored[1], p3);
}

#[test]
fn test_pick_winner_fails_on_manual_giveaway() {
    let mut chain = setup(None, None);
    let creator = chain.account();
    let participant = chain.account();
    chain.mint(TOKEN, creator, 1000);
    let id = chain.create_with(creator, TOKEN, 500, "Test", 60, 1, None, SelectionMethod::Manual, None).unwrap();
    chain.enter(participant, id).unwrap();
    chain.advance(100);
    assert_eq!(chain.pick(id), Err(Error::InvalidStatus));
}

#[test]
fn test_admin_can_finalize_manual_winners() {
    let admin = 50;
    let mut chain = Chain::new();
    GiveawayContract::init(&mut chain.store, admin, 100).unwrap();
    assert!(chain.store.load_token(TOKEN, Some(true), None, None));
    let creator = chain.account();
    let participant = chain.account();
    chain.mint(TOKEN, creator, 1000);
    let id = chain.create_with(creator, TOKEN, 500, "Admin Test", 60, 1, None, SelectionMethod::Manual, None).unwrap();
    chain.enter(participant, id).unwrap();
    chain.advance(100);
    GiveawayContract::finalize_manual_winners(&mut chain.store, admin, id, vec![participant], chain.now).unwrap();
}

#[test]
fn test_create_giveaway_defaults_to_random_selection() {
    let mut chain = setup(None, None);
    let creator = chain.account();
    chain.mint(TOKEN, creator, 1000);
    let id = chain.create(creator, TOKEN, 500, "Default Random", 60, 1, None, None).unwrap();
    assert_eq!(chain.giveaway(id).selection_method, SelectionMethod::Random);
}

// ── First-come selection ─────────────────────────────────────────────────────

#[test]
fn test_first_come_marks_winners_on_entry() {
    let mut chain = setup(None, None);
    let creator = chain.account();
    let first = chain.account();
    let second = chain.account();
    let third = chain.account();
    chain.mint(TOKEN, creator, 1000);
    let id = chain.create_with(creator, TOKEN, 500, "First Come Mark", 60, 2, None, SelectionMethod::FirstCome, None).unwrap();
    chain.enter(first, id).unwrap();
    chain.enter(second, id).unwrap();
    chain.enter(third, id).unwrap();
    let g = chain.giveaway(id);
    assert_eq!(g.status, GiveawayStatus::Active);
    assert_eq!(g.winners.len(), 2);
    assert_eq!(g.winners[0], first);
    assert_eq!(g.winners[1], second);
    assert_eq!(g.participant_count, 3);
}

#[test]
fn test_first_come_winner_selection() {
    let mut chain = setup(None, None);
    let creator = chain.account();
    let first = chain.account();
    let second = chain.account();
    let third = chain.account();
    chain.mint(TOKEN, creator, 1000);
    let id = chain.create_with(creator, TOKEN, 500, "First Come Finalize", 60, 2, None, SelectionMethod::FirstCome, None).unwrap();
    chain.enter(first, id).unwrap();
    chain.enter(second, id).unwrap();
    chain.enter(third, id).unwrap();
    chain.advance(100);
    let (winner, _) = GiveawayContract::finalize_first_come_winners(&mut chain.store, id, chain.now).unwrap();
    assert_eq!(winner, first);
    let g = chain.giveaway(id);
    assert_eq!(g.status, GiveawayStatus::Claimable);
    assert_eq!(g.winners.len(), 2);
    assert_eq!(g.winners[0], first);
    assert_eq!(g.winners[1], second);
    assert!(g.claim_deadline > 0);
}

#[test]
fn test_first_come_finalize_emits_winner_events() {
    let mut chain = setup(None, None);
    let creator = chain.account();
    let first = chain.account();
    let second = chain.account();
    chain.mint(TOKEN, creator, 1000);
    let id = chain.create_with(creator, TOKEN, 400, "First Come Events", 60, 2, None, SelectionMethod::FirstCome, None).unwrap();
    chain.enter(first, id).unwrap();
    chain.enter(second, id).unwrap();
    chain.advance(100);
    let (_, events) = GiveawayContract::finalize_first_come_winners(&mut chain.store, id, chain.now).unwrap();
    assert!(events.iter().any(|e| e.winner == first));
    assert!(events.iter().any(|e| e.winner == second));
}

#[test]
fn test_pick_winner_fails_on_first_come_giveaway() {
    let mut chain = setup(None, None);
    let creator = chain.account();
    let participant = chain.account();
    chain.mint(TOKEN, creator, 1000);
    let id = chain.create_with(creator, TOKEN, 500, "First Come Wrong Path", 60, 1, None, SelectionMethod::FirstCome, None).unwrap();
    chain.enter(participant, id).unwrap();
    chain.advance(100);
    assert_eq!(chain.pick(id), Err(Error::InvalidStatus));
}

#[test]
fn test_first_come_finalize_fails_on_random_giveaway() {
    let mut chain = setup(None, None);
    let creator = chain.account();
    let participant = chain.account();
    chain.mint(TOKEN, creator, 1000);
    let id = chain.create(creator, TOKEN, 500, "Random Not First Come", 60, 1, None, None).unwrap();
    chain.enter(participant, id).unwrap();
    chain.advance(100);
    let r = GiveawayContract::finalize_first_come_winners(&mut chain.store, id, chain.now);
    assert_eq!(r.map(|_| ()), Err(Error::InvalidStatus));
}

#[test]
fn test_first_come_finalize_before_end_fails() {
    let mut chain = setup(None, None);
    let creator = chain.account();
    let participant = chain.account();
    chain.mint(TOKEN, creator, 1000);
    let id = chain.create_with(creator, TOKEN, 500, "First Come Early", 60, 1, None, SelectionMethod::FirstCome, None).unwrap();
    chain.enter(participant, id).unwrap();
    let r = GiveawayContract::finalize_first_come_winners(&mut chain.store, id, chain.now);
    assert_eq!(r.map(|_| ()), Err(Error::GiveawayStillActive));
}

#[test]
fn test_first_come_winners_can_claim_prize() {
    let mut chain = Chain::new();
    let creator = chain.account();
    let winner = chain.account();
    let late = chain.account();
    chain.mint(TOKEN, creator, 1000);
    GiveawayContract::init(&mut chain.store, creator, 100).unwrap();
    assert!(chain.store.load_token(TOKEN, Some(true), None, None));
    let id = chain.create_with(creator, TOKEN, 500, "First Come Claim", 60, 1, None, SelectionMethod::FirstCome, None).unwrap();
    chain.enter(winner, id).unwrap();
    chain.enter(late, id).unwrap();
    chain.advance(100);
    GiveawayContract::finalize_first_come_winners(&mut chain.store, id, chain.now).unwrap();
    chain.claim(id, winner).unwrap();
    assert_eq!(chain.balance(TOKEN, winner), 495);
    assert_eq!(chain.balance(TOKEN, late), 0);
}

// ── Token allowlist ──────────────────────────────────────────────────────────

#[test]
fn test_remove_token_revokes_whitelist() {
    let mut store = Storage::with_settings(Some(50), None, false, 0).unwrap();
    AdminContract::add_token(&mut store, 7).unwrap();
    AdminContract::remove_token(&mut store, 7).unwrap();
    assert!(!store.is_token_allowed(7));
}

#[test]
fn test_remove_token_fails_non_admin() {
    let mut store = Storage::new();
    assert_eq!(AdminContract::remove_token(&mut store, 7).map(|_| ()), Err(Error::NotAdmin));
}

#[test]
fn test_create_giveaway_succeeds_before_and_fails_after_delist() {
    let mut chain = setup(None, None);
    let creator = chain.account();
    chain.mint(TOKEN, creator, 2000);
    let id = chain.create(creator, TOKEN, 500, "Before Delist", 60, 1, None, None).unwrap();
    assert_eq!(id, 1);
    assert!(chain.store.load_token(TOKEN, Some(false), None, None));
    assert!(chain.create(creator, TOKEN, 500, "After Delist", 60, 1, None, None).is_err());
}

#[test]
fn test_existing_giveaway_continues_after_token_delist() {
    let mut chain = setup(None, None);
    let creator = chain.account();
    let participant = chain.account();
    chain.mint(TOKEN, creator, 1000);
    let id = chain.create(creator, TOKEN, 500, "Funded Before Delist", 60, 1, None, None).unwrap();
    assert!(chain.store.load_token(TOKEN, Some(false), None, None));
    chain.enter(participant, id).unwrap();
    chain.advance(100);
    assert_eq!(chain.pick(id).unwrap(), participant);
}

// ── Claim window and recovery ────────────────────────────────────────────────

/// One creator, one funded giveaway of `amount` with `winner_count` winners,
/// the given entrants, and the entry period over.
fn picked_giveaway(chain: &mut Chain, creator: AccountId, amount: i128, title: &str, winner_count: u32, entrants: &[AccountId]) -> u64 {
    let id = chain.create(creator, TOKEN, amount, title, 60, winner_count, None, None).unwrap();
    for e in entrants {
        chain.enter(*e, id).unwrap();
    }
    chain.advance(100);
    chain.pick(id).unwrap();
    id
}

#[test]
fn test_claim_prize_after_expiry_fails() {
    let mut chain = setup(None, None);
    let creator = chain.account();
    let winner = chain.account();
    chain.mint(TOKEN, creator, 1000);
    let id = picked_giveaway(&mut chain, creator, 500, "Expiry Test", 1, &[winner]);
    chain.advance(7 * 24 * 60 * 60 + 1);
    assert_eq!(chain.claim(id, winner).map(|_| ()), Err(Error::ClaimWindowExpired));
}

#[test]
fn test_claim_prize_twice_fails() {
    let mut chain = setup(None, None);
    let creator = chain.account();
    let winner = chain.account();
    chain.mint(TOKEN, creator, 1000);
    let id = picked_giveaway(&mut chain, creator, 500, "Double Claim Test", 1, &[winner]);
    chain.claim(id, winner).unwrap();
    assert!(chain.claim(id, winner).is_err());
}

#[test]
fn test_claim_prize_by_non_winner_fails() {
    let mut chain = setup(None, None);
    let creator = chain.account();
    let p1 = chain.account();
    let p2 = chain.account();
    chain.mint(TOKEN, creator, 1000);
    let id = chain.create(creator, TOKEN, 500, "Non Winner Test", 60, 1, None, None).unwrap();
    chain.enter(p1, id).unwrap();
    chain.enter(p2, id).unwrap();
    chain.advance(100);
    let winner = chain.pick(id).unwrap();
    let non_winner = if winner == p1 { p2 } else { p1 };
    assert_eq!(chain.claim(id, non_winner).map(|_| ()), Err(Error::NotWinner));
}

#[test]
fn test_recover_before_expiry_fails() {
    let mut chain = setup(None, None);
    let creator = chain.account();
    let winner = chain.account();
    chain.mint(TOKEN, creator, 1000);
    let id = picked_giveaway(&mut chain, creator, 500, "Early Recovery Test", 1, &[winner]);
    assert_eq!(chain.recover(id, creator), Err(Error::ClaimWindowNotExpired));
}

#[test]
fn test_recover_after_expiry_succeeds() {
    let mut chain = setup(None, None);
    let creator = chain.account();
    let winner = chain.account();
    chain.mint(TOKEN, creator, 1000);
    let id = picked_giveaway(&mut chain, creator, 500, "Recovery Test", 1, &[winner]);
    assert_eq!(chain.balance(TOKEN, creator), 500);
    chain.advance(7 * 24 * 60 * 60 + 1);
    chain.recover(id, creator).unwrap();
    assert_eq!(chain.balance(TOKEN, creator), 1000);
    assert_eq!(chain.balance(TOKEN, CONTRACT), 0);
    assert_eq!(chain.balance(TOKEN, winner), 0);
    assert_eq!(chain.giveaway(id).status, GiveawayStatus::Completed);
}

#[test]
fn test_recover_by_unauthorized_caller_fails() {
    let mut chain = setup(None, None);
    let creator = chain.account();
    let winner = chain.account();
    let stranger = chain.account();
    chain.mint(TOKEN, creator, 1000);
    let id = picked_giveaway(&mut chain, creator, 500, "Unauthorized Recovery Test", 1, &[winner]);
    chain.advance(7 * 24 * 60 * 60 + 1);
    assert_eq!(chain.recover(id, stranger), Err(Error::NotCreator));
}

#[test]
fn test_partial_claim_recovery() {
    let mut chain = setup(None, None);
    let creator = chain.account();
    let p1 = chain.account();
    let p2 = chain.account();
    let p3 = chain.account();
    chain.mint(TOKEN, creator, 1000);
    let id = picked_giveaway(&mut chain, creator, 400, "Partial Claim Recovery Test", 2, &[p1, p2, p3]);
    let winners = chain.giveaway(id).winners.clone();
    let claimer = winners[0];
    let ghost = winners[1];
    chain.claim(id, claimer).unwrap();
    let claimer_balance = chain.balance(TOKEN, claimer);
    assert!(claimer_balance > 0);
    chain.advance(7 * 24 * 60 * 60 + 1);
    chain.recover(id, creator).unwrap();
    assert_eq!(chain.balance(TOKEN, claimer), claimer_balance);
    assert_eq!(chain.balance(TOKEN, ghost), 0);
    assert_eq!(chain.balance(TOKEN, CONTRACT), 2);
    assert_eq!(chain.giveaway(id).status, GiveawayStatus::Completed);
}

// ── Creator withdrawal of help request funds ─────────────────────────────────

/// Posts request 1 with a goal of 1000 and funds it fully; returns the creator.
fn setup_funded_request(chain: &mut Chain) -> (AccountId, u64) {
    let creator = chain.account();
    let donor = chain.account();
    chain.mint(TOKEN, donor, 1000);
    let posted = MutualAidContract::post_help_request(&mut chain.store, creator, 1, 1000, TOKEN, chain.now).unwrap();
    chain.donate(donor, posted.request_id, 1000).unwrap();
    (creator, posted.request_id)
}

/// Overwrites the stored help request's raised amount and status, keeping its
/// donations and claim record.
fn force_request_state(chain: &mut Chain, request_id: u64, creator: AccountId, raised_amount: i128, status: HelpRequestStatus) {
    let now = chain.now;
    let (donations, funds_claimed) = match chain.store.request_record(request_id) {
        Some(rec) => (rec.donations.clone(), rec.funds_claimed),
        None => (HashMap::new(), false),
    };
    let mut request = open_request(request_id, creator, 1000, now);
    request.raised_amount = raised_amount;
    request.status = status;
    assert!(chain.store.load_request(HelpRequestRecord { request, donations, funds_claimed }));
}

fn claim_funds(chain: &mut Chain, creator: AccountId, request_id: u64) -> Result<i128, Error> {
    let (payout, event) = MutualAidContract::claim_help_request_funds(&mut chain.store, creator, request_id)?;
    chain.pay(payout);
    Ok(event.amount)
}

#[test]
fn test_creator_claims_fully_funded_request() {
    let mut chain = setup(None, None);
    let (creator, id) = setup_funded_request(&mut chain);
    assert_eq!(chain.balance(TOKEN, CONTRACT), 1000);
    assert_eq!(chain.balance(TOKEN, creator), 0);
    claim_funds(&mut chain, creator, id).unwrap();
    assert_eq!(chain.balance(TOKEN, creator), 1000);
    assert_eq!(chain.balance(TOKEN, CONTRACT), 0);
    let request = chain.request(id);
    assert_eq!(request.status, HelpRequestStatus::Closed);
    assert_eq!(request.raised_amount, 1000);
    assert!(chain.store.request_record(id).unwrap().funds_claimed);
}

#[test]
fn test_claim_emits_funds_claimed_event() {
    let mut chain = setup(None, None);
    let (creator, id) = setup_funded_request(&mut chain);
    let (_, event) = MutualAidContract::claim_help_request_funds(&mut chain.store, creator, id).unwrap();
    assert_eq!(event.request_id, id);
    assert_eq!(event.creator, creator);
    assert_eq!(event.amount, 1000);
}

#[test]
fn test_creator_cannot_claim_twice() {
    let mut chain = setup(None, None);
    let (creator, id) = setup_funded_request(&mut chain);
    claim_funds(&mut chain, creator, id).unwrap();
    assert_eq!(claim_funds(&mut chain, creator, id), Err(Error::InvalidStatus));
    assert_eq!(chain.balance(TOKEN, creator), 1000);
    assert_eq!(chain.balance(TOKEN, CONTRACT), 0);
}

#[test]
fn test_claim_record_blocks_second_payout() {
    let mut chain = setup(None, None);
    let (creator, id) = setup_funded_request(&mut chain);
    claim_funds(&mut chain, creator, id).unwrap();
    force_request_state(&mut chain, id, creator, 1000, HelpRequestStatus::FullyFunded);
    assert_eq!(claim_funds(&mut chain, creator, id), Err(Error::AlreadyClaimed));
    assert_eq!(chain.balance(TOKEN, creator), 1000);
    assert_eq!(chain.balance(TOKEN, CONTRACT), 0);
}

#[test]
fn test_non_creator_cannot_claim_request_funds() {
    let mut chain = setup(None, None);
    let (creator, id) = setup_funded_request(&mut chain);
    let stranger = chain.account();
    assert_eq!(claim_funds(&mut chain, stranger, id), Err(Error::NotCreator));
    assert_eq!(chain.balance(TOKEN, stranger), 0);
    assert_eq!(chain.balance(TOKEN, creator), 0);
    assert_eq!(chain.balance(TOKEN, CONTRACT), 1000);
}

#[test]
fn test_claim_before_fully_funded_fails() {
    let mut chain = setup(None, None);
    let creator = chain.account();
    let donor = chain.account();
    chain.mint(TOKEN, donor, 1000);
    let posted = MutualAidContract::post_help_request(&mut chain.store, creator, 1, 1000, TOKEN, chain.now).unwrap();
    chain.donate(donor, posted.request_id, 400).unwrap();
    assert_eq!(claim_funds(&mut chain, creator, posted.request_id), Err(Error::InvalidStatus));
    assert_eq!(chain.balance(TOKEN, creator), 0);
    assert_eq!(chain.balance(TOKEN, CONTRACT), 400);
}

#[test]
fn test_claim_cancelled_request_fails() {
    let mut chain = setup(None, None);
    let creator = chain.account();
    force_request_state(&mut chain, 7, creator, 500, HelpRequestStatus::Cancelled);
    assert_eq!(claim_funds(&mut chain, creator, 7), Err(Error::InvalidStatus));
}

#[test]
fn test_claim_missing_request_fails() {
    let mut chain = setup(None, None);
    let creator = chain.account();
    assert_eq!(claim_funds(&mut chain, creator, 404), Err(Error::HelpRequestNotFound));
}

#[test]
fn test_claim_after_dispute_resolved_release() {
    let mut chain = setup(None, None);
    let (creator, id) = setup_funded_request(&mut chain);
    force_request_state(&mut chain, id, creator, 1000, HelpRequestStatus::ResolvedRelease);
    claim_funds(&mut chain, creator, id).unwrap();
    assert_eq!(chain.balance(TOKEN, creator), 1000);
    assert_eq!(chain.balance(TOKEN, CONTRACT), 0);
    assert_eq!(chain.request(id).status, HelpRequestStatus::Closed);
}

#[test]
fn test_donate_to_closed_request_fails() {
    let mut chain = setup(None, None);
    let (creator, id) = setup_funded_request(&mut chain);
    claim_funds(&mut chain, creator, id).unwrap();
    let late_donor = chain.account();
    chain.mint(TOKEN, late_donor, 100);
    assert_eq!(chain.donate(late_donor, id, 100), Err(Error::InvalidStatus));
    assert_eq!(chain.balance(TOKEN, late_donor), 100);
    assert_eq!(chain.balance(TOKEN, CONTRACT), 0);
}

#[test]
fn test_no_refund_path_after_creator_claim() {
    let mut chain = setup(None, None);
    let (creator, id) = setup_funded_request(&mut chain);
    claim_funds(&mut chain, creator, id).unwrap();
    assert_eq!(MutualAidContract::cancel_request(&mut chain.store, creator, id, chain.now).map(|_| ()), Err(Error::InvalidStatus));
    assert_eq!(chain.balance(TOKEN, creator), 1000);
    assert_eq!(chain.balance(TOKEN, CONTRACT), 0);
}

// ── Claim lifecycle edge cases ───────────────────────────────────────────────

/// A contract with a contract-wide fee of `fee_bps`, `TOKEN` allowed and a
/// creator holding 10 000 tokens.
fn setup_giveaway_env(fee_bps: u32) -> (Chain, AccountId) {
    let mut chain = setup(None, Some(fee_bps));
    let creator = chain.account();
    chain.mint(TOKEN, creator, 10_000);
    (chain, creator)
}

fn entrants(chain: &mut Chain, id: u64, n: usize) -> Vec<AccountId> {
    let mut v = Vec::new();
    for _ in 0..n {
        let p = chain.account();
        chain.enter(p, id).unwrap();
        v.push(p);
    }
    v
}

#[test]
fn test_pick_winner_twice_fails() {
    let (mut chain, creator) = setup_giveaway_env(100);
    let id = chain.create(creator, TOKEN, 500, "Double Pick", 60, 1, None, None).unwrap();
    entrants(&mut chain, id, 1);
    chain.advance(100);
    chain.pick(id).unwrap();
    assert_eq!(chain.pick(id), Err(Error::InvalidStatus));
}

#[test]
fn test_claim_prize_emits_event() {
    let (mut chain, creator) = setup_giveaway_env(100);
    let id = chain.create(creator, TOKEN, 500, "Event Test", 60, 1, None, None).unwrap();
    let winner = entrants(&mut chain, id, 1)[0];
    chain.advance(100);
    chain.pick(id).unwrap();
    let claim = chain.claim(id, winner).unwrap();
    assert_eq!(claim.event.winner, winner);
    assert_eq!(claim.event.giveaway_id, id);
    assert_eq!(claim.event.net_amount, 495);
}

#[test]
fn test_claim_prize_zero_fee_pays_full_amount() {
    let (mut chain, creator) = setup_giveaway_env(0);
    let id = chain.create(creator, TOKEN, 500, "Zero Fee", 60, 1, None, None).unwrap();
    let winner = entrants(&mut chain, id, 1)[0];
    chain.advance(100);
    chain.pick(id).unwrap();
    chain.claim(id, winner).unwrap();
    assert_eq!(chain.balance(TOKEN, winner), 500);
}

#[test]
fn test_claim_prize_full_fee_pays_zero_net() {
    let (mut chain, creator) = setup_giveaway_env(10_000);
    let id = chain.create(creator, TOKEN, 500, "Full Fee", 60, 1, None, None).unwrap();
    let winner = entrants(&mut chain, id, 1)[0];
    chain.advance(100);
    chain.pick(id).unwrap();
    chain.claim(id, winner).unwrap();
    assert_eq!(chain.balance(TOKEN, winner), 0);
    assert_eq!(chain.balance(TOKEN, CONTRACT), 500);
}

#[test]
fn test_recover_on_completed_giveaway_fails() {
    let (mut chain, creator) = setup_giveaway_env(100);
    let id = chain.create(creator, TOKEN, 500, "Already Done", 60, 1, None, None).unwrap();
    let winner = entrants(&mut chain, id, 1)[0];
    chain.advance(100);
    chain.pick(id).unwrap();
    chain.claim(id, winner).unwrap();
    chain.advance(7 * 24 * 60 * 60 + 1);
    assert_eq!(chain.recover(id, creator), Err(Error::InvalidStatus));
}

#[test]
fn test_recover_after_all_claimed_is_noop() {
    let (mut chain, creator) = setup_giveaway_env(100);
    let id = chain.create(creator, TOKEN, 600, "All Claimed", 60, 2, None, None).unwrap();
    entrants(&mut chain, id, 3);
    chain.advance(100);
    chain.pick(id).unwrap();
    let winners = chain.giveaway(id).winners.clone();
    chain.claim(id, winners[0]).unwrap();
    chain.claim(id, winners[1]).unwrap();
    chain.advance(7 * 24 * 60 * 60 + 1);
    assert_eq!(chain.recover(id, creator), Err(Error::InvalidStatus));
}

#[test]
fn test_recover_by_admin_after_expiry_succeeds() {
    let admin = 55;
    let store = Storage::with_settings(Some(admin), Some(100), false, 0).unwrap();
    let mut chain = Chain::with_store(store);
    assert!(chain.store.load_token(TOKEN, Some(true), None, None));
    let creator = chain.account();
    chain.mint(TOKEN, creator, 10_000);
    let id = chain.create(creator, TOKEN, 500, "Admin Recovery", 60, 1, None, None).unwrap();
    let winner = entrants(&mut chain, id, 1)[0];
    chain.advance(100);
    chain.pick(id).unwrap();
    chain.advance(7 * 24 * 60 * 60 + 1);
    chain.recover(id, admin).unwrap();
    assert_eq!(chain.balance(TOKEN, creator), 10_000);
    assert_eq!(chain.balance(TOKEN, winner), 0);
    assert_eq!(chain.giveaway(id).status, GiveawayStatus::Completed);
}

#[test]
fn test_claim_at_deadline_boundary() {
    let (mut chain, creator) = setup_giveaway_env(0);
    let id = chain.create(creator, TOKEN, 200, "Boundary", 60, 1, None, None).unwrap();
    let winner = entrants(&mut chain, id, 1)[0];
    chain.advance(100);
    chain.pick(id).unwrap();
    chain.advance(7 * 24 * 60 * 60);
    chain.claim(id, winner).unwrap();
    assert_eq!(chain.balance(TOKEN, winner), 200);
}

#[test]
fn test_claim_one_second_past_deadline_fails() {
    let (mut chain, creator) = setup_giveaway_env(0);
    let id = chain.create(creator, TOKEN, 200, "One Second Over", 60, 1, None, None).unwrap();
    let winner = entrants(&mut chain, id, 1)[0];
    chain.advance(100);
    chain.pick(id).unwrap();
    chain.advance(7 * 24 * 60 * 60 + 1);
    assert_eq!(chain.claim(id, winner).map(|_| ()), Err(Error::ClaimWindowExpired));
}

#[test]
fn test_status_stays_claimable_after_first_of_two_claims() {
    let (mut chain, creator) = setup_giveaway_env(100);
    let id = chain.create(creator, TOKEN, 400, "Two Winners", 60, 2, None, None).unwrap();
    entrants(&mut chain, id, 3);
    chain.advance(100);
    chain.pick(id).unwrap();
    let winners = chain.giveaway(id).winners.clone();
    chain.claim(id, winners[0]).unwrap();
    assert_eq!(chain.giveaway(id).status, GiveawayStatus::Claimable);
    assert_eq!(chain.giveaway(id).claimed_count, 1);
    chain.claim(id, winners[1]).unwrap();
    assert_eq!(chain.giveaway(id).status, GiveawayStatus::Completed);
    assert_eq!(chain.giveaway(id).claimed_count, 2);
}

#[test]
fn test_winner_gross_share_remainder_distribution() {
    let (mut chain, creator) = setup_giveaway_env(0);
    let amount: i128 = 10;
    let id = chain.create(creator, TOKEN, amount, "Remainder Test", 60, 3, None, None).unwrap();
    entrants(&mut chain, id, 3);
    chain.advance(100);
    chain.pick(id).unwrap();
    let winners = chain.giveaway(id).winners.clone();
    for w in &winners {
        chain.claim(id, *w).unwrap();
    }
    let b0 = chain.balance(TOKEN, winners[0]);
    let b1 = chain.balance(TOKEN, winners[1]);
    let b2 = chain.balance(TOKEN, winners[2]);
    assert_eq!(b0, 4, "index-0 winner should receive the remainder share");
    assert_eq!(b1, 3, "index-1 winner should receive the base share");
    assert_eq!(b2, 3, "index-2 winner should receive the base share");
    assert_eq!(b0 + b1 + b2, amount, "shares must sum to total amount");
}

#[test]
fn test_pick_winner_insufficient_participants_fails() {
    let (mut chain, creator) = setup_giveaway_env(100);
    let id = chain.create(creator, TOKEN, 300, "Too Few", 60, 3, None, None).unwrap();
    entrants(&mut chain, id, 2);
    chain.advance(100);
    assert_eq!(chain.pick(id), Err(Error::InsufficientParticipants));
}

#[test]
fn test_pick_winner_zero_participants_fails() {
    let (mut chain, creator) = setup_giveaway_env(100);
    let id = chain.create(creator, TOKEN, 100, "Empty", 60, 1, None, None).unwrap();
    chain.advance(100);
    assert_eq!(chain.pick(id), Err(Error::NoParticipants));
}

#[test]
fn test_multi_winner_equal_split() {
    let (mut chain, creator) = setup_giveaway_env(0);
    let id = chain.create(creator, TOKEN, 400, "Equal Split", 60, 4, None, None).unwrap();
    entrants(&mut chain, id, 4);
    chain.advance(100);
    chain.pick(id).unwrap();
    let winners = chain.giveaway(id).winners.clone();
    for w in &winners {
        chain.claim(id, *w).unwrap();
        assert_eq!(chain.balance(TOKEN, *w), 100, "each winner should receive 100 tokens");
    }
}

#[test]
fn test_create_giveaway_zero_winner_count_fails() {
    let (mut chain, creator) = setup_giveaway_env(100);
    assert_eq!(chain.create(creator, TOKEN, 500, "Bad WC", 60, 0, None, None), Err(Error::InvalidWinnerCount));
}

#[test]
fn test_create_giveaway_zero_amount_accepted() {
    let (mut chain, creator) = setup_giveaway_env(100);
    let id = chain.create(creator, TOKEN, 0, "Zero Prize", 60, 1, None, None).unwrap();
    assert_eq!(chain.giveaway(id).amount, 0);
    assert_eq!(chain.giveaway(id).status, GiveawayStatus::Active);
}

#[test]
fn test_recover_unclaimed_returns_full_gross_share_no_fee() {
    let (mut chain, creator) = setup_giveaway_env(500);
    let amount: i128 = 200;
    let id = chain.create(creator, TOKEN, amount, "Fee-Recovery", 60, 1, None, None).unwrap();
    entrants(&mut chain, id, 1);
    chain.advance(100);
    chain.pick(id).unwrap();
    let before = chain.balance(TOKEN, creator);
    chain.advance(7 * 24 * 60 * 60 + 1);
    chain.recover(id, creator).unwrap();
    assert_eq!(chain.balance(TOKEN, creator) - before, amount, "recovery must return the full gross share without fee deduction");
    assert_eq!(chain.store.collected_fees(TOKEN), 0, "no fees should be collected on recovery");
}

#[test]
fn test_reputation_not_incremented_on_recovery() {
    let (mut chain, creator) = setup_giveaway_env(100);
    let id = chain.create(creator, TOKEN, 300, "Rep Check", 60, 1, None, None).unwrap();
    entrants(&mut chain, id, 1);
    chain.advance(100);
    chain.pick(id).unwrap();
    chain.advance(7 * 24 * 60 * 60 + 1);
    // Recovery reports only a payout to the creator: no reputation credit.
    let payout = chain.recover(id, creator).unwrap();
    assert_eq!(payout.to, creator);
    assert_eq!(payout.amount, 300);
}

#[test]
fn test_manual_winners_non_participant_fails() {
    let (mut chain, creator) = setup_giveaway_env(100);
    let id = chain.create_with(creator, TOKEN, 500, "Manual NP", 60, 1, None, SelectionMethod::Manual, None).unwrap();
    entrants(&mut chain, id, 1);
    let outsider = chain.account();
    chain.advance(100);
    let r = GiveawayContract::finalize_manual_winners(&mut chain.store, creator, id, vec![outsider], chain.now);
    assert_eq!(r.map(|_| ()), Err(Error::InvalidIndex));
}

#[test]
fn test_manual_winners_duplicate_fails() {
    let (mut chain, creator) = setup_giveaway_env(100);
    let id = chain.create_with(creator, TOKEN, 500, "Manual Dup", 60, 2, None, SelectionMethod::Manual, None).unwrap();
    let ps = entrants(&mut chain, id, 2);
    chain.advance(100);
    let r = GiveawayContract::finalize_manual_winners(&mut chain.store, creator, id, vec![ps[0], ps[0]], chain.now);
    assert_eq!(r.map(|_| ()), Err(Error::InvalidIndex));
}

#[test]
fn test_finalize_merit_winners_on_random_giveaway_fails() {
    let (mut chain, creator) = setup_giveaway_env(100);
    let id = chain.create(creator, TOKEN, 500, "Wrong Method", 60, 1, None, None).unwrap();
    entrants(&mut chain, id, 1);
    chain.advance(100);
    let r = GiveawayContract::finalize_merit_winners(&mut chain.store, creator, id, vec![0], chain.now);
    assert_eq!(r.map(|_| ()), Err(Error::InvalidStatus));
}

#[test]
fn test_pick_winner_emits_winner_selected_event() {
    let (mut chain, creator) = setup_giveaway_env(100);
    let amount: i128 = 500;
    let id = chain.create(creator, TOKEN, amount, "Winner Event", 60, 1, None, None).unwrap();
    let winner = entrants(&mut chain, id, 1)[0];
    chain.advance(100);
    let (_, events) = chain.pick_events(id).unwrap();
    assert!(events.iter().any(|e| e.winner == winner && e.giveaway_id == id && e.prize_amount == amount),
        "GiveawayWinnerSelected event not found or fields do not match");
}

#[test]
fn test_partial_claim_creator_receives_exact_unclaimed_gross_shares() {
    let (mut chain, creator) = setup_giveaway_env(100);
    let id = chain.create(creator, TOKEN, 300, "Partial 3-winner", 60, 3, None, None).unwrap();
    entrants(&mut chain, id, 3);
    chain.advance(100);
    chain.pick(id).unwrap();
    let winners = chain.giveaway(id).winners.clone();
    chain.claim(id, winners[0]).unwrap();
    assert_eq!(chain.balance(TOKEN, winners[0]), 99);
    let before = chain.balance(TOKEN, creator);
    chain.advance(7 * 24 * 60 * 60 + 1);
    chain.recover(id, creator).unwrap();
    assert_eq!(chain.balance(TOKEN, creator) - before, 200);
    assert_eq!(chain.balance(TOKEN, CONTRACT), 1);
    assert_eq!(chain.balance(TOKEN, winners[1]), 0);
    assert_eq!(chain.balance(TOKEN, winners[2]), 0);
    assert_eq!(chain.giveaway(id).status, GiveawayStatus::Completed);
}

// ── Fees ─────────────────────────────────────────────────────────────────────

#[test]
fn test_admin_can_set_global_fee_after_init() {
    let mut store = Storage::with_settings(Some(50), Some(100), false, 0).unwrap();
    AdminContract::set_fee(&mut store, 250).unwrap();
    assert_eq!(store.fee(), Some(250));
}

#[test]
fn test_admin_can_set_token_fee() {
    let mut store = Storage::with_settings(Some(50), None, false, 0).unwrap();
    AdminContract::set_token_fee(&mut store, 7, 50).unwrap();
    assert_eq!(store.token_fee(7), Some(50));
}

#[test]
fn test_set_fee_rejects_above_max() {
    let mut store = Storage::with_settings(Some(50), None, false, 0).unwrap();
    assert_eq!(AdminContract::set_fee(&mut store, MAX_FEE_BPS + 1), Err(Error::InvalidFee));
}

#[test]
fn test_create_giveaway_rejects_fee_above_max() {
    let mut chain = setup(None, None);
    let creator = chain.account();
    chain.mint(TOKEN, creator, 1000);
    assert_eq!(
        chain.create(creator, TOKEN, 500, "Too High Fee", 60, 1, None, Some(MAX_FEE_BPS + 1)),
        Err(Error::InvalidFee)
    );
}

/// Contract-wide fee `global`, fee `token_fee` for `TOKEN`; returns the chain,
/// the creator and the giveaway's winner after a claim of a 500-token prize.
fn claim_with_fees(global: Option<u32>, token_fee: Option<u32>, override_fee: Option<u32>, title: &str) -> (Chain, AccountId) {
    let mut chain = setup(None, global);
    assert!(chain.store.load_token(TOKEN, Some(true), token_fee, None));
    let creator = chain.account();
    let winner = chain.account();
    chain.mint(TOKEN, creator, 1000);
    let id = chain.create(creator, TOKEN, 500, title, 60, 1, None, override_fee).unwrap();
    chain.enter(winner, id).unwrap();
    chain.advance(100);
    chain.pick(id).unwrap();
    chain.claim(id, winner).unwrap();
    (chain, winner)
}

#[test]
fn test_fee_precedence_giveaway_override_wins() {
    let (chain, winner) = claim_with_fees(Some(500), Some(200), Some(0), "Override Wins");
    assert_eq!(chain.balance(TOKEN, winner), 500);
    assert_eq!(chain.balance(TOKEN, CONTRACT), 0);
}

#[test]
fn test_fee_precedence_token_over_global() {
    let (chain, winner) = claim_with_fees(Some(500), Some(200), None, "Token Fee");
    assert_eq!(chain.balance(TOKEN, winner), 490);
    assert_eq!(chain.balance(TOKEN, CONTRACT), 10);
}

#[test]
fn test_fee_precedence_global_over_default() {
    let (chain, winner) = claim_with_fees(Some(200), None, None, "Global Fee");
    assert_eq!(chain.balance(TOKEN, winner), 490);
    assert_eq!(chain.balance(TOKEN, CONTRACT), 10);
}

#[test]
fn test_zero_bps_giveaway_pays_full_prize() {
    let (chain, winner) = claim_with_fees(Some(100), None, Some(0), "Charity Zero Fee");
    assert_eq!(chain.balance(TOKEN, winner), 500);
    assert_eq!(chain.balance(TOKEN, CONTRACT), 0);
}

#[test]
fn test_midflight_fee_change_does_not_alter_collected_fees() {
    let store = Storage::with_settings(Some(50), Some(100), false, 0).unwrap();
    let mut chain = Chain::with_store(store);
    assert!(chain.store.load_token(TOKEN, Some(true), None, None));
    let creator = chain.account();
    let winner = chain.account();
    chain.mint(TOKEN, creator, 1000);
    let id = chain.create(creator, TOKEN, 500, "Collected Fees Stable", 60, 1, None, None).unwrap();
    chain.enter(winner, id).unwrap();
    chain.advance(100);
    chain.pick(id).unwrap();
    chain.claim(id, winner).unwrap();
    let collected_before = chain.store.collected_fees(TOKEN);
    assert_eq!(collected_before, 5);
    AdminContract::set_fee(&mut chain.store, 500).unwrap();
    assert_eq!(chain.store.collected_fees(TOKEN), collected_before);
}

// ── Admin hand-over ──────────────────────────────────────────────────────────

#[test]
fn test_transfer_admin_success() {
    let mut store = Storage::with_settings(Some(50), None, false, 0).unwrap();
    let event = AdminContract::transfer_admin(&mut store, 50, 60).unwrap();
    assert_eq!(event.previous_admin, 50);
    assert_eq!(event.new_admin, 60);
    assert_eq!(store.check_admin(), Ok(60));
}

#[test]
fn test_transfer_admin_fails_when_not_initialized() {
    let mut store = Storage::new();
    assert_eq!(AdminContract::transfer_admin(&mut store, 50, 60).map(|_| ()), Err(Error::NotAdmin));
}

#[test]
fn test_transfer_admin_fails_wrong_current_admin() {
    let mut store = Storage::with_settings(Some(50), None, false, 0).unwrap();
    assert_eq!(AdminContract::transfer_admin(&mut store, 51, 60).map(|_| ()), Err(Error::NotAdmin));
    assert_eq!(store.check_admin(), Ok(50));
}

#[test]
fn test_new_admin_can_perform_gated_actions_after_transfer() {
    let mut store = Storage::with_settings(Some(50), None, false, 0).unwrap();
    AdminContract::transfer_admin(&mut store, 50, 60).unwrap();
    AdminContract::add_token(&mut store, 7).unwrap();
    assert_eq!(store.check_admin(), Ok(60));
    assert!(store.is_token_allowed(7));
}

// ── Appeals ──────────────────────────────────────────────────────────────────

fn appeal_store(admin: Option<AccountId>) -> Chain {
    let store = Storage::with_settings(admin, None, false, 100).unwrap();
    Chain::with_store(store)
}

#[test]
fn test_resolve_appeal_restore_true_sets_giveaway_active() {
    let mut chain = appeal_store(Some(50));
    let creator = chain.account();
    let end = chain.now + 3600;
    assert!(chain.store.load_giveaway(seeded_giveaway(30, creator, GiveawayStatus::UnderAppeal, end)));
    AdminContract::resolve_appeal(&mut chain.store, 30, true).unwrap();
    assert_eq!(chain.giveaway(30).status, GiveawayStatus::Active);
}

#[test]
fn test_resolve_appeal_restore_false_keeps_giveaway_suspended() {
    let mut chain = appeal_store(Some(50));
    let creator = chain.account();
    let end = chain.now + 3600;
    assert!(chain.store.load_giveaway(seeded_giveaway(40, creator, GiveawayStatus::UnderAppeal, end)));
    let decision = AdminContract::resolve_appeal(&mut chain.store, 40, false).unwrap().unwrap();
    assert_eq!(decision.restore_reputation_of, None);
    assert_eq!(chain.giveaway(40).status, GiveawayStatus::Suspended);
}

#[test]
fn test_resolve_appeal_restore_true_sets_help_request_open() {
    let mut chain = appeal_store(Some(50));
    let creator = chain.account();
    let now = chain.now;
    let mut request = open_request(50, creator, 1000, now);
    request.status = HelpRequestStatus::UnderAppeal;
    chain.seed_request(request);
    AdminContract::resolve_appeal(&mut chain.store, 50, true).unwrap();
    assert_eq!(chain.request(50).status, HelpRequestStatus::Open);
}

#[test]
fn test_resolve_appeal_by_non_admin_panics() {
    let mut chain = appeal_store(None);
    assert_eq!(AdminContract::resolve_appeal(&mut chain.store, 1, true).map(|_| ()), Err(Error::NotAdmin));
}

#[test]
fn test_resolve_appeal_emits_appeal_resolved_event() {
    let mut chain = appeal_store(Some(50));
    let creator = chain.account();
    let end = chain.now + 3600;
    assert!(chain.store.load_giveaway(seeded_giveaway(80, creator, GiveawayStatus::UnderAppeal, end)));
    let decision = AdminContract::resolve_appeal(&mut chain.store, 80, true).unwrap().unwrap();
    assert_eq!(decision.event.target_id, 80);
    assert!(decision.event.restored);
}

#[test]
fn test_successful_appeal_restores_slashed_reputation() {
    let mut chain = appeal_store(Some(50));
    let creator = chain.account();
    let end = chain.now + 3600;
    assert!(chain.store.load_giveaway(seeded_giveaway(79, creator, GiveawayStatus::UnderAppeal, end)));
    let decision = AdminContract::resolve_appeal(&mut chain.store, 79, true).unwrap().unwrap();
    assert_eq!(decision.restore_reputation_of, Some(creator));
}
