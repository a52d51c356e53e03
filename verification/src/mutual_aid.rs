//! Help requests: donations escrowed toward a goal, paid out to the creator
//! once funded, or refunded to donors when the request is cancelled.

use vstd::prelude::*;
use std::collections::HashMap;
use crate::events::{
    Deposit, DonationReceived, HelpRequestFundsClaimed, HelpRequestPosted, Payout, RefundClaimed,
    RequestCancelled,
};
use crate::store::{HelpRequestRecord, HelpRequestRecordView, Storage, StorageView};
use crate::types::{AccountId, Error, HelpRequest, HelpRequestStatus};

verus! {

broadcast use vstd::std_specs::hash::group_hash_axioms;

/// Seconds a help request accepts donations after it is posted (30 days).
pub const HELP_REQUEST_EXPIRY_SECONDS: u64 = 30 * 24 * 60 * 60;

/// The mutual-aid operations of the contract.
pub struct MutualAidContract;

/// What `donor` has given to help request `r` and not been refunded.
pub open spec fn donation_of(r: HelpRequestRecordView, donor: AccountId) -> i128 {
    if r.donations.contains_key(donor) {
        r.donations[donor]
    } else {
        0
    }
}

/// Whether help request `req` has expired at `now`.
pub open spec fn expired(req: HelpRequest, now: u64) -> bool {
    req.expires_at matches Some(e) && now > e
}

/// Why help request `request_id` cannot be posted, if it cannot.
pub open spec fn post_error(s: StorageView, request_id: u64, goal: i128) -> Option<Error> {
    if goal <= 0 {
        Some(Error::InvalidGoalAmount)
    } else if s.requests.contains_key(request_id) {
        Some(Error::HelpRequestAlreadyExists)
    } else {
        None
    }
}

/// A freshly posted help request.
pub open spec fn new_request(
    request_id: u64,
    creator: AccountId,
    goal: i128,
    token: AccountId,
    now: u64,
) -> HelpRequestRecordView {
    HelpRequestRecordView {
        request: HelpRequest {
            id: request_id,
            creator,
            token,
            goal,
            raised_amount: 0,
            status: HelpRequestStatus::Open,
            is_verified: false,
            created_at: now,
            expires_at: Some((now + HELP_REQUEST_EXPIRY_SECONDS) as u64),
        },
        donations: Map::empty(),
        funds_claimed: false,
    }
}

/// Why `donor` cannot give `amount` to help request `request_id` at `now`, if it cannot.
pub open spec fn donate_error(
    s: StorageView,
    donor: AccountId,
    request_id: u64,
    amount: i128,
    now: u64,
) -> Option<Error> {
    if s.paused {
        Some(Error::ContractPaused)
    } else if amount <= 0 {
        Some(Error::InvalidDonationAmount)
    } else if !s.requests.contains_key(request_id) {
        Some(Error::HelpRequestNotFound)
    } else {
        let r = s.requests[request_id];
        let st = r.request.status;
        if st == HelpRequestStatus::FullyFunded {
            Some(Error::HelpRequestAlreadyFullyFunded)
        } else if st == HelpRequestStatus::Cancelled || st == HelpRequestStatus::Suspended || st
            == HelpRequestStatus::Closed {
            Some(Error::InvalidStatus)
        } else if expired(r.request, now) {
            Some(Error::HelpRequestExpired)
        } else if donation_of(r, donor) + amount > i128::MAX {
            Some(Error::ArithmeticOverflow)
        } else if r.request.raised_amount + amount > i128::MAX {
            Some(Error::ArithmeticOverflow)
        } else {
            None
        }
    }
}

/// Help request `r` after `donor` gave `amount`: the donor's total and the
/// amount raised grow by `amount`, and the request is fully funded once the
/// raised amount reaches the goal.
pub open spec fn after_donation(r: HelpRequestRecordView, donor: AccountId, amount: i128) -> HelpRequestRecordView {
    let raised = (r.request.raised_amount + amount) as i128;
    HelpRequestRecordView {
        request: HelpRequest {
            raised_amount: raised,
            status: if raised >= r.request.goal {
                HelpRequestStatus::FullyFunded
            } else {
                r.request.status
            },
            ..r.request
        },
        donations: r.donations.insert(donor, (donation_of(r, donor) + amount) as i128),
        ..r
    }
}

/// Why `donor` cannot be refunded from help request `request_id`, if it cannot.
pub open spec fn refund_error(s: StorageView, donor: AccountId, request_id: u64) -> Option<Error> {
    if s.paused {
        Some(Error::ContractPaused)
    } else if !s.requests.contains_key(request_id) {
        Some(Error::HelpRequestNotFound)
    } else {
        let r = s.requests[request_id];
        if r.request.status != HelpRequestStatus::Cancelled {
            Some(Error::InvalidStatus)
        } else if donation_of(r, donor) <= 0 {
            Some(Error::InvalidDonationAmount)
        } else {
            None
        }
    }
}

/// Why `creator` cannot withdraw the funds of help request `request_id`, if it cannot.
pub open spec fn funds_claim_error(s: StorageView, creator: AccountId, request_id: u64) -> Option<
    Error,
> {
    if s.paused {
        Some(Error::ContractPaused)
    } else if !s.requests.contains_key(request_id) {
        Some(Error::HelpRequestNotFound)
    } else {
        let r = s.requests[request_id];
        if r.request.creator != creator {
            Some(Error::NotCreator)
        } else if r.request.status != HelpRequestStatus::FullyFunded && r.request.status
            != HelpRequestStatus::ResolvedRelease {
            Some(Error::InvalidStatus)
        } else if r.funds_claimed {
            Some(Error::AlreadyClaimed)
        } else if r.request.raised_amount <= 0 {
            Some(Error::InvalidDonationAmount)
        } else {
            None
        }
    }
}

/// Why `creator` cannot cancel help request `request_id` at `now`, if it cannot.
pub open spec fn cancel_request_error(
    s: StorageView,
    creator: AccountId,
    request_id: u64,
    now: u64,
) -> Option<Error> {
    if !s.requests.contains_key(request_id) {
        Some(Error::HelpRequestNotFound)
    } else {
        let r = s.requests[request_id];
        if r.request.creator != creator {
            Some(Error::NotCreator)
        } else if r.request.status != HelpRequestStatus::Open {
            Some(Error::InvalidStatus)
        } else if expired(r.request, now) {
            Some(Error::HelpRequestExpired)
        } else {
            None
        }
    }
}

/// Help request `r` with status `status`.
pub open spec fn request_with_status(r: HelpRequestRecordView, status: HelpRequestStatus) -> HelpRequestRecordView {
    HelpRequestRecordView { request: HelpRequest { status, ..r.request }, ..r }
}

impl MutualAidContract {
    /// The stored help request `request_id`, if any.
    pub fn get_request(store: &Storage, request_id: u64) -> (r: Option<HelpRequest>)
        ensures
            r == (if store@.requests.contains_key(request_id) {
                Some(store@.requests[request_id].request)
            } else {
                None
            }),
    {
        match store.request_record(request_id) {
            Some(rec) => Some(rec.request),
            None => None,
        }
    }

    /// Posts an open help request for `goal` units of `token`, accepting
    /// donations for 30 days from `now`.
    /// Why help request `request_id` with goal `goal` cannot be posted, if it
    /// cannot.
    pub fn posting_refusal(store: &Storage, request_id: u64, goal: i128) -> (e: Option<Error>)
        ensures
            e == post_error(store@, request_id, goal),
    {
        if goal <= 0 {
            return Some(Error::InvalidGoalAmount);
        }
        if store.request_record(request_id).is_some() {
            return Some(Error::HelpRequestAlreadyExists);
        }
        None
    }

    pub fn post_help_request(
        store: &mut Storage,
        creator: AccountId,
        request_id: u64,
        goal: i128,
        token: AccountId,
        now: u64,
    ) -> (r: Result<HelpRequestPosted, Error>)
        requires
            old(store)@.wf(),
            post_error(old(store)@, request_id, goal) is None ==> now + HELP_REQUEST_EXPIRY_SECONDS
                <= u64::MAX,
        ensures
            final(store)@.wf(),
            match post_error(old(store)@, request_id, goal) {
                Some(e) => r == Err::<HelpRequestPosted, Error>(e) && final(store)@ == old(store)@,
                None => r == Ok::<HelpRequestPosted, Error>(HelpRequestPosted { request_id, creator, goal })
                    && final(store)@ == old(store)@.with_request(
                    request_id,
                    new_request(request_id, creator, goal, token, now),
                ),
            },
    {
        if let Some(e) = Self::posting_refusal(store, request_id, goal) {
            return Err(e);
        }
        let request = HelpRequest {
            id: request_id,
            creator,
            token,
            goal,
            raised_amount: 0,
            status: HelpRequestStatus::Open,
            is_verified: false,
            created_at: now,
            expires_at: Some(now + HELP_REQUEST_EXPIRY_SECONDS),
        };
        let rec = HelpRequestRecord { request, donations: HashMap::new(), funds_claimed: false };
        assert(rec@ =~= new_request(request_id, creator, goal, token, now));
        store.put_request(request_id, rec);
        Ok(HelpRequestPosted { request_id, creator, goal })
    }

    /// `donor` gives `amount` to help request `request_id`; the host must
    /// collect the returned deposit.
    pub fn donate(
        store: &mut Storage,
        donor: AccountId,
        request_id: u64,
        amount: i128,
        now: u64,
    ) -> (r: Result<(Deposit, DonationReceived), Error>)
        requires
            old(store)@.wf(),
        ensures
            final(store)@.wf(),
            match donate_error(old(store)@, donor, request_id, amount, now) {
                Some(e) => r == Err::<(Deposit, DonationReceived), Error>(e) && final(store)@ == old(store)@,
                None => {
                    let rec = old(store)@.requests[request_id];
                    &&& r == Ok::<(Deposit, DonationReceived), Error>(
                        (
                            Deposit { token: rec.request.token, from: donor, amount },
                            DonationReceived {
                                request_id,
                                donor,
                                amount_donated: amount,
                                new_total_raised: (rec.request.raised_amount + amount) as i128,
                            },
                        ),
                    )
                    &&& final(store)@ == old(store)@.with_request(
                        request_id,
                        after_donation(rec, donor, amount),
                    )
                },
            },
    {
        if store.paused {
            return Err(Error::ContractPaused);
        }
        if amount <= 0 {
            return Err(Error::InvalidDonationAmount);
        }
        let rec = match store.request_record(request_id) {
            Some(rec) => rec,
            None => {
                return Err(Error::HelpRequestNotFound);
            },
        };
        let request = rec.request;
        if request.status == HelpRequestStatus::FullyFunded {
            return Err(Error::HelpRequestAlreadyFullyFunded);
        }
        if request.status == HelpRequestStatus::Cancelled || request.status
            == HelpRequestStatus::Suspended || request.status == HelpRequestStatus::Closed {
            return Err(Error::InvalidStatus);
        }
        if let Some(expires_at) = request.expires_at {
            if now > expires_at {
                return Err(Error::HelpRequestExpired);
            }
        }
        let previous_donation: i128 = match rec.donations.get(&donor) {
            Some(d) => *d,
            None => 0,
        };
        let new_donation = match previous_donation.checked_add(amount) {
            Some(d) => d,
            None => {
                return Err(Error::ArithmeticOverflow);
            },
        };
        let new_raised = match request.raised_amount.checked_add(amount) {
            Some(v) => v,
            None => {
                return Err(Error::ArithmeticOverflow);
            },
        };
        let ghost before = old(store)@;
        let mut rec = store.take_request(request_id);
        rec.donations.insert(donor, new_donation);
        rec.request.raised_amount = new_raised;
        if new_raised >= rec.request.goal {
            rec.request.status = HelpRequestStatus::FullyFunded;
        }
        let token = rec.request.token;
        assert(rec@ =~= after_donation(before.requests[request_id], donor, amount));
        store.put_request(request_id, rec);
        assert(store@ =~= before.with_request(request_id, rec@));
        Ok(
            (
                Deposit { token, from: donor, amount },
                DonationReceived {
                    request_id,
                    donor,
                    amount_donated: amount,
                    new_total_raised: new_raised,
                },
            ),
        )
    }

    /// A donor to a cancelled help request takes back everything it gave
    /// (the returned payout); its donation record is reset to zero. Refused
    /// while the contract is paused.
    pub fn claim_refund(store: &mut Storage, donor: AccountId, request_id: u64) -> (r: Result<
        (Payout, RefundClaimed),
        Error,
    >)
        requires
            old(store)@.wf(),
        ensures
            final(store)@.wf(),
            match refund_error(old(store)@, donor, request_id) {
                Some(e) => r == Err::<(Payout, RefundClaimed), Error>(e) && final(store)@ == old(store)@,
                None => {
                    let rec = old(store)@.requests[request_id];
                    let amount = donation_of(rec, donor);
                    &&& r == Ok::<(Payout, RefundClaimed), Error>(
                        (
                            Payout { token: rec.request.token, to: donor, amount },
                            RefundClaimed { request_id, donor, amount },
                        ),
                    )
                    &&& final(store)@ == old(store)@.with_request(
                        request_id,
                        HelpRequestRecordView { donations: rec.donations.insert(donor, 0), ..rec },
                    )
                },
            },
    {
        if store.paused {
            return Err(Error::ContractPaused);
        }
        let rec = match store.request_record(request_id) {
            Some(rec) => rec,
            None => {
                return Err(Error::HelpRequestNotFound);
            },
        };
        if rec.request.status != HelpRequestStatus::Cancelled {
            return Err(Error::InvalidStatus);
        }
        let amount: i128 = match rec.donations.get(&donor) {
            Some(d) => *d,
            None => 0,
        };
        if amount <= 0 {
            return Err(Error::InvalidDonationAmount);
        }
        let ghost before = old(store)@;
        let mut rec = store.take_request(request_id);
        rec.donations.insert(donor, 0);
        let token = rec.request.token;
        store.put_request(request_id, rec);
        assert(store@ =~= before.with_request(
            request_id,
            HelpRequestRecordView {
                donations: before.requests[request_id].donations.insert(donor, 0),
                ..before.requests[request_id]
            },
        ));
        Ok((Payout { token, to: donor, amount }, RefundClaimed { request_id, donor, amount }))
    }

    /// The creator of a fully funded (or dispute-released) help request
    /// withdraws everything raised, once; the request is then closed.
    pub fn claim_help_request_funds(store: &mut Storage, creator: AccountId, request_id: u64) -> (r:
        Result<(Payout, HelpRequestFundsClaimed), Error>)
        requires
            old(store)@.wf(),
        ensures
            final(store)@.wf(),
            match funds_claim_error(old(store)@, creator, request_id) {
                Some(e) => r == Err::<(Payout, HelpRequestFundsClaimed), Error>(e) && final(store)@
                    == old(store)@,
                None => {
                    let rec = old(store)@.requests[request_id];
                    let amount = rec.request.raised_amount;
                    &&& r == Ok::<(Payout, HelpRequestFundsClaimed), Error>(
                        (
                            Payout { token: rec.request.token, to: creator, amount },
                            HelpRequestFundsClaimed { request_id, creator, amount },
                        ),
                    )
                    &&& final(store)@ == old(store)@.with_request(
                        request_id,
                        HelpRequestRecordView {
                            funds_claimed: true,
                            ..request_with_status(rec, HelpRequestStatus::Closed)
                        },
                    )
                },
            },
    {
        if store.paused {
            return Err(Error::ContractPaused);
        }
        let rec = match store.request_record(request_id) {
            Some(rec) => rec,
            None => {
                return Err(Error::HelpRequestNotFound);
            },
        };
        if rec.request.creator != creator {
            return Err(Error::NotCreator);
        }
        if rec.request.status != HelpRequestStatus::FullyFunded && rec.request.status
            != HelpRequestStatus::ResolvedRelease {
            return Err(Error::InvalidStatus);
        }
        if rec.funds_claimed {
            return Err(Error::AlreadyClaimed);
        }
        let amount = rec.request.raised_amount;
        if amount <= 0 {
            return Err(Error::InvalidDonationAmount);
        }
        let ghost before = old(store)@;
        let mut rec = store.take_request(request_id);
        rec.funds_claimed = true;
        rec.request.status = HelpRequestStatus::Closed;
        let token = rec.request.token;
        let ghost expected = HelpRequestRecordView {
            funds_claimed: true,
            ..request_with_status(before.requests[request_id], HelpRequestStatus::Closed)
        };
        assert(rec@ =~= expected);
        store.put_request(request_id, rec);
        assert(store@ =~= before.with_request(request_id, expected));
        Ok((Payout { token, to: creator, amount }, HelpRequestFundsClaimed { request_id, creator, amount }))
    }

    /// The creator cancels an open, unexpired help request; donors can then
    /// claim refunds.
    pub fn cancel_request(store: &mut Storage, creator: AccountId, request_id: u64, now: u64) -> (r:
        Result<RequestCancelled, Error>)
        requires
            old(store)@.wf(),
        ensures
            final(store)@.wf(),
            match cancel_request_error(old(store)@, creator, request_id, now) {
                Some(e) => r == Err::<RequestCancelled, Error>(e) && final(store)@ == old(store)@,
                None => r == Ok::<RequestCancelled, Error>(RequestCancelled { request_id, creator })
                    && final(store)@ == old(store)@.with_request(
                    request_id,
                    request_with_status(old(store)@.requests[request_id], HelpRequestStatus::Cancelled),
                ),
            },
    {
        let rec = match store.request_record(request_id) {
            Some(rec) => rec,
            None => {
                return Err(Error::HelpRequestNotFound);
            },
        };
        if rec.request.creator != creator {
            return Err(Error::NotCreator);
        }
        if rec.request.status != HelpRequestStatus::Open {
            return Err(Error::InvalidStatus);
        }
        if let Some(expires_at) = rec.request.expires_at {
            if now > expires_at {
                return Err(Error::HelpRequestExpired);
            }
        }
        let ghost before = old(store)@;
        let mut rec = store.take_request(request_id);
        rec.request.status = HelpRequestStatus::Cancelled;
        let ghost expected = request_with_status(before.requests[request_id], HelpRequestStatus::Cancelled);
        assert(rec@ =~= expected);
        store.put_request(request_id, rec);
        assert(store@ =~= before.with_request(request_id, expected));
        Ok(RequestCancelled { request_id, creator })
    }
}

} // verus!
