//! Administration: token allowlist, fees, pausing, admin hand-over,
//! emergency withdrawals and appeal decisions.

use vstd::prelude::*;
use crate::events::{
    AdminTransferred, AppealResolved, ContractPaused, ContractUnpaused, EmergencyWithdraw, Payout,
    RequestVerificationChanged, TokenAdded, TokenRemoved,
};
use crate::giveaway::with_status;
use crate::mutual_aid::request_with_status;
use crate::store::{fee_ok, giveaway_record_wf, HelpRequestRecordView, Storage, StorageView, MAX_FEE_BPS};
use crate::types::{AccountId, Error, GiveawayStatus, HelpRequest, HelpRequestStatus};

verus! {

broadcast use vstd::std_specs::hash::group_hash_axioms;

/// The admin operations of the contract. Each of them is refused with
/// `NotAdmin` when the contract has no admin; the host demands the admin's
/// authorization for each.
pub struct AdminContract;

/// An appeal decision: the announcement and, when content was restored, the
/// author whose reputation is to be credited back.
#[derive(Clone, Copy, Debug, PartialEq, Eq, Structural)]
pub struct AppealDecision {
    pub event: AppealResolved,
    pub restore_reputation_of: Option<AccountId>,
}

/// What resolving the appeal on `target_id` does to the state and reports:
/// a giveaway under appeal is decided first, else a help request under
/// appeal; anything else is left alone and nothing is reported.
pub open spec fn appeal_outcome(s: StorageView, target_id: u64, restore: bool) -> (StorageView, Option<
    AppealDecision,
>) {
    let event = AppealResolved { target_id, restored: restore };
    if s.giveaways.contains_key(target_id) && s.giveaways[target_id].giveaway.status
        == GiveawayStatus::UnderAppeal {
        let r = s.giveaways[target_id];
        (
            s.with_giveaway(
                target_id,
                with_status(
                    r,
                    if restore {
                        GiveawayStatus::Active
                    } else {
                        GiveawayStatus::Suspended
                    },
                ),
            ),
            Some(
                AppealDecision {
                    event,
                    restore_reputation_of: if restore {
                        Some(r.giveaway.creator)
                    } else {
                        None
                    },
                },
            ),
        )
    } else if s.requests.contains_key(target_id) && s.requests[target_id].request.status
        == HelpRequestStatus::UnderAppeal {
        let r = s.requests[target_id];
        (
            s.with_request(
                target_id,
                request_with_status(
                    r,
                    if restore {
                        HelpRequestStatus::Open
                    } else {
                        HelpRequestStatus::Suspended
                    },
                ),
            ),
            Some(
                AppealDecision {
                    event,
                    restore_reputation_of: if restore {
                        Some(r.request.creator)
                    } else {
                        None
                    },
                },
            ),
        )
    } else {
        (s, None)
    }
}

impl AdminContract {
    /// Sends `amount` of `token` from the contract's balance to `to` (the
    /// returned payout), for rescues and migrations.
    pub fn admin_withdraw(store: &Storage, token: AccountId, amount: i128, to: AccountId) -> (r:
        Result<(Payout, EmergencyWithdraw), Error>)
        ensures
            match store@.admin {
                None => r == Err::<(Payout, EmergencyWithdraw), Error>(Error::NotAdmin),
                Some(_) => r == Ok::<(Payout, EmergencyWithdraw), Error>(
                    (Payout { token, to, amount }, EmergencyWithdraw { token, amount, to }),
                ),
            },
    {
        store.check_admin()?;
        Ok((Payout { token, to, amount }, EmergencyWithdraw { token, amount, to }))
    }

    /// Allows `token` to back new giveaways.
    pub fn add_token(store: &mut Storage, token: AccountId) -> (r: Result<TokenAdded, Error>)
        requires
            old(store)@.wf(),
        ensures
            final(store)@.wf(),
            match old(store)@.admin {
                None => r == Err::<TokenAdded, Error>(Error::NotAdmin) && final(store)@ == old(store)@,
                Some(_) => r == Ok::<TokenAdded, Error>(TokenAdded { token }) && final(store)@ == (
                StorageView { allowed_tokens: old(store)@.allowed_tokens.insert(token, true), ..old(store)@ }),
            },
    {
        if store.admin.is_none() {
            return Err(Error::NotAdmin);
        }
        store.allowed_tokens.insert(token, true);
        Ok(TokenAdded { token })
    }

    /// Stops `token` from backing new giveaways; giveaways and help requests
    /// already funded in it carry on unchanged.
    pub fn remove_token(store: &mut Storage, token: AccountId) -> (r: Result<TokenRemoved, Error>)
        requires
            old(store)@.wf(),
        ensures
            final(store)@.wf(),
            match old(store)@.admin {
                None => r == Err::<TokenRemoved, Error>(Error::NotAdmin) && final(store)@ == old(store)@,
                Some(_) => r == Ok::<TokenRemoved, Error>(TokenRemoved { token }) && final(store)@ == (
                StorageView { allowed_tokens: old(store)@.allowed_tokens.insert(token, false), ..old(store)@ }),
            },
    {
        if store.admin.is_none() {
            return Err(Error::NotAdmin);
        }
        store.allowed_tokens.insert(token, false);
        Ok(TokenRemoved { token })
    }

    /// Flips the verified mark of help request `request_id`.
    pub fn toggle_request_verification(store: &mut Storage, request_id: u64) -> (r: Result<
        RequestVerificationChanged,
        Error,
    >)
        requires
            old(store)@.wf(),
        ensures
            final(store)@.wf(),
            old(store)@.admin is None ==> r == Err::<RequestVerificationChanged, Error>(
                Error::NotAdmin,
            ) && final(store)@ == old(store)@,
            old(store)@.admin is Some && !old(store)@.requests.contains_key(request_id) ==> r
                == Err::<RequestVerificationChanged, Error>(Error::HelpRequestNotFound) && final(store)@ == old(store)@,
            old(store)@.admin is Some && old(store)@.requests.contains_key(request_id) ==> {
                let rec = old(store)@.requests[request_id];
                let flipped = !rec.request.is_verified;
                &&& r == Ok::<RequestVerificationChanged, Error>(
                    RequestVerificationChanged { request_id, is_verified: flipped },
                )
                &&& final(store)@ == old(store)@.with_request(
                    request_id,
                    (HelpRequestRecordView {
                        request: HelpRequest { is_verified: flipped, ..rec.request },
                        ..rec
                    }),
                )
            },
    {
        if store.admin.is_none() {
            return Err(Error::NotAdmin);
        }
        if store.request_record(request_id).is_none() {
            return Err(Error::HelpRequestNotFound);
        }
        let ghost before = old(store)@;
        let mut rec = store.take_request(request_id);
        rec.request.is_verified = !rec.request.is_verified;
        let is_verified = rec.request.is_verified;
        let ghost expected = HelpRequestRecordView {
            request: HelpRequest { is_verified, ..before.requests[request_id].request },
            ..before.requests[request_id]
        };
        assert(rec@ =~= expected);
        store.put_request(request_id, rec);
        assert(store@ =~= before.with_request(request_id, expected));
        Ok(RequestVerificationChanged { request_id, is_verified })
    }

    /// Decides the appeal on suspended content `target_id`: restored content
    /// becomes active (giveaway) or open (help request) again and its
    /// author's reputation is to be credited back; otherwise it stays
    /// suspended.
    pub fn resolve_appeal(store: &mut Storage, target_id: u64, restore: bool) -> (r: Result<
        Option<AppealDecision>,
        Error,
    >)
        requires
            old(store)@.wf(),
        ensures
            final(store)@.wf(),
            match old(store)@.admin {
                None => r == Err::<Option<AppealDecision>, Error>(Error::NotAdmin) && final(store)@
                    == old(store)@,
                Some(_) => r == Ok::<Option<AppealDecision>, Error>(
                    appeal_outcome(old(store)@, target_id, restore).1,
                ) && final(store)@ == appeal_outcome(old(store)@, target_id, restore).0,
            },
    {
        if store.admin.is_none() {
            return Err(Error::NotAdmin);
        }
        let ghost before = old(store)@;
        let event = AppealResolved { target_id, restored: restore };
        let under_appeal = match store.giveaway_record(target_id) {
            Some(rec) => rec.giveaway.status == GiveawayStatus::UnderAppeal,
            None => false,
        };
        if under_appeal {
            let mut rec = store.take_giveaway(target_id);
            let status = if restore {
                GiveawayStatus::Active
            } else {
                GiveawayStatus::Suspended
            };
            rec.giveaway.status = status;
            let creator = rec.giveaway.creator;
            proof {
                assert(rec@ =~= with_status(before.giveaways[target_id], status));
                assert(giveaway_record_wf(target_id, before.giveaways[target_id]));
            }
            store.put_giveaway(target_id, rec);
            assert(store@ =~= appeal_outcome(before, target_id, restore).0);
            return Ok(
                Some(
                    AppealDecision {
                        event,
                        restore_reputation_of: if restore {
                            Some(creator)
                        } else {
                            None
                        },
                    },
                ),
            );
        }
        let request_under_appeal = match store.request_record(target_id) {
            Some(rec) => rec.request.status == HelpRequestStatus::UnderAppeal,
            None => false,
        };
        if request_under_appeal {
            let mut rec = store.take_request(target_id);
            let status = if restore {
                HelpRequestStatus::Open
            } else {
                HelpRequestStatus::Suspended
            };
            rec.request.status = status;
            let creator = rec.request.creator;
            assert(rec@ =~= request_with_status(before.requests[target_id], status));
            store.put_request(target_id, rec);
            assert(store@ =~= appeal_outcome(before, target_id, restore).0);
            return Ok(
                Some(
                    AppealDecision {
                        event,
                        restore_reputation_of: if restore {
                            Some(creator)
                        } else {
                            None
                        },
                    },
                ),
            );
        }
        Ok(None)
    }

    /// Hands the admin role from `current_admin`, which must be the stored
    /// admin, to `new_admin`.
    pub fn transfer_admin(store: &mut Storage, current_admin: AccountId, new_admin: AccountId) -> (r:
        Result<AdminTransferred, Error>)
        requires
            old(store)@.wf(),
        ensures
            final(store)@.wf(),
            old(store)@.admin != Some(current_admin) ==> r == Err::<AdminTransferred, Error>(
                Error::NotAdmin,
            ) && final(store)@ == old(store)@,
            old(store)@.admin == Some(current_admin) ==> r == Ok::<AdminTransferred, Error>(
                AdminTransferred { previous_admin: current_admin, new_admin },
            ) && final(store)@ == (StorageView { admin: Some(new_admin), ..old(store)@ }),
    {
        let admin = store.check_admin()?;
        if admin != current_admin {
            return Err(Error::NotAdmin);
        }
        store.admin = Some(new_admin);
        Ok(AdminTransferred { previous_admin: current_admin, new_admin })
    }

    /// Sets the contract-wide fee; already collected fees are unchanged.
    pub fn set_fee(store: &mut Storage, fee_bps: u32) -> (r: Result<(), Error>)
        requires
            old(store)@.wf(),
        ensures
            final(store)@.wf(),
            old(store)@.admin is None ==> r == Err::<(), Error>(Error::NotAdmin) && final(store)@
                == old(store)@,
            old(store)@.admin is Some && !fee_ok(fee_bps) ==> r == Err::<(), Error>(
                Error::InvalidFee,
            ) && final(store)@ == old(store)@,
            old(store)@.admin is Some && fee_ok(fee_bps) ==> r is Ok && final(store)@ == (
            StorageView { fee: Some(fee_bps), ..old(store)@ }),
    {
        if store.admin.is_none() {
            return Err(Error::NotAdmin);
        }
        if fee_bps > MAX_FEE_BPS {
            return Err(Error::InvalidFee);
        }
        store.fee = Some(fee_bps);
        Ok(())
    }

    /// Sets the fee for `token`, which takes precedence over the contract-wide fee.
    pub fn set_token_fee(store: &mut Storage, token: AccountId, fee_bps: u32) -> (r: Result<(), Error>)
        requires
            old(store)@.wf(),
        ensures
            final(store)@.wf(),
            old(store)@.admin is None ==> r == Err::<(), Error>(Error::NotAdmin) && final(store)@
                == old(store)@,
            old(store)@.admin is Some && !fee_ok(fee_bps) ==> r == Err::<(), Error>(
                Error::InvalidFee,
            ) && final(store)@ == old(store)@,
            old(store)@.admin is Some && fee_ok(fee_bps) ==> r is Ok && final(store)@ == (
            StorageView { token_fees: old(store)@.token_fees.insert(token, fee_bps), ..old(store)@ }),
    {
        if store.admin.is_none() {
            return Err(Error::NotAdmin);
        }
        if fee_bps > MAX_FEE_BPS {
            return Err(Error::InvalidFee);
        }
        store.token_fees.insert(token, fee_bps);
        Ok(())
    }

    /// Blocks every value-moving operation until `unpause`.
    pub fn pause(store: &mut Storage) -> (r: Result<ContractPaused, Error>)
        requires
            old(store)@.wf(),
        ensures
            final(store)@.wf(),
            match old(store)@.admin {
                None => r == Err::<ContractPaused, Error>(Error::NotAdmin) && final(store)@ == old(store)@,
                Some(admin) => r == Ok::<ContractPaused, Error>(ContractPaused { admin }) && final(store)@ == (StorageView { paused: true, ..old(store)@ }),
            },
    {
        let admin = store.check_admin()?;
        store.paused = true;
        Ok(ContractPaused { admin })
    }

    /// Lifts a pause.
    pub fn unpause(store: &mut Storage) -> (r: Result<ContractUnpaused, Error>)
        requires
            old(store)@.wf(),
        ensures
            final(store)@.wf(),
            match old(store)@.admin {
                None => r == Err::<ContractUnpaused, Error>(Error::NotAdmin) && final(store)@ == old(store)@,
                Some(admin) => r == Ok::<ContractUnpaused, Error>(ContractUnpaused { admin }) && final(store)@ == (StorageView { paused: false, ..old(store)@ }),
            },
    {
        let admin = store.check_admin()?;
        store.paused = false;
        Ok(ContractUnpaused { admin })
    }
}

} // verus!
