//! Properties that relate several operations of the contracts.

use vstd::prelude::*;
use crate::admin::appeal_outcome;
use crate::giveaway::{
    after_claim, after_entry, finalized, first_come_error, manual_error, merit_error,
    new_giveaway, CLAIM_WINDOW_SECONDS, cancel_error, claim_error, create_error, enter_error, pick_error,
    recover_error, recoverable_amount, with_status, withdraw_error, claim_result, selection_outcome,
    share_of, winner_events, winner_index,
};
use crate::events::GiveawayWinnerSelected;
use crate::mutual_aid::{
    cancel_request_error, donate_error, donation_of, funds_claim_error, refund_error,
    request_with_status,
};
use crate::shares::{
    claimed_total, gross_share, lemma_fee_split_conserves, lemma_gross_share_bounds,
    lemma_recovery_complements_claims, lemma_shares_sum_to_amount, shares_total,
};
use crate::store::{giveaway_record_wf, HelpRequestRecordView, StorageView};
use crate::types::{
    AccountId, Error, GiveawayStatus, HelpRequestStatus, ParticipantVerification, SelectionMethod,
};

verus! {

/// Escrow is conserved: for a claimable giveaway, the gross shares of the
/// winners who claimed plus what its creator can recover add up to exactly
/// the prize.
pub proof fn lemma_escrow_conservation(s: StorageView, id: u64)
    requires
        s.wf(),
        s.giveaways.contains_key(id),
        s.giveaways[id].giveaway.status == GiveawayStatus::Claimable,
    ensures
        ({
            let r = s.giveaways[id];
            claimed_total(
                r.giveaway.amount as int,
                r.giveaway.winner_count as int,
                r.giveaway.winners,
                r.claimed,
                r.giveaway.winners.len(),
            ) + recoverable_amount(r) == r.giveaway.amount
        }),
{
    let r = s.giveaways[id];
    assert(giveaway_record_wf(id, r));
    lemma_recovery_complements_claims(
        r.giveaway.amount as int,
        r.giveaway.winner_count as int,
        r.giveaway.winners,
        r.claimed,
    );
}

/// A prize is paid once: after a winner's successful claim, claiming again is
/// refused (as already claimed, or because the giveaway is complete).
pub proof fn lemma_claim_once(s: StorageView, id: u64, winner: AccountId, now: u64, later: u64)
    requires
        s.wf(),
        claim_error(s, id, winner, now) is None,
    ensures
        claim_error(after_claim(s, id, winner), id, winner, later) is Some,
        claim_error(after_claim(s, id, winner), id, winner, later) != Some(Error::ArithmeticOverflow),
{
    let t = after_claim(s, id, winner);
    let c = t.giveaways[id].claimed;
    assert(t.giveaways.contains_key(id));
    assert(c[c.len() - 1] == winner);
    assert(c.contains(winner));
    assert(t.giveaways[id].giveaway.winners == s.giveaways[id].giveaway.winners);
}

/// A cancelled giveaway takes no entries, cannot have winners picked and
/// cannot be cancelled again.
pub proof fn lemma_cancelled_giveaway_is_closed(
    s: StorageView,
    id: u64,
    creator: AccountId,
    participant: AccountId,
    now: u64,
    reputation: u64,
)
    requires
        cancel_error(s, creator, id) is None,
    ensures
        ({
            let t = s.with_giveaway(id, with_status(s.giveaways[id], GiveawayStatus::Cancelled));
            &&& !t.paused ==> enter_error(t, participant, id, now, reputation) == Some(
                Error::InvalidStatus,
            )
            &&& t.giveaways[id].giveaway.selection_method == crate::types::SelectionMethod::Random
                ==> pick_error(t, id, now) == Some(Error::InvalidStatus)
            &&& cancel_error(t, creator, id) == Some(Error::InvalidStatus)
        }),
{
    let t = s.with_giveaway(id, with_status(s.giveaways[id], GiveawayStatus::Cancelled));
    assert(t.giveaways.contains_key(id));
    assert(t.giveaways[id].giveaway.status == GiveawayStatus::Cancelled);
}

/// While the contract is paused, every value-moving operation is refused with
/// `ContractPaused` (only the admin's emergency withdrawal and `unpause`
/// remain available).
pub proof fn lemma_pause_blocks_value_moves(
    s: StorageView,
    account: AccountId,
    token: AccountId,
    id: u64,
    amount: i128,
    winner_count: u32,
    fee_bps: Option<u32>,
    now: u64,
    reputation: u64,
)
    requires
        s.paused,
    ensures
        create_error(s, token, winner_count, fee_bps) == Some(Error::ContractPaused),
        enter_error(s, account, id, now, reputation) == Some(Error::ContractPaused),
        claim_error(s, id, account, now) == Some(Error::ContractPaused),
        donate_error(s, account, id, amount, now) == Some(Error::ContractPaused),
        funds_claim_error(s, account, id) == Some(Error::ContractPaused),
        cancel_error(s, account, id) == Some(Error::ContractPaused),
        recover_error(s, id, account, now) == Some(Error::ContractPaused),
        refund_error(s, account, id) == Some(Error::ContractPaused),
        withdraw_error(s) == Some(Error::ContractPaused),
{
}

/// The creator's withdrawal of a help request's funds happens once, and
/// afterwards no donor can be refunded and nobody can donate.
pub proof fn lemma_funds_claim_closes_request(
    s: StorageView,
    creator: AccountId,
    donor: AccountId,
    id: u64,
    amount: i128,
    now: u64,
)
    requires
        funds_claim_error(s, creator, id) is None,
    ensures
        ({
            let t = s.with_request(
                id,
                HelpRequestRecordView {
                    funds_claimed: true,
                    ..request_with_status(s.requests[id], HelpRequestStatus::Closed)
                },
            );
            &&& funds_claim_error(t, creator, id) == Some(Error::InvalidStatus)
            &&& refund_error(t, donor, id) == Some(Error::InvalidStatus)
            &&& (!t.paused && amount > 0) ==> donate_error(t, donor, id, amount, now) == Some(
                Error::InvalidStatus,
            )
        }),
{
}

/// A refund is paid once: after it, the donor has nothing left to reclaim.
pub proof fn lemma_refund_once(s: StorageView, donor: AccountId, id: u64)
    requires
        refund_error(s, donor, id) is None,
    ensures
        ({
            let r = s.requests[id];
            let t = s.with_request(
                id,
                HelpRequestRecordView { donations: r.donations.insert(donor, 0), ..r },
            );
            &&& donation_of(t.requests[id], donor) == 0
            &&& refund_error(t, donor, id) == Some(Error::InvalidDonationAmount)
        }),
{
}

/// Delisting a token only stops new giveaways in it: entering, picking
/// winners, claiming, recovering unclaimed shares, donating, refunding and
/// withdrawing raised funds do not depend on the token allowlist.
pub proof fn lemma_delisting_spares_existing_giveaways(
    s: StorageView,
    token: AccountId,
    account: AccountId,
    id: u64,
    amount: i128,
    now: u64,
    reputation: u64,
)
    ensures
        ({
            let t = StorageView { allowed_tokens: s.allowed_tokens.insert(token, false), ..s };
            &&& enter_error(t, account, id, now, reputation) == enter_error(
                s,
                account,
                id,
                now,
                reputation,
            )
            &&& pick_error(t, id, now) == pick_error(s, id, now)
            &&& claim_error(t, id, account, now) == claim_error(s, id, account, now)
            &&& recover_error(t, id, account, now) == recover_error(s, id, account, now)
            &&& refund_error(t, account, id) == refund_error(s, account, id)
            &&& donate_error(t, account, id, amount, now) == donate_error(s, account, id, amount, now)
            &&& funds_claim_error(t, account, id) == funds_claim_error(s, account, id)
        }),
{
}

/// The claim deadline is set exactly once, when the winners are selected:
/// a new giveaway has none (zero); a selection needs an active giveaway and
/// sets the deadline to the claim window after the selection, leaving the
/// giveaway claimable; entering, claiming, recovering, cancelling and
/// resolving an appeal leave the deadline as it is; and a giveaway that is no
/// longer active cannot have winners selected again (only an appeal can make
/// a giveaway active again, and only one that was under appeal).
pub proof fn lemma_claim_deadline_set_once(
    s: StorageView,
    id: u64,
    account: AccountId,
    winners: Seq<AccountId>,
    now: u64,
    reputation: u64,
    status: GiveawayStatus,
    restore: bool,
)
    requires
        s.wf(),
        s.giveaways.contains_key(id),
    ensures
        forall|
            gid: u64,
            creator: AccountId,
            token: AccountId,
            amount: i128,
            title: Seq<char>,
            end_time: u64,
            winner_count: u32,
            verification: Option<ParticipantVerification>,
            method: SelectionMethod,
            fee_bps: Option<u32>,
        |
            #[trigger] new_giveaway(
                gid,
                creator,
                token,
                amount,
                title,
                end_time,
                winner_count,
                verification,
                method,
                fee_bps,
            ).giveaway.claim_deadline == 0,
        ({
            let r = s.giveaways[id];
            let d = r.giveaway.claim_deadline;
            &&& now + CLAIM_WINDOW_SECONDS <= u64::MAX ==> finalized(r, winners, now).giveaway.claim_deadline
                == now + CLAIM_WINDOW_SECONDS
            &&& finalized(r, winners, now).giveaway.status == GiveawayStatus::Claimable
            &&& (pick_error(s, id, now) is None || first_come_error(s, id, now) is None || manual_error(
                s,
                account,
                id,
                winners,
                now,
            ) is None || merit_error(s, account, id, now) is None) ==> r.giveaway.status
                == GiveawayStatus::Active
            &&& r.giveaway.status != GiveawayStatus::Active ==> {
                &&& pick_error(s, id, now) is Some
                &&& first_come_error(s, id, now) is Some
                &&& manual_error(s, account, id, winners, now) is Some
                &&& merit_error(s, account, id, now) is Some
            }
            &&& after_entry(r, account).giveaway.claim_deadline == d
            &&& claim_error(s, id, account, now) is None ==> after_claim(s, id, account).giveaways[id].giveaway.claim_deadline == d
            &&& with_status(r, status).giveaway.claim_deadline == d
            &&& appeal_outcome(s, id, restore).0.giveaways[id].giveaway.claim_deadline == d
            &&& appeal_outcome(s, id, restore).0.giveaways[id].giveaway.status == GiveawayStatus::Active
                ==> (r.giveaway.status == GiveawayStatus::Active || r.giveaway.status
                == GiveawayStatus::UnderAppeal)
        }),
{
    let r = s.giveaways[id];
    assert(appeal_outcome(s, id, restore).0.giveaways.contains_key(id));
    if claim_error(s, id, account, now) is None {
        assert(after_claim(s, id, account).giveaways.contains_key(id));
    }
}

/// Sum of the prize amounts announced by `events`.
pub open spec fn announced_total(events: Seq<GiveawayWinnerSelected>) -> int
    decreases events.len(),
{
    if events.len() == 0 {
        0
    } else {
        announced_total(events.drop_last()) + events.last().prize_amount
    }
}

proof fn lemma_announced_prefix(g: crate::types::GiveawayView, winners: Seq<AccountId>, n: nat)
    requires
        g.winner_count >= 1,
        n <= winners.len(),
    ensures
        announced_total(winner_events(g, winners).take(n as int)) == shares_total(
            g.amount as int,
            g.winner_count as int,
            n,
        ),
    decreases n,
{
    let ev = winner_events(g, winners);
    if n > 0 {
        lemma_announced_prefix(g, winners, (n - 1) as nat);
        assert(ev.take(n as int).drop_last() =~= ev.take(n - 1));
        lemma_gross_share_bounds(g.amount as int, g.winner_count as int, n - 1);
    } else {
        assert(ev.take(0) =~= Seq::<GiveawayWinnerSelected>::empty());
    }
}

/// A winner selection announces each winner's real prize: one announcement
/// per winner, in order; the announced amounts add up to the giveaway's
/// prize; and each announced amount is exactly what that winner then
/// receives when it claims, payout and fee together.
pub proof fn lemma_announced_prizes_are_the_shares(
    s: StorageView,
    t: StorageView,
    r: Result<(AccountId, Vec<GiveawayWinnerSelected>), Error>,
    id: u64,
    winners: Seq<AccountId>,
    now: u64,
    later: u64,
)
    requires
        s.wf(),
        t.wf(),
        s.giveaways.contains_key(id),
        selection_outcome(s, t, r, id, winners, now),
    ensures
        r is Ok,
        ({
            let events = r->Ok_0.1@;
            &&& events.len() == winners.len() == s.giveaways[id].giveaway.winner_count
            &&& announced_total(events) == s.giveaways[id].giveaway.amount
            &&& forall|k: int|
                0 <= k < events.len() ==> {
                    &&& (#[trigger] events[k]).winner == winners[k]
                    &&& events[k].giveaway_id == id
                    &&& claim_error(t, id, winners[k], later) is None ==> claim_result(
                        t,
                        id,
                        winners[k],
                    ).payout.amount + claim_result(t, id, winners[k]).fee_amount
                        == events[k].prize_amount
                }
        }),
{
    let g = s.giveaways[id].giveaway;
    let events = r->Ok_0.1@;
    assert(t.giveaways.contains_key(id));
    assert(giveaway_record_wf(id, t.giveaways[id]));
    assert(giveaway_record_wf(id, s.giveaways[id]));
    let tg = t.giveaways[id].giveaway;
    assert(tg.winners == winners);
    lemma_announced_prefix(g, winners, winners.len());
    assert(events.take(winners.len() as int) =~= events);
    lemma_shares_sum_to_amount(g.amount as int, g.winner_count as int);
    assert forall|k: int| 0 <= k < events.len() implies {
        &&& (#[trigger] events[k]).winner == winners[k]
        &&& events[k].giveaway_id == id
        &&& claim_error(t, id, winners[k], later) is None ==> claim_result(t, id, winners[k]).payout.amount
            + claim_result(t, id, winners[k]).fee_amount == events[k].prize_amount
    } by {
        lemma_gross_share_bounds(g.amount as int, g.winner_count as int, k);
        assert(winners[k] == winners[k]);
        let i = winner_index(winners, winners[k]);
        assert(0 <= i < winners.len() && winners[i] == winners[k]);
        assert(i == k);
        let gross = share_of(tg, winners[k]);
        assert(gross == gross_share(g.amount as int, g.winner_count as int, k));
        let bps = t.resolved_fee(tg);
        assert(bps <= 10000) by {
            if tg.fee_bps is None && t.token_fees.contains_key(tg.token) {
                assert(crate::store::fee_ok(t.token_fees[tg.token]));
            }
        }
        lemma_fee_split_conserves(gross, bps as int);
    }
}

/// A prize claim credits the creator exactly when it completes the giveaway,
/// which is when the last winner claims; a completed giveaway takes no more
/// claims, so each giveaway credits its creator at most once.
pub proof fn lemma_creator_credited_once(
    s: StorageView,
    id: u64,
    winner: AccountId,
    now: u64,
    other: AccountId,
    later: u64,
)
    requires
        s.wf(),
        claim_error(s, id, winner, now) is None,
    ensures
        claim_result(s, id, winner).credit_creator is Some <==> after_claim(s, id, winner).giveaways[id].giveaway.status
            == GiveawayStatus::Completed,
        claim_result(s, id, winner).credit_creator is Some ==> claim_result(s, id, winner).credit_creator
            == Some(s.giveaways[id].giveaway.creator),
        after_claim(s, id, winner).giveaways[id].giveaway.status == GiveawayStatus::Completed
            ==> claim_error(after_claim(s, id, winner), id, other, later) is Some,
        after_claim(s, id, winner).giveaways[id].giveaway.status == GiveawayStatus::Completed
            <==> after_claim(s, id, winner).giveaways[id].claimed.len() == s.giveaways[id].giveaway.winners.len(),
        after_claim(s, id, winner).giveaways[id].claimed == s.giveaways[id].claimed.push(winner),
{
    assert(giveaway_record_wf(id, s.giveaways[id]));
    assert(after_claim(s, id, winner).giveaways.contains_key(id));
}

/// A cancelled help request is closed to donations: after its creator
/// cancels it, every donation is refused with `InvalidStatus`, whoever
/// gives, whatever the amount and whenever (while the contract runs).
pub proof fn lemma_cancelled_request_refuses_donations(
    s: StorageView,
    creator: AccountId,
    id: u64,
    now: u64,
    donor: AccountId,
    amount: i128,
    later: u64,
)
    requires
        cancel_request_error(s, creator, id, now) is None,
        !s.paused,
        amount > 0,
    ensures
        donate_error(
            s.with_request(id, request_with_status(s.requests[id], HelpRequestStatus::Cancelled)),
            donor,
            id,
            amount,
            later,
        ) == Some(Error::InvalidStatus),
{
}

/// Refunds come only out of cancelled help requests, and a request whose
/// donors can be refunded cannot also have its funds withdrawn by its
/// creator: the escrow is paid out one way only.
pub proof fn lemma_refund_only_from_cancelled(
    s: StorageView,
    donor: AccountId,
    creator: AccountId,
    id: u64,
)
    requires
        refund_error(s, donor, id) is None,
    ensures
        s.requests[id].request.status == HelpRequestStatus::Cancelled,
        funds_claim_error(s, creator, id) is Some,
{
}

/// Only an open help request can be cancelled; in particular a fully funded
/// (or closed) request never becomes cancelled, so its donors cannot be
/// refunded.
pub proof fn lemma_only_open_requests_cancel(s: StorageView, creator: AccountId, id: u64, now: u64)
    requires
        cancel_request_error(s, creator, id, now) is None,
    ensures
        s.requests[id].request.status == HelpRequestStatus::Open,
        s.requests[id].request.status != HelpRequestStatus::FullyFunded,
{
}

} // verus!
