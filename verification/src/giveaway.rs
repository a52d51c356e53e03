//! Giveaways: escrowed prizes split between winners chosen after the entry
//! period, claimed individually within a claim window.

use vstd::prelude::*;
use crate::events::{GiveawayCreated, GiveawayPrizeClaimed, GiveawayWinnerSelected, Payout};
use crate::selection::{
    at_positions, contains_account, find_winner_index, lemma_at_positions_distinct, lemma_merit_winners_distinct,
    participants_at, top_by_merit, lemma_random_picks_distinct_in_range,
    manual_winners_valid, pick_random_indexes, random_picks, select_first_come_winners,
    select_merit_winners,
};
use crate::shares::{
    fee_of, gross_share, lemma_unclaimed_prefix_bounds, split_fee, unclaimed_total,
    winner_gross_share,
};
use crate::store::{
    fee_ok, giveaway_record_wf, GiveawayRecord, GiveawayRecordView, Storage, StorageView,
};
use crate::types::{
    AccountId, Error, Giveaway, GiveawayStatus, GiveawayView, ParticipantVerification,
    SelectionMethod,
};

verus! {

broadcast use vstd::std_specs::hash::group_hash_axioms;

/// Seconds winners have to claim their prize once a giveaway becomes
/// `Claimable` (7 days).
pub const CLAIM_WINDOW_SECONDS: u64 = 7 * 24 * 60 * 60;

/// The giveaway operations of the contract.
pub struct GiveawayContract;

// ------------------------------------------------------------------------
// Specification
// ------------------------------------------------------------------------

/// Verification type recorded for a giveaway: 0 open, 1 allowlist, 2 reputation.
pub open spec fn verification_type_of(verification: Option<ParticipantVerification>) -> u32 {
    match verification {
        Some(v) => if v.uses_reputation {
            2
        } else {
            1
        },
        None => 0,
    }
}

/// Why creating a giveaway is refused, if it is.
pub open spec fn create_error(
    s: StorageView,
    token: AccountId,
    winner_count: u32,
    fee_bps: Option<u32>,
) -> Option<Error> {
    if s.paused {
        Some(Error::ContractPaused)
    } else if winner_count == 0 {
        Some(Error::InvalidWinnerCount)
    } else if fee_bps matches Some(f) && !fee_ok(f) {
        Some(Error::InvalidFee)
    } else if !s.token_allowed(token) {
        Some(Error::TokenNotSupported)
    } else {
        None
    }
}

/// The record of a newly created giveaway.
pub open spec fn new_giveaway(
    id: u64,
    creator: AccountId,
    token: AccountId,
    amount: i128,
    title: Seq<char>,
    end_time: u64,
    winner_count: u32,
    verification: Option<ParticipantVerification>,
    selection_method: SelectionMethod,
    fee_bps: Option<u32>,
) -> GiveawayRecordView {
    GiveawayRecordView {
        giveaway: GiveawayView {
            id,
            creator,
            token,
            amount,
            title,
            participant_count: 0,
            end_time,
            status: GiveawayStatus::Active,
            winner_count,
            winners: Seq::empty(),
            verification_type: verification_type_of(verification),
            min_reputation: match verification {
                Some(v) => v.min_reputation,
                None => 0,
            },
            selection_method,
            claim_deadline: 0,
            claimed_count: 0,
            fee_bps,
        },
        participants: Seq::empty(),
        allowlist: match verification {
            Some(v) => if v.uses_reputation {
                Seq::empty()
            } else {
                v.allowlist@
            },
            None => Seq::empty(),
        },
        claimed: Seq::empty(),
    }
}

/// Whether `participant`, with reputation `reputation`, may enter giveaway `r`.
pub open spec fn admitted(r: GiveawayRecordView, participant: AccountId, reputation: u64) -> bool {
    if r.giveaway.verification_type == 1 {
        r.allowlist.contains(participant)
    } else if r.giveaway.verification_type == 2 {
        reputation >= r.giveaway.min_reputation
    } else {
        true
    }
}

/// Why `participant` cannot enter giveaway `id` at time `now`, if it cannot.
pub open spec fn enter_error(
    s: StorageView,
    participant: AccountId,
    id: u64,
    now: u64,
    reputation: u64,
) -> Option<Error> {
    if s.paused {
        Some(Error::ContractPaused)
    } else if !s.giveaways.contains_key(id) {
        Some(Error::GiveawayNotFound)
    } else {
        let r = s.giveaways[id];
        if r.giveaway.status != GiveawayStatus::Active {
            Some(Error::InvalidStatus)
        } else if now > r.giveaway.end_time {
            Some(Error::GiveawayEnded)
        } else if r.participants.contains(participant) {
            Some(Error::AlreadyEntered)
        } else if !admitted(r, participant, reputation) {
            Some(Error::UnauthorizedParticipant)
        } else {
            None
        }
    }
}

/// Giveaway `r` after `participant` entered it: registered at the next index
/// and, in a first-come giveaway with free winner slots, provisionally a winner.
pub open spec fn after_entry(r: GiveawayRecordView, participant: AccountId) -> GiveawayRecordView {
    let g = r.giveaway;
    GiveawayRecordView {
        giveaway: GiveawayView {
            participant_count: (g.participant_count + 1) as u32,
            winners: if g.selection_method == SelectionMethod::FirstCome && g.winners.len()
                < g.winner_count {
                g.winners.push(participant)
            } else {
                g.winners
            },
            ..g
        },
        participants: r.participants.push(participant),
        ..r
    }
}

/// Why `creator` cannot cancel giveaway `id`, if it cannot.
pub open spec fn cancel_error(s: StorageView, creator: AccountId, id: u64) -> Option<Error> {
    if s.paused {
        Some(Error::ContractPaused)
    } else if !s.giveaways.contains_key(id) {
        Some(Error::GiveawayNotFound)
    } else {
        let g = s.giveaways[id].giveaway;
        if g.creator != creator {
            Some(Error::NotCreator)
        } else if g.status != GiveawayStatus::Active || g.participant_count != 0 {
            Some(Error::InvalidStatus)
        } else {
            None
        }
    }
}

/// Giveaway `r` with status `status`.
pub open spec fn with_status(r: GiveawayRecordView, status: GiveawayStatus) -> GiveawayRecordView {
    GiveawayRecordView { giveaway: GiveawayView { status, ..r.giveaway }, ..r }
}

/// Why giveaway `g` cannot have its winners selected at time `now`, if it cannot.
pub open spec fn readiness_error(g: GiveawayView, now: u64) -> Option<Error> {
    if g.status != GiveawayStatus::Active {
        Some(Error::InvalidStatus)
    } else if now <= g.end_time {
        Some(Error::GiveawayStillActive)
    } else if g.participant_count == 0 {
        Some(Error::NoParticipants)
    } else if g.participant_count < g.winner_count {
        Some(Error::InsufficientParticipants)
    } else {
        None
    }
}

/// Whether `caller` is the giveaway's creator or the contract's admin.
pub open spec fn creator_or_admin(s: StorageView, caller: AccountId, g: GiveawayView) -> bool {
    caller == g.creator || s.admin == Some(caller)
}

/// Giveaway `r` once `winners` have been selected at time `now`: claimable
/// until the claim window closes.
pub open spec fn finalized(r: GiveawayRecordView, winners: Seq<AccountId>, now: u64) -> GiveawayRecordView {
    GiveawayRecordView {
        giveaway: GiveawayView {
            winners,
            status: GiveawayStatus::Claimable,
            claim_deadline: (now + CLAIM_WINDOW_SECONDS) as u64,
            ..r.giveaway
        },
        ..r
    }
}

/// One announcement per winner, in order, with the winner's gross share.
pub open spec fn winner_events(g: GiveawayView, winners: Seq<AccountId>) -> Seq<GiveawayWinnerSelected> {
    Seq::new(
        winners.len(),
        |k: int|
            GiveawayWinnerSelected {
                winner: winners[k],
                giveaway_id: g.id,
                prize_amount: gross_share(g.amount as int, g.winner_count as int, k) as i128,
            },
    )
}

/// What a winner selection reports and stores: the first winner and the
/// announcements, and the giveaway finalized with `winners`.
pub open spec fn selection_outcome(
    before: StorageView,
    after: StorageView,
    r: Result<(AccountId, Vec<GiveawayWinnerSelected>), Error>,
    id: u64,
    winners: Seq<AccountId>,
    now: u64,
) -> bool {
    &&& r matches Ok((first, events)) && first == winners[0] && events@ == winner_events(
        before.giveaways[id].giveaway,
        winners,
    )
    &&& after == before.with_giveaway(id, finalized(before.giveaways[id], winners, now))
}

/// Why giveaway `id` cannot have its winners picked at random at `now`, if it cannot.
pub open spec fn pick_error(s: StorageView, id: u64, now: u64) -> Option<Error> {
    if !s.giveaways.contains_key(id) {
        Some(Error::GiveawayNotFound)
    } else if s.giveaways[id].giveaway.selection_method != SelectionMethod::Random {
        Some(Error::InvalidStatus)
    } else {
        readiness_error(s.giveaways[id].giveaway, now)
    }
}

/// The participants at the positions picked with `seed`.
pub open spec fn random_winners(r: GiveawayRecordView, seed: u64) -> Seq<AccountId> {
    at_positions(
        r.participants,
        random_picks(seed, r.giveaway.participant_count as int, r.giveaway.winner_count as nat),
    )
}

/// Why giveaway `id` cannot have its first-come winners confirmed at `now`, if it cannot.
pub open spec fn first_come_error(s: StorageView, id: u64, now: u64) -> Option<Error> {
    if !s.giveaways.contains_key(id) {
        Some(Error::GiveawayNotFound)
    } else if s.giveaways[id].giveaway.selection_method != SelectionMethod::FirstCome {
        Some(Error::InvalidStatus)
    } else {
        readiness_error(s.giveaways[id].giveaway, now)
    }
}

/// Why `caller` cannot name `winners` for giveaway `id` at `now`, if it cannot.
pub open spec fn manual_error(
    s: StorageView,
    caller: AccountId,
    id: u64,
    winners: Seq<AccountId>,
    now: u64,
) -> Option<Error> {
    if !s.giveaways.contains_key(id) {
        Some(Error::GiveawayNotFound)
    } else {
        let r = s.giveaways[id];
        let g = r.giveaway;
        if !creator_or_admin(s, caller, g) {
            Some(Error::NotCreator)
        } else if readiness_error(g, now) is Some {
            readiness_error(g, now)
        } else if g.selection_method != SelectionMethod::Manual {
            Some(Error::InvalidStatus)
        } else if winners.len() != g.winner_count {
            Some(Error::InvalidWinnerCount)
        } else if !((forall|k: int| 0 <= k < winners.len() ==> r.participants.contains(winners[k]))
            && winners.no_duplicates()) {
            Some(Error::InvalidIndex)
        } else {
            None
        }
    }
}

/// Why `caller` cannot have the merit winners of giveaway `id` selected at `now`, if it cannot.
pub open spec fn merit_error(s: StorageView, caller: AccountId, id: u64, now: u64) -> Option<Error> {
    if !s.giveaways.contains_key(id) {
        Some(Error::GiveawayNotFound)
    } else {
        let g = s.giveaways[id].giveaway;
        if !creator_or_admin(s, caller, g) {
            Some(Error::NotCreator)
        } else if readiness_error(g, now) is Some {
            readiness_error(g, now)
        } else if g.selection_method != SelectionMethod::Merit {
            Some(Error::InvalidStatus)
        } else {
            None
        }
    }
}

/// The participants with the highest reputations, best first.
pub open spec fn merit_winners(r: GiveawayRecordView, reputations: Seq<u64>) -> Seq<AccountId> {
    top_by_merit(r.participants, reputations, r.giveaway.winner_count as int)
}

impl Storage {
    /// Takes the next giveaway id from the counter.
    fn generate_id(&mut self) -> (id: u64)
        requires
            old(self).giveaway_counter < u64::MAX,
        ensures
            id == old(self).giveaway_counter + 1,
            final(self)@ == (StorageView { giveaway_counter: id, ..old(self)@ }),
    {
        let counter = self.giveaway_counter + 1;
        self.giveaway_counter = counter;
        counter
    }

}

impl GiveawayContract {
    /// Sets the admin and the contract-wide fee, once.
    pub fn init(store: &mut Storage, admin: AccountId, fee_bps: u32) -> (r: Result<(), Error>)
        requires
            old(store)@.wf(),
        ensures
            final(store)@.wf(),
            old(store)@.admin is Some ==> r == Err::<(), Error>(Error::AlreadyInitialized) && final(store)@
                == old(store)@,
            old(store)@.admin is None && !fee_ok(fee_bps) ==> r == Err::<(), Error>(Error::InvalidFee)
                && final(store)@ == old(store)@,
            old(store)@.admin is None && fee_ok(fee_bps) ==> r is Ok && final(store)@ == (
            StorageView { admin: Some(admin), fee: Some(fee_bps), ..old(store)@ }),
    {
        if store.admin.is_some() {
            return Err(Error::AlreadyInitialized);
        }
        if fee_bps > crate::store::MAX_FEE_BPS {
            return Err(Error::InvalidFee);
        }
        store.admin = Some(admin);
        store.fee = Some(fee_bps);
        Ok(())
    }

    /// Creates a giveaway whose winners are picked at random.
    pub fn create_giveaway(
        store: &mut Storage,
        creator: AccountId,
        token: AccountId,
        amount: i128,
        title: String,
        duration_seconds: u64,
        winner_count: u32,
        verification: Option<ParticipantVerification>,
        fee_bps: Option<u32>,
        now: u64,
    ) -> (r: Result<GiveawayCreated, Error>)
        requires
            old(store)@.wf(),
            create_error(old(store)@, token, winner_count, fee_bps) is None ==> {
                &&& old(store)@.giveaway_counter < u64::MAX
                &&& now + duration_seconds <= u64::MAX
            },
        ensures
            final(store)@.wf(),
            create_outcome(
                old(store)@,
                final(store)@,
                r,
                creator,
                token,
                amount,
                title@,
                duration_seconds,
                winner_count,
                verification,
                SelectionMethod::Random,
                fee_bps,
                now,
            ),
    {
        Self::create_giveaway_with_selection(
            store,
            creator,
            token,
            amount,
            title,
            duration_seconds,
            winner_count,
            verification,
            SelectionMethod::Random,
            fee_bps,
            now,
        )
    }

    /// Creates a giveaway: escrows `amount` of `token` from `creator` (the
    /// returned event's `total_amount`, to be deposited by the host) and opens
    /// entries until `now + duration_seconds`.
    pub fn create_giveaway_with_selection(
        store: &mut Storage,
        creator: AccountId,
        token: AccountId,
        amount: i128,
        title: String,
        duration_seconds: u64,
        winner_count: u32,
        verification: Option<ParticipantVerification>,
        selection_method: SelectionMethod,
        fee_bps: Option<u32>,
        now: u64,
    ) -> (r: Result<GiveawayCreated, Error>)
        requires
            old(store)@.wf(),
            create_error(old(store)@, token, winner_count, fee_bps) is None ==> {
                &&& old(store)@.giveaway_counter < u64::MAX
                &&& now + duration_seconds <= u64::MAX
            },
        ensures
            final(store)@.wf(),
            create_outcome(
                old(store)@,
                final(store)@,
                r,
                creator,
                token,
                amount,
                title@,
                duration_seconds,
                winner_count,
                verification,
                selection_method,
                fee_bps,
                now,
            ),
    {
        if let Some(e) = Self::creation_refusal(store, token, winner_count, fee_bps) {
            return Err(e);
        }
        let ghost verification_spec = verification;
        let ghost title_spec = title@;
        let giveaway_id = store.generate_id();
        let end_time = now + duration_seconds;
        let (verification_type, min_reputation, allowlist) = match verification {
            Some(v) => {
                if v.uses_reputation {
                    (2u32, v.min_reputation, Vec::new())
                } else {
                    (1u32, v.min_reputation, v.allowlist)
                }
            },
            None => (0u32, 0u64, Vec::new()),
        };
        let giveaway = Giveaway {
            id: giveaway_id,
            creator,
            token,
            amount,
            title,
            participant_count: 0,
            end_time,
            status: GiveawayStatus::Active,
            winner_count,
            winners: Vec::new(),
            verification_type,
            min_reputation,
            selection_method,
            claim_deadline: 0,
            claimed_count: 0,
            fee_bps,
        };
        let rec = GiveawayRecord { giveaway, participants: Vec::new(), allowlist, claimed: Vec::new() };
        assert(rec@ =~= new_giveaway(
            giveaway_id,
            creator,
            token,
            amount,
            title_spec,
            end_time,
            winner_count,
            verification_spec,
            selection_method,
            fee_bps,
        ));
        store.put_giveaway(giveaway_id, rec);
        Ok(
            GiveawayCreated {
                giveaway_id,
                creator,
                token_address: token,
                total_amount: amount,
                end_time,
            },
        )
    }

    /// Registers `participant` in giveaway `giveaway_id`. `participant_reputation`
    /// is the participant's current reputation; it is consulted only for
    /// reputation-gated giveaways.
    pub fn enter_giveaway(
        store: &mut Storage,
        participant: AccountId,
        giveaway_id: u64,
        now: u64,
        participant_reputation: u64,
    ) -> (r: Result<(), Error>)
        requires
            old(store)@.wf(),
            enter_error(old(store)@, participant, giveaway_id, now, participant_reputation) is None
                ==> old(store)@.giveaways[giveaway_id].giveaway.participant_count < u32::MAX,
        ensures
            final(store)@.wf(),
            match enter_error(old(store)@, participant, giveaway_id, now, participant_reputation) {
                Some(e) => r == Err::<(), Error>(e) && final(store)@ == old(store)@,
                None => r is Ok && final(store)@ == old(store)@.with_giveaway(
                    giveaway_id,
                    after_entry(old(store)@.giveaways[giveaway_id], participant),
                ),
            },
    {
        if let Some(e) = Self::entry_refusal(store, participant, giveaway_id, now, participant_reputation) {
            return Err(e);
        }
        let rec = match store.giveaways.get(&giveaway_id) {
            Some(rec) => rec,
            None => {
                return Err(Error::GiveawayNotFound);
            },
        };
        assert(rec@ == old(store)@.giveaways[giveaway_id]);
        let ghost before = old(store)@;
        let mut rec = store.take_giveaway(giveaway_id);
        rec.participants.push(participant);
        rec.giveaway.participant_count = rec.giveaway.participant_count + 1;
        if rec.giveaway.selection_method == SelectionMethod::FirstCome && rec.giveaway.winners.len()
            < rec.giveaway.winner_count as usize {
            rec.giveaway.winners.push(participant);
        }
        proof {
            let new_r = after_entry(before.giveaways[giveaway_id], participant);
            assert(rec@ =~= new_r);
            lemma_entry_keeps_wf(giveaway_id, before.giveaways[giveaway_id], participant);
        }
        store.put_giveaway(giveaway_id, rec);
        proof {
            assert(store@ =~= before.with_giveaway(giveaway_id, rec@));
        }
        Ok(())
    }

    /// Cancels an active giveaway nobody has entered yet; the whole escrowed
    /// prize goes back to the creator (the returned payout). Refused while the
    /// contract is paused.
    pub fn cancel_giveaway(store: &mut Storage, creator: AccountId, giveaway_id: u64) -> (r: Result<
        Payout,
        Error,
    >)
        requires
            old(store)@.wf(),
        ensures
            final(store)@.wf(),
            match cancel_error(old(store)@, creator, giveaway_id) {
                Some(e) => r == Err::<Payout, Error>(e) && final(store)@ == old(store)@,
                None => {
                    let g = old(store)@.giveaways[giveaway_id].giveaway;
                    &&& r == Ok::<Payout, Error>(Payout { token: g.token, to: g.creator, amount: g.amount })
                    &&& final(store)@ == old(store)@.with_giveaway(
                        giveaway_id,
                        with_status(old(store)@.giveaways[giveaway_id], GiveawayStatus::Cancelled),
                    )
                },
            },
    {
        if store.paused {
            return Err(Error::ContractPaused);
        }
        let rec = match store.giveaways.get(&giveaway_id) {
            Some(rec) => rec,
            None => {
                return Err(Error::GiveawayNotFound);
            },
        };
        if rec.giveaway.creator != creator {
            return Err(Error::NotCreator);
        }
        if rec.giveaway.status != GiveawayStatus::Active || rec.giveaway.participant_count != 0 {
            return Err(Error::InvalidStatus);
        }
        let ghost before = old(store)@;
        let mut rec = store.take_giveaway(giveaway_id);
        rec.giveaway.status = GiveawayStatus::Cancelled;
        let payout = Payout { token: rec.giveaway.token, to: rec.giveaway.creator, amount: rec.giveaway.amount };
        proof {
            assert(rec@ =~= with_status(before.giveaways[giveaway_id], GiveawayStatus::Cancelled));
        }
        store.put_giveaway(giveaway_id, rec);
        proof {
            assert(store@ =~= before.with_giveaway(giveaway_id, rec@));
        }
        Ok(payout)
    }
}

impl GiveawayContract {
    /// Stores `winners` for the taken-out giveaway `rec`, opens its claim
    /// window and announces each winner with its gross share.
    fn finalize_winners(
        store: &mut Storage,
        id: u64,
        rec: GiveawayRecord,
        winners: Vec<AccountId>,
        now: u64,
    ) -> (r: (AccountId, Vec<GiveawayWinnerSelected>))
        requires
            winners.len() == rec.giveaway.winner_count,
            rec.giveaway.winner_count >= 1,
            now + CLAIM_WINDOW_SECONDS <= u64::MAX,
        ensures
            r.0 == winners@[0],
            r.1@ == winner_events(rec@.giveaway, winners@),
            final(store)@ == old(store)@.with_giveaway(id, finalized(rec@, winners@, now)),
    {
        let mut events: Vec<GiveawayWinnerSelected> = Vec::new();
        let mut k: usize = 0;
        while k < winners.len()
            invariant
                k <= winners.len() == rec.giveaway.winner_count,
                rec.giveaway.winner_count >= 1,
                events@ == winner_events(rec@.giveaway, winners@.take(k as int)),
            decreases winners.len() - k,
        {
            let prize_amount = winner_gross_share(
                rec.giveaway.amount,
                rec.giveaway.winner_count,
                k as u32,
            );
            events.push(
                GiveawayWinnerSelected { winner: winners[k], giveaway_id: rec.giveaway.id, prize_amount },
            );
            k += 1;
            assert(events@ =~= winner_events(rec@.giveaway, winners@.take(k as int)));
        }
        assert(winners@.take(winners.len() as int) =~= winners@);
        let first = winners[0];
        let ghost before = rec@;
        let mut rec = rec;
        rec.giveaway.winners = winners;
        rec.giveaway.status = GiveawayStatus::Claimable;
        rec.giveaway.claim_deadline = now + CLAIM_WINDOW_SECONDS;
        assert(rec@ =~= finalized(before, rec.giveaway.winners@, now));
        store.put_giveaway(id, rec);
        (first, events)
    }

    /// Picks the winners of a random-selection giveaway once its entry period
    /// is over. `seed` is the ledger's pseudo-random number for this call; the
    /// `i`-th winner is the first participant not yet picked at or after
    /// position `(seed + i) mod participant_count`. Returns the first winner
    /// and one announcement per winner.
    pub fn pick_winner(store: &mut Storage, giveaway_id: u64, seed: u64, now: u64) -> (r: Result<
        (AccountId, Vec<GiveawayWinnerSelected>),
        Error,
    >)
        requires
            old(store)@.wf(),
            pick_error(old(store)@, giveaway_id, now) is None ==> now + CLAIM_WINDOW_SECONDS
                <= u64::MAX,
        ensures
            final(store)@.wf(),
            match pick_error(old(store)@, giveaway_id, now) {
                Some(e) => r == Err::<(AccountId, Vec<GiveawayWinnerSelected>), Error>(e)
                    && final(store)@ == old(store)@,
                None => selection_outcome(
                    old(store)@,
                    final(store)@,
                    r,
                    giveaway_id,
                    random_winners(old(store)@.giveaways[giveaway_id], seed),
                    now,
                ),
            },
    {
        if let Some(e) = Self::pick_refusal(store, giveaway_id, now) {
            return Err(e);
        }
        let rec = match store.giveaways.get(&giveaway_id) {
            Some(rec) => rec,
            None => {
                return Err(Error::GiveawayNotFound);
            },
        };
        let ghost before = old(store)@;
        let ghost r0 = before.giveaways[giveaway_id];
        let total = rec.giveaway.participant_count;
        let picked = pick_random_indexes(seed, total, rec.giveaway.winner_count);
        proof {
            lemma_random_picks_distinct_in_range(seed, total as int, rec.giveaway.winner_count as nat);
        }
        let winners = participants_at(&rec.participants, &picked);
        proof {
            lemma_at_positions_distinct(r0.participants, picked@);
        }
        let rec = store.take_giveaway(giveaway_id);
        let ghost mid = store@;
        let out = Self::finalize_winners(store, giveaway_id, rec, winners, now);
        proof {
            assert(store@ =~= before.with_giveaway(
                giveaway_id,
                finalized(r0, random_winners(r0, seed), now),
            ));
            lemma_finalize_keeps_wf(before, giveaway_id, random_winners(r0, seed), now);
        }
        Ok(out)
    }

    /// Why giveaway `g` is not ready for winner selection at `now`, if it is not.
    fn ensure_ready_for_selection(g: &Giveaway, now: u64) -> (e: Option<Error>)
        ensures
            e == readiness_error(g@, now),
    {
        if g.status != GiveawayStatus::Active {
            return Some(Error::InvalidStatus);
        }
        if now <= g.end_time {
            return Some(Error::GiveawayStillActive);
        }
        if g.participant_count == 0 {
            return Some(Error::NoParticipants);
        }
        if g.participant_count < g.winner_count {
            return Some(Error::InsufficientParticipants);
        }
        None
    }

    /// Why a giveaway in `token` with `winner_count` winners and fee
    /// override `fee_bps` cannot be created, if it cannot.
    pub fn creation_refusal(store: &Storage, token: AccountId, winner_count: u32, fee_bps: Option<u32>) -> (e: Option<Error>)
        ensures
            e == create_error(store@, token, winner_count, fee_bps),
    {
        if store.paused {
            return Some(Error::ContractPaused);
        }
        if winner_count == 0 {
            return Some(Error::InvalidWinnerCount);
        }
        if let Some(fee) = fee_bps {
            if fee > crate::store::MAX_FEE_BPS {
                return Some(Error::InvalidFee);
            }
        }
        if !store.is_token_allowed(token) {
            return Some(Error::TokenNotSupported);
        }
        None
    }

    /// Why `participant` (with reputation `reputation`) cannot enter giveaway
    /// `giveaway_id` at `now`, if it cannot.
    pub fn entry_refusal(store: &Storage, participant: AccountId, giveaway_id: u64, now: u64, reputation: u64) -> (e: Option<Error>)
        ensures
            e == enter_error(store@, participant, giveaway_id, now, reputation),
    {
        if store.paused {
            return Some(Error::ContractPaused);
        }
        let rec = match store.giveaways.get(&giveaway_id) {
            Some(rec) => rec,
            None => {
                return Some(Error::GiveawayNotFound);
            },
        };
        assert(rec@ == store@.giveaways[giveaway_id]);
        if rec.giveaway.status != GiveawayStatus::Active {
            return Some(Error::InvalidStatus);
        }
        if now > rec.giveaway.end_time {
            return Some(Error::GiveawayEnded);
        }
        if contains_account(&rec.participants, participant) {
            return Some(Error::AlreadyEntered);
        }
        if rec.giveaway.verification_type == 1 {
            if !contains_account(&rec.allowlist, participant) {
                return Some(Error::UnauthorizedParticipant);
            }
        } else if rec.giveaway.verification_type == 2 {
            if reputation < rec.giveaway.min_reputation {
                return Some(Error::UnauthorizedParticipant);
            }
        }
        None
    }

    /// Why giveaway `giveaway_id` cannot have its winners picked at random at
    /// `now`, if it cannot.
    pub fn pick_refusal(store: &Storage, giveaway_id: u64, now: u64) -> (e: Option<Error>)
        ensures
            e == pick_error(store@, giveaway_id, now),
    {
        let rec = match store.giveaways.get(&giveaway_id) {
            Some(rec) => rec,
            None => {
                return Some(Error::GiveawayNotFound);
            },
        };
        if rec.giveaway.selection_method != SelectionMethod::Random {
            return Some(Error::InvalidStatus);
        }
        Self::ensure_ready_for_selection(&rec.giveaway, now)
    }

    /// Why giveaway `giveaway_id` cannot have its first-come winners confirmed
    /// at `now`, if it cannot.
    pub fn first_come_refusal(store: &Storage, giveaway_id: u64, now: u64) -> (e: Option<Error>)
        ensures
            e == first_come_error(store@, giveaway_id, now),
    {
        let rec = match store.giveaways.get(&giveaway_id) {
            Some(rec) => rec,
            None => {
                return Some(Error::GiveawayNotFound);
            },
        };
        if rec.giveaway.selection_method != SelectionMethod::FirstCome {
            return Some(Error::InvalidStatus);
        }
        Self::ensure_ready_for_selection(&rec.giveaway, now)
    }

    /// Why `caller` cannot name `winners` for giveaway `giveaway_id` at `now`,
    /// if it cannot.
    pub fn manual_refusal(store: &Storage, caller: AccountId, giveaway_id: u64, winners: &Vec<AccountId>, now: u64) -> (e: Option<Error>)
        ensures
            e == manual_error(store@, caller, giveaway_id, winners@, now),
    {
        let rec = match store.giveaways.get(&giveaway_id) {
            Some(rec) => rec,
            None => {
                return Some(Error::GiveawayNotFound);
            },
        };
        if !Self::is_creator_or_admin(store, caller, &rec.giveaway) {
            return Some(Error::NotCreator);
        }
        if let Some(e) = Self::ensure_ready_for_selection(&rec.giveaway, now) {
            return Some(e);
        }
        if rec.giveaway.selection_method != SelectionMethod::Manual {
            return Some(Error::InvalidStatus);
        }
        if winners.len() != rec.giveaway.winner_count as usize {
            return Some(Error::InvalidWinnerCount);
        }
        if !manual_winners_valid(&rec.participants, winners) {
            return Some(Error::InvalidIndex);
        }
        None
    }

    /// Why `caller` cannot finalize merit giveaway `giveaway_id` at `now`, if
    /// it cannot.
    pub fn merit_refusal(store: &Storage, caller: AccountId, giveaway_id: u64, now: u64) -> (e: Option<Error>)
        ensures
            e == merit_error(store@, caller, giveaway_id, now),
    {
        let rec = match store.giveaways.get(&giveaway_id) {
            Some(rec) => rec,
            None => {
                return Some(Error::GiveawayNotFound);
            },
        };
        if !Self::is_creator_or_admin(store, caller, &rec.giveaway) {
            return Some(Error::NotCreator);
        }
        if let Some(e) = Self::ensure_ready_for_selection(&rec.giveaway, now) {
            return Some(e);
        }
        if rec.giveaway.selection_method != SelectionMethod::Merit {
            return Some(Error::InvalidStatus);
        }
        None
    }

    /// Whether `caller` is the creator of `g` or the contract's admin.
    fn is_creator_or_admin(store: &Storage, caller: AccountId, g: &Giveaway) -> (b: bool)
        ensures
            b == creator_or_admin(store@, caller, g@),
    {
        if caller == g.creator {
            return true;
        }
        match store.admin {
            Some(admin) => caller == admin,
            None => false,
        }
    }

    /// Confirms the first `winner_count` entrants of a first-come giveaway as
    /// its winners once the entry period is over.
    pub fn finalize_first_come_winners(store: &mut Storage, giveaway_id: u64, now: u64) -> (r: Result<
        (AccountId, Vec<GiveawayWinnerSelected>),
        Error,
    >)
        requires
            old(store)@.wf(),
            first_come_error(old(store)@, giveaway_id, now) is None ==> now + CLAIM_WINDOW_SECONDS
                <= u64::MAX,
        ensures
            final(store)@.wf(),
            match first_come_error(old(store)@, giveaway_id, now) {
                Some(e) => r == Err::<(AccountId, Vec<GiveawayWinnerSelected>), Error>(e)
                    && final(store)@ == old(store)@,
                None => selection_outcome(
                    old(store)@,
                    final(store)@,
                    r,
                    giveaway_id,
                    old(store)@.giveaways[giveaway_id].participants.take(
                        old(store)@.giveaways[giveaway_id].giveaway.winner_count as int,
                    ),
                    now,
                ),
            },
    {
        if let Some(e) = Self::first_come_refusal(store, giveaway_id, now) {
            return Err(e);
        }
        let rec = match store.giveaways.get(&giveaway_id) {
            Some(rec) => rec,
            None => {
                return Err(Error::GiveawayNotFound);
            },
        };
        let ghost before = old(store)@;
        let ghost r0 = before.giveaways[giveaway_id];
        let ghost chosen = r0.participants.take(r0.giveaway.winner_count as int);
        let winners = select_first_come_winners(&rec.participants, rec.giveaway.winner_count);
        proof {
            assert forall|k: int| 0 <= k < chosen.len() implies r0.participants.contains(
                #[trigger] chosen[k],
            ) by {
                assert(r0.participants[k] == chosen[k]);
            }
        }
        let rec = store.take_giveaway(giveaway_id);
        let out = Self::finalize_winners(store, giveaway_id, rec, winners, now);
        proof {
            assert(store@ =~= before.with_giveaway(giveaway_id, finalized(r0, chosen, now)));
            lemma_finalize_keeps_wf(before, giveaway_id, chosen, now);
        }
        Ok(out)
    }

    /// Finalizes a manual-selection giveaway with the winners named by its
    /// creator or the admin, once the entry period is over.
    pub fn finalize_manual_winners(
        store: &mut Storage,
        caller: AccountId,
        giveaway_id: u64,
        winners: Vec<AccountId>,
        now: u64,
    ) -> (r: Result<(AccountId, Vec<GiveawayWinnerSelected>), Error>)
        requires
            old(store)@.wf(),
            manual_error(old(store)@, caller, giveaway_id, winners@, now) is None ==> now
                + CLAIM_WINDOW_SECONDS <= u64::MAX,
        ensures
            final(store)@.wf(),
            match manual_error(old(store)@, caller, giveaway_id, winners@, now) {
                Some(e) => r == Err::<(AccountId, Vec<GiveawayWinnerSelected>), Error>(e)
                    && final(store)@ == old(store)@,
                None => selection_outcome(
                    old(store)@,
                    final(store)@,
                    r,
                    giveaway_id,
                    winners@,
                    now,
                ),
            },
    {
        if let Some(e) = Self::manual_refusal(store, caller, giveaway_id, &winners, now) {
            return Err(e);
        }
        let ghost before = old(store)@;
        let ghost r0 = before.giveaways[giveaway_id];
        let ghost chosen = winners@;
        let rec = store.take_giveaway(giveaway_id);
        let out = Self::finalize_winners(store, giveaway_id, rec, winners, now);
        proof {
            assert(store@ =~= before.with_giveaway(giveaway_id, finalized(r0, chosen, now)));
            lemma_finalize_keeps_wf(before, giveaway_id, chosen, now);
        }
        Ok(out)
    }

    /// Finalizes a merit giveaway: the `winner_count` participants with the
    /// highest reputation win, ties going to the earlier entrant.
    /// `reputations[i]` is the current reputation of the `i`-th entrant.
    pub fn finalize_merit_winners(
        store: &mut Storage,
        caller: AccountId,
        giveaway_id: u64,
        reputations: Vec<u64>,
        now: u64,
    ) -> (r: Result<(AccountId, Vec<GiveawayWinnerSelected>), Error>)
        requires
            old(store)@.wf(),
            merit_error(old(store)@, caller, giveaway_id, now) is None ==> {
                &&& now + CLAIM_WINDOW_SECONDS <= u64::MAX
                &&& reputations.len() == old(store)@.giveaways[giveaway_id].participants.len()
            },
        ensures
            final(store)@.wf(),
            match merit_error(old(store)@, caller, giveaway_id, now) {
                Some(e) => r == Err::<(AccountId, Vec<GiveawayWinnerSelected>), Error>(e)
                    && final(store)@ == old(store)@,
                None => selection_outcome(
                    old(store)@,
                    final(store)@,
                    r,
                    giveaway_id,
                    merit_winners(old(store)@.giveaways[giveaway_id], reputations@),
                    now,
                ),
            },
    {
        if let Some(e) = Self::merit_refusal(store, caller, giveaway_id, now) {
            return Err(e);
        }
        let rec = match store.giveaways.get(&giveaway_id) {
            Some(rec) => rec,
            None => {
                return Err(Error::GiveawayNotFound);
            },
        };
        let ghost before = old(store)@;
        let ghost r0 = before.giveaways[giveaway_id];
        let winners = select_merit_winners(&rec.participants, &reputations, rec.giveaway.winner_count);
        proof {
            lemma_merit_winners_distinct(r0.participants, reputations@, r0.giveaway.winner_count as int);
        }
        let rec = store.take_giveaway(giveaway_id);
        let out = Self::finalize_winners(store, giveaway_id, rec, winners, now);
        proof {
            assert(store@ =~= before.with_giveaway(
                giveaway_id,
                finalized(r0, merit_winners(r0, reputations@), now),
            ));
            lemma_finalize_keeps_wf(before, giveaway_id, merit_winners(r0, reputations@), now);
        }
        Ok(out)
    }
}

/// What a successful prize claim hands out: the announcement, the net payout
/// to the winner, the fee kept by the contract and, when this claim completes
/// the giveaway, the creator whose reputation is to be credited.
#[derive(Clone, Copy, Debug, PartialEq, Eq, Structural)]
pub struct PrizeClaim {
    pub event: GiveawayPrizeClaimed,
    pub payout: Payout,
    pub fee_amount: i128,
    pub credit_creator: Option<AccountId>,
}

/// Position of `winner` among `winners`.
pub open spec fn winner_index(winners: Seq<AccountId>, winner: AccountId) -> int {
    choose|i: int| 0 <= i < winners.len() && winners[i] == winner
}

/// Gross share of `winner` in giveaway `g`.
pub open spec fn share_of(g: GiveawayView, winner: AccountId) -> int {
    gross_share(g.amount as int, g.winner_count as int, winner_index(g.winners, winner))
}

/// Why `winner` cannot claim a prize of giveaway `id` at `now`, if it cannot.
pub open spec fn claim_error(s: StorageView, id: u64, winner: AccountId, now: u64) -> Option<Error> {
    if s.paused {
        Some(Error::ContractPaused)
    } else if !s.giveaways.contains_key(id) {
        Some(Error::GiveawayNotFound)
    } else {
        let r = s.giveaways[id];
        let g = r.giveaway;
        if g.status != GiveawayStatus::Claimable {
            Some(Error::InvalidStatus)
        } else if now > g.claim_deadline {
            Some(Error::ClaimWindowExpired)
        } else if !g.winners.contains(winner) {
            Some(Error::NotWinner)
        } else if r.claimed.contains(winner) {
            Some(Error::AlreadyClaimed)
        } else {
            let gross = share_of(g, winner);
            let bps = s.resolved_fee(g);
            if !(i128::MIN <= gross * bps <= i128::MAX) {
                Some(Error::ArithmeticOverflow)
            } else if !(i128::MIN <= s.fees_in(g.token) + fee_of(gross, bps as int) <= i128::MAX) {
                Some(Error::ArithmeticOverflow)
            } else {
                None
            }
        }
    }
}

/// Fee taken from `winner`'s claim on giveaway `id`.
pub open spec fn claim_fee(s: StorageView, id: u64, winner: AccountId) -> int {
    let g = s.giveaways[id].giveaway;
    fee_of(share_of(g, winner), s.resolved_fee(g) as int)
}

/// The state after `winner` claimed its prize of giveaway `id`: the claim is
/// recorded, the fee is added to the token's collected fees, and the
/// giveaway is completed once every winner has claimed.
pub open spec fn after_claim(s: StorageView, id: u64, winner: AccountId) -> StorageView {
    let r = s.giveaways[id];
    let g = r.giveaway;
    let count = (g.claimed_count + 1) as u32;
    StorageView {
        collected_fees: s.collected_fees.insert(
            g.token,
            (s.fees_in(g.token) + claim_fee(s, id, winner)) as i128,
        ),
        giveaways: s.giveaways.insert(
            id,
            GiveawayRecordView {
                giveaway: GiveawayView {
                    claimed_count: count,
                    status: if count == g.winners.len() {
                        GiveawayStatus::Completed
                    } else {
                        GiveawayStatus::Claimable
                    },
                    ..g
                },
                claimed: r.claimed.push(winner),
                ..r
            },
        ),
        ..s
    }
}

/// What a successful claim reports.
pub open spec fn claim_result(s: StorageView, id: u64, winner: AccountId) -> PrizeClaim {
    let g = s.giveaways[id].giveaway;
    let net = (share_of(g, winner) - claim_fee(s, id, winner)) as i128;
    PrizeClaim {
        event: GiveawayPrizeClaimed { winner, giveaway_id: id, net_amount: net },
        payout: Payout { token: g.token, to: winner, amount: net },
        fee_amount: claim_fee(s, id, winner) as i128,
        credit_creator: if g.claimed_count + 1 == g.winners.len() {
            Some(g.creator)
        } else {
            None
        },
    }
}

/// Why `caller` cannot recover the unclaimed shares of giveaway `id` at `now`, if it cannot.
pub open spec fn recover_error(s: StorageView, id: u64, caller: AccountId, now: u64) -> Option<Error> {
    if s.paused {
        Some(Error::ContractPaused)
    } else if !s.giveaways.contains_key(id) {
        Some(Error::GiveawayNotFound)
    } else {
        let g = s.giveaways[id].giveaway;
        if !creator_or_admin(s, caller, g) {
            Some(Error::NotCreator)
        } else if g.status != GiveawayStatus::Claimable {
            Some(Error::InvalidStatus)
        } else if now <= g.claim_deadline {
            Some(Error::ClaimWindowNotExpired)
        } else {
            None
        }
    }
}

/// Why the collected fees cannot be withdrawn, if they cannot.
pub open spec fn withdraw_error(s: StorageView) -> Option<Error> {
    if s.paused {
        Some(Error::ContractPaused)
    } else if s.admin is None {
        Some(Error::NotAdmin)
    } else {
        None
    }
}

/// Gross shares of the winners of giveaway `r` who never claimed.
pub open spec fn recoverable_amount(r: GiveawayRecordView) -> int {
    unclaimed_total(
        r.giveaway.amount as int,
        r.giveaway.winner_count as int,
        r.giveaway.winners,
        r.claimed,
        r.giveaway.winners.len(),
    )
}

impl GiveawayContract {
    /// A winner claims its share of a claimable giveaway before the claim
    /// deadline: the gross share minus the fee is paid out, the fee is kept
    /// as collected fees.
    pub fn claim_prize(store: &mut Storage, giveaway_id: u64, winner: AccountId, now: u64) -> (r:
        Result<PrizeClaim, Error>)
        requires
            old(store)@.wf(),
        ensures
            final(store)@.wf(),
            match claim_error(old(store)@, giveaway_id, winner, now) {
                Some(e) => r == Err::<PrizeClaim, Error>(e) && final(store)@ == old(store)@,
                None => r == Ok::<PrizeClaim, Error>(claim_result(old(store)@, giveaway_id, winner))
                    && final(store)@ == after_claim(old(store)@, giveaway_id, winner),
            },
    {
        if store.paused {
            return Err(Error::ContractPaused);
        }
        let rec = match store.giveaways.get(&giveaway_id) {
            Some(rec) => rec,
            None => {
                return Err(Error::GiveawayNotFound);
            },
        };
        let ghost before = old(store)@;
        let ghost r0 = before.giveaways[giveaway_id];
        assert(giveaway_record_wf(giveaway_id, r0));
        if rec.giveaway.status != GiveawayStatus::Claimable {
            return Err(Error::InvalidStatus);
        }
        if now > rec.giveaway.claim_deadline {
            return Err(Error::ClaimWindowExpired);
        }
        let index = match find_winner_index(&rec.giveaway.winners, winner) {
            Some(i) => i,
            None => {
                return Err(Error::NotWinner);
            },
        };
        assert(index == winner_index(r0.giveaway.winners, winner));
        if contains_account(&rec.claimed, winner) {
            return Err(Error::AlreadyClaimed);
        }
        let fee_bps = store.resolve_fee_bps(&rec.giveaway);
        let gross_share = winner_gross_share(rec.giveaway.amount, rec.giveaway.winner_count, index);
        let (fee_amount, net_amount) = match split_fee(gross_share, fee_bps) {
            Some(split) => split,
            None => {
                return Err(Error::ArithmeticOverflow);
            },
        };
        let token = rec.giveaway.token;
        let current_fees = store.collected_fees(token);
        let new_fees = match current_fees.checked_add(fee_amount) {
            Some(f) => f,
            None => {
                return Err(Error::ArithmeticOverflow);
            },
        };
        let ghost fees_before = store.collected_fees@;
        store.collected_fees.insert(token, new_fees);
        let mut rec = store.take_giveaway(giveaway_id);
        rec.claimed.push(winner);
        rec.giveaway.claimed_count = rec.giveaway.claimed_count + 1;
        let completed = rec.giveaway.claimed_count as usize == rec.giveaway.winners.len();
        if completed {
            rec.giveaway.status = GiveawayStatus::Completed;
        }
        let creator = rec.giveaway.creator;
        store.put_giveaway(giveaway_id, rec);
        let claim = PrizeClaim {
            event: GiveawayPrizeClaimed { winner, giveaway_id, net_amount },
            payout: Payout { token, to: winner, amount: net_amount },
            fee_amount,
            credit_creator: if completed {
                Some(creator)
            } else {
                None
            },
        };
        proof {
            assert(store@ =~= after_claim(before, giveaway_id, winner));
            lemma_claim_keeps_wf(before, giveaway_id, winner);
        }
        Ok(claim)
    }

    /// After the claim deadline, the creator or the admin sweeps the shares
    /// of winners who never claimed back to the creator (the returned payout,
    /// to be made when positive; no fee is taken) and completes the giveaway.
    /// Refused while the contract is paused.
    pub fn recover_unclaimed_prize(
        store: &mut Storage,
        giveaway_id: u64,
        caller: AccountId,
        now: u64,
    ) -> (r: Result<Payout, Error>)
        requires
            old(store)@.wf(),
        ensures
            final(store)@.wf(),
            match recover_error(old(store)@, giveaway_id, caller, now) {
                Some(e) => r == Err::<Payout, Error>(e) && final(store)@ == old(store)@,
                None => {
                    let rec = old(store)@.giveaways[giveaway_id];
                    &&& r == Ok::<Payout, Error>(
                        Payout {
                            token: rec.giveaway.token,
                            to: rec.giveaway.creator,
                            amount: recoverable_amount(rec) as i128,
                        },
                    )
                    &&& final(store)@ == old(store)@.with_giveaway(
                        giveaway_id,
                        with_status(rec, GiveawayStatus::Completed),
                    )
                },
            },
    {
        if store.paused {
            return Err(Error::ContractPaused);
        }
        let rec = match store.giveaways.get(&giveaway_id) {
            Some(rec) => rec,
            None => {
                return Err(Error::GiveawayNotFound);
            },
        };
        let ghost before = old(store)@;
        let ghost r0 = before.giveaways[giveaway_id];
        assert(giveaway_record_wf(giveaway_id, r0));
        if !Self::is_creator_or_admin(store, caller, &rec.giveaway) {
            return Err(Error::NotCreator);
        }
        if rec.giveaway.status != GiveawayStatus::Claimable {
            return Err(Error::InvalidStatus);
        }
        if now <= rec.giveaway.claim_deadline {
            return Err(Error::ClaimWindowNotExpired);
        }
        let amount = rec.giveaway.amount;
        let wc = rec.giveaway.winner_count;
        let mut recoverable: i128 = 0;
        let mut index: usize = 0;
        while index < rec.giveaway.winners.len()
            invariant
                rec@ == r0,
                giveaway_record_wf(giveaway_id, r0),
                r0.giveaway.status == GiveawayStatus::Claimable,
                amount == r0.giveaway.amount,
                wc == r0.giveaway.winner_count,
                index <= rec.giveaway.winners.len(),
                recoverable == unclaimed_total(
                    amount as int,
                    wc as int,
                    r0.giveaway.winners,
                    r0.claimed,
                    index as nat,
                ),
            decreases rec.giveaway.winners.len() - index,
        {
            let winner = rec.giveaway.winners[index];
            if !contains_account(&rec.claimed, winner) {
                let share = winner_gross_share(amount, wc, index as u32);
                proof {
                    lemma_unclaimed_prefix_bounds(
                        amount as int,
                        wc as int,
                        r0.giveaway.winners,
                        r0.claimed,
                        (index + 1) as nat,
                    );
                }
                recoverable = recoverable + share;
            }
            index += 1;
        }
        let token = rec.giveaway.token;
        let creator = rec.giveaway.creator;
        let mut rec = store.take_giveaway(giveaway_id);
        rec.giveaway.status = GiveawayStatus::Completed;
        store.put_giveaway(giveaway_id, rec);
        proof {
            assert(store@ =~= before.with_giveaway(
                giveaway_id,
                with_status(r0, GiveawayStatus::Completed),
            ));
        }
        Ok(Payout { token, to: creator, amount: recoverable })
    }

    /// The admin withdraws every fee collected in `token`: the returned payout
    /// (to the admin) when there is something to withdraw, after which the
    /// collected amount is zero. Refused while the contract is paused.
    pub fn withdraw_fees(store: &mut Storage, token: AccountId) -> (r: Result<Option<Payout>, Error>)
        requires
            old(store)@.wf(),
        ensures
            final(store)@.wf(),
            match withdraw_error(old(store)@) {
                Some(e) => r == Err::<Option<Payout>, Error>(e) && final(store)@ == old(store)@,
                None => {
                    let admin = old(store)@.admin.unwrap();
                    if old(store)@.fees_in(token) > 0 {
                        &&& r == Ok::<Option<Payout>, Error>(
                            Some(Payout { token, to: admin, amount: old(store)@.fees_in(token) }),
                        )
                        &&& final(store)@ == (StorageView {
                            collected_fees: old(store)@.collected_fees.insert(token, 0),
                            ..old(store)@
                        })
                    } else {
                        r == Ok::<Option<Payout>, Error>(None) && final(store)@ == old(store)@
                    }
                },
            },
    {
        if store.paused {
            return Err(Error::ContractPaused);
        }
        let admin = match store.admin {
            Some(a) => a,
            None => {
                return Err(Error::NotAdmin);
            },
        };
        let fee_amount = store.collected_fees(token);
        if fee_amount > 0 {
            store.collected_fees.insert(token, 0);
            Ok(Some(Payout { token, to: admin, amount: fee_amount }))
        } else {
            Ok(None)
        }
    }
}

/// A successful claim keeps the state well formed.
proof fn lemma_claim_keeps_wf(s: StorageView, id: u64, winner: AccountId)
    requires
        s.wf(),
        s.giveaways.contains_key(id),
        s.giveaways[id].giveaway.status == GiveawayStatus::Claimable,
        s.giveaways[id].giveaway.winners.contains(winner),
        !s.giveaways[id].claimed.contains(winner),
    ensures
        after_claim(s, id, winner).wf(),
{
    let r = s.giveaways[id];
    let g = r.giveaway;
    assert(giveaway_record_wf(id, r));
    let claimed2 = r.claimed.push(winner);
    assert(claimed2.to_set().subset_of(g.winners.to_set())) by {
        assert forall|x: AccountId| claimed2.to_set().contains(x) implies g.winners.to_set().contains(x) by {
            let k = choose|k: int| 0 <= k < claimed2.len() && claimed2[k] == x;
            if k < r.claimed.len() {
                assert(g.winners.contains(r.claimed[k]));
            }
        }
    }
    claimed2.unique_seq_to_set();
    g.winners.lemma_cardinality_of_set();
    vstd::set_lib::lemma_len_subset(claimed2.to_set(), g.winners.to_set());
    let n = after_claim(s, id, winner).giveaways[id];
    assert forall|k: int| 0 <= k < n.claimed.len() implies n.giveaway.winners.contains(
        #[trigger] n.claimed[k],
    ) by {
        if k < r.claimed.len() {
            assert(n.claimed[k] == r.claimed[k]);
        }
    }
    assert(giveaway_record_wf(id, n));
}

/// Selecting a valid list of winners keeps the state well formed.
proof fn lemma_finalize_keeps_wf(s: StorageView, id: u64, winners: Seq<AccountId>, now: u64)
    requires
        s.wf(),
        s.giveaways.contains_key(id),
        s.giveaways[id].giveaway.status == GiveawayStatus::Active,
        winners.len() == s.giveaways[id].giveaway.winner_count,
        winners.no_duplicates(),
        forall|k: int| 0 <= k < winners.len() ==> s.giveaways[id].participants.contains(#[trigger] winners[k]),
    ensures
        s.with_giveaway(id, finalized(s.giveaways[id], winners, now)).wf(),
{
    let r = s.giveaways[id];
    assert(giveaway_record_wf(id, r));
    assert(r.claimed.len() == 0);
    assert(giveaway_record_wf(id, finalized(r, winners, now)));
}

/// What creating a giveaway does: refuse with `create_error`, or store the new
/// giveaway under the next id and report it.
pub open spec fn create_outcome(
    before: StorageView,
    after: StorageView,
    r: Result<GiveawayCreated, Error>,
    creator: AccountId,
    token: AccountId,
    amount: i128,
    title: Seq<char>,
    duration_seconds: u64,
    winner_count: u32,
    verification: Option<ParticipantVerification>,
    selection_method: SelectionMethod,
    fee_bps: Option<u32>,
    now: u64,
) -> bool {
    match create_error(before, token, winner_count, fee_bps) {
        Some(e) => r == Err::<GiveawayCreated, Error>(e) && after == before,
        None => {
            let id = (before.giveaway_counter + 1) as u64;
            let end_time = (now + duration_seconds) as u64;
            &&& r == Ok::<GiveawayCreated, Error>(
                GiveawayCreated {
                    giveaway_id: id,
                    creator,
                    token_address: token,
                    total_amount: amount,
                    end_time,
                },
            )
            &&& !before.giveaways.contains_key(id)
            &&& after == (StorageView {
                giveaway_counter: id,
                giveaways: before.giveaways.insert(
                    id,
                    new_giveaway(
                        id,
                        creator,
                        token,
                        amount,
                        title,
                        end_time,
                        winner_count,
                        verification,
                        selection_method,
                        fee_bps,
                    ),
                ),
                ..before
            })
        },
    }
}

/// Entering keeps a giveaway well formed.
proof fn lemma_entry_keeps_wf(id: u64, r: GiveawayRecordView, participant: AccountId)
    requires
        giveaway_record_wf(id, r),
        r.giveaway.status == GiveawayStatus::Active,
        !r.participants.contains(participant),
        r.giveaway.participant_count < u32::MAX,
    ensures
        giveaway_record_wf(id, after_entry(r, participant)),
{
    let n = after_entry(r, participant);
    let g = r.giveaway;
    assert(!g.winners.contains(participant));
    assert forall|k: int| 0 <= k < n.giveaway.winners.len() implies n.participants.contains(
        #[trigger] n.giveaway.winners[k],
    ) by {
        if k < g.winners.len() {
            assert(r.participants.contains(g.winners[k]));
            let j = choose|j: int| 0 <= j < r.participants.len() && r.participants[j] == g.winners[k];
            assert(n.participants[j] == g.winners[k]);
        } else {
            assert(n.participants[r.participants.len() as int] == participant);
        }
    }
}

} // verus!
