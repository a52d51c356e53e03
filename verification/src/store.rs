//! The contract's persistent state, its mathematical view and the invariant
//! every operation keeps.

use vstd::prelude::*;
use std::collections::HashMap;
use crate::types::{AccountId, Error, Giveaway, GiveawayStatus, GiveawayView, HelpRequest};

verus! {

broadcast use vstd::std_specs::hash::group_hash_axioms;

/// Fee, in basis points, when neither the giveaway, its token nor the
/// contract configures one.
pub const DEFAULT_FEE_BPS: u32 = 100;

/// Highest fee, in basis points, that can be configured (100%).
pub const MAX_FEE_BPS: u32 = 10_000;

/// A giveaway together with the records kept beside it: its entrants in
/// registration order, its allowlist and the winners who have claimed.
pub struct GiveawayRecord {
    pub giveaway: Giveaway,
    pub participants: Vec<AccountId>,
    pub allowlist: Vec<AccountId>,
    pub claimed: Vec<AccountId>,
}

#[verifier::ext_equal]
pub struct GiveawayRecordView {
    pub giveaway: GiveawayView,
    pub participants: Seq<AccountId>,
    pub allowlist: Seq<AccountId>,
    pub claimed: Seq<AccountId>,
}

impl View for GiveawayRecord {
    type V = GiveawayRecordView;

    open spec fn view(&self) -> GiveawayRecordView {
        GiveawayRecordView {
            giveaway: self.giveaway@,
            participants: self.participants@,
            allowlist: self.allowlist@,
            claimed: self.claimed@,
        }
    }
}

/// A help request together with what each donor has given to it and whether
/// its creator has withdrawn the funds.
pub struct HelpRequestRecord {
    pub request: HelpRequest,
    pub donations: HashMap<AccountId, i128>,
    pub funds_claimed: bool,
}

#[verifier::ext_equal]
pub struct HelpRequestRecordView {
    pub request: HelpRequest,
    pub donations: Map<AccountId, i128>,
    pub funds_claimed: bool,
}

impl View for HelpRequestRecord {
    type V = HelpRequestRecordView;

    open spec fn view(&self) -> HelpRequestRecordView {
        HelpRequestRecordView {
            request: self.request,
            donations: self.donations@,
            funds_claimed: self.funds_claimed,
        }
    }
}

/// The contract's state.
pub struct Storage {
    pub(crate) admin: Option<AccountId>,
    pub(crate) fee: Option<u32>,
    pub(crate) paused: bool,
    pub(crate) giveaway_counter: u64,
    pub(crate) token_fees: HashMap<AccountId, u32>,
    pub(crate) allowed_tokens: HashMap<AccountId, bool>,
    pub(crate) collected_fees: HashMap<AccountId, i128>,
    pub(crate) giveaways: HashMap<u64, GiveawayRecord>,
    pub(crate) requests: HashMap<u64, HelpRequestRecord>,
}

/// Mathematical value of the contract's state.
#[verifier::ext_equal]
pub struct StorageView {
    pub admin: Option<AccountId>,
    pub fee: Option<u32>,
    pub paused: bool,
    pub giveaway_counter: u64,
    pub token_fees: Map<AccountId, u32>,
    pub allowed_tokens: Map<AccountId, bool>,
    pub collected_fees: Map<AccountId, i128>,
    pub giveaways: Map<u64, GiveawayRecordView>,
    pub requests: Map<u64, HelpRequestRecordView>,
}

impl View for Storage {
    type V = StorageView;

    open(crate) spec fn view(&self) -> StorageView {
        StorageView {
            admin: self.admin,
            fee: self.fee,
            paused: self.paused,
            giveaway_counter: self.giveaway_counter,
            token_fees: self.token_fees@,
            allowed_tokens: self.allowed_tokens@,
            collected_fees: self.collected_fees@,
            giveaways: self.giveaways@.map_values(|r: GiveawayRecord| r@),
            requests: self.requests@.map_values(|r: HelpRequestRecord| r@),
        }
    }
}

/// A fee configuration is acceptable when it is at most 100%.
pub open spec fn fee_ok(fee_bps: u32) -> bool {
    fee_bps <= MAX_FEE_BPS
}

/// What every stored giveaway satisfies.
pub open spec fn giveaway_record_wf(id: u64, r: GiveawayRecordView) -> bool {
    let g = r.giveaway;
    &&& g.id == id
    &&& g.winner_count >= 1
    &&& g.participant_count == r.participants.len()
    &&& r.participants.no_duplicates()
    &&& g.winners.len() <= g.winner_count
    &&& g.winners.no_duplicates()
    &&& forall|k: int| 0 <= k < g.winners.len() ==> r.participants.contains(#[trigger] g.winners[k])
    &&& r.claimed.no_duplicates()
    &&& forall|k: int| 0 <= k < r.claimed.len() ==> g.winners.contains(#[trigger] r.claimed[k])
    &&& g.claimed_count == r.claimed.len()
    &&& g.status == GiveawayStatus::Claimable ==> g.winners.len() == g.winner_count
        && r.claimed.len() < g.winners.len()
    &&& g.status != GiveawayStatus::Claimable && g.status != GiveawayStatus::Completed
        ==> r.claimed.len() == 0
    &&& (g.fee_bps matches Some(f) ==> fee_ok(f))
}

/// What every stored help request satisfies.
pub open spec fn request_record_wf(id: u64, r: HelpRequestRecordView) -> bool {
    r.request.id == id
}

impl StorageView {
    /// The state's invariant.
    pub open spec fn wf(self) -> bool {
        &&& (self.fee matches Some(f) ==> fee_ok(f))
        &&& forall|t: AccountId| #[trigger]
            self.token_fees.contains_key(t) ==> fee_ok(self.token_fees[t])
        &&& forall|id: u64| #[trigger]
            self.giveaways.contains_key(id) ==> 1 <= id <= self.giveaway_counter
                && giveaway_record_wf(id, self.giveaways[id])
        &&& forall|id: u64| #[trigger]
            self.requests.contains_key(id) ==> request_record_wf(id, self.requests[id])
    }

    /// Whether `token` may back new giveaways.
    pub open spec fn token_allowed(self, token: AccountId) -> bool {
        self.allowed_tokens.contains_key(token) && self.allowed_tokens[token]
    }

    /// Fees collected so far in `token`.
    pub open spec fn fees_in(self, token: AccountId) -> i128 {
        if self.collected_fees.contains_key(token) {
            self.collected_fees[token]
        } else {
            0
        }
    }

    /// Fee rate for a claim on giveaway `g`: the giveaway's own override,
    /// else the token's fee, else the contract-wide fee, else the default.
    pub open spec fn resolved_fee(self, g: GiveawayView) -> u32 {
        match g.fee_bps {
            Some(f) => f,
            None => if self.token_fees.contains_key(g.token) {
                self.token_fees[g.token]
            } else {
                match self.fee {
                    Some(f) => f,
                    None => DEFAULT_FEE_BPS,
                }
            },
        }
    }

    /// What `check_admin` reports.
    pub open spec fn admin_check(self) -> Result<AccountId, Error> {
        match self.admin {
            Some(a) => Ok(a),
            None => Err(Error::NotAdmin),
        }
    }

    /// The state with giveaway `id` replaced by `r`.
    pub open spec fn with_giveaway(self, id: u64, r: GiveawayRecordView) -> StorageView {
        StorageView { giveaways: self.giveaways.insert(id, r), ..self }
    }

    /// The state with help request `id` replaced by `r`.
    pub open spec fn with_request(self, id: u64, r: HelpRequestRecordView) -> StorageView {
        StorageView { requests: self.requests.insert(id, r), ..self }
    }
}

impl Storage {
    /// The state of a freshly deployed contract.
    pub fn new() -> (s: Storage)
        ensures
            s@.wf(),
            s@.admin is None,
            s@.fee is None,
            !s@.paused,
            s@.giveaway_counter == 0,
            s@.token_fees == Map::<AccountId, u32>::empty(),
            s@.allowed_tokens == Map::<AccountId, bool>::empty(),
            s@.collected_fees == Map::<AccountId, i128>::empty(),
            s@.giveaways == Map::<u64, GiveawayRecordView>::empty(),
            s@.requests == Map::<u64, HelpRequestRecordView>::empty(),
    {
        let s = Storage {
            admin: None,
            fee: None,
            paused: false,
            giveaway_counter: 0,
            token_fees: HashMap::new(),
            allowed_tokens: HashMap::new(),
            collected_fees: HashMap::new(),
            giveaways: HashMap::new(),
            requests: HashMap::new(),
        };
        assert(s@.giveaways =~= Map::<u64, GiveawayRecordView>::empty());
        assert(s@.requests =~= Map::<u64, HelpRequestRecordView>::empty());
        s
    }

    /// The configured admin, or `NotAdmin` when the contract has none.
    pub fn check_admin(&self) -> (r: Result<AccountId, Error>)
        ensures
            r == self@.admin_check(),
    {
        match self.admin {
            Some(a) => Ok(a),
            None => Err(Error::NotAdmin),
        }
    }

    /// Whether value-moving operations are currently blocked.
    pub fn is_paused(&self) -> (p: bool)
        ensures
            p == self@.paused,
    {
        self.paused
    }

    /// The contract-wide fee, if one was configured.
    pub fn fee(&self) -> (f: Option<u32>)
        ensures
            f == self@.fee,
    {
        self.fee
    }

    /// Number of giveaways created so far (the id of the latest one).
    pub fn giveaway_counter(&self) -> (c: u64)
        ensures
            c == self@.giveaway_counter,
    {
        self.giveaway_counter
    }

    /// The fee configured for `token`, if any.
    pub fn token_fee(&self, token: AccountId) -> (f: Option<u32>)
        ensures
            f == (if self@.token_fees.contains_key(token) {
                Some(self@.token_fees[token])
            } else {
                None
            }),
    {
        match self.token_fees.get(&token) {
            Some(f) => Some(*f),
            None => None,
        }
    }

    /// Whether `token` may back new giveaways.
    pub fn is_token_allowed(&self, token: AccountId) -> (b: bool)
        ensures
            b == self@.token_allowed(token),
    {
        match self.allowed_tokens.get(&token) {
            Some(b) => *b,
            None => false,
        }
    }

    /// Fees collected so far in `token` and not yet withdrawn.
    pub fn collected_fees(&self, token: AccountId) -> (f: i128)
        ensures
            f == self@.fees_in(token),
    {
        match self.collected_fees.get(&token) {
            Some(f) => *f,
            None => 0,
        }
    }

    /// The stored giveaway `id`, with its entrants, allowlist and claims.
    pub fn giveaway_record(&self, id: u64) -> (r: Option<&GiveawayRecord>)
        ensures
            match r {
                Some(rec) => self@.giveaways.contains_key(id) && rec@ == self@.giveaways[id],
                None => !self@.giveaways.contains_key(id),
            },
    {
        self.giveaways.get(&id)
    }

    /// The stored help request `id`, with its donations.
    pub fn request_record(&self, id: u64) -> (r: Option<&HelpRequestRecord>)
        ensures
            match r {
                Some(rec) => self@.requests.contains_key(id) && rec@ == self@.requests[id],
                None => !self@.requests.contains_key(id),
            },
    {
        self.requests.get(&id)
    }

    /// Fee rate, in basis points, that applies to a claim on giveaway `g`.
    pub fn resolve_fee_bps(&self, g: &Giveaway) -> (fee: u32)
        ensures
            fee == self@.resolved_fee(g@),
    {
        match g.fee_bps {
            Some(f) => f,
            None => match self.token_fees.get(&g.token) {
                Some(f) => *f,
                None => match self.fee {
                    Some(f) => f,
                    None => DEFAULT_FEE_BPS,
                },
            },
        }
    }
}

impl Storage {
    /// Replaces the stored giveaway `id` by `rec`.
    pub(crate) fn put_giveaway(&mut self, id: u64, rec: GiveawayRecord)
        ensures
            final(self)@ == old(self)@.with_giveaway(id, rec@),
    {
        let ghost before = self.giveaways@;
        self.giveaways.insert(id, rec);
        proof {
            assert(before.insert(id, rec).map_values(|r: GiveawayRecord| r@) =~= before.map_values(
                |r: GiveawayRecord| r@,
            ).insert(id, rec@));
        }
    }

    /// Takes the stored giveaway `id` out for an update.
    pub(crate) fn take_giveaway(&mut self, id: u64) -> (rec: GiveawayRecord)
        requires
            old(self)@.giveaways.contains_key(id),
        ensures
            rec@ == old(self)@.giveaways[id],
            final(self)@ == (StorageView { giveaways: old(self)@.giveaways.remove(id), ..old(self)@ }),
    {
        let ghost before = self.giveaways@;
        let r = self.giveaways.remove(&id);
        proof {
            assert(self.giveaways@.map_values(|r: GiveawayRecord| r@) =~= before.map_values(
                |r: GiveawayRecord| r@,
            ).remove(id));
        }
        r.unwrap()
    }

    /// Replaces the stored help request `id` by `rec`.
    pub(crate) fn put_request(&mut self, id: u64, rec: HelpRequestRecord)
        ensures
            final(self)@ == old(self)@.with_request(id, rec@),
    {
        let ghost before = self.requests@;
        self.requests.insert(id, rec);
        proof {
            assert(before.insert(id, rec).map_values(|r: HelpRequestRecord| r@) =~= before.map_values(
                |r: HelpRequestRecord| r@,
            ).insert(id, rec@));
        }
    }

    /// Takes the stored help request `id` out for an update.
    pub(crate) fn take_request(&mut self, id: u64) -> (rec: HelpRequestRecord)
        requires
            old(self)@.requests.contains_key(id),
        ensures
            rec@ == old(self)@.requests[id],
            final(self)@ == (StorageView { requests: old(self)@.requests.remove(id), ..old(self)@ }),
    {
        let ghost before = self.requests@;
        let r = self.requests.remove(&id);
        proof {
            assert(self.requests@.map_values(|r: HelpRequestRecord| r@) =~= before.map_values(
                |r: HelpRequestRecord| r@,
            ).remove(id));
        }
        r.unwrap()
    }
}

/// Whether no account occurs twice in `accounts`.
pub fn all_distinct(accounts: &Vec<AccountId>) -> (b: bool)
    ensures
        b == accounts@.no_duplicates(),
{
    let mut i: usize = 0;
    while i < accounts.len()
        invariant
            i <= accounts.len(),
            forall|a: int, b: int| 0 <= a < i && a < b < accounts.len() ==> accounts@[a] != accounts@[b],
        decreases accounts.len() - i,
    {
        let mut j: usize = i + 1;
        while j < accounts.len()
            invariant
                i < accounts.len(),
                i + 1 <= j <= accounts.len(),
                forall|a: int, b: int|
                    0 <= a < i && a < b < accounts.len() ==> accounts@[a] != accounts@[b],
                forall|b: int| i < b < j ==> accounts@[i as int] != accounts@[b],
            decreases accounts.len() - j,
        {
            if accounts[i] == accounts[j] {
                return false;
            }
            j += 1;
        }
        i += 1;
    }
    true
}

/// Whether every account of `accounts` occurs in `within`.
pub fn all_within(accounts: &Vec<AccountId>, within: &Vec<AccountId>) -> (b: bool)
    ensures
        b == (forall|k: int| 0 <= k < accounts.len() ==> within@.contains(#[trigger] accounts@[k])),
{
    let mut k: usize = 0;
    while k < accounts.len()
        invariant
            k <= accounts.len(),
            forall|m: int| 0 <= m < k ==> within@.contains(#[trigger] accounts@[m]),
        decreases accounts.len() - k,
    {
        if !crate::selection::contains_account(within, accounts[k]) {
            return false;
        }
        k += 1;
    }
    true
}

/// Whether `rec` is a well-formed giveaway record.
pub fn giveaway_record_ok(rec: &GiveawayRecord) -> (b: bool)
    ensures
        b == giveaway_record_wf(rec.giveaway.id, rec@),
{
    let g = &rec.giveaway;
    let fee_fine = match g.fee_bps {
        Some(f) => f <= MAX_FEE_BPS,
        None => true,
    };
    g.winner_count >= 1 && g.participant_count as usize == rec.participants.len() && all_distinct(
        &rec.participants,
    ) && g.winners.len() <= g.winner_count as usize && all_distinct(&g.winners) && all_within(
        &g.winners,
        &rec.participants,
    ) && all_distinct(&rec.claimed) && all_within(&rec.claimed, &g.winners)
        && g.claimed_count as usize == rec.claimed.len() && (g.status != GiveawayStatus::Claimable
        || (g.winners.len() == g.winner_count as usize && rec.claimed.len() < g.winners.len())) && (
    g.status == GiveawayStatus::Claimable || g.status == GiveawayStatus::Completed
        || rec.claimed.len() == 0) && fee_fine
}

impl Storage {
    /// A state with the given settings and no tokens, giveaways or help
    /// requests yet; `None` when `fee` exceeds the maximum.
    pub fn with_settings(admin: Option<AccountId>, fee: Option<u32>, paused: bool, giveaway_counter: u64) -> (r: Option<Storage>)
        ensures
            match r {
                Some(s) => {
                    &&& s@.wf()
                    &&& s@ == (StorageView {
                        admin,
                        fee,
                        paused,
                        giveaway_counter,
                        token_fees: Map::empty(),
                        allowed_tokens: Map::empty(),
                        collected_fees: Map::empty(),
                        giveaways: Map::empty(),
                        requests: Map::empty(),
                    })
                },
                None => fee matches Some(f) && !fee_ok(f),
            },
    {
        if let Some(f) = fee {
            if f > MAX_FEE_BPS {
                return None;
            }
        }
        let mut s = Storage::new();
        s.admin = admin;
        s.fee = fee;
        s.paused = paused;
        s.giveaway_counter = giveaway_counter;
        Some(s)
    }

    /// Restores what the state knows of `token`: whether it is allowed, its
    /// fee and the fees collected in it. Refused (`false`, state unchanged)
    /// when the fee exceeds the maximum.
    pub fn load_token(&mut self, token: AccountId, allowed: Option<bool>, fee: Option<u32>, collected: Option<i128>) -> (ok: bool)
        requires
            old(self)@.wf(),
        ensures
            final(self)@.wf(),
            ok == !(fee matches Some(f) && !fee_ok(f)),
            !ok ==> final(self)@ == old(self)@,
            ok ==> final(self)@ == (StorageView {
                allowed_tokens: match allowed {
                    Some(a) => old(self)@.allowed_tokens.insert(token, a),
                    None => old(self)@.allowed_tokens,
                },
                token_fees: match fee {
                    Some(f) => old(self)@.token_fees.insert(token, f),
                    None => old(self)@.token_fees,
                },
                collected_fees: match collected {
                    Some(c) => old(self)@.collected_fees.insert(token, c),
                    None => old(self)@.collected_fees,
                },
                ..old(self)@
            }),
    {
        if let Some(f) = fee {
            if f > MAX_FEE_BPS {
                return false;
            }
        }
        if let Some(a) = allowed {
            self.allowed_tokens.insert(token, a);
        }
        if let Some(f) = fee {
            self.token_fees.insert(token, f);
        }
        if let Some(c) = collected {
            self.collected_fees.insert(token, c);
        }
        true
    }

    /// Restores a stored giveaway. Refused (`false`, state unchanged) unless
    /// the record is well formed and its id lies between 1 and the giveaway
    /// counter.
    pub fn load_giveaway(&mut self, rec: GiveawayRecord) -> (ok: bool)
        requires
            old(self)@.wf(),
        ensures
            final(self)@.wf(),
            ok == (1 <= rec.giveaway.id <= old(self)@.giveaway_counter && giveaway_record_wf(
                rec.giveaway.id,
                rec@,
            )),
            !ok ==> final(self)@ == old(self)@,
            ok ==> final(self)@ == old(self)@.with_giveaway(rec.giveaway.id, rec@),
    {
        let id = rec.giveaway.id;
        if id == 0 || id > self.giveaway_counter || !giveaway_record_ok(&rec) {
            return false;
        }
        self.put_giveaway(id, rec);
        true
    }

    /// Restores a stored help request with its donations and claim mark.
    pub fn load_request(&mut self, rec: HelpRequestRecord) -> (ok: bool)
        requires
            old(self)@.wf(),
        ensures
            final(self)@.wf(),
            ok,
            final(self)@ == old(self)@.with_request(rec.request.id, rec@),
    {
        let id = rec.request.id;
        self.put_request(id, rec);
        true
    }
}

} // verus!
