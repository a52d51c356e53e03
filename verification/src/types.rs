use vstd::prelude::*;

verus! {

/// Identity of an account, a contract or a token on the ledger.
pub type AccountId = u64;

/// Errors reported by the contracts, with their stable numeric codes.
#[derive(Clone, Copy, Debug, PartialEq, Eq, PartialOrd, Ord, Structural)]
pub enum Error {
    GiveawayNotFound,
    InvalidStatus,
    GiveawayStillActive,
    GiveawayEnded,
    NoParticipants,
    InvalidIndex,
    NotCreator,
    AlreadyEntered,
    UnauthorizedParticipant,
    InvalidWinnerCount,
    InsufficientParticipants,
    HelpRequestNotFound,
    HelpRequestAlreadyFullyFunded,
    HelpRequestExpired,
    InvalidDonationAmount,
    AlreadyInitialized,
    ArithmeticOverflow,
    NotAdmin,
    InvalidGoalAmount,
    HelpRequestAlreadyExists,
    TokenNotSupported,
    UsernameTaken,
    AlreadyFlagged,
    AlreadyDisputed,
    NotDisputed,
    NotAuthorizedResolver,
    ClaimWindowExpired,
    ClaimWindowNotExpired,
    AlreadyClaimed,
    NotWinner,
    InvalidFee,
    ContractPaused,
}

/// The numeric code under which each error is reported.
pub open spec fn error_code(e: Error) -> u32 {
    match e {
        Error::GiveawayNotFound => 1,
        Error::InvalidStatus => 2,
        Error::GiveawayStillActive => 3,
        Error::GiveawayEnded => 4,
        Error::NoParticipants => 5,
        Error::InvalidIndex => 6,
        Error::NotCreator => 7,
        Error::AlreadyEntered => 8,
        Error::UnauthorizedParticipant => 9,
        Error::InvalidWinnerCount => 10,
        Error::InsufficientParticipants => 11,
        Error::HelpRequestNotFound => 12,
        Error::HelpRequestAlreadyFullyFunded => 13,
        Error::HelpRequestExpired => 30,
        Error::InvalidDonationAmount => 14,
        Error::AlreadyInitialized => 15,
        Error::ArithmeticOverflow => 16,
        Error::NotAdmin => 17,
        Error::InvalidGoalAmount => 18,
        Error::HelpRequestAlreadyExists => 19,
        Error::TokenNotSupported => 20,
        Error::UsernameTaken => 21,
        Error::AlreadyFlagged => 22,
        Error::AlreadyDisputed => 23,
        Error::NotDisputed => 24,
        Error::NotAuthorizedResolver => 25,
        Error::ClaimWindowExpired => 26,
        Error::ClaimWindowNotExpired => 27,
        Error::AlreadyClaimed => 28,
        Error::NotWinner => 29,
        Error::InvalidFee => 31,
        Error::ContractPaused => 32,
    }
}

impl Error {
    /// The error's numeric code.
    pub fn code(&self) -> (c: u32)
        ensures
            c == error_code(*self),
    {
        match self {
            Error::GiveawayNotFound => 1,
            Error::InvalidStatus => 2,
            Error::GiveawayStillActive => 3,
            Error::GiveawayEnded => 4,
            Error::NoParticipants => 5,
            Error::InvalidIndex => 6,
            Error::NotCreator => 7,
            Error::AlreadyEntered => 8,
            Error::UnauthorizedParticipant => 9,
            Error::InvalidWinnerCount => 10,
            Error::InsufficientParticipants => 11,
            Error::HelpRequestNotFound => 12,
            Error::HelpRequestAlreadyFullyFunded => 13,
            Error::HelpRequestExpired => 30,
            Error::InvalidDonationAmount => 14,
            Error::AlreadyInitialized => 15,
            Error::ArithmeticOverflow => 16,
            Error::NotAdmin => 17,
            Error::InvalidGoalAmount => 18,
            Error::HelpRequestAlreadyExists => 19,
            Error::TokenNotSupported => 20,
            Error::UsernameTaken => 21,
            Error::AlreadyFlagged => 22,
            Error::AlreadyDisputed => 23,
            Error::NotDisputed => 24,
            Error::NotAuthorizedResolver => 25,
            Error::ClaimWindowExpired => 26,
            Error::ClaimWindowNotExpired => 27,
            Error::AlreadyClaimed => 28,
            Error::NotWinner => 29,
            Error::InvalidFee => 31,
            Error::ContractPaused => 32,
        }
    }

    /// The error reported under `code`, if any.
    pub fn from_code(code: u32) -> (r: Option<Error>)
        ensures
            match r {
                Some(e) => error_code(e) == code,
                None => forall|e: Error| error_code(e) != code,
            },
    {
        match code {
            1 => Some(Error::GiveawayNotFound),
            2 => Some(Error::InvalidStatus),
            3 => Some(Error::GiveawayStillActive),
            4 => Some(Error::GiveawayEnded),
            5 => Some(Error::NoParticipants),
            6 => Some(Error::InvalidIndex),
            7 => Some(Error::NotCreator),
            8 => Some(Error::AlreadyEntered),
            9 => Some(Error::UnauthorizedParticipant),
            10 => Some(Error::InvalidWinnerCount),
            11 => Some(Error::InsufficientParticipants),
            12 => Some(Error::HelpRequestNotFound),
            13 => Some(Error::HelpRequestAlreadyFullyFunded),
            14 => Some(Error::InvalidDonationAmount),
            15 => Some(Error::AlreadyInitialized),
            16 => Some(Error::ArithmeticOverflow),
            17 => Some(Error::NotAdmin),
            18 => Some(Error::InvalidGoalAmount),
            19 => Some(Error::HelpRequestAlreadyExists),
            20 => Some(Error::TokenNotSupported),
            21 => Some(Error::UsernameTaken),
            22 => Some(Error::AlreadyFlagged),
            23 => Some(Error::AlreadyDisputed),
            24 => Some(Error::NotDisputed),
            25 => Some(Error::NotAuthorizedResolver),
            26 => Some(Error::ClaimWindowExpired),
            27 => Some(Error::ClaimWindowNotExpired),
            28 => Some(Error::AlreadyClaimed),
            29 => Some(Error::NotWinner),
            30 => Some(Error::HelpRequestExpired),
            31 => Some(Error::InvalidFee),
            32 => Some(Error::ContractPaused),
            _ => None,
        }
    }
}

/// Distinct errors are reported under distinct codes, and each code reads back
/// as the error it was written for.
pub proof fn lemma_error_code_round_trip(e: Error, f: Error)
    ensures
        error_code(e) == error_code(f) ==> e == f,
        1 <= error_code(e) <= 32,
{
}

/// Lifecycle of a giveaway.
#[derive(Clone, Copy, Debug, PartialEq, Eq, Structural)]
pub enum GiveawayStatus {
    Active,
    Claimable,
    Completed,
    Suspended,
    Disputed,
    ResolvedRelease,
    ResolvedRefund,
    UnderAppeal,
    Cancelled,
}

/// How the winners of a giveaway are chosen.
#[derive(Clone, Copy, Debug, PartialEq, Eq, Structural)]
pub enum SelectionMethod {
    /// Pseudo-random picks among the participants.
    Random,
    /// The creator (or the admin) names the winners.
    Manual,
    /// The participants with the highest reputation win.
    Merit,
    /// Winners are the first `winner_count` entrants, in registration order.
    FirstCome,
}

/// Lifecycle of a help request.
#[derive(Clone, Copy, Debug, PartialEq, Eq, Structural)]
pub enum HelpRequestStatus {
    Open,
    FullyFunded,
    Closed,
    Cancelled,
    Suspended,
    Disputed,
    ResolvedRelease,
    ResolvedRefund,
    UnderAppeal,
}

/// Kind of content that can be flagged or appealed.
#[derive(Clone, Copy, Debug, PartialEq, Eq, Structural)]
pub enum ContentType {
    Giveaway,
    HelpRequest,
}

/// Who may enter a giveaway: the listed accounts, or (when
/// `uses_reputation` is set) any account with at least `min_reputation`.
#[derive(Clone, Debug)]
pub struct ParticipantVerification {
    pub allowlist: Vec<AccountId>,
    pub min_reputation: u64,
    pub uses_reputation: bool,
}

/// A giveaway as the contract stores it.
#[derive(Clone, Debug)]
pub struct Giveaway {
    pub id: u64,
    pub creator: AccountId,
    pub token: AccountId,
    pub amount: i128,
    pub title: String,
    pub participant_count: u32,
    pub end_time: u64,
    pub status: GiveawayStatus,
    pub winner_count: u32,
    pub winners: Vec<AccountId>,
    /// 0: open to all, 1: allowlist, 2: minimum reputation.
    pub verification_type: u32,
    pub min_reputation: u64,
    pub selection_method: SelectionMethod,
    /// Ledger timestamp after which unclaimed shares can be recovered;
    /// set when the giveaway becomes `Claimable`.
    pub claim_deadline: u64,
    /// Number of winners who have claimed their share.
    pub claimed_count: u32,
    /// Per-giveaway fee override in basis points.
    pub fee_bps: Option<u32>,
}

/// Mathematical value of a [`Giveaway`].
#[verifier::ext_equal]
pub struct GiveawayView {
    pub id: u64,
    pub creator: AccountId,
    pub token: AccountId,
    pub amount: i128,
    pub title: Seq<char>,
    pub participant_count: u32,
    pub end_time: u64,
    pub status: GiveawayStatus,
    pub winner_count: u32,
    pub winners: Seq<AccountId>,
    pub verification_type: u32,
    pub min_reputation: u64,
    pub selection_method: SelectionMethod,
    pub claim_deadline: u64,
    pub claimed_count: u32,
    pub fee_bps: Option<u32>,
}

impl View for Giveaway {
    type V = GiveawayView;

    open spec fn view(&self) -> GiveawayView {
        GiveawayView {
            id: self.id,
            creator: self.creator,
            token: self.token,
            amount: self.amount,
            title: self.title@,
            participant_count: self.participant_count,
            end_time: self.end_time,
            status: self.status,
            winner_count: self.winner_count,
            winners: self.winners@,
            verification_type: self.verification_type,
            min_reputation: self.min_reputation,
            selection_method: self.selection_method,
            claim_deadline: self.claim_deadline,
            claimed_count: self.claimed_count,
            fee_bps: self.fee_bps,
        }
    }
}

/// A help request as the contract stores it.
#[derive(Clone, Copy, Debug, PartialEq, Eq, Structural)]
pub struct HelpRequest {
    pub id: u64,
    pub creator: AccountId,
    pub token: AccountId,
    pub goal: i128,
    pub raised_amount: i128,
    pub status: HelpRequestStatus,
    pub is_verified: bool,
    pub created_at: u64,
    pub expires_at: Option<u64>,
}

} // verus!
