//! What the contracts announce, and what they ask the host to move.

use vstd::prelude::*;
use crate::types::AccountId;

verus! {

/// Tokens the contract must receive from `from` for an operation to stand.
#[derive(Clone, Copy, Debug, PartialEq, Eq, Structural)]
pub struct Deposit {
    pub token: AccountId,
    pub from: AccountId,
    pub amount: i128,
}

/// Tokens the contract must send from its escrow to `to`.
#[derive(Clone, Copy, Debug, PartialEq, Eq, Structural)]
pub struct Payout {
    pub token: AccountId,
    pub to: AccountId,
    pub amount: i128,
}

#[derive(Clone, Copy, Debug, PartialEq, Eq, Structural)]
pub struct GiveawayCreated {
    pub giveaway_id: u64,
    pub creator: AccountId,
    pub token_address: AccountId,
    pub total_amount: i128,
    pub end_time: u64,
}

/// A winner was selected; `prize_amount` is the gross share, before the fee
/// that is taken when the prize is claimed.
#[derive(Clone, Copy, Debug, PartialEq, Eq, Structural)]
pub struct GiveawayWinnerSelected {
    pub winner: AccountId,
    pub giveaway_id: u64,
    pub prize_amount: i128,
}

#[derive(Clone, Copy, Debug, PartialEq, Eq, Structural)]
pub struct GiveawayPrizeClaimed {
    pub winner: AccountId,
    pub giveaway_id: u64,
    pub net_amount: i128,
}

#[derive(Clone, Copy, Debug, PartialEq, Eq, Structural)]
pub struct HelpRequestPosted {
    pub request_id: u64,
    pub creator: AccountId,
    pub goal: i128,
}

#[derive(Clone, Copy, Debug, PartialEq, Eq, Structural)]
pub struct DonationReceived {
    pub request_id: u64,
    pub donor: AccountId,
    pub amount_donated: i128,
    pub new_total_raised: i128,
}

#[derive(Clone, Copy, Debug, PartialEq, Eq, Structural)]
pub struct RefundClaimed {
    pub request_id: u64,
    pub donor: AccountId,
    pub amount: i128,
}

#[derive(Clone, Copy, Debug, PartialEq, Eq, Structural)]
pub struct RequestCancelled {
    pub request_id: u64,
    pub creator: AccountId,
}

#[derive(Clone, Copy, Debug, PartialEq, Eq, Structural)]
pub struct HelpRequestFundsClaimed {
    pub request_id: u64,
    pub creator: AccountId,
    pub amount: i128,
}

#[derive(Clone, Copy, Debug, PartialEq, Eq, Structural)]
pub struct EmergencyWithdraw {
    pub token: AccountId,
    pub amount: i128,
    pub to: AccountId,
}

#[derive(Clone, Copy, Debug, PartialEq, Eq, Structural)]
pub struct TokenAdded {
    pub token: AccountId,
}

#[derive(Clone, Copy, Debug, PartialEq, Eq, Structural)]
pub struct TokenRemoved {
    pub token: AccountId,
}

#[derive(Clone, Copy, Debug, PartialEq, Eq, Structural)]
pub struct RequestVerificationChanged {
    pub request_id: u64,
    pub is_verified: bool,
}

#[derive(Clone, Copy, Debug, PartialEq, Eq, Structural)]
pub struct AppealResolved {
    pub target_id: u64,
    pub restored: bool,
}

#[derive(Clone, Copy, Debug, PartialEq, Eq, Structural)]
pub struct AdminTransferred {
    pub previous_admin: AccountId,
    pub new_admin: AccountId,
}

#[derive(Clone, Copy, Debug, PartialEq, Eq, Structural)]
pub struct ContractPaused {
    pub admin: AccountId,
}

#[derive(Clone, Copy, Debug, PartialEq, Eq, Structural)]
pub struct ContractUnpaused {
    pub admin: AccountId,
}

} // verus!
