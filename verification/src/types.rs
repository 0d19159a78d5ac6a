//! Records kept by the contracts. Accounts, tokens and contracts are named
//! by account identifiers, events by event identifiers.

use vstd::prelude::*;

verus! {

/// An account, token or contract address.
pub type AccountId = u64;

/// The identifier of an event.
pub type EventId = u64;

/// Where the funds of a payment are.
#[derive(Copy, Clone, Debug, PartialEq, Eq, Structural)]
pub enum PaymentStatus {
    /// Held in escrow by the payments contract.
    Held,
    /// Paid out to the organizer.
    Released,
    /// Fully returned to the payer.
    Refunded,
}

/// How a payer asked their payment to be recorded.
#[derive(Copy, Clone, Debug, PartialEq, Eq, Structural)]
pub enum PaymentPrivacy {
    Standard,
    Private,
    Anonymous,
}

/// How addresses appear in the notifications emitted for an event.
#[derive(Copy, Clone, Debug, PartialEq, Eq, Structural)]
pub enum PrivacyLevel {
    Standard,
    Private,
    Anonymous,
}

/// The lifecycle of an event as seen by the payments contract.
#[derive(Copy, Clone, Debug, PartialEq, Eq, Structural)]
pub enum EventStatus {
    Active,
    Completed,
    Cancelled,
}

/// A payment for one ticket.
#[derive(Copy, Clone, Debug, PartialEq, Eq, Structural)]
pub struct PaymentRecord {
    pub payment_id: u64,
    pub event_id: EventId,
    pub payer: AccountId,
    pub amount: i128,
    pub token: AccountId,
    pub status: PaymentStatus,
    pub paid_at: u64,
    pub privacy_level: PaymentPrivacy,
    /// How much of `amount` has been returned to the payer.
    pub refunded_amount: i128,
}

/// A ticket issued for a payment.
#[derive(Copy, Clone, Debug, PartialEq, Eq, Structural)]
pub struct Ticket {
    pub ticket_id: u64,
    pub event_id: EventId,
    pub owner: AccountId,
    pub payment_id: u64,
}

/// Who may pay for an event.
#[derive(Copy, Clone, Debug, PartialEq, Eq, Structural)]
pub struct EventPrivacyConfig {
    pub allow_anonymous: bool,
    pub requires_verification: bool,
}

/// The terms of an event, synchronised from the event contract.
#[derive(Copy, Clone, Debug, PartialEq, Eq, Structural)]
pub struct EventConfig {
    pub organizer: AccountId,
    pub payout_token: AccountId,
    pub allow_anonymous: bool,
    pub requires_verification: bool,
    /// Tickets one payer may hold for the event; 0 means no limit.
    pub max_tickets_per_user: u32,
    /// Tickets that may be sold for the event; 0 means no limit.
    pub max_supply: u32,
    /// Tickets sold while this configuration was in place.
    pub sold_count: u32,
}

/// Escrow terms of an event: funds go to the organizer once the event ends.
#[derive(Copy, Clone, Debug, PartialEq, Eq, Structural)]
pub struct EscrowMetadata {
    pub organizer: AccountId,
    pub event_end_time: u64,
    pub auto_released: bool,
}

/// One withdrawal of event revenue.
#[derive(Copy, Clone, Debug, PartialEq, Eq, Structural)]
pub struct WithdrawalRecord {
    pub amount: i128,
    pub timestamp: u64,
    pub organizer: AccountId,
}

/// A token transfer that the contract makes.
#[derive(Copy, Clone, Debug, PartialEq, Eq, Structural)]
pub struct Transfer {
    pub token: AccountId,
    pub from: AccountId,
    pub to: AccountId,
    pub amount: i128,
}

/// A notification published by the payments contract. Addresses that the
/// event's privacy level masks carry that level with them.
#[derive(Copy, Clone, Debug, PartialEq, Eq)]
pub enum PaymentNotice {
    PaymentReceived {
        payment_id: u64,
        event_id: EventId,
        payer: AccountId,
        privacy: PrivacyLevel,
        amount: i128,
        token: AccountId,
        paid_at: u64,
    },
    PaymentReceiptRequested {
        payment_id: u64,
        event_id: EventId,
        email_hash: [u8; 32],
        requested_at: u64,
    },
    PaymentRefunded {
        payment_id: u64,
        event_id: EventId,
        payer: AccountId,
        privacy: PrivacyLevel,
        amount: i128,
        token: AccountId,
        refunded_at: u64,
    },
    TicketIssued {
        ticket_id: u64,
        event_id: EventId,
        owner: AccountId,
        privacy: PrivacyLevel,
        payment_id: u64,
        issued_at: u64,
    },
    RevenueWithdrawn {
        event_id: EventId,
        organizer: AccountId,
        privacy: PrivacyLevel,
        amount: i128,
        token: AccountId,
        to: AccountId,
        withdrawn_at: u64,
    },
    EscrowAutoReleased {
        event_id: EventId,
        organizer: AccountId,
        amount: i128,
        released_at: u64,
    },
    PlatformFeeCollected {
        event_id: EventId,
        fee_amount: i128,
        organizer_amount: i128,
        token: AccountId,
        collected_at: u64,
    },
    PlatformFeeUpdated {
        admin: AccountId,
        old_bps: u32,
        new_bps: u32,
        updated_at: u64,
    },
    PlatformRevenueWithdrawn {
        event_id: EventId,
        amount: i128,
        token: AccountId,
        to: AccountId,
        withdrawn_at: u64,
    },
}

} // verus!
