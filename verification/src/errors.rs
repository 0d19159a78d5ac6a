use vstd::prelude::*;

verus! {

/// Errors returned by the event factory registry.
#[derive(Copy, Clone, Debug, PartialEq, Eq, Structural)]
pub enum FactoryError {
    Unauthorized,
    EventAlreadyDeployed,
    EventNotFoundInRegistry,
    NotInitialized,
    MigrationFailed,
    UnsupportedVersion,
}

/// Errors returned by the payments ledger.
#[derive(Copy, Clone, Debug, PartialEq, Eq, Structural)]
pub enum PaymentError {
    PaymentNotFound,
    TicketNotFound,
    InsufficientFunds,
    Unauthorized,
    PaymentAlreadyProcessed,
    InvalidAmount,
    RefundFailed,
    NotInitialized,
    PaymentAlreadyRefunded,
    NoRevenue,
    InvalidFeeBps,
    NoPlatformRevenue,
    AnonymousPaymentsDisabled,
    VerificationRequired,
    UnauthorizedWithdrawal,
    InvalidOrganizer,
    InvalidPayoutToken,
    EventNotActive,
    EventNotCompleted,
    RefundNotAllowed,
    EscrowNotExpired,
    EscrowAlreadyReleased,
    EscrowNotConfigured,
    DuplicateRequest,
    MigrationFailed,
    UnsupportedVersion,
    MaxTicketsReached,
    ContractPaused,
    NonceRequired,
    EventSoldOut,
}

/// Errors returned by the ticket store.
#[derive(Copy, Clone, Debug, PartialEq, Eq, Structural)]
pub enum TicketError {
    TicketNotFound,
    TicketAlreadyExists,
    InvalidStatusTransition,
    Unauthorized,
    InvalidInput,
    TicketNotActive,
    InvalidTicketDate,
    InvalidTicketCount,
    InvalidPrice,
    TicketNotUpdatable,
    TicketNotTransferable,
    TransferToSelf,
    TicketAlreadyUsed,
    EventNotActive,
    MigrationFailed,
    UnsupportedVersion,
}

} // verus!
