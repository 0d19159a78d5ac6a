//! Verified core of the Zicket ticketing contracts: the payments ledger,
//! the event factory registry and the ticket store, each modelled as an
//! explicit state with exact contracts over its mathematical view.

pub mod errors;
pub mod factory;
pub mod payments;
pub mod table;
pub mod ticket;
pub mod types;
pub mod versioning;

pub use errors::{FactoryError, PaymentError, TicketError};
pub use factory::{DeployedEvent, FactoryNotice, FactoryRegistry};
pub use payments::contract::PaymentsContract;
pub use ticket::TicketStore;
pub use types::{
    AccountId, EscrowMetadata, EventConfig, EventId, EventPrivacyConfig, EventStatus,
    PaymentNotice, PaymentPrivacy, PaymentRecord, PaymentStatus, PrivacyLevel, Ticket, Transfer,
    WithdrawalRecord,
};
