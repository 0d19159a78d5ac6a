//! The payments ledger: ticket payments held in escrow, refunds, payouts to
//! organizers, platform fees and escrow release after an event ends.

pub mod contract;
pub mod laws;
pub mod lemmas;
pub mod model;
