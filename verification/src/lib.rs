//! A ledger that replays deposits, withdrawals, disputes, resolves and
//! chargebacks onto per-client accounts held in exact decimal amounts.

pub mod core_types;
pub mod money;
pub mod accounting;
