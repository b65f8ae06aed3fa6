//! A time-weighted, interest-bearing staking ledger.
//!
//! The ledger keeps one accrual record per account (`record::UserStake`) and
//! moves value in and out through an external asset-transfer service that
//! confirms success or failure only after the ledger has decided to act.
//! Every withdrawal therefore follows a two-phase protocol (`ledger::Staking`):
//! a request validates against current state and registers a pending
//! confirmation, and only the later resolution applies or discards the
//! suspended mutation.

pub mod ledger;
pub mod record;
