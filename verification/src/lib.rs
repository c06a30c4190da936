//! Asset-custody contracts with time-based and milestone-based payout rules.
//!
//! A `JobContract` streams a single escrowed balance to its members through a
//! linear vesting schedule; a `ProjectContract` pays members against discrete,
//! admin-defined objectives.  Both keep a conservative ledger: escrowed funds
//! plus reserved (earned but unclaimed) balances always equal cumulative
//! deposits minus cumulative releases.
//!
//! Amounts are fixed-point values held in atto units (10^-18) of the
//! contract's designated fungible asset; the host ledger's clock, credential
//! proofs and resource vaults are represented by the plain values the
//! settlement logic reads from them.

pub mod badge_manager;
pub mod contract_types;
pub mod job_contract;
pub mod list;
pub mod market_manager;
pub mod marketplace;
pub mod member;
pub mod project_contract;
pub mod str_table;
pub mod tables;
pub mod vesting_schedule;

