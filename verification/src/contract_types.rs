//! Shared value types of the contract library: contract kinds and roles,
//! transaction records, badge data, errors and the limit constants.
//!
//! Handles (member names) are strings; badges, resources and component
//! addresses are identified by plain `u64` ids; fungible amounts are held in
//! atto units (10^-18 of one token) as `u128`.

use vstd::prelude::*;

verus! {

/// Seconds in one day; vesting intervals and listing locks are counted in days.
pub const SEC_IN_DAY: i64 = 86400;

/// A project roster may invite at most this many members.
pub const MAX_PROJECT_MEMBERS: usize = 30;

/// Pending plus completed objectives may not exceed this count.
pub const MAX_OBJS: usize = 30;

/// A single objective may name at most this many members.
pub const MAX_OBJ_MEMBERS: usize = 10;

/// A job contract may be listed on at most this many markets.
pub const MAX_MARKETS: usize = 3;

/// Days that must pass after listing before funds can move again.
pub const LIST_LOCK_DAYS: i64 = 3;

/// Resource id of the network token in which marketplace fees are settled.
pub const XRD: u64 = 1;

/// The two contract variants.
#[derive(Clone, Copy, Debug, PartialEq, Eq, Structural)]
pub enum ContractKind {
    Project,
    Job,
}

/// Role a badge holds within a contract.
#[derive(Clone, Copy, Debug, PartialEq, Eq, Structural)]
pub enum ContractRole {
    Admin,
    Member,
}

/// Why a call was rejected.  Every failed call leaves the state unchanged.
#[derive(Clone, Copy, Debug, PartialEq, Eq, Structural)]
pub enum ContractError {
    /// A proof did not verify, or the verified identity does not match the
    /// handle recorded for the badge.
    AuthorizationFailure,
    /// The call is not allowed in the current state.
    PreconditionViolation,
    /// The call would break the ledger: wrong asset kind, zero amount, or an
    /// objective sum that does not match the escrow.
    LedgerInvariantViolation,
    /// The call refers to a badge or objective that is not present.
    NotFound,
}

/// Kind of an emitted transaction record.
#[derive(Clone, Copy, Debug, PartialEq, Eq, Structural)]
pub enum TxType {
    Create,
    Details,
    Deposit,
    List,
    Invite,
    Remove,
    Leave,
    Update,
    Join,
    Reward,
    Withdraw,
    Cancellation,
}

/// Immutable transaction record handed to the append-only ledger sink.
#[derive(Clone, Debug)]
pub struct TxData {
    pub epoch: i64,
    pub from_handle: String,
    pub from_badge: u64,
    pub to_handle: String,
    pub to_badge: u64,
    pub amount: u128,
    pub tx_type: TxType,
}

/// Data carried by an admin or member badge of a contract.
#[derive(Clone, Debug, PartialEq, Eq)]
pub struct BadgeData {
    pub contract_address: u64,
    pub contract_kind: ContractKind,
    pub contract_role: ContractRole,
    pub contract_handle: String,
    pub app_handle: String,
}

/// Data carried by a member-account badge.
#[derive(Clone, Copy, Debug, PartialEq, Eq, Structural)]
pub struct MemberData {
    pub member_address: u64,
}

/// A team a member account describes: free-form detail pairs (name, icon,
/// description, links) and an optional team badge resource.
#[derive(Clone, Debug)]
pub struct TeamData {
    pub details: Vec<(String, String)>,
    pub team_badge: Option<u64>,
}

} // verus!
