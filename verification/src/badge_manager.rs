//! Per-contract transaction log and badge identity.
//!
//! The host ledger issues the admin and member badge resources and stores
//! the minted records; what the settlement logic owns is the contract's
//! badge id, its kind, and the append-only sequence of transaction records
//! it has emitted.

use crate::contract_types::ContractKind;
use crate::contract_types::TxData;
use vstd::prelude::*;

verus! {

/// Issues a contract's badges and keeps its transaction history.
pub struct BadgeManager {
    /// Resource id of the badges this contract issues.
    pub badge: u64,
    /// Kind of the owning contract.
    pub kind: ContractKind,
    /// Name of the owning contract.
    pub name: String,
    /// Every transaction record emitted so far, oldest first.
    pub txs: Vec<TxData>,
}

impl BadgeManager {
    /// Creates a manager with an empty history.
    pub fn new(badge: u64, kind: ContractKind, name: String) -> (r: Self)
        ensures
            r.badge == badge,
            r.kind == kind,
            r.name@ == name@,
            r.txs@.len() == 0,
    {
        BadgeManager { badge, kind, name, txs: Vec::new() }
    }

    /// Whether no transaction has been recorded yet.
    pub fn is_new(&self) -> (r: bool)
        ensures
            r == (self.txs@.len() == 0),
    {
        self.txs.len() == 0
    }

    /// Resource id of this contract's badges.
    pub fn badge(&self) -> (r: u64)
        ensures
            r == self.badge,
    {
        self.badge
    }

    /// Appends a transaction record to the history.
    pub fn create_tx(&mut self, tx_data: TxData)
        ensures
            final(self).txs@ == old(self).txs@.push(tx_data),
            final(self).badge == old(self).badge,
            final(self).kind == old(self).kind,
            final(self).name == old(self).name,
    {
        self.txs.push(tx_data);
    }
}

/// The fields of one transaction record, as a predicate the contracts'
/// contracts state of the record they append.
pub open spec fn tx_fields(
    tx: TxData,
    epoch: i64,
    from_handle: Seq<char>,
    from_badge: u64,
    to_handle: Seq<char>,
    to_badge: u64,
    amount: u128,
    tx_type: crate::contract_types::TxType,
) -> bool {
    &&& tx.epoch == epoch
    &&& tx.from_handle@ == from_handle
    &&& tx.from_badge == from_badge
    &&& tx.to_handle@ == to_handle
    &&& tx.to_badge == to_badge
    &&& tx.amount == amount
    &&& tx.tx_type == tx_type
}

/// The new log is the old log with one record of the given fields appended.
pub open spec fn tx_logged(
    prev: BadgeManager,
    curr: BadgeManager,
    epoch: i64,
    from_handle: Seq<char>,
    from_badge: u64,
    to_handle: Seq<char>,
    to_badge: u64,
    amount: u128,
    tx_type: crate::contract_types::TxType,
) -> bool {
    &&& curr.badge == prev.badge
    &&& curr.kind == prev.kind
    &&& curr.name == prev.name
    &&& curr.txs@.len() == prev.txs@.len() + 1
    &&& curr.txs@ == prev.txs@.push(curr.txs@.last())
    &&& tx_fields(
        curr.txs@.last(),
        epoch,
        from_handle,
        from_badge,
        to_handle,
        to_badge,
        amount,
        tx_type,
    )
}

} // verus!
