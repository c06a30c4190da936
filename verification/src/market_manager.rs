//! A market: one named listing category of a marketplace, with its entry
//! requirements (minimum contract amount, settlement asset) and its fee.

use crate::contract_types::ContractError;
use crate::contract_types::ContractKind;
use crate::list::List;
use crate::str_table::str_upserted;
use crate::str_table::StrTable;
use vstd::prelude::*;

verus! {

/// One listing category of a marketplace.
pub struct MarketManager {
    pub name: String,
    pub kind: ContractKind,
    /// Smallest contract amount accepted, atto units.
    pub minimum: u128,
    /// Listing fee, atto units of the network token.
    pub fee: u128,
    /// Asset kind a listed contract must escrow.
    pub resource_address: u64,
    pub list: List,
    pub details: StrTable<String>,
}

impl MarketManager {
    pub open spec fn wf(self) -> bool {
        &&& self.list.wf()
        &&& self.details.wf()
    }

    pub fn new(
        name: String,
        kind: ContractKind,
        minimum: u128,
        fee: u128,
        resource_address: u64,
    ) -> (r: Self)
        ensures
            r.wf(),
            r.name@ == name@,
            r.kind == kind,
            r.minimum == minimum,
            r.fee == fee,
            r.resource_address == resource_address,
            r.list.all.entries@.len() == 0,
            r.list.list_total == 0,
            r.details.entries@.len() == 0,
    {
        MarketManager {
            name,
            kind,
            minimum,
            fee,
            resource_address,
            list: List::new(),
            details: StrTable::new(),
        }
    }

    /// Why a contract would be refused entry: its amount is under the
    /// market's minimum, or it escrows the wrong asset.
    pub open spec fn check_contract_err(
        self,
        contract_amount: u128,
        contract_resource: u64,
    ) -> Option<ContractError> {
        if contract_amount < self.minimum {
            Some(ContractError::PreconditionViolation)
        } else if contract_resource != self.resource_address {
            Some(ContractError::LedgerInvariantViolation)
        } else {
            None
        }
    }

    /// Checks a contract against the market's requirements and quotes the
    /// listing fee.
    pub fn check_contract(&self, contract_amount: u128, contract_resource: u64) -> (r: Result<
        u128,
        ContractError,
    >)
        ensures
            match r {
                Ok(fee) => {
                    &&& self.check_contract_err(contract_amount, contract_resource) is None
                    &&& fee == self.fee
                },
                Err(e) => self.check_contract_err(contract_amount, contract_resource) == Some(e),
            },
    {
        if contract_amount < self.minimum {
            return Err(ContractError::PreconditionViolation);
        }
        if contract_resource != self.resource_address {
            return Err(ContractError::LedgerInvariantViolation);
        }
        Ok(self.fee)
    }

    /// Lists a contract's address on this market.
    pub fn list(&mut self, address: u64) -> (r: Result<(), ContractError>)
        requires
            old(self).wf(),
            old(self).list.list_total < u64::MAX,
        ensures
            final(self).wf(),
            match r {
                Ok(()) => {
                    &&& old(self).list.add_err(address) is None
                    &&& final(self).list.all.get_spec(address) == Some(final(self).list.list_total)
                    &&& final(self).list.list_total == old(self).list.list_total + 1
                },
                Err(e) => {
                    &&& old(self).list.add_err(address) == Some(e)
                    &&& *final(self) == *old(self)
                },
            },
            *final(self) == (MarketManager { list: final(self).list, ..*old(self) }),
    {
        self.list.add(address)
    }

    /// Delists a contract's address from this market.
    pub fn remove(&mut self, address: u64) -> (r: Result<(), ContractError>)
        requires
            old(self).wf(),
        ensures
            final(self).wf(),
            match r {
                Ok(()) => {
                    &&& old(self).list.remove_err(address) is None
                    &&& final(self).list.listings.get_spec(
                        old(self).list.all.get_spec(address).unwrap(),
                    ) == Some(None::<u64>)
                    &&& final(self).list.all == old(self).list.all
                    &&& final(self).list.list_total == old(self).list.list_total
                },
                Err(e) => {
                    &&& old(self).list.remove_err(address) == Some(e)
                    &&& *final(self) == *old(self)
                },
            },
            *final(self) == (MarketManager { list: final(self).list, ..*old(self) }),
    {
        self.list.remove(address)
    }

    /// Renames the market, sets its minimum and upserts its details.
    pub fn update(&mut self, name: String, minimum: u128, details: Vec<(String, String)>)
        requires
            old(self).wf(),
        ensures
            final(self).wf(),
            final(self).name@ == name@,
            final(self).minimum == minimum,
            forall|k: Seq<char>|
                final(self).details.get_spec(k) == str_upserted(
                    old(self).details.get_spec(k),
                    details@,
                    k,
                ),
            *final(self) == (MarketManager {
                name: final(self).name,
                minimum,
                details: final(self).details,
                ..*old(self)
            }),
    {
        self.name = name;
        self.minimum = minimum;
        let n = details.len();
        let mut i: usize = 0;
        while i < n
            invariant
                n == details@.len(),
                i <= n,
                self.details.wf(),
                forall|k: Seq<char>|
                    self.details.get_spec(k) == str_upserted(
                        old(self).details.get_spec(k),
                        details@.subrange(0, i as int),
                        k,
                    ),
                *self == (MarketManager {
                    name: self.name,
                    minimum: self.minimum,
                    details: self.details,
                    ..*old(self)
                }),
                self.name@ == name@,
                self.minimum == minimum,
            decreases n - i,
        {
            let key = details[i].0.clone();
            let value = details[i].1.clone();
            self.details.insert(key, value);
            proof {
                crate::str_table::lemma_str_pairs_last_prefix(details@, i as int);
            }
            i += 1;
        }
        proof {
            assert(details@.subrange(0, n as int) =~= details@);
        }
    }
}

} // verus!
