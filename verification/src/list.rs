//! Ordered listing registry: components are added under ascending numeric
//! keys and delisted by overwriting their slot, so the order of listings and
//! the record of past listings are both kept.

use crate::contract_types::ContractError;
use crate::tables::Table;
use vstd::prelude::*;

verus! {

/// A listing registry.  `all` maps a component's address to the slot it was
/// given; `listings` maps each slot to the listed address, or `None` once it
/// is delisted.  `list_total` counts the slots handed out.
pub struct List {
    pub all: Table<u64>,
    pub listings: Table<Option<u64>>,
    pub list_total: u64,
}

impl List {
    pub open spec fn wf(self) -> bool {
        &&& self.all.wf()
        &&& self.listings.wf()
    }

    pub fn new() -> (r: Self)
        ensures
            r.wf(),
            r.all.entries@.len() == 0,
            r.listings.entries@.len() == 0,
            r.list_total == 0,
    {
        List { all: Table::new(), listings: Table::new(), list_total: 0 }
    }

    /// Why an add would be refused: this address was listed here before
    /// (slots are never reused, even after a delisting).
    pub open spec fn add_err(self, address: u64) -> Option<ContractError> {
        if self.all.has_key(address) {
            Some(ContractError::PreconditionViolation)
        } else {
            None
        }
    }

    /// Lists an address under the next slot.
    pub fn add(&mut self, address: u64) -> (r: Result<(), ContractError>)
        requires
            old(self).wf(),
            old(self).list_total < u64::MAX,
        ensures
            final(self).wf(),
            match r {
                Ok(()) => {
                    &&& old(self).add_err(address) is None
                    &&& final(self).list_total == old(self).list_total + 1
                    &&& final(self).all.get_spec(address) == Some(final(self).list_total)
                    &&& forall|a: u64|
                        a != address ==> final(self).all.get_spec(a) == old(self).all.get_spec(a)
                    &&& final(self).listings.get_spec(final(self).list_total) == Some(
                        Some(address),
                    )
                    &&& forall|k: u64|
                        k != final(self).list_total ==> final(self).listings.get_spec(k) == old(
                            self,
                        ).listings.get_spec(k)
                },
                Err(e) => {
                    &&& old(self).add_err(address) == Some(e)
                    &&& *final(self) == *old(self)
                },
            },
    {
        if self.all.contains_key(address) {
            return Err(ContractError::PreconditionViolation);
        }
        let new_total = self.list_total + 1;
        self.list_total = new_total;
        self.listings.insert(new_total, Some(address));
        self.all.insert(address, new_total);
        Ok(())
    }

    /// Why a removal would be refused: the address was never listed here.
    pub open spec fn remove_err(self, address: u64) -> Option<ContractError> {
        if !self.all.has_key(address) {
            Some(ContractError::NotFound)
        } else {
            None
        }
    }

    /// Delists an address: its slot is cleared, its record kept.
    pub fn remove(&mut self, address: u64) -> (r: Result<(), ContractError>)
        requires
            old(self).wf(),
        ensures
            final(self).wf(),
            match r {
                Ok(()) => {
                    &&& old(self).remove_err(address) is None
                    &&& ({
                        let key = old(self).all.get_spec(address).unwrap();
                        &&& final(self).listings.get_spec(key) == Some(None::<u64>)
                        &&& forall|k: u64|
                            k != key ==> final(self).listings.get_spec(k) == old(
                                self,
                            ).listings.get_spec(k)
                    })
                    &&& final(self).all == old(self).all
                    &&& final(self).list_total == old(self).list_total
                },
                Err(e) => {
                    &&& old(self).remove_err(address) == Some(e)
                    &&& *final(self) == *old(self)
                },
            },
    {
        let key = match self.all.get(address) {
            None => {
                return Err(ContractError::NotFound);
            },
            Some(k) => *k,
        };
        self.listings.insert(key, None);
        Ok(())
    }
}

} // verus!
