//! Marketplace: named markets (listing categories) for project and job
//! contracts, with fee collection.
//!
//! Each category name owns two markets, one per contract kind.  A contract
//! is admitted to a market when it meets the market's minimum and asset
//! requirements and pays the quoted fee in the network token; collected fees
//! accumulate per asset until the admin withdraws them.
//!
//! Cross-contract reads (a contract's own data, proof verification) are done
//! by the host before these methods are called; their results arrive as
//! plain values.

use crate::contract_types::ContractError;
use crate::contract_types::ContractKind;
use crate::contract_types::XRD;
use crate::market_manager::MarketManager;
use crate::str_table::lemma_str_seq_get_at;
use crate::str_table::str_upserted;
use crate::str_table::StrTable;
use crate::tables::Table;
use vstd::prelude::*;

verus! {

/// A market carries the given name, kind and entry requirements.
pub open spec fn market_matches(
    m: MarketManager,
    name: Seq<char>,
    kind: ContractKind,
    minimum: u128,
    fee: u128,
    resource_address: u64,
) -> bool {
    &&& m.wf()
    &&& m.name@ == name
    &&& m.kind == kind
    &&& m.minimum == minimum
    &&& m.fee == fee
    &&& m.resource_address == resource_address
}

/// Whether one of the first `i` names reads `k`.
pub open spec fn name_in_prefix(names: Seq<String>, i: int, k: Seq<char>) -> bool {
    exists|l: int| 0 <= l < i && names[l]@ == k
}

/// The marketplace component.
pub struct Marketplace {
    /// Resource id of the marketplace admin's badge.
    pub admin_badge: u64,
    pub name: String,
    /// Markets for project contracts, by category name.
    pub projects: StrTable<MarketManager>,
    /// Markets for job contracts, by category name.
    pub jobs: StrTable<MarketManager>,
    /// Collected fees, by asset kind.
    pub resources: Table<u128>,
    /// Free-form metadata shown to users.
    pub details: StrTable<String>,
}

/// The market table and every market in it are well-formed.
pub open spec fn markets_wf(t: StrTable<MarketManager>) -> bool {
    &&& t.wf()
    &&& forall|k: Seq<char>|
        match #[trigger] t.get_spec(k) {
            Option::Some(m) => m.wf(),
            Option::None => true,
        }
}

impl Marketplace {
    pub open spec fn wf(self) -> bool {
        &&& markets_wf(self.projects)
        &&& markets_wf(self.jobs)
        &&& self.resources.wf()
        &&& self.details.wf()
    }

    /// Creates both markets (project and job) for each category name.
    fn insert_categories(
        &mut self,
        names: &Vec<String>,
        minimum: u128,
        fee: u128,
        resource_address: u64,
    )
        requires
            old(self).wf(),
        ensures
            final(self).wf(),
            forall|l: int|
                0 <= l < names@.len() ==> {
                    &&& match final(self).projects.get_spec((#[trigger] names@[l])@) {
                        Option::Some(m) => market_matches(
                            m,
                            names@[l]@,
                            ContractKind::Project,
                            minimum,
                            fee,
                            resource_address,
                        ),
                        Option::None => false,
                    }
                    &&& match final(self).jobs.get_spec(names@[l]@) {
                        Option::Some(m) => market_matches(
                            m,
                            names@[l]@,
                            ContractKind::Job,
                            minimum,
                            fee,
                            resource_address,
                        ),
                        Option::None => false,
                    }
                },
            forall|k: Seq<char>|
                !name_in_prefix(names@, names@.len() as int, k) ==> {
                    &&& final(self).projects.get_spec(k) == old(self).projects.get_spec(k)
                    &&& final(self).jobs.get_spec(k) == old(self).jobs.get_spec(k)
                    &&& final(self).projects.has_key(k) == old(self).projects.has_key(k)
                    &&& final(self).jobs.has_key(k) == old(self).jobs.has_key(k)
                },
            *final(self) == (Marketplace {
                projects: final(self).projects,
                jobs: final(self).jobs,
                ..*old(self)
            }),
    {
        let n = names.len();
        let mut i: usize = 0;
        while i < n
            invariant
                n == names@.len(),
                i <= n,
                self.wf(),
                forall|l: int|
                    0 <= l < i ==> {
                        &&& match self.projects.get_spec((#[trigger] names@[l])@) {
                            Option::Some(m) => market_matches(
                                m,
                                names@[l]@,
                                ContractKind::Project,
                                minimum,
                                fee,
                                resource_address,
                            ),
                            Option::None => false,
                        }
                        &&& match self.jobs.get_spec(names@[l]@) {
                            Option::Some(m) => market_matches(
                                m,
                                names@[l]@,
                                ContractKind::Job,
                                minimum,
                                fee,
                                resource_address,
                            ),
                            Option::None => false,
                        }
                    },
                forall|k: Seq<char>|
                    !name_in_prefix(names@, i as int, k) ==> {
                        &&& self.projects.get_spec(k) == old(self).projects.get_spec(k)
                        &&& self.jobs.get_spec(k) == old(self).jobs.get_spec(k)
                        &&& self.projects.has_key(k) == old(self).projects.has_key(k)
                        &&& self.jobs.has_key(k) == old(self).jobs.has_key(k)
                    },
                *self == (Marketplace { projects: self.projects, jobs: self.jobs, ..*old(self) }),
            decreases n - i,
        {
            let category = names[i].clone();
            let all_projects = MarketManager::new(
                category.clone(),
                ContractKind::Project,
                minimum,
                fee,
                resource_address,
            );
            self.projects.insert(category.clone(), all_projects);

            let all_jobs = MarketManager::new(
                category.clone(),
                ContractKind::Job,
                minimum,
                fee,
                resource_address,
            );
            self.jobs.insert(category, all_jobs);
            proof {
                assert forall|k: Seq<char>| !name_in_prefix(names@, i + 1, k) implies {
                    &&& self.projects.get_spec(k) == old(self).projects.get_spec(k)
                    &&& self.jobs.get_spec(k) == old(self).jobs.get_spec(k)
                    &&& self.projects.has_key(k) == old(self).projects.has_key(k)
                    &&& self.jobs.has_key(k) == old(self).jobs.has_key(k)
                } by {
                    assert(!name_in_prefix(names@, i as int, k));
                    assert(names@[i as int]@ != k);
                }
            }
            i += 1;
        }
    }

    /// Creates a marketplace with the given categories, each open to both
    /// contract kinds at the same minimum, fee and settlement asset.
    pub fn instantiate(
        admin_badge: u64,
        name: String,
        categories: Vec<String>,
        minimum: u128,
        fee: u128,
        resource_address: u64,
    ) -> (r: Marketplace)
        ensures
            r.wf(),
            r.admin_badge == admin_badge,
            r.name@ == name@,
            forall|l: int|
                0 <= l < categories@.len() ==> {
                    &&& match r.projects.get_spec((#[trigger] categories@[l])@) {
                        Option::Some(m) => market_matches(
                            m,
                            categories@[l]@,
                            ContractKind::Project,
                            minimum,
                            fee,
                            resource_address,
                        ),
                        Option::None => false,
                    }
                    &&& match r.jobs.get_spec(categories@[l]@) {
                        Option::Some(m) => market_matches(
                            m,
                            categories@[l]@,
                            ContractKind::Job,
                            minimum,
                            fee,
                            resource_address,
                        ),
                        Option::None => false,
                    }
                },
            forall|k: Seq<char>|
                !name_in_prefix(categories@, categories@.len() as int, k) ==> {
                    &&& !r.projects.has_key(k)
                    &&& !r.jobs.has_key(k)
                },
            r.resources.entries@.len() == 0,
            r.details.entries@.len() == 0,
    {
        let mut component = Marketplace {
            admin_badge,
            name,
            projects: StrTable::new(),
            jobs: StrTable::new(),
            resources: Table::new(),
            details: StrTable::new(),
        };
        component.insert_categories(&categories, minimum, fee, resource_address);
        component
    }

    /// Renames the marketplace and upserts its details.
    pub fn update(&mut self, name: String, details: Vec<(String, String)>)
        requires
            old(self).wf(),
        ensures
            final(self).wf(),
            final(self).name@ == name@,
            forall|k: Seq<char>|
                final(self).details.get_spec(k) == str_upserted(
                    old(self).details.get_spec(k),
                    details@,
                    k,
                ),
            *final(self) == (Marketplace {
                name: final(self).name,
                details: final(self).details,
                ..*old(self)
            }),
    {
        self.name = name;
        let n = details.len();
        let mut i: usize = 0;
        while i < n
            invariant
                n == details@.len(),
                i <= n,
                self.details.wf(),
                forall|k: Seq<char>|
                    self.details.get_spec(k) == str_upserted(
                        old(self).details.get_spec(k),
                        details@.subrange(0, i as int),
                        k,
                    ),
                *self == (Marketplace { name: self.name, details: self.details, ..*old(self) }),
                self.name@ == name@,
            decreases n - i,
        {
            let key = details[i].0.clone();
            let value = details[i].1.clone();
            self.details.insert(key, value);
            proof {
                crate::str_table::lemma_str_pairs_last_prefix(details@, i as int);
            }
            i += 1;
        }
        proof {
            assert(details@.subrange(0, n as int) =~= details@);
        }
    }

    /// Adds both markets for each new category name (replacing markets of
    /// the same name).
    pub fn add_category(
        &mut self,
        names: Vec<String>,
        minimum: u128,
        fee: u128,
        resource_address: u64,
    )
        requires
            old(self).wf(),
        ensures
            final(self).wf(),
            forall|l: int|
                0 <= l < names@.len() ==> {
                    &&& match final(self).projects.get_spec((#[trigger] names@[l])@) {
                        Option::Some(m) => market_matches(
                            m,
                            names@[l]@,
                            ContractKind::Project,
                            minimum,
                            fee,
                            resource_address,
                        ),
                        Option::None => false,
                    }
                    &&& match final(self).jobs.get_spec(names@[l]@) {
                        Option::Some(m) => market_matches(
                            m,
                            names@[l]@,
                            ContractKind::Job,
                            minimum,
                            fee,
                            resource_address,
                        ),
                        Option::None => false,
                    }
                },
            forall|k: Seq<char>|
                !name_in_prefix(names@, names@.len() as int, k) ==> {
                    &&& final(self).projects.get_spec(k) == old(self).projects.get_spec(k)
                    &&& final(self).jobs.get_spec(k) == old(self).jobs.get_spec(k)
                },
            *final(self) == (Marketplace {
                projects: final(self).projects,
                jobs: final(self).jobs,
                ..*old(self)
            }),
    {
        self.insert_categories(&names, minimum, fee, resource_address);
    }

    /// Renames a market, sets its minimum and upserts its details.
    pub fn update_category(
        &mut self,
        name: String,
        is_project: bool,
        minimum: u128,
        details: Vec<(String, String)>,
    ) -> (r: Result<(), ContractError>)
        requires
            old(self).wf(),
        ensures
            final(self).wf(),
            match r {
                Ok(()) => {
                    &&& (if is_project {
                        old(self).projects.has_key(name@)
                    } else {
                        old(self).jobs.has_key(name@)
                    })
                    &&& ({
                        let prev_map = if is_project {
                            old(self).projects
                        } else {
                            old(self).jobs
                        };
                        let curr_map = if is_project {
                            final(self).projects
                        } else {
                            final(self).jobs
                        };
                        let prev = prev_map.get_spec(name@).unwrap();
                        match curr_map.get_spec(name@) {
                            Option::Some(m) => {
                                &&& m.name@ == name@
                                &&& m.minimum == minimum
                                &&& m.kind == prev.kind
                                &&& m.fee == prev.fee
                                &&& m.resource_address == prev.resource_address
                                &&& m.list == prev.list
                                &&& forall|k: Seq<char>|
                                    m.details.get_spec(k) == str_upserted(
                                        prev.details.get_spec(k),
                                        details@,
                                        k,
                                    )
                            },
                            Option::None => false,
                        }
                    })
                    &&& forall|k: Seq<char>|
                        k != name@ ==> {
                            &&& final(self).projects.get_spec(k) == old(self).projects.get_spec(k)
                            &&& final(self).jobs.get_spec(k) == old(self).jobs.get_spec(k)
                        }
                    &&& if is_project {
                        final(self).jobs == old(self).jobs
                    } else {
                        final(self).projects == old(self).projects
                    }
                    &&& *final(self) == (Marketplace {
                        projects: final(self).projects,
                        jobs: final(self).jobs,
                        ..*old(self)
                    })
                },
                Err(e) => {
                    &&& e == ContractError::NotFound
                    &&& !(if is_project {
                        old(self).projects.has_key(name@)
                    } else {
                        old(self).jobs.has_key(name@)
                    })
                    &&& *final(self) == *old(self)
                },
            },
    {
        if is_project {
            let mut market = match self.projects.remove(&name) {
                None => {
                    return Err(ContractError::NotFound);
                },
                Some(m) => m,
            };
            proof {
                lemma_str_seq_get_at(
                    old(self).projects.entries@,
                    old(self).projects.key_index(name@),
                    name@,
                );
            }
            market.update(name.clone(), minimum, details);
            self.projects.insert(name, market);
        } else {
            let mut market = match self.jobs.remove(&name) {
                None => {
                    return Err(ContractError::NotFound);
                },
                Some(m) => m,
            };
            proof {
                lemma_str_seq_get_at(
                    old(self).jobs.entries@,
                    old(self).jobs.key_index(name@),
                    name@,
                );
            }
            market.update(name.clone(), minimum, details);
            self.jobs.insert(name, market);
        }
        Ok(())
    }

    /// Why delisting a contract would be refused: no such market, or the
    /// contract was never listed on it.
    pub open spec fn remove_contract_err(
        self,
        component_address: u64,
        name: Seq<char>,
        is_project: bool,
    ) -> Option<ContractError> {
        let map = if is_project {
            self.projects
        } else {
            self.jobs
        };
        match map.get_spec(name) {
            Option::None => Some(ContractError::NotFound),
            Option::Some(m) => m.list.remove_err(component_address),
        }
    }

    /// Delists a contract from a market.
    pub fn remove_contract(
        &mut self,
        component_address: u64,
        name: String,
        is_project: bool,
    ) -> (r: Result<(), ContractError>)
        requires
            old(self).wf(),
        ensures
            final(self).wf(),
            match r {
                Ok(()) => {
                    &&& old(self).remove_contract_err(component_address, name@, is_project)
                        is None
                    &&& ({
                        let prev_map = if is_project {
                            old(self).projects
                        } else {
                            old(self).jobs
                        };
                        let curr_map = if is_project {
                            final(self).projects
                        } else {
                            final(self).jobs
                        };
                        let prev = prev_map.get_spec(name@).unwrap();
                        match curr_map.get_spec(name@) {
                            Option::Some(m) => {
                                &&& m.list.listings.get_spec(
                                    prev.list.all.get_spec(component_address).unwrap(),
                                ) == Some(None::<u64>)
                                &&& m == (MarketManager { list: m.list, ..prev })
                                &&& m.list.all == prev.list.all
                            },
                            Option::None => false,
                        }
                    })
                    &&& forall|k: Seq<char>|
                        k != name@ ==> {
                            &&& final(self).projects.get_spec(k) == old(self).projects.get_spec(k)
                            &&& final(self).jobs.get_spec(k) == old(self).jobs.get_spec(k)
                        }
                    &&& *final(self) == (Marketplace {
                        projects: final(self).projects,
                        jobs: final(self).jobs,
                        ..*old(self)
                    })
                },
                Err(e) => {
                    &&& old(self).remove_contract_err(component_address, name@, is_project)
                        == Some(e)
                    &&& *final(self) == *old(self)
                },
            },
    {
        let listed = if is_project {
            match self.projects.get(&name) {
                None => {
                    return Err(ContractError::NotFound);
                },
                Some(m) => m.list.all.contains_key(component_address),
            }
        } else {
            match self.jobs.get(&name) {
                None => {
                    return Err(ContractError::NotFound);
                },
                Some(m) => m.list.all.contains_key(component_address),
            }
        };
        proof {
            if is_project {
                lemma_str_seq_get_at(
                    old(self).projects.entries@,
                    old(self).projects.key_index(name@),
                    name@,
                );
            } else {
                lemma_str_seq_get_at(
                    old(self).jobs.entries@,
                    old(self).jobs.key_index(name@),
                    name@,
                );
            }
        }
        if !listed {
            return Err(ContractError::NotFound);
        }
        if is_project {
            let mut market = match self.projects.remove(&name) {
                None => {
                    proof {
                        assert(false);
                    }
                    return Err(ContractError::NotFound);
                },
                Some(m) => m,
            };
            match market.remove(component_address) {
                Ok(()) => (),
                Err(_) => {
                    proof {
                        assert(false);
                    }
                },
            }
            self.projects.insert(name, market);
        } else {
            let mut market = match self.jobs.remove(&name) {
                None => {
                    proof {
                        assert(false);
                    }
                    return Err(ContractError::NotFound);
                },
                Some(m) => m,
            };
            match market.remove(component_address) {
                Ok(()) => (),
                Err(_) => {
                    proof {
                        assert(false);
                    }
                },
            }
            self.jobs.insert(name, market);
        }
        Ok(())
    }

    /// Collects an amount of an asset into the fee store.
    pub fn deposit(&mut self, resource_address: u64, amount: u128)
        requires
            old(self).wf(),
            match old(self).resources.get_spec(resource_address) {
                Option::Some(b) => b as int + amount as int <= u128::MAX as int,
                Option::None => true,
            },
        ensures
            final(self).wf(),
            final(self).resources.get_spec(resource_address) == Some(
                ((match old(self).resources.get_spec(resource_address) {
                    Option::Some(b) => b,
                    Option::None => 0u128,
                }) + amount) as u128,
            ),
            forall|a: u64|
                a != resource_address ==> final(self).resources.get_spec(a) == old(
                    self,
                ).resources.get_spec(a),
            *final(self) == (Marketplace { resources: final(self).resources, ..*old(self) }),
    {
        let prev = match self.resources.get(resource_address) {
            Some(b) => *b,
            None => 0,
        };
        self.resources.insert(resource_address, prev + amount);
    }

    /// Hands the whole collected balance of an asset to the admin.
    pub fn withdraw(&mut self, resource_address: u64) -> (r: Result<u128, ContractError>)
        requires
            old(self).wf(),
        ensures
            final(self).wf(),
            match r {
                Ok(taken) => {
                    &&& old(self).resources.get_spec(resource_address) == Some(taken)
                    &&& final(self).resources.get_spec(resource_address) == Some(0u128)
                    &&& forall|a: u64|
                        a != resource_address ==> final(self).resources.get_spec(a) == old(
                            self,
                        ).resources.get_spec(a)
                    &&& *final(self) == (Marketplace {
                        resources: final(self).resources,
                        ..*old(self)
                    })
                },
                Err(e) => {
                    &&& e == ContractError::NotFound
                    &&& !old(self).resources.has_key(resource_address)
                    &&& *final(self) == *old(self)
                },
            },
    {
        let taken = match self.resources.get(resource_address) {
            None => {
                return Err(ContractError::NotFound);
            },
            Some(b) => *b,
        };
        self.resources.insert(resource_address, 0);
        Ok(taken)
    }

    /// Why listing a project contract here would be refused, in order: the
    /// contract does not name this marketplace, it is closed to joiners, the
    /// category has no project market, the market's entry check fails, the
    /// fee is not the quoted one, the fee is not settled in the network
    /// token, or the contract was listed here before.
    pub open spec fn add_project_err(
        self,
        lists_this_marketplace: bool,
        category: Seq<char>,
        contract_amount: u128,
        contract_resource: u64,
        is_joinable: bool,
        contract_address: u64,
        fee_amount: u128,
        fee_resource: u64,
    ) -> Option<ContractError> {
        if !lists_this_marketplace {
            Some(ContractError::PreconditionViolation)
        } else if !is_joinable {
            Some(ContractError::PreconditionViolation)
        } else {
            match self.projects.get_spec(category) {
                Option::None => Some(ContractError::NotFound),
                Option::Some(m) => match m.check_contract_err(contract_amount, contract_resource) {
                    Option::Some(e) => Some(e),
                    Option::None => if fee_amount != m.fee {
                        Some(ContractError::PreconditionViolation)
                    } else if fee_resource != XRD {
                        Some(ContractError::LedgerInvariantViolation)
                    } else {
                        m.list.add_err(contract_address)
                    },
                },
            }
        }
    }

    /// Lists a project contract on a category's market and collects the fee.
    /// The contract's own data (category, amount, asset, joinability, its
    /// marketplace) was read by the host and arrives as plain values.
    pub fn add_project(
        &mut self,
        lists_this_marketplace: bool,
        category: String,
        contract_amount: u128,
        contract_resource: u64,
        is_joinable: bool,
        contract_address: u64,
        fee_amount: u128,
        fee_resource: u64,
    ) -> (r: Result<(), ContractError>)
        requires
            old(self).wf(),
            match old(self).projects.get_spec(category@) {
                Option::Some(m) => m.list.list_total < u64::MAX,
                Option::None => true,
            },
            match old(self).resources.get_spec(XRD) {
                Option::Some(b) => b as int + fee_amount as int <= u128::MAX as int,
                Option::None => true,
            },
        ensures
            final(self).wf(),
            match r {
                Ok(()) => {
                    &&& old(self).add_project_err(
                        lists_this_marketplace,
                        category@,
                        contract_amount,
                        contract_resource,
                        is_joinable,
                        contract_address,
                        fee_amount,
                        fee_resource,
                    ) is None
                    &&& ({
                        let prev = old(self).projects.get_spec(category@).unwrap();
                        match final(self).projects.get_spec(category@) {
                            Option::Some(m) => {
                                &&& m.list.all.get_spec(contract_address) == Some(
                                    m.list.list_total,
                                )
                                &&& m.list.list_total == prev.list.list_total + 1
                                &&& m == (MarketManager { list: m.list, ..prev })
                            },
                            Option::None => false,
                        }
                    })
                    &&& forall|k: Seq<char>|
                        k != category@ ==> final(self).projects.get_spec(k) == old(
                            self,
                        ).projects.get_spec(k)
                    &&& final(self).jobs == old(self).jobs
                    &&& final(self).resources.get_spec(XRD) == Some(
                        ((match old(self).resources.get_spec(XRD) {
                            Option::Some(b) => b,
                            Option::None => 0u128,
                        }) + fee_amount) as u128,
                    )
                    &&& forall|a: u64|
                        a != XRD ==> final(self).resources.get_spec(a) == old(
                            self,
                        ).resources.get_spec(a)
                    &&& *final(self) == (Marketplace {
                        projects: final(self).projects,
                        resources: final(self).resources,
                        ..*old(self)
                    })
                },
                Err(e) => {
                    &&& old(self).add_project_err(
                        lists_this_marketplace,
                        category@,
                        contract_amount,
                        contract_resource,
                        is_joinable,
                        contract_address,
                        fee_amount,
                        fee_resource,
                    ) == Some(e)
                    &&& *final(self) == *old(self)
                },
            },
    {
        if !lists_this_marketplace {
            return Err(ContractError::PreconditionViolation);
        }
        if !is_joinable {
            return Err(ContractError::PreconditionViolation);
        }
        let (quoted_fee, already_listed) = match self.projects.get(&category) {
            None => {
                return Err(ContractError::NotFound);
            },
            Some(m) => {
                match m.check_contract(contract_amount, contract_resource) {
                    Err(e) => {
                        return Err(e);
                    },
                    Ok(f) => (f, m.list.all.contains_key(contract_address)),
                }
            },
        };
        if fee_amount != quoted_fee {
            return Err(ContractError::PreconditionViolation);
        }
        if fee_resource != XRD {
            return Err(ContractError::LedgerInvariantViolation);
        }
        if already_listed {
            return Err(ContractError::PreconditionViolation);
        }
        let mut market = match self.projects.remove(&category) {
            Some(m) => m,
            None => {
                proof {
                    assert(false);
                }
                return Err(ContractError::NotFound);
            },
        };
        match market.list(contract_address) {
            Ok(()) => (),
            Err(_) => {
                proof {
                    assert(false);
                }
            },
        }
        self.projects.insert(category, market);
        self.deposit(fee_resource, fee_amount);
        Ok(())
    }

    /// Why listing a job contract here would be refused: as for a project,
    /// against the category's job market.
    pub open spec fn add_job_err(
        self,
        lists_this_marketplace: bool,
        category: Seq<char>,
        contract_amount: u128,
        contract_resource: u64,
        is_joinable: bool,
        contract_address: u64,
        fee_amount: u128,
        fee_resource: u64,
    ) -> Option<ContractError> {
        if !lists_this_marketplace {
            Some(ContractError::PreconditionViolation)
        } else if !is_joinable {
            Some(ContractError::PreconditionViolation)
        } else {
            match self.jobs.get_spec(category) {
                Option::None => Some(ContractError::NotFound),
                Option::Some(m) => match m.check_contract_err(contract_amount, contract_resource) {
                    Option::Some(e) => Some(e),
                    Option::None => if fee_amount != m.fee {
                        Some(ContractError::PreconditionViolation)
                    } else if fee_resource != XRD {
                        Some(ContractError::LedgerInvariantViolation)
                    } else {
                        m.list.add_err(contract_address)
                    },
                },
            }
        }
    }

    /// Lists a job contract on a category's market and collects the fee.
    pub fn add_job(
        &mut self,
        lists_this_marketplace: bool,
        category: String,
        contract_amount: u128,
        contract_resource: u64,
        is_joinable: bool,
        contract_address: u64,
        fee_amount: u128,
        fee_resource: u64,
    ) -> (r: Result<(), ContractError>)
        requires
            old(self).wf(),
            match old(self).jobs.get_spec(category@) {
                Option::Some(m) => m.list.list_total < u64::MAX,
                Option::None => true,
            },
            match old(self).resources.get_spec(XRD) {
                Option::Some(b) => b as int + fee_amount as int <= u128::MAX as int,
                Option::None => true,
            },
        ensures
            final(self).wf(),
            match r {
                Ok(()) => {
                    &&& old(self).add_job_err(
                        lists_this_marketplace,
                        category@,
                        contract_amount,
                        contract_resource,
                        is_joinable,
                        contract_address,
                        fee_amount,
                        fee_resource,
                    ) is None
                    &&& ({
                        let prev = old(self).jobs.get_spec(category@).unwrap();
                        match final(self).jobs.get_spec(category@) {
                            Option::Some(m) => {
                                &&& m.list.all.get_spec(contract_address) == Some(
                                    m.list.list_total,
                                )
                                &&& m.list.list_total == prev.list.list_total + 1
                                &&& m == (MarketManager { list: m.list, ..prev })
                            },
                            Option::None => false,
                        }
                    })
                    &&& forall|k: Seq<char>|
                        k != category@ ==> final(self).jobs.get_spec(k) == old(
                            self,
                        ).jobs.get_spec(k)
                    &&& final(self).projects == old(self).projects
                    &&& final(self).resources.get_spec(XRD) == Some(
                        ((match old(self).resources.get_spec(XRD) {
                            Option::Some(b) => b,
                            Option::None => 0u128,
                        }) + fee_amount) as u128,
                    )
                    &&& forall|a: u64|
                        a != XRD ==> final(self).resources.get_spec(a) == old(
                            self,
                        ).resources.get_spec(a)
                    &&& *final(self) == (Marketplace {
                        jobs: final(self).jobs,
                        resources: final(self).resources,
                        ..*old(self)
                    })
                },
                Err(e) => {
                    &&& old(self).add_job_err(
                        lists_this_marketplace,
                        category@,
                        contract_amount,
                        contract_resource,
                        is_joinable,
                        contract_address,
                        fee_amount,
                        fee_resource,
                    ) == Some(e)
                    &&& *final(self) == *old(self)
                },
            },
    {
        if !lists_this_marketplace {
            return Err(ContractError::PreconditionViolation);
        }
        if !is_joinable {
            return Err(ContractError::PreconditionViolation);
        }
        let (quoted_fee, already_listed) = match self.jobs.get(&category) {
            None => {
                return Err(ContractError::NotFound);
            },
            Some(m) => {
                match m.check_contract(contract_amount, contract_resource) {
                    Err(e) => {
                        return Err(e);
                    },
                    Ok(f) => (f, m.list.all.contains_key(contract_address)),
                }
            },
        };
        if fee_amount != quoted_fee {
            return Err(ContractError::PreconditionViolation);
        }
        if fee_resource != XRD {
            return Err(ContractError::LedgerInvariantViolation);
        }
        if already_listed {
            return Err(ContractError::PreconditionViolation);
        }
        let mut market = match self.jobs.remove(&category) {
            Some(m) => m,
            None => {
                proof {
                    assert(false);
                }
                return Err(ContractError::NotFound);
            },
        };
        match market.list(contract_address) {
            Ok(()) => (),
            Err(_) => {
                proof {
                    assert(false);
                }
            },
        }
        self.jobs.insert(category, market);
        self.deposit(fee_resource, fee_amount);
        Ok(())
    }

    /// Why a contract fails a market's entry check: no such market, or the
    /// market's own requirements refuse it.
    pub open spec fn check_contract_err(
        self,
        name: Seq<char>,
        kind: ContractKind,
        contract_amount: u128,
        contract_resource: u64,
    ) -> Option<ContractError> {
        let map = if kind == ContractKind::Project {
            self.projects
        } else {
            self.jobs
        };
        match map.get_spec(name) {
            Option::None => Some(ContractError::NotFound),
            Option::Some(m) => m.check_contract_err(contract_amount, contract_resource),
        }
    }

    /// Checks a contract against a market and quotes the listing fee.
    pub fn check_contract(
        &self,
        name: String,
        kind: ContractKind,
        contract_amount: u128,
        contract_resource: u64,
    ) -> (r: Result<u128, ContractError>)
        requires
            self.wf(),
        ensures
            match r {
                Ok(fee) => {
                    &&& self.check_contract_err(name@, kind, contract_amount, contract_resource)
                        is None
                    &&& ({
                        let map = if kind == ContractKind::Project {
                            self.projects
                        } else {
                            self.jobs
                        };
                        fee == map.get_spec(name@).unwrap().fee
                    })
                },
                Err(e) => self.check_contract_err(name@, kind, contract_amount, contract_resource)
                    == Some(e),
            },
    {
        if kind == ContractKind::Project {
            match self.projects.get(&name) {
                None => Err(ContractError::NotFound),
                Some(m) => m.check_contract(contract_amount, contract_resource),
            }
        } else {
            match self.jobs.get(&name) {
                None => Err(ContractError::NotFound),
                Some(m) => m.check_contract(contract_amount, contract_resource),
            }
        }
    }
}

} // verus!
