//! Member account: tracks the contracts a badge holder administers or works
//! on, their contacts, teams and collected balances.
//!
//! The host ledger mints the account's badge and resolves contact badges to
//! account components; what this component owns is the bookkeeping on those
//! plain ids.

use crate::contract_types::ContractError;
use crate::contract_types::ContractRole;
use crate::contract_types::MemberData;
use crate::contract_types::TeamData;
use crate::list::List;
use crate::str_table::str_upserted;
use crate::str_table::StrTable;
use crate::tables::Table;
use vstd::prelude::*;

verus! {

/// A member account.
pub struct Member {
    /// Resource id of the account's own badge.
    pub admin_badge: u64,
    pub member_handle: String,
    /// Address of this account's component.
    pub member_address: u64,
    /// Project contracts this account administers.
    pub project_admins: List,
    /// Project contracts this account works on.
    pub project_members: List,
    /// Job contracts this account administers.
    pub job_admins: List,
    /// Job contracts this account works on.
    pub job_members: List,
    /// Contact badges.
    pub member_badges: Table<()>,
    /// Contact account components.
    pub member_components: Table<()>,
    /// Teams the account describes, by name.
    pub teams: StrTable<TeamData>,
    /// Collected balances, by asset kind.
    pub resources: Table<u128>,
    /// Free-form metadata shown to users.
    pub details: StrTable<String>,
}

impl Member {
    pub open spec fn wf(self) -> bool {
        &&& self.project_admins.wf()
        &&& self.project_members.wf()
        &&& self.job_admins.wf()
        &&& self.job_members.wf()
        &&& self.member_badges.wf()
        &&& self.member_components.wf()
        &&& self.teams.wf()
        &&& self.resources.wf()
        &&& self.details.wf()
    }

    /// Creates a member account; the badge the host mints for it carries
    /// this component's address.
    pub fn instantiate(member_handle: String, admin_badge: u64, member_address: u64) -> (r: (
        Member,
        MemberData,
    ))
        ensures
            ({
                let (c, badge_data) = r;
                &&& c.wf()
                &&& c.admin_badge == admin_badge
                &&& c.member_handle@ == member_handle@
                &&& c.member_address == member_address
                &&& c.project_admins.list_total == 0
                &&& c.project_members.list_total == 0
                &&& c.job_admins.list_total == 0
                &&& c.job_members.list_total == 0
                &&& c.member_badges.entries@.len() == 0
                &&& c.member_components.entries@.len() == 0
                &&& c.teams.entries@.len() == 0
                &&& c.resources.entries@.len() == 0
                &&& c.details.entries@.len() == 0
                &&& badge_data.member_address == member_address
            }),
    {
        let component = Member {
            admin_badge,
            member_handle,
            member_address,
            project_admins: List::new(),
            project_members: List::new(),
            job_admins: List::new(),
            job_members: List::new(),
            member_badges: Table::new(),
            member_components: Table::new(),
            teams: StrTable::new(),
            resources: Table::new(),
            details: StrTable::new(),
        };
        let badge_data = MemberData { member_address };
        (component, badge_data)
    }

    /// Records a project contract under the role this account's badge holds
    /// in it (the role is the contract's own answer).
    pub fn add_project(&mut self, project_address: u64, role: ContractRole) -> (r: Result<
        (),
        ContractError,
    >)
        requires
            old(self).wf(),
            old(self).project_admins.list_total < u64::MAX,
            old(self).project_members.list_total < u64::MAX,
        ensures
            final(self).wf(),
            match r {
                Ok(()) => {
                    &&& (if role == ContractRole::Admin {
                        let list = final(self).project_admins;
                        &&& old(self).project_admins.add_err(project_address) is None
                        &&& list.all.get_spec(project_address) == Some(list.list_total)
                        &&& final(self).project_members == old(self).project_members
                    } else {
                        let list = final(self).project_members;
                        &&& old(self).project_members.add_err(project_address) is None
                        &&& list.all.get_spec(project_address) == Some(list.list_total)
                        &&& final(self).project_admins == old(self).project_admins
                    })
                    &&& *final(self) == (Member {
                        project_admins: final(self).project_admins,
                        project_members: final(self).project_members,
                        ..*old(self)
                    })
                },
                Err(e) => {
                    &&& Some(e) == if role == ContractRole::Admin {
                        old(self).project_admins.add_err(project_address)
                    } else {
                        old(self).project_members.add_err(project_address)
                    }
                    &&& *final(self) == *old(self)
                },
            },
    {
        match role {
            ContractRole::Admin => self.project_admins.add(project_address),
            ContractRole::Member => self.project_members.add(project_address),
        }
    }

    /// Records a job contract under the role this account's badge holds in
    /// it.
    pub fn add_job(&mut self, job_address: u64, role: ContractRole) -> (r: Result<
        (),
        ContractError,
    >)
        requires
            old(self).wf(),
            old(self).job_admins.list_total < u64::MAX,
            old(self).job_members.list_total < u64::MAX,
        ensures
            final(self).wf(),
            match r {
                Ok(()) => {
                    &&& (if role == ContractRole::Admin {
                        let list = final(self).job_admins;
                        &&& old(self).job_admins.add_err(job_address) is None
                        &&& list.all.get_spec(job_address) == Some(list.list_total)
                        &&& final(self).job_members == old(self).job_members
                    } else {
                        let list = final(self).job_members;
                        &&& old(self).job_members.add_err(job_address) is None
                        &&& list.all.get_spec(job_address) == Some(list.list_total)
                        &&& final(self).job_admins == old(self).job_admins
                    })
                    &&& *final(self) == (Member {
                        job_admins: final(self).job_admins,
                        job_members: final(self).job_members,
                        ..*old(self)
                    })
                },
                Err(e) => {
                    &&& Some(e) == if role == ContractRole::Admin {
                        old(self).job_admins.add_err(job_address)
                    } else {
                        old(self).job_members.add_err(job_address)
                    }
                    &&& *final(self) == *old(self)
                },
            },
    {
        match role {
            ContractRole::Admin => self.job_admins.add(job_address),
            ContractRole::Member => self.job_members.add(job_address),
        }
    }

    /// Delists a contract from the chosen register.
    pub fn remove_contract(&mut self, address: u64, is_project: bool, is_admin: bool) -> (r: Result<
        (),
        ContractError,
    >)
        requires
            old(self).wf(),
        ensures
            final(self).wf(),
            ({
                let prev = if is_project {
                    if is_admin {
                        old(self).project_admins
                    } else {
                        old(self).project_members
                    }
                } else {
                    if is_admin {
                        old(self).job_admins
                    } else {
                        old(self).job_members
                    }
                };
                let curr = if is_project {
                    if is_admin {
                        final(self).project_admins
                    } else {
                        final(self).project_members
                    }
                } else {
                    if is_admin {
                        final(self).job_admins
                    } else {
                        final(self).job_members
                    }
                };
                match r {
                    Ok(()) => {
                        &&& prev.remove_err(address) is None
                        &&& curr.listings.get_spec(prev.all.get_spec(address).unwrap()) == Some(
                            None::<u64>,
                        )
                        &&& curr.all == prev.all
                    },
                    Err(e) => {
                        &&& prev.remove_err(address) == Some(e)
                        &&& *final(self) == *old(self)
                    },
                }
            }),
            *final(self) == (Member {
                project_admins: final(self).project_admins,
                project_members: final(self).project_members,
                job_admins: final(self).job_admins,
                job_members: final(self).job_members,
                ..*old(self)
            }),
    {
        if is_project {
            if is_admin {
                self.project_admins.remove(address)
            } else {
                self.project_members.remove(address)
            }
        } else {
            if is_admin {
                self.job_admins.remove(address)
            } else {
                self.job_members.remove(address)
            }
        }
    }

    /// Collects an amount of an asset.
    pub fn deposit(&mut self, resource_address: u64, amount: u128)
        requires
            old(self).wf(),
            match old(self).resources.get_spec(resource_address) {
                Option::Some(b) => b as int + amount as int <= u128::MAX as int,
                Option::None => true,
            },
        ensures
            final(self).wf(),
            final(self).resources.get_spec(resource_address) == Some(
                ((match old(self).resources.get_spec(resource_address) {
                    Option::Some(b) => b,
                    Option::None => 0u128,
                }) + amount) as u128,
            ),
            forall|a: u64|
                a != resource_address ==> final(self).resources.get_spec(a) == old(
                    self,
                ).resources.get_spec(a),
            *final(self) == (Member { resources: final(self).resources, ..*old(self) }),
    {
        let prev = match self.resources.get(resource_address) {
            Some(b) => *b,
            None => 0,
        };
        self.resources.insert(resource_address, prev + amount);
    }

    /// Hands the whole collected balance of an asset to the account holder.
    pub fn withdraw(&mut self, resource_address: u64) -> (r: Result<u128, ContractError>)
        requires
            old(self).wf(),
        ensures
            final(self).wf(),
            match r {
                Ok(taken) => {
                    &&& old(self).resources.get_spec(resource_address) == Some(taken)
                    &&& final(self).resources.get_spec(resource_address) == Some(0u128)
                    &&& forall|a: u64|
                        a != resource_address ==> final(self).resources.get_spec(a) == old(
                            self,
                        ).resources.get_spec(a)
                    &&& *final(self) == (Member { resources: final(self).resources, ..*old(self) })
                },
                Err(e) => {
                    &&& e == ContractError::NotFound
                    &&& !old(self).resources.has_key(resource_address)
                    &&& *final(self) == *old(self)
                },
            },
    {
        let taken = match self.resources.get(resource_address) {
            None => {
                return Err(ContractError::NotFound);
            },
            Some(b) => *b,
        };
        self.resources.insert(resource_address, 0);
        Ok(taken)
    }

    /// Adds or removes contacts; each contact is the pair of its badge and
    /// the account component the host resolved that badge to.
    pub fn update_members(&mut self, contacts: Vec<(u64, u64)>, is_remove: bool)
        requires
            old(self).wf(),
        ensures
            final(self).wf(),
            forall|i: int|
                0 <= i < contacts@.len() ==> {
                    &&& final(self).member_badges.has_key((#[trigger] contacts@[i]).0) == (
                    !is_remove)
                    &&& final(self).member_components.has_key(contacts@[i].1) == (!is_remove)
                },
            *final(self) == (Member {
                member_badges: final(self).member_badges,
                member_components: final(self).member_components,
                ..*old(self)
            }),
    {
        let n = contacts.len();
        let mut i: usize = 0;
        while i < n
            invariant
                n == contacts@.len(),
                i <= n,
                self.member_badges.wf(),
                self.member_components.wf(),
                forall|l: int|
                    0 <= l < i ==> {
                        &&& self.member_badges.has_key((#[trigger] contacts@[l]).0) == (!is_remove)
                        &&& self.member_components.has_key(contacts@[l].1) == (!is_remove)
                    },
                *self == (Member {
                    member_badges: self.member_badges,
                    member_components: self.member_components,
                    ..*old(self)
                }),
            decreases n - i,
        {
            let contact_badge = contacts[i].0;
            let contact_component = contacts[i].1;
            if is_remove {
                let _ = self.member_badges.remove(contact_badge);
                let _ = self.member_components.remove(contact_component);
            } else {
                self.member_badges.insert(contact_badge, ());
                self.member_components.insert(contact_component, ());
            }
            i += 1;
        }
    }

    /// Describes a team: replaces its details wholesale, keeping its badge;
    /// a new name starts with no badge.
    pub fn update_team(&mut self, name: String, details: Vec<(String, String)>)
        requires
            old(self).wf(),
        ensures
            final(self).wf(),
            match final(self).teams.get_spec(name@) {
                Option::Some(team) => {
                    &&& team.details@ == details@
                    &&& team.team_badge == match old(self).teams.get_spec(name@) {
                        Option::Some(prev) => prev.team_badge,
                        Option::None => None::<u64>,
                    }
                },
                Option::None => false,
            },
            forall|k: Seq<char>|
                k != name@ ==> final(self).teams.get_spec(k) == old(self).teams.get_spec(k),
            *final(self) == (Member { teams: final(self).teams, ..*old(self) }),
    {
        let team_badge: Option<u64> = match self.teams.remove(&name) {
            Some(team) => team.team_badge,
            None => None,
        };
        self.teams.insert(name, TeamData { details, team_badge });
    }

    /// Forgets a team.
    pub fn remove_team(&mut self, name: String)
        requires
            old(self).wf(),
        ensures
            final(self).wf(),
            !final(self).teams.has_key(name@),
            forall|k: Seq<char>|
                k != name@ ==> final(self).teams.get_spec(k) == old(self).teams.get_spec(k),
            *final(self) == (Member { teams: final(self).teams, ..*old(self) }),
    {
        let _ = self.teams.remove(&name);
    }

    /// Updates the account's free-form details; later pairs win.
    pub fn details(&mut self, details: Vec<(String, String)>)
        requires
            old(self).wf(),
        ensures
            final(self).wf(),
            forall|k: Seq<char>|
                final(self).details.get_spec(k) == str_upserted(
                    old(self).details.get_spec(k),
                    details@,
                    k,
                ),
            *final(self) == (Member { details: final(self).details, ..*old(self) }),
    {
        let n = details.len();
        let mut i: usize = 0;
        while i < n
            invariant
                n == details@.len(),
                i <= n,
                self.details.wf(),
                forall|k: Seq<char>|
                    self.details.get_spec(k) == str_upserted(
                        old(self).details.get_spec(k),
                        details@.subrange(0, i as int),
                        k,
                    ),
                *self == (Member { details: self.details, ..*old(self) }),
            decreases n - i,
        {
            let key = details[i].0.clone();
            let value = details[i].1.clone();
            self.details.insert(key, value);
            proof {
                crate::str_table::lemma_str_pairs_last_prefix(details@, i as int);
            }
            i += 1;
        }
        proof {
            assert(details@.subrange(0, n as int) =~= details@);
        }
    }

    /// Resource id of the account's badge.
    pub fn get_badge(&self) -> (r: u64)
        ensures
            r == self.admin_badge,
    {
        self.admin_badge
    }
}

} // verus!
