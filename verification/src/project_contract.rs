//! Multi-objective payout contract: escrowed funds are distributed against
//! discrete, admin-defined objectives with fixed per-member amounts.
//!
//! The admin invites members, members join, the admin deposits funds and
//! then allocates the whole escrow across pending objectives with `update`.
//! `reward` settles one member of one objective — it moves the member's
//! amount from escrow into that member's reserved balance and the pair from
//! the pending into the completed ledger — and `complete` settles a whole
//! objective.  `withdraw` drains a member's reserved balance; `cancellation`
//! forfeits pending objectives and recalls the remaining escrow.  The ledger
//! is conservative throughout: escrow plus all reserved balances equals
//! cumulative deposits minus cumulative releases.
//!
//! The host ledger's clock is passed in as `now`; credential proofs arrive
//! as the verified handle the host's verifier read from them.

use crate::badge_manager::tx_logged;
use crate::badge_manager::BadgeManager;
use crate::contract_types::BadgeData;
use crate::contract_types::ContractError;
use crate::contract_types::ContractKind;
use crate::contract_types::ContractRole;
use crate::contract_types::TxData;
use crate::contract_types::TxType;
use crate::contract_types::MAX_OBJS;
use crate::contract_types::MAX_OBJ_MEMBERS;
use crate::contract_types::MAX_PROJECT_MEMBERS;
use crate::tables::lemma_seq_get_at;
use crate::tables::lemma_sum_amounts_entry_le;
use crate::tables::lemma_sum_amounts_nonneg;
use crate::tables::lemma_sum_amounts_push;
use crate::tables::lemma_sum_amounts_remove;
use crate::tables::lemma_sum_objectives_nonneg;
use crate::tables::lemma_sum_objectives_push;
use crate::tables::lemma_sum_objectives_remove;
use crate::tables::lemma_sum_objectives_entry_le;
use crate::tables::sum_amounts;
use crate::tables::sum_objectives;
use crate::tables::Table;
use vstd::arithmetic::div_mod::lemma_mod_decreases;
use vstd::prelude::*;

verus! {

/// Both layers of a pending- or completed-objective ledger are well-formed
/// tables.
pub open spec fn objectives_wf(t: Table<Table<u128>>) -> bool {
    &&& t.wf()
    &&& forall|i: int| 0 <= i < t.entries@.len() ==> (#[trigger] t.entries@[i].1).wf()
}

/// The amount an objective ledger assigns to `(o, m)`, if any.
pub open spec fn obj_member_amount(t: Table<Table<u128>>, o: u64, m: u64) -> Option<u128> {
    match t.get_spec(o) {
        Some(inner) => inner.get_spec(m),
        None => None,
    }
}

/// Whether an objective ledger lists member `m` under objective `o`.
pub open spec fn obj_has_member(t: Table<Table<u128>>, o: u64, m: u64) -> bool {
    obj_member_amount(t, o, m) is Some
}

/// `a` rounded toward zero to a multiple of `g`.
pub open spec fn round_down(a: int, g: int) -> int {
    a - a % g
}

/// Sum of the amounts in a distribution, each rounded toward zero to a
/// multiple of `g`: what actually leaves escrow when all of them settle.
pub open spec fn sum_rounded(s: Seq<(u64, u128)>, g: int) -> int
    decreases s.len(),
{
    if s.len() == 0 {
        0
    } else {
        sum_rounded(s.drop_last(), g) + round_down(s.last().1 as int, g)
    }
}

/// One step of a prefix sum of rounded amounts.
pub proof fn lemma_sum_rounded_prefix(s: Seq<(u64, u128)>, i: int, g: int)
    requires
        0 <= i < s.len(),
    ensures
        sum_rounded(s.subrange(0, i + 1), g) == sum_rounded(s.subrange(0, i), g) + round_down(
            s[i].1 as int,
            g,
        ),
{
    assert(s.subrange(0, i + 1).drop_last() =~= s.subrange(0, i));
}

/// Detaches `member` from every objective in the ledger: keys and all other
/// members' amounts stay as they were, and the pending total cannot grow.
fn remove_member_from_objectives(t: &mut Table<Table<u128>>, member: u64)
    requires
        objectives_wf(*old(t)),
    ensures
        objectives_wf(*final(t)),
        final(t).entries@.len() == old(t).entries@.len(),
        forall|o: u64| final(t).has_key(o) == old(t).has_key(o),
        forall|o: u64, m: u64|
            m != member ==> obj_member_amount(*final(t), o, m) == obj_member_amount(*old(t), o, m),
        forall|o: u64| !obj_has_member(*final(t), o, member),
        sum_objectives(final(t).entries@) <= sum_objectives(old(t).entries@),
{
    let ghost orig = old(t).entries@;
    let n = t.entries.len();
    let mut i: usize = 0;
    while i < n
        invariant
            n == orig.len(),
            i <= n,
            crate::tables::keys_distinct(orig),
            forall|j: int| 0 <= j < n ==> (#[trigger] orig[j].1).wf(),
            t.entries@.len() == n,
            forall|j: int| 0 <= j < n ==> t.entries@[j].0 == orig[j].0,
            forall|j: int| i <= j < n ==> t.entries@[j] == orig[j],
            forall|j: int|
                0 <= j < i ==> {
                    let inner = (#[trigger] t.entries@[j]).1;
                    &&& inner.wf()
                    &&& !inner.has_key(member)
                    &&& forall|m: u64| m != member ==> inner.get_spec(m) == orig[j].1.get_spec(m)
                },
            sum_objectives(t.entries@) <= sum_objectives(orig),
        decreases n - i,
    {
        let ghost before = t.entries@;
        let pair = t.entries.remove(i);
        let k = pair.0;
        let mut inner = pair.1;
        let ghost inner_before = inner;
        proof {
            assert(before[i as int] == orig[i as int]);
            assert(orig[i as int].1.wf());
        }
        let removed_amount = inner.remove(member);
        t.entries.insert(i, (k, inner));
        proof {
            assert(t.entries@ =~= before.update(i as int, (k, inner)));
            crate::tables::lemma_sum_objectives_update(before, i as int, (k, inner));
            match removed_amount {
                Some(_) => {
                    lemma_sum_amounts_remove(inner_before.entries@, inner_before.key_index(member));
                },
                None => {},
            }
        }
        i += 1;
    }
    proof {
        assert forall|a: int, b: int|
            0 <= a < b < t.entries@.len() implies t.entries@[a].0 != t.entries@[b].0 by {
            assert(t.entries@[a].0 == orig[a].0);
            assert(t.entries@[b].0 == orig[b].0);
        }
        assert forall|o: u64| t.has_key(o) == old(t).has_key(o) by {
            if seq_has_key_u(orig, o) {
                let j = crate::tables::seq_key_index(orig, o);
                lemma_seq_get_at(orig, j, o);
                assert(t.entries@[j].0 == o);
                lemma_seq_get_at(t.entries@, j, o);
            }
            if t.has_key(o) {
                let j = t.key_index(o);
                lemma_seq_get_at(t.entries@, j, o);
                assert(orig[j].0 == o);
                lemma_seq_get_at(orig, j, o);
            }
        }
        assert forall|o: u64, m: u64| m != member implies obj_member_amount(*t, o, m)
            == obj_member_amount(*old(t), o, m) by {
            if seq_has_key_u(orig, o) {
                let j = crate::tables::seq_key_index(orig, o);
                lemma_seq_get_at(orig, j, o);
                lemma_seq_get_at(t.entries@, j, o);
            }
        }
        assert forall|o: u64| !obj_has_member(*t, o, member) by {
            if t.has_key(o) {
                let j = t.key_index(o);
                lemma_seq_get_at(t.entries@, j, o);
            }
        }
    }
}

/// Whether an objective ledger's entry sequence holds key `k`.
pub open spec fn seq_has_key_u(s: Seq<(u64, Table<u128>)>, k: u64) -> bool {
    crate::tables::seq_has_key(s, k)
}

/// The multi-objective payout contract.
pub struct ProjectContract {
    /// Badge issuer and transaction history of this contract.
    pub badge_manager: BadgeManager,
    pub app_handle: String,
    pub contract_handle: String,
    pub contract_name: String,
    /// Address of this contract's component.
    pub contract_address: u64,
    /// Resource id of the admin's badge.
    pub admin_badge: u64,
    pub admin_handle: String,
    /// Invited members: badge resource id to handle.
    pub member_badges: Table<String>,
    /// Members removed after signing, kept for audit.
    pub removed: Table<String>,
    /// Badges of members who joined (signed).
    pub signatures: Table<()>,
    /// Resource id of the escrowed fungible asset.
    pub resource_address: u64,
    /// Smallest representable amount of the asset, in atto units:
    /// 10^(18 - divisibility).
    pub granularity: u128,
    /// Escrowed balance, atto units.
    pub funds: u128,
    /// Pending objectives: objective id to per-member amounts.
    pub objectives: Table<Table<u128>>,
    /// Settled objectives: objective id to per-member amounts already paid.
    pub completed: Table<Table<u128>>,
    /// Earned but unclaimed balances, per member badge.
    pub reserved: Table<u128>,
    pub is_cancelled: bool,
    pub cancelled_epoch: i64,
    pub created_epoch: i64,
    /// Cumulative deposits, atto units (ghost accounting).
    pub deposited: Ghost<int>,
    /// Cumulative member withdrawals, atto units (ghost accounting).
    pub withdrawn: Ghost<int>,
    /// Cumulative recalls to the admin by cancellation (ghost accounting).
    pub swept: Ghost<int>,
}

impl ProjectContract {
    /// Conservation: escrow plus every reserved balance equals cumulative
    /// deposits minus cumulative releases (withdrawals plus recalls).
    pub open spec fn conserved(self) -> bool {
        self.funds as int + sum_amounts(self.reserved.entries@) + self.withdrawn@ + self.swept@
            == self.deposited@
    }

    /// No `(objective, member)` pair is both pending and completed.
    pub open spec fn pending_completed_disjoint(self) -> bool {
        forall|o: u64, m: u64|
            #[trigger] obj_has_member(self.completed, o, m) ==> !obj_has_member(
                self.objectives,
                o,
                m,
            )
    }

    /// Every member listed in a pending objective is on the roster.
    pub open spec fn pending_members_invited(self) -> bool {
        forall|o: u64, m: u64|
            #[trigger] obj_has_member(self.objectives, o, m) ==> self.member_badges.has_key(m)
    }

    pub open spec fn wf(self) -> bool {
        &&& self.member_badges.wf()
        &&& self.removed.wf()
        &&& self.signatures.wf()
        &&& self.reserved.wf()
        &&& objectives_wf(self.objectives)
        &&& objectives_wf(self.completed)
        &&& self.granularity > 0
        &&& self.deposited@ >= 0
        &&& self.withdrawn@ >= 0
        &&& self.swept@ >= 0
        &&& self.conserved()
        &&& sum_objectives(self.objectives.entries@) <= self.funds as int
        &&& self.funds as int + sum_amounts(self.reserved.entries@) <= u128::MAX as int
        &&& self.pending_completed_disjoint()
        &&& self.pending_members_invited()
    }

    /// Conservation law: in every well-formed state the escrow plus every
    /// reserved balance equals what was deposited minus what was released.
    pub proof fn lemma_conservation(self)
        requires
            self.wf(),
        ensures
            self.funds as int + sum_amounts(self.reserved.entries@) == self.deposited@
                - self.withdrawn@ - self.swept@,
    {
    }

    /// Whether `proof_handle` authenticates `member_badge`: the badge was
    /// invited and the verified handle matches the one recorded then.
    pub open spec fn proof_err(self, member_badge: u64, proof_handle: Seq<char>) -> Option<
        ContractError,
    > {
        match self.member_badges.get_spec(member_badge) {
            Option::None => Some(ContractError::NotFound),
            Option::Some(saved) => if saved@ != proof_handle {
                Some(ContractError::AuthorizationFailure)
            } else {
                None
            },
        }
    }

    /// Verifies that the presented handle matches the one recorded at invite
    /// time for this badge.
    fn check_proof(&self, member_badge: u64, proof_handle: &String) -> (r: Result<
        (),
        ContractError,
    >)
        requires
            self.wf(),
        ensures
            match r {
                Ok(()) => self.proof_err(member_badge, proof_handle@) is None,
                Err(e) => self.proof_err(member_badge, proof_handle@) == Some(e),
            },
    {
        match self.member_badges.get(member_badge) {
            None => Err(ContractError::NotFound),
            Some(saved_handle) => {
                if !(*proof_handle == *saved_handle) {
                    Err(ContractError::AuthorizationFailure)
                } else {
                    Ok(())
                }
            },
        }
    }

    /// Appends one transaction record to the history.
    fn create_tx(
        &mut self,
        from_handle: String,
        from_badge: u64,
        to_handle: String,
        to_badge: u64,
        amount: u128,
        tx_type: TxType,
        now: i64,
    )
        ensures
            tx_logged(
                old(self).badge_manager,
                final(self).badge_manager,
                now,
                from_handle@,
                from_badge,
                to_handle@,
                to_badge,
                amount,
                tx_type,
            ),
            *final(self) == (ProjectContract {
                badge_manager: final(self).badge_manager,
                ..*old(self)
            }),
    {
        let tx_data = TxData {
            epoch: now,
            from_handle,
            from_badge,
            to_handle,
            to_badge,
            amount,
            tx_type,
        };
        self.badge_manager.create_tx(tx_data);
    }

    /// Creates a project contract with an empty escrow, no objectives and no
    /// members, and logs its creation.
    pub fn instantiate(
        app_handle: String,
        contract_handle: String,
        contract_name: String,
        admin_badge: u64,
        admin_handle: String,
        badge: u64,
        resource_address: u64,
        granularity: u128,
        contract_address: u64,
        now: i64,
    ) -> (r: (ProjectContract, BadgeData))
        requires
            granularity > 0,
        ensures
            ({
                let (c, admin_nft) = r;
                &&& c.wf()
                &&& c.app_handle@ == app_handle@
                &&& c.contract_handle@ == contract_handle@
                &&& c.contract_name@ == contract_name@
                &&& c.contract_address == contract_address
                &&& c.admin_badge == admin_badge
                &&& c.admin_handle@ == admin_handle@
                &&& c.badge_manager.badge == badge
                &&& c.badge_manager.kind == ContractKind::Project
                &&& c.resource_address == resource_address
                &&& c.granularity == granularity
                &&& c.funds == 0
                &&& c.member_badges.entries@.len() == 0
                &&& c.removed.entries@.len() == 0
                &&& c.signatures.entries@.len() == 0
                &&& c.objectives.entries@.len() == 0
                &&& c.completed.entries@.len() == 0
                &&& c.reserved.entries@.len() == 0
                &&& !c.is_cancelled
                &&& c.created_epoch == now
                &&& c.deposited@ == 0
                &&& c.withdrawn@ == 0
                &&& c.swept@ == 0
                &&& c.badge_manager.txs@.len() == 1
                &&& c.badge_manager.txs@.last().tx_type == TxType::Create
                &&& admin_nft.contract_address == contract_address
                &&& admin_nft.contract_kind == ContractKind::Project
                &&& admin_nft.contract_role == ContractRole::Admin
                &&& admin_nft.contract_handle@ == contract_handle@
                &&& admin_nft.app_handle@ == app_handle@
            }),
    {
        let badge_manager = BadgeManager::new(badge, ContractKind::Project, contract_name.clone());

        let mut component = ProjectContract {
            badge_manager,
            app_handle,
            contract_handle,
            contract_name,
            contract_address,
            admin_badge,
            admin_handle,
            member_badges: Table::new(),
            removed: Table::new(),
            signatures: Table::new(),
            resource_address,
            granularity,
            funds: 0,
            objectives: Table::new(),
            completed: Table::new(),
            reserved: Table::new(),
            is_cancelled: false,
            cancelled_epoch: 0,
            created_epoch: now,
            deposited: Ghost(0int),
            withdrawn: Ghost(0int),
            swept: Ghost(0int),
        };

        let admin_nft = BadgeData {
            contract_address: component.contract_address,
            contract_kind: ContractKind::Project,
            contract_role: ContractRole::Admin,
            contract_handle: component.contract_handle.clone(),
            app_handle: component.app_handle.clone(),
        };

        let _ = component.init(now);

        (component, admin_nft)
    }

    /// Logs the creation transaction (callable only while the history is
    /// empty; later calls change nothing and report the violation).
    pub fn init(&mut self, now: i64) -> (r: Result<(), ContractError>)
        requires
            old(self).wf(),
        ensures
            final(self).wf(),
            match r {
                Ok(()) => {
                    &&& old(self).badge_manager.txs@.len() == 0
                    &&& tx_logged(
                        old(self).badge_manager,
                        final(self).badge_manager,
                        now,
                        old(self).admin_handle@,
                        old(self).admin_badge,
                        old(self).contract_handle@,
                        old(self).badge_manager.badge,
                        old(self).funds,
                        TxType::Create,
                    )
                    &&& *final(self) == (ProjectContract {
                        badge_manager: final(self).badge_manager,
                        ..*old(self)
                    })
                },
                Err(e) => {
                    &&& old(self).badge_manager.txs@.len() != 0
                    &&& e == ContractError::PreconditionViolation
                    &&& *final(self) == *old(self)
                },
            },
    {
        if !self.badge_manager.is_new() {
            return Err(ContractError::PreconditionViolation);
        }
        self.create_tx(
            self.admin_handle.clone(),
            self.admin_badge,
            self.contract_handle.clone(),
            self.badge_manager.badge,
            self.funds,
            TxType::Create,
            now,
        );
        Ok(())
    }

    /// Why an invite would be refused: the roster is full, the badge is
    /// already on it, or the handle has no valid credential record
    /// (`badge_is_valid` is the host registry's answer).
    pub open spec fn invite_err(self, member_badge: u64, badge_is_valid: bool) -> Option<
        ContractError,
    > {
        if self.member_badges.entries@.len() > MAX_PROJECT_MEMBERS {
            Some(ContractError::PreconditionViolation)
        } else if self.member_badges.has_key(member_badge) {
            Some(ContractError::PreconditionViolation)
        } else if !badge_is_valid {
            Some(ContractError::NotFound)
        } else {
            None
        }
    }

    /// Invites a member onto the roster.
    pub fn invite(
        &mut self,
        member_badge: u64,
        member_handle: String,
        badge_is_valid: bool,
        now: i64,
    ) -> (r: Result<(), ContractError>)
        requires
            old(self).wf(),
        ensures
            final(self).wf(),
            match r {
                Ok(()) => {
                    &&& old(self).invite_err(member_badge, badge_is_valid) is None
                    &&& final(self).member_badges.get_spec(member_badge) == Some(member_handle)
                    &&& final(self).member_badges.entries@.len() == old(
                        self,
                    ).member_badges.entries@.len() + 1
                    &&& forall|b: u64|
                        b != member_badge ==> final(self).member_badges.get_spec(b) == old(
                            self,
                        ).member_badges.get_spec(b)
                    &&& tx_logged(
                        old(self).badge_manager,
                        final(self).badge_manager,
                        now,
                        old(self).admin_handle@,
                        old(self).admin_badge,
                        member_handle@,
                        member_badge,
                        0u128,
                        TxType::Invite,
                    )
                    &&& *final(self) == (ProjectContract {
                        badge_manager: final(self).badge_manager,
                        member_badges: final(self).member_badges,
                        ..*old(self)
                    })
                },
                Err(e) => {
                    &&& old(self).invite_err(member_badge, badge_is_valid) == Some(e)
                    &&& *final(self) == *old(self)
                },
            },
    {
        if self.member_badges.len() > MAX_PROJECT_MEMBERS {
            return Err(ContractError::PreconditionViolation);
        }
        if self.member_badges.contains_key(member_badge) {
            return Err(ContractError::PreconditionViolation);
        }
        if !badge_is_valid {
            return Err(ContractError::NotFound);
        }
        self.member_badges.insert(member_badge, member_handle.clone());

        self.create_tx(
            self.admin_handle.clone(),
            self.admin_badge,
            member_handle,
            member_badge,
            0,
            TxType::Invite,
            now,
        );
        Ok(())
    }

    /// Why a removal would be refused: the badge is not on the roster.
    pub open spec fn remove_err(self, member_badge: u64) -> Option<ContractError> {
        if !self.member_badges.has_key(member_badge) {
            Some(ContractError::NotFound)
        } else {
            None
        }
    }

    /// What a successful removal leaves behind: the badge is off the roster
    /// and detached from every pending objective; a member who had signed is
    /// recorded in `removed` for audit; everyone else is untouched.
    pub open spec fn removed_post(self, prev: Self, member_badge: u64) -> bool {
        &&& !self.member_badges.has_key(member_badge)
        &&& forall|b: u64|
            b != member_badge ==> self.member_badges.get_spec(b) == prev.member_badges.get_spec(b)
        &&& forall|o: u64| self.objectives.has_key(o) == prev.objectives.has_key(o)
        &&& forall|o: u64, m: u64|
            m != member_badge ==> obj_member_amount(self.objectives, o, m) == obj_member_amount(
                prev.objectives,
                o,
                m,
            )
        &&& forall|o: u64| !obj_has_member(self.objectives, o, member_badge)
        &&& sum_objectives(self.objectives.entries@) <= sum_objectives(prev.objectives.entries@)
        &&& if prev.signatures.has_key(member_badge) {
            self.removed.get_spec(member_badge) == prev.member_badges.get_spec(member_badge)
        } else {
            self.removed.get_spec(member_badge) == prev.removed.get_spec(member_badge)
        }
        &&& forall|b: u64|
            b != member_badge ==> self.removed.get_spec(b) == prev.removed.get_spec(b)
    }

    /// Removes a member: detaches the badge from all pending objectives and
    /// the roster; a signed member is recorded in `removed` for audit.
    pub fn remove(&mut self, member_badge: u64, now: i64) -> (r: Result<(), ContractError>)
        requires
            old(self).wf(),
        ensures
            final(self).wf(),
            match r {
                Ok(()) => {
                    &&& old(self).remove_err(member_badge) is None
                    &&& final(self).removed_post(*old(self), member_badge)
                    &&& tx_logged(
                        old(self).badge_manager,
                        final(self).badge_manager,
                        now,
                        old(self).admin_handle@,
                        old(self).admin_badge,
                        old(self).member_badges.get_spec(member_badge).unwrap()@,
                        member_badge,
                        0u128,
                        TxType::Remove,
                    )
                    &&& *final(self) == (ProjectContract {
                        badge_manager: final(self).badge_manager,
                        member_badges: final(self).member_badges,
                        removed: final(self).removed,
                        objectives: final(self).objectives,
                        ..*old(self)
                    })
                },
                Err(e) => {
                    &&& old(self).remove_err(member_badge) == Some(e)
                    &&& *final(self) == *old(self)
                },
            },
    {
        if !self.member_badges.contains_key(member_badge) {
            return Err(ContractError::NotFound);
        }
        remove_member_from_objectives(&mut self.objectives, member_badge);

        let handle = match self.member_badges.remove(member_badge) {
            Some(h) => h,
            None => {
                proof {
                    assert(false);
                }
                String::new()
            },
        };
        if self.signatures.contains_key(member_badge) {
            self.removed.insert(member_badge, handle.clone());
        }
        proof {
            assert forall|o: u64, m: u64| #[trigger]
                obj_has_member(self.objectives, o, m) implies self.member_badges.has_key(m) by {
                assert(m != member_badge);
                assert(obj_member_amount(self.objectives, o, m) == obj_member_amount(
                    old(self).objectives,
                    o,
                    m,
                ));
                assert(obj_has_member(old(self).objectives, o, m));
                assert(old(self).member_badges.has_key(m));
            }
            assert forall|o: u64, m: u64| #[trigger]
                obj_has_member(self.completed, o, m) implies !obj_has_member(
                self.objectives,
                o,
                m,
            ) by {
                if m != member_badge {
                    assert(obj_member_amount(self.objectives, o, m) == obj_member_amount(
                        old(self).objectives,
                        o,
                        m,
                    ));
                }
            }
        }

        self.create_tx(
            self.admin_handle.clone(),
            self.admin_badge,
            handle,
            member_badge,
            0,
            TxType::Remove,
            now,
        );
        Ok(())
    }

    /// A member detaches themselves: a proof-verified removal of their own
    /// badge.
    pub fn leave(&mut self, member_badge: u64, proof_handle: String, now: i64) -> (r: Result<
        (),
        ContractError,
    >)
        requires
            old(self).wf(),
        ensures
            final(self).wf(),
            match r {
                Ok(()) => {
                    &&& old(self).proof_err(member_badge, proof_handle@) is None
                    &&& final(self).removed_post(*old(self), member_badge)
                    &&& *final(self) == (ProjectContract {
                        badge_manager: final(self).badge_manager,
                        member_badges: final(self).member_badges,
                        removed: final(self).removed,
                        objectives: final(self).objectives,
                        ..*old(self)
                    })
                },
                Err(e) => {
                    &&& match old(self).proof_err(member_badge, proof_handle@) {
                        Some(pe) => e == pe,
                        None => false,
                    }
                    &&& *final(self) == *old(self)
                },
            },
    {
        if let Err(e) = self.check_proof(member_badge, &proof_handle) {
            return Err(e);
        }
        match self.remove(member_badge, now) {
            Ok(()) => Ok(()),
            Err(e) => {
                proof {
                    assert(false);
                }
                Err(e)
            },
        }
    }

    /// Why a join would be refused: the proof does not authenticate the
    /// badge, or the badge has already signed.
    pub open spec fn join_err(self, member_badge: u64, proof_handle: Seq<char>) -> Option<
        ContractError,
    > {
        match self.proof_err(member_badge, proof_handle) {
            Some(e) => Some(e),
            None => if self.signatures.has_key(member_badge) {
                Some(ContractError::PreconditionViolation)
            } else {
                None
            },
        }
    }

    /// An invited member signs the contract and receives a member badge.
    pub fn join(&mut self, member_badge: u64, proof_handle: String, now: i64) -> (r: Result<
        BadgeData,
        ContractError,
    >)
        requires
            old(self).wf(),
        ensures
            final(self).wf(),
            match r {
                Ok(member_nft) => {
                    &&& old(self).join_err(member_badge, proof_handle@) is None
                    &&& final(self).signatures.has_key(member_badge)
                    &&& forall|b: u64|
                        b != member_badge ==> final(self).signatures.has_key(b) == old(
                            self,
                        ).signatures.has_key(b)
                    &&& member_nft.contract_address == old(self).contract_address
                    &&& member_nft.contract_kind == ContractKind::Project
                    &&& member_nft.contract_role == ContractRole::Member
                    &&& member_nft.contract_handle@ == old(self).contract_handle@
                    &&& member_nft.app_handle@ == old(self).app_handle@
                    &&& tx_logged(
                        old(self).badge_manager,
                        final(self).badge_manager,
                        now,
                        proof_handle@,
                        member_badge,
                        old(self).contract_handle@,
                        old(self).badge_manager.badge,
                        0u128,
                        TxType::Join,
                    )
                    &&& *final(self) == (ProjectContract {
                        badge_manager: final(self).badge_manager,
                        signatures: final(self).signatures,
                        ..*old(self)
                    })
                },
                Err(e) => {
                    &&& old(self).join_err(member_badge, proof_handle@) == Some(e)
                    &&& *final(self) == *old(self)
                },
            },
    {
        if let Err(e) = self.check_proof(member_badge, &proof_handle) {
            return Err(e);
        }
        if self.signatures.contains_key(member_badge) {
            return Err(ContractError::PreconditionViolation);
        }
        self.signatures.insert(member_badge, ());

        let member_nft = BadgeData {
            contract_address: self.contract_address,
            contract_kind: ContractKind::Project,
            contract_role: ContractRole::Member,
            contract_handle: self.contract_handle.clone(),
            app_handle: self.app_handle.clone(),
        };

        self.create_tx(
            proof_handle,
            member_badge,
            self.contract_handle.clone(),
            self.badge_manager.badge,
            0,
            TxType::Join,
            now,
        );

        Ok(member_nft)
    }

    /// Why a deposit would be refused: the amount is zero, or the asset is
    /// not the designated fungible kind.
    pub open spec fn deposit_err(self, resource_address: u64, amount: u128) -> Option<
        ContractError,
    > {
        if amount == 0 {
            Some(ContractError::LedgerInvariantViolation)
        } else if resource_address != self.resource_address {
            Some(ContractError::LedgerInvariantViolation)
        } else {
            None
        }
    }

    /// Deposits funds into escrow.
    pub fn deposit(&mut self, resource_address: u64, amount: u128, now: i64) -> (r: Result<
        (),
        ContractError,
    >)
        requires
            old(self).wf(),
            old(self).funds as int + sum_amounts(old(self).reserved.entries@) + amount as int
                <= u128::MAX as int,
        ensures
            final(self).wf(),
            match r {
                Ok(()) => {
                    &&& old(self).deposit_err(resource_address, amount) is None
                    &&& final(self).funds == old(self).funds + amount
                    &&& final(self).deposited@ == old(self).deposited@ + amount as int
                    &&& tx_logged(
                        old(self).badge_manager,
                        final(self).badge_manager,
                        now,
                        old(self).admin_handle@,
                        old(self).admin_badge,
                        old(self).contract_handle@,
                        old(self).badge_manager.badge,
                        amount,
                        TxType::Deposit,
                    )
                    &&& *final(self) == (ProjectContract {
                        badge_manager: final(self).badge_manager,
                        funds: final(self).funds,
                        deposited: final(self).deposited,
                        ..*old(self)
                    })
                },
                Err(e) => {
                    &&& old(self).deposit_err(resource_address, amount) == Some(e)
                    &&& *final(self) == *old(self)
                },
            },
    {
        if amount == 0 {
            return Err(ContractError::LedgerInvariantViolation);
        }
        if resource_address != self.resource_address {
            return Err(ContractError::LedgerInvariantViolation);
        }
        proof {
            lemma_sum_amounts_nonneg(self.reserved.entries@);
        }

        self.create_tx(
            self.admin_handle.clone(),
            self.admin_badge,
            self.contract_handle.clone(),
            self.badge_manager.badge,
            amount,
            TxType::Deposit,
            now,
        );

        self.funds = self.funds + amount;
        self.deposited = Ghost(self.deposited@ + amount as int);
        Ok(())
    }

    /// One member check of `update`, scanning `ms` from index `j`: the pair
    /// must not already be completed for `o`, the member must be on the
    /// roster, and the amount positive.
    pub open spec fn member_scan(self, o: u64, ms: Seq<(u64, u128)>, j: int) -> Option<
        ContractError,
    >
        decreases ms.len() - j,
    {
        if j < 0 || j >= ms.len() {
            None
        } else {
            let m = ms[j].0;
            let a = ms[j].1;
            if obj_has_member(self.completed, o, m) {
                Some(ContractError::PreconditionViolation)
            } else if !self.member_badges.has_key(m) {
                Some(ContractError::NotFound)
            } else if a == 0 {
                Some(ContractError::LedgerInvariantViolation)
            } else {
                self.member_scan(o, ms, j + 1)
            }
        }
    }

    /// Per-objective checks of `update`, scanning `os` from index `i`: no
    /// empty member list, no oversized one, and every member entry clean.
    pub open spec fn objectives_scan(self, os: Seq<(u64, Table<u128>)>, i: int) -> Option<
        ContractError,
    >
        decreases os.len() - i,
    {
        if i < 0 || i >= os.len() {
            None
        } else {
            let o = os[i].0;
            let members = os[i].1;
            if members.entries@.len() == 0 {
                Some(ContractError::PreconditionViolation)
            } else if members.entries@.len() > MAX_OBJ_MEMBERS {
                Some(ContractError::PreconditionViolation)
            } else {
                match self.member_scan(o, members.entries@, 0) {
                    Some(e) => Some(e),
                    None => self.objectives_scan(os, i + 1),
                }
            }
        }
    }

    /// Why an `update` would be refused: too many objectives in all, a bad
    /// entry (found in scan order), or a pending total that does not equal
    /// the escrow exactly.
    pub open spec fn update_err(self, objectives: Table<Table<u128>>) -> Option<ContractError> {
        if objectives.entries@.len() + self.completed.entries@.len() > MAX_OBJS {
            Some(ContractError::PreconditionViolation)
        } else {
            match self.objectives_scan(objectives.entries@, 0) {
                Some(e) => Some(e),
                None => if sum_objectives(objectives.entries@) != self.funds as int {
                    Some(ContractError::LedgerInvariantViolation)
                } else {
                    None
                },
            }
        }
    }

    /// A clean member scan means every entry from `j` on is clean.
    proof fn lemma_member_scan_clean(self, o: u64, ms: Seq<(u64, u128)>, j: int)
        requires
            0 <= j <= ms.len(),
            self.member_scan(o, ms, j) == None::<ContractError>,
        ensures
            forall|l: int|
                j <= l < ms.len() ==> {
                    &&& !obj_has_member(self.completed, o, (#[trigger] ms[l]).0)
                    &&& self.member_badges.has_key(ms[l].0)
                    &&& ms[l].1 > 0
                },
        decreases ms.len() - j,
    {
        if j < ms.len() {
            self.lemma_member_scan_clean(o, ms, j + 1);
        }
    }

    /// A clean objective scan means every objective from `i` on is clean.
    proof fn lemma_objectives_scan_clean(self, os: Seq<(u64, Table<u128>)>, i: int)
        requires
            0 <= i <= os.len(),
            self.objectives_scan(os, i) == None::<ContractError>,
        ensures
            forall|l: int|
                i <= l < os.len() ==> {
                    &&& 1 <= (#[trigger] os[l]).1.entries@.len() <= MAX_OBJ_MEMBERS
                    &&& self.member_scan(os[l].0, os[l].1.entries@, 0) == None::<ContractError>
                },
        decreases os.len() - i,
    {
        if i < os.len() {
            self.lemma_objectives_scan_clean(os, i + 1);
        }
    }

    /// Replaces the pending-objective ledger wholesale.  Every listed member
    /// must be on the roster and not already completed for that objective,
    /// every amount positive, and the pending total must equal the escrow
    /// exactly: deposited funds are fully allocated before any objective can
    /// be rewarded.
    pub fn update(&mut self, objectives: Table<Table<u128>>, now: i64) -> (r: Result<
        (),
        ContractError,
    >)
        requires
            old(self).wf(),
            objectives_wf(objectives),
        ensures
            final(self).wf(),
            match r {
                Ok(()) => {
                    &&& old(self).update_err(objectives) is None
                    &&& final(self).objectives == objectives
                    &&& tx_logged(
                        old(self).badge_manager,
                        final(self).badge_manager,
                        now,
                        old(self).admin_handle@,
                        old(self).admin_badge,
                        old(self).contract_handle@,
                        old(self).badge_manager.badge,
                        0u128,
                        TxType::Update,
                    )
                    &&& *final(self) == (ProjectContract {
                        badge_manager: final(self).badge_manager,
                        objectives,
                        ..*old(self)
                    })
                },
                Err(e) => {
                    &&& old(self).update_err(objectives) == Some(e)
                    &&& *final(self) == *old(self)
                },
            },
    {
        let os_len = objectives.len();
        if os_len > MAX_OBJS {
            return Err(ContractError::PreconditionViolation);
        }
        if self.completed.len() > MAX_OBJS - os_len {
            return Err(ContractError::PreconditionViolation);
        }

        let ghost os = objectives.entries@;
        let mut total: u128 = 0;
        let mut overflowed: bool = false;
        let mut i: usize = 0;
        while i < os_len
            invariant
                old(self).wf(),
                *self == *old(self),
                objectives_wf(objectives),
                os == objectives.entries@,
                os_len == os.len(),
                i <= os_len,
                os_len as int + old(self).completed.entries@.len() <= MAX_OBJS as int,
                old(self).objectives_scan(os, 0) == old(self).objectives_scan(os, i as int),
                if !overflowed {
                    total as int == sum_objectives(os.subrange(0, i as int))
                } else {
                    sum_objectives(os.subrange(0, i as int)) > u128::MAX as int
                },
            decreases os_len - i,
        {
            let entry = &objectives.entries[i];
            let o = entry.0;
            let ms_len = entry.1.entries.len();
            let ghost ms = entry.1.entries@;
            if ms_len == 0 {
                return Err(ContractError::PreconditionViolation);
            }
            if ms_len > MAX_OBJ_MEMBERS {
                return Err(ContractError::PreconditionViolation);
            }
            let mut j: usize = 0;
            while j < ms_len
                invariant
                    old(self).wf(),
                    *self == *old(self),
                    objectives_wf(objectives),
                    os == objectives.entries@,
                    os_len == os.len(),
                    i < os_len,
                    os_len as int + old(self).completed.entries@.len() <= MAX_OBJS as int,
                    os[i as int].0 == o,
                    os[i as int].1.entries@ == ms,
                    ms_len == ms.len(),
                    1 <= ms_len <= MAX_OBJ_MEMBERS,
                    j <= ms_len,
                    old(self).objectives_scan(os, 0) == old(self).objectives_scan(os, i as int),
                    old(self).member_scan(o, ms, 0) == old(self).member_scan(o, ms, j as int),
                    if !overflowed {
                        total as int == sum_objectives(os.subrange(0, i as int)) + sum_amounts(
                            ms.subrange(0, j as int),
                        )
                    } else {
                        sum_objectives(os.subrange(0, i as int)) + sum_amounts(
                            ms.subrange(0, j as int),
                        ) > u128::MAX as int
                    },
                decreases ms_len - j,
            {
                let entry = &objectives.entries[i];
                let m = entry.1.entries[j].0;
                let a = entry.1.entries[j].1;
                let completed_has = match self.completed.get(o) {
                    Some(inner) => {
                        proof {
                            lemma_seq_get_at(
                                self.completed.entries@,
                                self.completed.key_index(o),
                                o,
                            );
                        }
                        inner.contains_key(m)
                    },
                    None => false,
                };
                if completed_has {
                    proof {
                        let e = ContractError::PreconditionViolation;
                        assert(old(self).member_scan(o, ms, j as int) == Some(e));
                        assert(old(self).objectives_scan(os, i as int) == Some(e));
                    }
                    return Err(ContractError::PreconditionViolation);
                }
                if !self.member_badges.contains_key(m) {
                    proof {
                        let e = ContractError::NotFound;
                        assert(old(self).member_scan(o, ms, j as int) == Some(e));
                        assert(old(self).objectives_scan(os, i as int) == Some(e));
                    }
                    return Err(ContractError::NotFound);
                }
                if a == 0 {
                    proof {
                        let e = ContractError::LedgerInvariantViolation;
                        assert(old(self).member_scan(o, ms, j as int) == Some(e));
                        assert(old(self).objectives_scan(os, i as int) == Some(e));
                    }
                    return Err(ContractError::LedgerInvariantViolation);
                }
                proof {
                    crate::tables::lemma_sum_amounts_prefix(ms, j as int);
                    if !overflowed {
                        crate::tables::lemma_sum_amounts_nonneg(ms.subrange(0, j as int));
                    }
                }
                if !overflowed {
                    if total > u128::MAX - a {
                        overflowed = true;
                    } else {
                        total = total + a;
                    }
                }
                j += 1;
            }
            proof {
                crate::tables::lemma_sum_objectives_prefix(os, i as int);
                assert(ms.subrange(0, ms_len as int) =~= ms);
            }
            i += 1;
        }
        proof {
            assert(os.subrange(0, os_len as int) =~= os);
        }
        if overflowed {
            return Err(ContractError::LedgerInvariantViolation);
        }
        if total != self.funds {
            return Err(ContractError::LedgerInvariantViolation);
        }

        self.objectives = objectives;
        proof {
            old(self).lemma_objectives_scan_clean(os, 0);
            assert forall|o: u64, m: u64| #[trigger]
                obj_has_member(self.objectives, o, m) implies !obj_has_member(self.completed, o, m)
                && self.member_badges.has_key(m) by {
                let ki = self.objectives.key_index(o);
                let inner = self.objectives.entries@[ki].1;
                let kj = inner.key_index(m);
                assert(os[ki].1.entries@[kj].0 == m);
                old(self).lemma_member_scan_clean(o, inner.entries@, 0);
            }
        }

        self.create_tx(
            self.admin_handle.clone(),
            self.admin_badge,
            self.contract_handle.clone(),
            self.badge_manager.badge,
            0,
            TxType::Update,
            now,
        );
        Ok(())
    }

    /// Why a withdrawal would be refused: the proof does not authenticate,
    /// the member has never been rewarded, or the reserved balance was
    /// already drained.
    pub open spec fn withdraw_err(self, member_badge: u64, proof_handle: Seq<char>) -> Option<
        ContractError,
    > {
        match self.proof_err(member_badge, proof_handle) {
            Some(e) => Some(e),
            None => match self.reserved.get_spec(member_badge) {
                Option::None => Some(ContractError::NotFound),
                Option::Some(balance) => if balance == 0 {
                    Some(ContractError::PreconditionViolation)
                } else {
                    None
                },
            },
        }
    }

    /// Drains the member's reserved balance.  Fails when it is already
    /// empty — calling twice in a row fails the second time.
    pub fn withdraw(&mut self, member_badge: u64, proof_handle: String, now: i64) -> (r: Result<
        u128,
        ContractError,
    >)
        requires
            old(self).wf(),
        ensures
            final(self).wf(),
            match r {
                Ok(taken) => {
                    &&& old(self).withdraw_err(member_badge, proof_handle@) is None
                    &&& old(self).reserved.get_spec(member_badge) == Some(taken)
                    &&& taken > 0
                    &&& final(self).reserved.get_spec(member_badge) == Some(0u128)
                    &&& forall|b: u64|
                        b != member_badge ==> final(self).reserved.get_spec(b) == old(
                            self,
                        ).reserved.get_spec(b)
                    &&& sum_amounts(final(self).reserved.entries@) == sum_amounts(
                        old(self).reserved.entries@,
                    ) - taken as int
                    &&& final(self).withdrawn@ == old(self).withdrawn@ + taken as int
                    &&& tx_logged(
                        old(self).badge_manager,
                        final(self).badge_manager,
                        now,
                        old(self).contract_handle@,
                        old(self).badge_manager.badge,
                        proof_handle@,
                        member_badge,
                        taken,
                        TxType::Withdraw,
                    )
                    &&& *final(self) == (ProjectContract {
                        badge_manager: final(self).badge_manager,
                        reserved: final(self).reserved,
                        withdrawn: final(self).withdrawn,
                        ..*old(self)
                    })
                },
                Err(e) => {
                    &&& old(self).withdraw_err(member_badge, proof_handle@) == Some(e)
                    &&& *final(self) == *old(self)
                },
            },
    {
        if let Err(e) = self.check_proof(member_badge, &proof_handle) {
            return Err(e);
        }
        let amount = match self.reserved.get(member_badge) {
            None => {
                return Err(ContractError::NotFound);
            },
            Some(balance) => *balance,
        };
        if amount == 0 {
            return Err(ContractError::PreconditionViolation);
        }
        let ghost prev_entries = self.reserved.entries@;
        let ghost ki = self.reserved.key_index(member_badge);
        self.reserved.insert(member_badge, 0);
        proof {
            lemma_sum_amounts_remove(prev_entries, ki);
            lemma_sum_amounts_push(prev_entries.remove(ki), (member_badge, 0u128));
            lemma_sum_amounts_nonneg(self.reserved.entries@);
        }
        self.withdrawn = Ghost(self.withdrawn@ + amount as int);

        self.create_tx(
            self.contract_handle.clone(),
            self.badge_manager.badge,
            proof_handle,
            member_badge,
            amount,
            TxType::Withdraw,
            now,
        );

        Ok(amount)
    }

    /// Why a reward would be refused, checked in this order: the member has
    /// not signed; the pair was already rewarded (no double pay); the
    /// objective is not pending; the member is not listed under it; the
    /// amount rounds down to nothing.
    pub open spec fn reward_err(self, obj_number: u64, member: u64) -> Option<ContractError> {
        if !self.signatures.has_key(member) {
            Some(ContractError::PreconditionViolation)
        } else if obj_has_member(self.completed, obj_number, member) {
            Some(ContractError::PreconditionViolation)
        } else {
            match obj_member_amount(self.objectives, obj_number, member) {
                Option::None => Some(ContractError::NotFound),
                Option::Some(amount) => if round_down(
                    amount as int,
                    self.granularity as int,
                ) == 0 {
                    Some(ContractError::PreconditionViolation)
                } else {
                    None
                },
            }
        }
    }

    /// No double reward: once a pair is in the completed ledger — as it is
    /// after every successful `reward` of it, by `rewarded_post` — any
    /// further `reward` of that pair is refused with a precondition
    /// violation, and a refused `reward` leaves the state unchanged.
    pub proof fn lemma_no_double_reward(self, obj_number: u64, member: u64)
        requires
            obj_has_member(self.completed, obj_number, member),
        ensures
            self.reward_err(obj_number, member) == Some(ContractError::PreconditionViolation),
    {
    }

    /// What a successful `reward(obj_number, member)` paying `pay` leaves
    /// behind, relative to `prev`.
    pub open spec fn rewarded_post(
        self,
        prev: Self,
        obj_number: u64,
        member: u64,
        pay: u128,
    ) -> bool {
        let amount = obj_member_amount(prev.objectives, obj_number, member).unwrap();
        &&& pay as int == round_down(amount as int, prev.granularity as int)
        &&& pay > 0
        &&& self.funds as int == prev.funds as int - pay as int
        // the pair moves out of the pending ledger
        &&& !obj_has_member(self.objectives, obj_number, member)
        &&& forall|o: u64, m: u64|
            !(o == obj_number && m == member) ==> obj_member_amount(self.objectives, o, m)
                == obj_member_amount(prev.objectives, o, m)
        &&& sum_objectives(self.objectives.entries@) == sum_objectives(prev.objectives.entries@)
            - amount as int
        // the objective keeps its remaining members, in order, and vanishes
        // once the last one settles
        &&& ({
            let pd = prev.objectives.get_spec(obj_number).unwrap();
            if pd.entries@.len() > 1 {
                match self.objectives.get_spec(obj_number) {
                    Option::Some(d) => d.entries@ == pd.entries@.remove(pd.key_index(member)),
                    Option::None => false,
                }
            } else {
                !self.objectives.has_key(obj_number)
            }
        })
        &&& forall|o: u64|
            o != obj_number ==> self.objectives.has_key(o) == prev.objectives.has_key(o)
        // and into the completed ledger, at its full pending amount
        &&& obj_member_amount(self.completed, obj_number, member) == Some(amount)
        &&& forall|o: u64, m: u64|
            !(o == obj_number && m == member) ==> obj_member_amount(self.completed, o, m)
                == obj_member_amount(prev.completed, o, m)
        // the rounded amount lands in the member's reserved balance
        &&& self.reserved.get_spec(member) == Some(
            (match prev.reserved.get_spec(member) {
                Option::Some(b) => b,
                Option::None => 0u128,
            } + pay) as u128,
        )
        &&& forall|b: u64|
            b != member ==> self.reserved.get_spec(b) == prev.reserved.get_spec(b)
        &&& sum_amounts(self.reserved.entries@) == sum_amounts(prev.reserved.entries@)
            + pay as int
    }

    /// Settles one member of one objective: withdraws the member's amount
    /// from escrow (rounded toward zero to the asset's granularity), puts it
    /// in the member's reserved balance, and moves the pair from the pending
    /// to the completed ledger.  A second reward of the same pair fails.
    #[verifier::rlimit(100)]
    #[verifier::spinoff_prover]
    pub fn reward(&mut self, obj_number: u64, member: u64, now: i64) -> (r: Result<
        u128,
        ContractError,
    >)
        requires
            old(self).wf(),
        ensures
            final(self).wf(),
            match r {
                Ok(pay) => {
                    &&& old(self).reward_err(obj_number, member) is None
                    &&& final(self).rewarded_post(*old(self), obj_number, member, pay)
                    &&& tx_logged(
                        old(self).badge_manager,
                        final(self).badge_manager,
                        now,
                        old(self).contract_handle@,
                        old(self).badge_manager.badge,
                        old(self).member_badges.get_spec(member).unwrap()@,
                        member,
                        pay,
                        TxType::Reward,
                    )
                    &&& *final(self) == (ProjectContract {
                        badge_manager: final(self).badge_manager,
                        funds: final(self).funds,
                        objectives: final(self).objectives,
                        completed: final(self).completed,
                        reserved: final(self).reserved,
                        ..*old(self)
                    })
                },
                Err(e) => {
                    &&& old(self).reward_err(obj_number, member) == Some(e)
                    &&& *final(self) == *old(self)
                },
            },
    {
        if !self.signatures.contains_key(member) {
            return Err(ContractError::PreconditionViolation);
        }
        let completed_has = match self.completed.get(obj_number) {
            Some(inner) => {
                proof {
                    lemma_seq_get_at(
                        self.completed.entries@,
                        self.completed.key_index(obj_number),
                        obj_number,
                    );
                }
                inner.contains_key(member)
            },
            None => false,
        };
        if completed_has {
            return Err(ContractError::PreconditionViolation);
        }
        let amount = match self.objectives.get(obj_number) {
            None => {
                return Err(ContractError::NotFound);
            },
            Some(dist) => {
                proof {
                    lemma_seq_get_at(
                        self.objectives.entries@,
                        self.objectives.key_index(obj_number),
                        obj_number,
                    );
                }
                match dist.get(member) {
                    None => {
                        return Err(ContractError::NotFound);
                    },
                    Some(a) => *a,
                }
            },
        };
        proof {
            lemma_mod_decreases(amount as nat, self.granularity as nat);
        }
        let pay = amount - amount % self.granularity;
        if pay == 0 {
            return Err(ContractError::PreconditionViolation);
        }

        // the member's amount is covered by escrow: every pending amount is
        let ghost oi = self.objectives.key_index(obj_number);
        let ghost dist0 = self.objectives.entries@[oi].1;
        let ghost di = dist0.key_index(member);
        proof {
            lemma_seq_get_at(self.objectives.entries@, oi, obj_number);
            lemma_seq_get_at(dist0.entries@, di, member);
            lemma_sum_amounts_entry_le(dist0.entries@, di);
            lemma_sum_objectives_entry_le(self.objectives.entries@, oi);
        }

        // remove the pair from the pending ledger
        let mut dist = match self.objectives.remove(obj_number) {
            Some(d) => d,
            None => {
                proof {
                    assert(false);
                }
                Table::new()
            },
        };
        let ghost after_obj_remove = self.objectives;
        let _ = dist.remove(member);
        proof {
            lemma_sum_objectives_remove(old(self).objectives.entries@, oi);
            lemma_sum_amounts_remove(dist0.entries@, di);
        }
        if dist.len() > 0 {
            self.objectives.insert(obj_number, dist);
            proof {
                lemma_sum_objectives_push(after_obj_remove.entries@, (obj_number, dist));
            }
        } else {
            proof {
                lemma_sum_amounts_nonneg(dist.entries@);
                assert(sum_amounts(dist.entries@) == 0);
            }
        }

        self.funds = self.funds - pay;

        // reserve the rounded amount for the member
        let prev_balance = match self.reserved.get(member) {
            Some(b) => *b,
            None => 0,
        };
        let ghost reserved0 = self.reserved;
        proof {
            lemma_sum_amounts_nonneg(self.reserved.entries@);
            if self.reserved.has_key(member) {
                lemma_seq_get_at(
                    self.reserved.entries@,
                    self.reserved.key_index(member),
                    member,
                );
                lemma_sum_amounts_entry_le(self.reserved.entries@, self.reserved.key_index(member));
            }
        }
        self.reserved.insert(member, prev_balance + pay);
        proof {
            if reserved0.has_key(member) {
                lemma_sum_amounts_remove(reserved0.entries@, reserved0.key_index(member));
                lemma_sum_amounts_push(
                    reserved0.entries@.remove(reserved0.key_index(member)),
                    (member, (prev_balance + pay) as u128),
                );
            } else {
                lemma_sum_amounts_push(reserved0.entries@, (member, (prev_balance + pay) as u128));
            }
        }

        // record the pair as completed at its full pending amount
        let mut com = match self.completed.remove(obj_number) {
            Some(c) => c,
            None => Table::new(),
        };
        com.insert(member, amount);
        self.completed.insert(obj_number, com);

        proof {
            self.lemma_reward_invariants(*old(self), obj_number, member);
        }

        let handle = match self.member_badges.get(member) {
            Some(h) => h.clone(),
            None => {
                proof {
                    assert(obj_has_member(old(self).objectives, obj_number, member));
                    assert(false);
                }
                String::new()
            },
        };
        self.create_tx(
            self.contract_handle.clone(),
            self.badge_manager.badge,
            handle,
            member,
            pay,
            TxType::Reward,
            now,
        );

        Ok(pay)
    }

    /// Pointwise bookkeeping for `reward`: the completed ledger gained
    /// exactly the one pair, the pending ledger lost exactly it, and both
    /// stay disjoint with members on the roster.
    proof fn lemma_reward_invariants(self, prev: Self, obj_number: u64, member: u64)
        requires
            prev.wf(),
            // pending: the pair was removed, everything else kept
            self.objectives.wf(),
            forall|i: int|
                0 <= i < self.objectives.entries@.len() ==> (
                #[trigger] self.objectives.entries@[i].1).wf(),
            !obj_has_member(self.objectives, obj_number, member),
            forall|o: u64, m: u64|
                !(o == obj_number && m == member) ==> obj_member_amount(self.objectives, o, m)
                    == obj_member_amount(prev.objectives, o, m),
            // completed: the pair was added, everything else kept
            self.completed.wf(),
            forall|i: int|
                0 <= i < self.completed.entries@.len() ==> (
                #[trigger] self.completed.entries@[i].1).wf(),
            obj_has_member(self.completed, obj_number, member),
            forall|o: u64, m: u64|
                !(o == obj_number && m == member) ==> obj_member_amount(self.completed, o, m)
                    == obj_member_amount(prev.completed, o, m),
            self.member_badges == prev.member_badges,
            obj_has_member(prev.objectives, obj_number, member),
        ensures
            self.pending_completed_disjoint(),
            self.pending_members_invited(),
    {
        assert forall|o: u64, m: u64| #[trigger]
            obj_has_member(self.completed, o, m) implies !obj_has_member(self.objectives, o, m) by {
            if !(o == obj_number && m == member) {
                assert(obj_member_amount(self.completed, o, m) == obj_member_amount(
                    prev.completed,
                    o,
                    m,
                ));
                assert(obj_has_member(prev.completed, o, m));
            }
        }
        assert forall|o: u64, m: u64| #[trigger]
            obj_has_member(self.objectives, o, m) implies self.member_badges.has_key(m) by {
            assert(obj_member_amount(self.objectives, o, m) == obj_member_amount(
                prev.objectives,
                o,
                m,
            ));
            assert(obj_has_member(prev.objectives, o, m));
        }
    }

    /// One member check of `complete`, scanning `ms` from index `j`: each
    /// listed member must have signed, and each amount must round to
    /// something.  (Being pending, no pair can already be completed.)
    pub open spec fn complete_scan(self, ms: Seq<(u64, u128)>, j: int) -> Option<ContractError>
        decreases ms.len() - j,
    {
        if j < 0 || j >= ms.len() {
            None
        } else if !self.signatures.has_key(ms[j].0) {
            Some(ContractError::PreconditionViolation)
        } else if round_down(ms[j].1 as int, self.granularity as int) == 0 {
            Some(ContractError::PreconditionViolation)
        } else {
            self.complete_scan(ms, j + 1)
        }
    }

    /// Why a `complete` would be refused: the objective is not pending, or
    /// one of its members fails the scan (in order).
    pub open spec fn complete_err(self, obj_number: u64) -> Option<ContractError> {
        match self.objectives.get_spec(obj_number) {
            Option::None => Some(ContractError::NotFound),
            Option::Some(dist) => self.complete_scan(dist.entries@, 0),
        }
    }

    /// A clean complete scan means every entry from `j` on is clean.
    proof fn lemma_complete_scan_clean(self, ms: Seq<(u64, u128)>, j: int)
        requires
            self.granularity > 0,
            0 <= j <= ms.len(),
            self.complete_scan(ms, j) == None::<ContractError>,
        ensures
            forall|l: int|
                j <= l < ms.len() ==> {
                    &&& self.signatures.has_key((#[trigger] ms[l]).0)
                    &&& round_down(ms[l].1 as int, self.granularity as int) > 0
                },
        decreases ms.len() - j,
    {
        if j < ms.len() {
            lemma_mod_decreases(ms[j].1 as nat, self.granularity as nat);
            self.lemma_complete_scan_clean(ms, j + 1);
        }
    }

    /// Settles a whole objective: one `reward` per listed member, in the
    /// ledger's order, all or nothing.
    #[verifier::rlimit(100)]
    #[verifier::spinoff_prover]
    pub fn complete(&mut self, obj_number: u64, now: i64) -> (r: Result<(), ContractError>)
        requires
            old(self).wf(),
        ensures
            final(self).wf(),
            match r {
                Ok(()) => {
                    &&& old(self).complete_err(obj_number) is None
                    &&& ({
                        let ms = old(self).objectives.get_spec(obj_number).unwrap().entries@;
                        let g = old(self).granularity as int;
                        &&& if ms.len() == 0 {
                            final(self).objectives == old(self).objectives
                        } else {
                            !final(self).objectives.has_key(obj_number)
                        }
                        &&& forall|o: u64, m: u64|
                            o != obj_number ==> obj_member_amount(final(self).objectives, o, m)
                                == obj_member_amount(old(self).objectives, o, m)
                        &&& forall|m: u64|
                            obj_member_amount(final(self).completed, obj_number, m) == (
                            match crate::tables::seq_get(ms, m) {
                                Option::Some(a) => Some(a),
                                Option::None => obj_member_amount(
                                    old(self).completed,
                                    obj_number,
                                    m,
                                ),
                            })
                        &&& forall|o: u64, m: u64|
                            o != obj_number ==> obj_member_amount(final(self).completed, o, m)
                                == obj_member_amount(old(self).completed, o, m)
                        &&& forall|m: u64|
                            final(self).reserved.get_spec(m) == (match crate::tables::seq_get(
                                ms,
                                m,
                            ) {
                                Option::Some(a) => Some(
                                    ((match old(self).reserved.get_spec(m) {
                                        Option::Some(b) => b,
                                        Option::None => 0u128,
                                    }) + round_down(a as int, g)) as u128,
                                ),
                                Option::None => old(self).reserved.get_spec(m),
                            })
                        &&& final(self).funds as int == old(self).funds as int - sum_rounded(
                            ms,
                            g,
                        )
                        &&& final(self).badge_manager.txs@.len() == old(
                            self,
                        ).badge_manager.txs@.len() + ms.len()
                        &&& final(self).badge_manager.txs@.subrange(
                            0,
                            old(self).badge_manager.txs@.len() as int,
                        ) == old(self).badge_manager.txs@
                        &&& ({
                            let txs = final(self).badge_manager.txs@;
                            forall|l: int|
                                old(self).badge_manager.txs@.len() <= l < txs.len() ==> (
                                #[trigger] txs[l]).tx_type == TxType::Reward
                        })
                    })
                    &&& *final(self) == (ProjectContract {
                        badge_manager: final(self).badge_manager,
                        funds: final(self).funds,
                        objectives: final(self).objectives,
                        completed: final(self).completed,
                        reserved: final(self).reserved,
                        ..*old(self)
                    })
                },
                Err(e) => {
                    &&& old(self).complete_err(obj_number) == Some(e)
                    &&& *final(self) == *old(self)
                },
            },
    {
        let members: Vec<(u64, u128)> = match self.objectives.get(obj_number) {
            None => {
                return Err(ContractError::NotFound);
            },
            Some(dist) => {
                proof {
                    lemma_seq_get_at(
                        self.objectives.entries@,
                        self.objectives.key_index(obj_number),
                        obj_number,
                    );
                }
                dist.copy_entries()
            },
        };
        let n = members.len();
        let ghost ms = members@;
        let ghost g = self.granularity as int;
        proof {
            assert(crate::tables::keys_distinct(ms));
        }

        // validate every member before anything moves
        let mut j: usize = 0;
        while j < n
            invariant
                old(self).wf(),
                *self == *old(self),
                ms == members@,
                n == ms.len(),
                j <= n,
                match old(self).objectives.get_spec(obj_number) {
                    Option::Some(dist) => dist.entries@ == ms,
                    Option::None => false,
                },
                old(self).complete_scan(ms, 0) == old(self).complete_scan(ms, j as int),
            decreases n - j,
        {
            let m = members[j].0;
            let a = members[j].1;
            if !self.signatures.contains_key(m) {
                proof {
                    assert(old(self).complete_scan(ms, j as int) == Some(
                        ContractError::PreconditionViolation,
                    ));
                }
                return Err(ContractError::PreconditionViolation);
            }
            proof {
                lemma_mod_decreases(a as nat, self.granularity as nat);
            }
            let p = a - a % self.granularity;
            if p == 0 {
                proof {
                    assert(old(self).complete_scan(ms, j as int) == Some(
                        ContractError::PreconditionViolation,
                    ));
                }
                return Err(ContractError::PreconditionViolation);
            }
            j += 1;
        }

        proof {
            old(self).lemma_complete_scan_clean(ms, 0);
            assert(ms.subrange(0, n as int) =~= ms);
            assert(old(self).badge_manager.txs@.subrange(
                0,
                old(self).badge_manager.txs@.len() as int,
            ) =~= old(self).badge_manager.txs@);
        }

        // settle member by member
        let mut k: usize = 0;
        while k < n
            invariant
                old(self).wf(),
                self.wf(),
                ms == members@,
                n == ms.len(),
                k <= n,
                crate::tables::keys_distinct(ms),
                old(self).granularity as int == g,
                forall|l: int|
                    0 <= l < n ==> {
                        &&& old(self).signatures.has_key((#[trigger] ms[l]).0)
                        &&& round_down(ms[l].1 as int, g) > 0
                    },
                old(self).objectives.get_spec(obj_number).unwrap().entries@ == ms,
                old(self).objectives.has_key(obj_number),
                if k < n {
                    match self.objectives.get_spec(obj_number) {
                        Option::Some(dist) => dist.entries@ == ms.subrange(k as int, n as int),
                        Option::None => false,
                    }
                } else if n > 0 {
                    !self.objectives.has_key(obj_number)
                } else {
                    self.objectives == old(self).objectives
                },
                forall|o: u64, m: u64|
                    o != obj_number ==> obj_member_amount(self.objectives, o, m)
                        == obj_member_amount(old(self).objectives, o, m),
                forall|m: u64|
                    obj_member_amount(self.completed, obj_number, m) == (
                    match crate::tables::seq_get(ms.subrange(0, k as int), m) {
                        Option::Some(a) => Some(a),
                        Option::None => obj_member_amount(old(self).completed, obj_number, m),
                    }),
                forall|o: u64, m: u64|
                    o != obj_number ==> obj_member_amount(self.completed, o, m)
                        == obj_member_amount(old(self).completed, o, m),
                forall|m: u64|
                    self.reserved.get_spec(m) == (match crate::tables::seq_get(
                        ms.subrange(0, k as int),
                        m,
                    ) {
                        Option::Some(a) => Some(
                            ((match old(self).reserved.get_spec(m) {
                                Option::Some(b) => b,
                                Option::None => 0u128,
                            }) + round_down(a as int, g)) as u128,
                        ),
                        Option::None => old(self).reserved.get_spec(m),
                    }),
                self.funds as int == old(self).funds as int - sum_rounded(
                    ms.subrange(0, k as int),
                    g,
                ),
                self.badge_manager.txs@.len() == old(self).badge_manager.txs@.len() + k as int,
                self.badge_manager.txs@.subrange(0, old(self).badge_manager.txs@.len() as int)
                    == old(self).badge_manager.txs@,
                forall|l: int|
                    old(self).badge_manager.txs@.len() <= l < self.badge_manager.txs@.len() ==> (
                    #[trigger] self.badge_manager.txs@[l]).tx_type == TxType::Reward,
                *self == (ProjectContract {
                    badge_manager: self.badge_manager,
                    funds: self.funds,
                    objectives: self.objectives,
                    completed: self.completed,
                    reserved: self.reserved,
                    ..*old(self)
                }),
            decreases n - k,
        {
            let m = members[k].0;
            let ghost pre = *self;
            proof {
                // the pair is still pending, first in what is left of the
                // objective, and clean, so the reward cannot be refused
                let ki = self.objectives.key_index(obj_number);
                assert((self.objectives.entries@[ki].1).wf());
                let dist = self.objectives.get_spec(obj_number).unwrap();
                assert(dist.entries@[0] == ms[k as int]);
                lemma_seq_get_at(ms, k as int, m);
                lemma_seq_get_at(dist.entries@, 0, m);
                crate::tables::lemma_subrange_keys_distinct(ms, k as int, n as int);
                if crate::tables::seq_has_key(ms.subrange(0, k as int), m) {
                    let l = crate::tables::seq_key_index(ms.subrange(0, k as int), m);
                    assert(ms.subrange(0, k as int)[l] == ms[l]);
                }
                assert(!obj_has_member(self.completed, obj_number, m));
                assert(self.reward_err(obj_number, m) is None);
            }
            match self.reward(obj_number, m, now) {
                Ok(_) => (),
                Err(_) => {
                    proof {
                        assert(false);
                    }
                },
            }
            proof {
                let dist_pre = pre.objectives.get_spec(obj_number).unwrap();
                lemma_seq_get_at(dist_pre.entries@, 0, m);
                assert(obj_member_amount(pre.objectives, obj_number, m) == Some(ms[k as int].1));
                // the remaining distribution loses its first entry
                if k + 1 < n {
                    let dist_now = self.objectives.get_spec(obj_number).unwrap();
                    assert(dist_now.entries@ =~= ms.subrange(k as int + 1, n as int)) by {
                        assert(dist_now.entries@ == dist_pre.entries@.remove(
                            dist_pre.key_index(m),
                        ));
                        assert(dist_pre.key_index(m) == 0);
                    }
                } else {
                    assert(dist_pre.entries@.len() == 1);
                }
                // fold the one settled pair into the prefix views
                crate::tables::lemma_seq_get_prefix(ms, k as int);
                lemma_sum_rounded_prefix(ms, k as int, g);
                assert(self.badge_manager.txs@.subrange(
                    0,
                    old(self).badge_manager.txs@.len() as int,
                ) =~= pre.badge_manager.txs@.subrange(
                    0,
                    old(self).badge_manager.txs@.len() as int,
                ));
                assert forall|m2: u64|
                    obj_member_amount(self.completed, obj_number, m2) == (
                    match crate::tables::seq_get(ms.subrange(0, k as int + 1), m2) {
                        Option::Some(a) => Some(a),
                        Option::None => obj_member_amount(old(self).completed, obj_number, m2),
                    }) by {
                    if m2 != m {
                        assert(obj_member_amount(self.completed, obj_number, m2)
                            == obj_member_amount(pre.completed, obj_number, m2));
                    }
                }
                assert forall|m2: u64|
                    self.reserved.get_spec(m2) == (match crate::tables::seq_get(
                        ms.subrange(0, k as int + 1),
                        m2,
                    ) {
                        Option::Some(a) => Some(
                            ((match old(self).reserved.get_spec(m2) {
                                Option::Some(b) => b,
                                Option::None => 0u128,
                            }) + round_down(a as int, g)) as u128,
                        ),
                        Option::None => old(self).reserved.get_spec(m2),
                    }) by {
                    if m2 != m {
                        assert(self.reserved.get_spec(m2) == pre.reserved.get_spec(m2));
                    }
                }
            }
            k += 1;
        }
        proof {
            assert(ms.subrange(0, n as int) =~= ms);
        }
        Ok(())
    }

    /// Forfeits every pending objective, recalls the remaining escrow to the
    /// admin and marks the contract cancelled.  Completed-and-reserved
    /// amounts are untouched and stay withdrawable by their members.
    pub fn cancellation(&mut self, now: i64) -> (r: u128)
        requires
            old(self).wf(),
        ensures
            final(self).wf(),
            r == old(self).funds,
            final(self).funds == 0,
            final(self).objectives.entries@.len() == 0,
            final(self).is_cancelled,
            final(self).cancelled_epoch == now,
            final(self).reserved == old(self).reserved,
            final(self).swept@ == old(self).swept@ + r as int,
            tx_logged(
                old(self).badge_manager,
                final(self).badge_manager,
                now,
                old(self).contract_handle@,
                old(self).badge_manager.badge,
                old(self).admin_handle@,
                old(self).admin_badge,
                r,
                TxType::Cancellation,
            ),
            *final(self) == (ProjectContract {
                badge_manager: final(self).badge_manager,
                funds: 0u128,
                objectives: final(self).objectives,
                is_cancelled: true,
                cancelled_epoch: now,
                swept: final(self).swept,
                ..*old(self)
            }),
    {
        self.objectives = Table::new();
        self.is_cancelled = true;
        self.cancelled_epoch = now;
        let total = self.funds;
        self.funds = 0;
        self.swept = Ghost(self.swept@ + total as int);

        self.create_tx(
            self.contract_handle.clone(),
            self.badge_manager.badge,
            self.admin_handle.clone(),
            self.admin_badge,
            total,
            TxType::Cancellation,
            now,
        );

        total
    }
}

} // verus!
