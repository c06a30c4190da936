//! Single-escrow vesting contract: one stream, shared by every member who
//! signed.
//!
//! The admin invites a member, the member joins, the admin deposits funds;
//! the vesting schedule releases them over time into a reserved pool the
//! member drains with `withdraw`.  Cancellation freezes the schedule and
//! recalls whatever is left in escrow.  Throughout, the ledger is
//! conservative: escrow plus the reserved pool equals cumulative deposits
//! minus cumulative releases (member withdrawals plus admin recalls).
//!
//! The host ledger's clock is passed in as `now`; credential proofs arrive
//! as the verified handle the host's verifier read from them; marketplace
//! eligibility is checked by the marketplace itself before `list` is called.

use crate::badge_manager::tx_logged;
use crate::badge_manager::BadgeManager;
use crate::contract_types::BadgeData;
use crate::contract_types::ContractError;
use crate::contract_types::ContractKind;
use crate::contract_types::ContractRole;
use crate::contract_types::TxData;
use crate::contract_types::TxType;
use crate::contract_types::LIST_LOCK_DAYS;
use crate::contract_types::MAX_MARKETS;
use crate::contract_types::SEC_IN_DAY;
use crate::str_table::str_upserted;
use crate::str_table::StrTable;
use crate::tables::Table;
use crate::vesting_schedule::VestingSchedule;
use vstd::arithmetic::div_mod::lemma_mod_decreases;
use vstd::prelude::*;

verus! {

/// The single-escrow vesting contract.
pub struct JobContract {
    /// Badge issuer and transaction history of this contract.
    pub badge_manager: BadgeManager,
    pub app_handle: String,
    pub contract_handle: String,
    pub contract_name: String,
    /// Free-form metadata shown to users.
    pub details: StrTable<String>,
    /// Address of the marketplace this contract may list on.
    pub marketplace: u64,
    /// Names of the markets the contract is listed on.
    pub markets: StrTable<()>,
    /// Address of this contract's component.
    pub contract_address: u64,
    /// Resource id of the admin's badge.
    pub admin_badge: u64,
    pub admin_handle: String,
    /// Invited members: badge resource id to handle.  A job has one member
    /// slot.
    pub member_badges: Table<String>,
    /// Badges of members who joined (signed).
    pub signatures: Table<()>,
    /// Resource id of the escrowed fungible asset.
    pub resource_address: u64,
    /// Smallest representable amount of the asset, in atto units:
    /// 10^(18 - divisibility).
    pub granularity: u128,
    /// Escrowed balance, atto units.
    pub funds: u128,
    pub vesting_schedule: VestingSchedule,
    /// Vested but unclaimed balance, atto units.
    pub reserved: u128,
    pub is_cancelled: bool,
    pub created_epoch: i64,
    /// Epoch of the last listing; funds are locked for `LIST_LOCK_DAYS`
    /// after it.
    pub list_epoch: i64,
    /// Total recalled to the admin by cancellation, atto units (ghost
    /// accounting for the conservation law).
    pub swept: Ghost<int>,
}

impl JobContract {
    /// Conservation: escrow plus the reserved pool equals cumulative
    /// deposits minus cumulative releases (withdrawals plus recalls).
    pub open spec fn conserved(self) -> bool {
        self.funds as int + self.reserved as int + self.vesting_schedule.withdrawn as int
            + self.swept@ == self.vesting_schedule.amount as int
    }

    pub open spec fn wf(self) -> bool {
        &&& self.vesting_schedule.wf()
        &&& self.member_badges.wf()
        &&& self.signatures.wf()
        &&& self.details.wf()
        &&& self.markets.wf()
        &&& self.granularity > 0
        &&& self.swept@ >= 0
        &&& self.conserved()
        &&& self.member_badges.entries@.len() <= 1
    }

    /// Conservation law: in every well-formed state the escrow plus the
    /// reserved pool equals what was deposited minus what was released.
    pub proof fn lemma_conservation(self)
        requires
            self.wf(),
        ensures
            self.funds as int + self.reserved as int == self.vesting_schedule.amount as int
                - self.vesting_schedule.withdrawn as int - self.swept@,
    {
    }

    /// Amount due to move from escrow to the reserved pool when unlocked
    /// funds are reserved at `now`: what escrow holds beyond the unvested
    /// remainder, rounded toward zero to the asset's granularity.  Nothing
    /// moves once the contract is cancelled or before any deposit.
    pub open spec fn reserve_due(self, now: int) -> int {
        if self.is_cancelled || self.vesting_schedule.amount == 0 {
            0
        } else {
            let unvested = self.vesting_schedule.amount as int - self.vesting_schedule.vested_at(
                self.vesting_schedule.observation_epoch(now),
            );
            let wa = self.funds as int - unvested;
            if wa > 0 {
                wa - wa % (self.granularity as int)
            } else {
                0
            }
        }
    }

    pub proof fn lemma_reserve_due_bounds(self, now: int)
        requires
            self.wf(),
        ensures
            0 <= self.reserve_due(now) <= self.funds,
    {
        if !(self.is_cancelled || self.vesting_schedule.amount == 0) {
            let t = self.vesting_schedule.observation_epoch(now);
            self.vesting_schedule.lemma_vested_bounds(t);
            let unvested = self.vesting_schedule.amount as int - self.vesting_schedule.vested_at(t);
            let wa = self.funds as int - unvested;
            if wa > 0 {
                lemma_mod_decreases(wa as nat, self.granularity as nat);
                assert(wa % (self.granularity as int) >= 0);
            }
        }
    }

    /// Whether the listing time lock has passed at `now`.
    pub open spec fn list_ok(self, now: int) -> bool {
        now >= self.list_epoch + (SEC_IN_DAY as int) * (LIST_LOCK_DAYS as int)
    }

    /// Whether `proof_handle` authenticates `member_badge`: the badge was
    /// invited and the verified handle matches the one recorded then.
    pub open spec fn proof_err(self, member_badge: u64, proof_handle: Seq<char>) -> Option<
        ContractError,
    > {
        match self.member_badges.get_spec(member_badge) {
            Option::None => Some(ContractError::NotFound),
            Option::Some(saved) => if saved@ != proof_handle {
                Some(ContractError::AuthorizationFailure)
            } else {
                None
            },
        }
    }

    /// Verifies that the presented handle matches the one recorded at invite
    /// time for this badge.
    fn check_proof(&self, member_badge: u64, proof_handle: &String) -> (r: Result<
        (),
        ContractError,
    >)
        requires
            self.wf(),
        ensures
            match r {
                Ok(()) => self.proof_err(member_badge, proof_handle@) is None,
                Err(e) => self.proof_err(member_badge, proof_handle@) == Some(e),
            },
    {
        match self.member_badges.get(member_badge) {
            None => Err(ContractError::NotFound),
            Some(saved_handle) => {
                if !(*proof_handle == *saved_handle) {
                    Err(ContractError::AuthorizationFailure)
                } else {
                    Ok(())
                }
            },
        }
    }

    /// Appends one transaction record to the history.
    fn create_tx(
        &mut self,
        from_handle: String,
        from_badge: u64,
        to_handle: String,
        to_badge: u64,
        amount: u128,
        tx_type: TxType,
        now: i64,
    )
        ensures
            tx_logged(
                old(self).badge_manager,
                final(self).badge_manager,
                now,
                from_handle@,
                from_badge,
                to_handle@,
                to_badge,
                amount,
                tx_type,
            ),
            *final(self) == (JobContract { badge_manager: final(self).badge_manager, ..*old(self) }),
    {
        let tx_data = TxData {
            epoch: now,
            from_handle,
            from_badge,
            to_handle,
            to_badge,
            amount,
            tx_type,
        };
        self.badge_manager.create_tx(tx_data);
    }

    /// Moves the vested-but-unclaimed amount from escrow into the reserved
    /// pool.
    fn set_reserved(&mut self, now: i64)
        requires
            old(self).wf(),
        ensures
            final(self).wf(),
            final(self).funds as int == old(self).funds as int - old(self).reserve_due(now as int),
            final(self).reserved as int == old(self).reserved as int + old(self).reserve_due(
                now as int,
            ),
            *final(self) == (JobContract {
                funds: final(self).funds,
                reserved: final(self).reserved,
                ..*old(self)
            }),
    {
        proof {
            old(self).lemma_reserve_due_bounds(now as int);
        }
        if self.is_cancelled || self.vesting_schedule.amount == 0 {
            return ;
        }
        // what escrow holds beyond the unvested remainder is ready to claim
        let unvested = self.vesting_schedule.get_unvested(now);
        if self.funds > unvested {
            let withdraw_amount = self.funds - unvested;
            proof {
                lemma_mod_decreases(withdraw_amount as nat, self.granularity as nat);
            }
            // round toward zero to the asset's granularity
            let moved = withdraw_amount - withdraw_amount % self.granularity;
            self.funds = self.funds - moved;
            self.reserved = self.reserved + moved;
        }
    }

    /// Sets the cancel flag and freezes the vesting schedule at `now`.
    fn set_cancelled(&mut self, now: i64)
        ensures
            final(self).is_cancelled,
            final(self).vesting_schedule == (VestingSchedule {
                cancel_epoch: Some(now),
                ..old(self).vesting_schedule
            }),
            *final(self) == (JobContract {
                is_cancelled: true,
                vesting_schedule: final(self).vesting_schedule,
                ..*old(self)
            }),
    {
        self.is_cancelled = true;
        self.vesting_schedule.cancel_epoch = Some(now);
    }

    /// Whether the listing time lock has passed.
    fn check_list(&self, now: i64) -> (r: bool)
        ensures
            r == self.list_ok(now as int),
    {
        (now as i128) >= (self.list_epoch as i128) + (SEC_IN_DAY as i128) * (LIST_LOCK_DAYS
            as i128)
    }

    /// Creates a job contract with an empty escrow and logs its creation.
    /// Fails on invalid schedule dates, leaving nothing behind.
    pub fn instantiate(
        contract_address: u64,
        marketplace_address: u64,
        app_handle: String,
        contract_handle: String,
        contract_name: String,
        admin_badge: u64,
        admin_handle: String,
        badge: u64,
        resource_address: u64,
        granularity: u128,
        start_epoch: i64,
        cliff_epoch: Option<i64>,
        end_epoch: i64,
        vest_interval: i64,
        is_check_join: bool,
        details: Vec<(String, String)>,
        now: i64,
    ) -> (r: Result<(JobContract, BadgeData), ContractError>)
        requires
            granularity > 0,
        ensures
            match r {
                Ok((c, admin_nft)) => {
                    &&& VestingSchedule::dates_ok(
                        start_epoch as int,
                        cliff_epoch,
                        end_epoch as int,
                        vest_interval as int,
                    )
                    &&& c.wf()
                    &&& c.app_handle@ == app_handle@
                    &&& c.contract_handle@ == contract_handle@
                    &&& c.contract_name@ == contract_name@
                    &&& c.marketplace == marketplace_address
                    &&& c.contract_address == contract_address
                    &&& c.admin_badge == admin_badge
                    &&& c.admin_handle@ == admin_handle@
                    &&& c.badge_manager.badge == badge
                    &&& c.badge_manager.kind == ContractKind::Job
                    &&& c.resource_address == resource_address
                    &&& c.granularity == granularity
                    &&& c.funds == 0
                    &&& c.reserved == 0
                    &&& c.vesting_schedule == (VestingSchedule {
                        start_epoch,
                        cliff_epoch,
                        end_epoch,
                        vest_interval,
                        amount: 0u128,
                        withdrawn: 0u128,
                        cancel_epoch: None::<i64>,
                        is_check_join,
                    })
                    &&& !c.is_cancelled
                    &&& c.created_epoch == now
                    &&& c.list_epoch == 0
                    &&& c.member_badges.entries@.len() == 0
                    &&& c.signatures.entries@.len() == 0
                    &&& c.markets.entries@.len() == 0
                    &&& forall|k: Seq<char>|
                        c.details.get_spec(k) == str_upserted(None::<String>, details@, k)
                    &&& c.badge_manager.txs@.len() == 1
                    &&& c.badge_manager.txs@.last().tx_type == TxType::Create
                    &&& admin_nft.contract_address == contract_address
                    &&& admin_nft.contract_kind == ContractKind::Job
                    &&& admin_nft.contract_role == ContractRole::Admin
                    &&& admin_nft.contract_handle@ == contract_handle@
                    &&& admin_nft.app_handle@ == app_handle@
                },
                Err(e) => {
                    &&& !VestingSchedule::dates_ok(
                        start_epoch as int,
                        cliff_epoch,
                        end_epoch as int,
                        vest_interval as int,
                    )
                    &&& e == ContractError::PreconditionViolation
                },
            },
    {
        let vesting_schedule = match VestingSchedule::new(
            start_epoch,
            cliff_epoch,
            end_epoch,
            vest_interval,
            0,
            is_check_join,
        ) {
            Ok(s) => s,
            Err(e) => {
                return Err(e);
            },
        };

        let badge_manager = BadgeManager::new(badge, ContractKind::Job, contract_name.clone());

        let mut new_details: StrTable<String> = StrTable::new();
        let n = details.len();
        let mut i: usize = 0;
        while i < n
            invariant
                n == details@.len(),
                i <= n,
                new_details.wf(),
                forall|k: Seq<char>|
                    new_details.get_spec(k) == str_upserted(
                        None::<String>,
                        details@.subrange(0, i as int),
                        k,
                    ),
            decreases n - i,
        {
            let key = details[i].0.clone();
            let value = details[i].1.clone();
            new_details.insert(key, value);
            proof {
                crate::str_table::lemma_str_pairs_last_prefix(details@, i as int);
            }
            i += 1;
        }
        proof {
            assert(details@.subrange(0, n as int) =~= details@);
        }

        let mut component = JobContract {
            badge_manager,
            app_handle,
            contract_handle,
            contract_name,
            details: new_details,
            marketplace: marketplace_address,
            markets: StrTable::new(),
            contract_address,
            admin_badge,
            admin_handle,
            member_badges: Table::new(),
            signatures: Table::new(),
            resource_address,
            granularity,
            funds: 0,
            vesting_schedule,
            reserved: 0,
            is_cancelled: false,
            created_epoch: now,
            list_epoch: 0,
            swept: Ghost(0int),
        };

        let admin_bucket = match component.init(now) {
            Ok(b) => b,
            Err(_) => {
                return Err(ContractError::PreconditionViolation);
            },
        };

        Ok((component, admin_bucket))
    }

    /// Mints the admin badge data and logs the creation transaction.  Fails
    /// once any transaction has been recorded.
    pub fn init(&mut self, now: i64) -> (r: Result<BadgeData, ContractError>)
        requires
            old(self).wf(),
        ensures
            final(self).wf(),
            match r {
                Ok(admin_nft) => {
                    &&& old(self).badge_manager.txs@.len() == 0
                    &&& admin_nft.contract_address == old(self).contract_address
                    &&& admin_nft.contract_kind == ContractKind::Job
                    &&& admin_nft.contract_role == ContractRole::Admin
                    &&& admin_nft.contract_handle@ == old(self).contract_handle@
                    &&& admin_nft.app_handle@ == old(self).app_handle@
                    &&& tx_logged(
                        old(self).badge_manager,
                        final(self).badge_manager,
                        now,
                        old(self).admin_handle@,
                        old(self).admin_badge,
                        old(self).contract_handle@,
                        old(self).badge_manager.badge,
                        old(self).funds,
                        TxType::Create,
                    )
                    &&& *final(self) == (JobContract {
                        badge_manager: final(self).badge_manager,
                        ..*old(self)
                    })
                },
                Err(e) => {
                    &&& old(self).badge_manager.txs@.len() != 0
                    &&& e == ContractError::PreconditionViolation
                    &&& *final(self) == *old(self)
                },
            },
    {
        if !self.badge_manager.is_new() {
            return Err(ContractError::PreconditionViolation);
        }
        let admin_nft = BadgeData {
            contract_address: self.contract_address,
            contract_kind: ContractKind::Job,
            contract_role: ContractRole::Admin,
            contract_handle: self.contract_handle.clone(),
            app_handle: self.app_handle.clone(),
        };

        self.create_tx(
            self.admin_handle.clone(),
            self.admin_badge,
            self.contract_handle.clone(),
            self.badge_manager.badge,
            self.funds,
            TxType::Create,
            now,
        );

        Ok(admin_nft)
    }

    /// Why an invite would be refused: the single member slot is taken, or
    /// the handle has no valid credential record (`badge_is_valid` is the
    /// host registry's answer for `(member_badge, member_handle)`).
    pub open spec fn invite_err(self, badge_is_valid: bool) -> Option<ContractError> {
        if self.member_badges.entries@.len() != 0 {
            Some(ContractError::PreconditionViolation)
        } else if !badge_is_valid {
            Some(ContractError::NotFound)
        } else {
            None
        }
    }

    /// Invites a member into the single slot.
    pub fn invite(
        &mut self,
        member_badge: u64,
        member_handle: String,
        badge_is_valid: bool,
        now: i64,
    ) -> (r: Result<(), ContractError>)
        requires
            old(self).wf(),
        ensures
            final(self).wf(),
            match r {
                Ok(()) => {
                    &&& old(self).invite_err(badge_is_valid) is None
                    &&& final(self).member_badges.get_spec(member_badge) == Some(member_handle)
                    &&& final(self).member_badges.entries@.len() == 1
                    &&& tx_logged(
                        old(self).badge_manager,
                        final(self).badge_manager,
                        now,
                        old(self).admin_handle@,
                        old(self).admin_badge,
                        member_handle@,
                        member_badge,
                        0u128,
                        TxType::Invite,
                    )
                    &&& *final(self) == (JobContract {
                        badge_manager: final(self).badge_manager,
                        member_badges: final(self).member_badges,
                        ..*old(self)
                    })
                },
                Err(e) => {
                    &&& old(self).invite_err(badge_is_valid) == Some(e)
                    &&& *final(self) == *old(self)
                },
            },
    {
        if !self.member_badges.is_empty() {
            return Err(ContractError::PreconditionViolation);
        }
        if !badge_is_valid {
            return Err(ContractError::NotFound);
        }
        self.member_badges.insert(member_badge, member_handle.clone());

        self.create_tx(
            self.admin_handle.clone(),
            self.admin_badge,
            member_handle,
            member_badge,
            0,
            TxType::Invite,
            now,
        );
        Ok(())
    }

    /// Why a removal would be refused: a signed member cannot be removed,
    /// and the badge must be on the roster.
    pub open spec fn remove_err(self, member_badge: u64) -> Option<ContractError> {
        if self.signatures.has_key(member_badge) {
            Some(ContractError::PreconditionViolation)
        } else if !self.member_badges.has_key(member_badge) {
            Some(ContractError::NotFound)
        } else {
            None
        }
    }

    /// Removes an invited member who has not signed.
    pub fn remove(&mut self, member_badge: u64, now: i64) -> (r: Result<(), ContractError>)
        requires
            old(self).wf(),
        ensures
            final(self).wf(),
            match r {
                Ok(()) => {
                    &&& old(self).remove_err(member_badge) is None
                    &&& !final(self).member_badges.has_key(member_badge)
                    &&& final(self).member_badges.entries@.len() == old(
                        self,
                    ).member_badges.entries@.len() - 1
                    &&& tx_logged(
                        old(self).badge_manager,
                        final(self).badge_manager,
                        now,
                        old(self).admin_handle@,
                        old(self).admin_badge,
                        old(self).member_badges.get_spec(member_badge).unwrap()@,
                        member_badge,
                        0u128,
                        TxType::Remove,
                    )
                    &&& *final(self) == (JobContract {
                        badge_manager: final(self).badge_manager,
                        member_badges: final(self).member_badges,
                        ..*old(self)
                    })
                },
                Err(e) => {
                    &&& old(self).remove_err(member_badge) == Some(e)
                    &&& *final(self) == *old(self)
                },
            },
    {
        if self.signatures.contains_key(member_badge) {
            return Err(ContractError::PreconditionViolation);
        }
        let handle = match self.member_badges.remove(member_badge) {
            Some(h) => h,
            None => {
                return Err(ContractError::NotFound);
            },
        };
        self.create_tx(
            self.admin_handle.clone(),
            self.admin_badge,
            handle,
            member_badge,
            0,
            TxType::Remove,
            now,
        );
        Ok(())
    }

    /// Why a leave would be refused: bad proof, already cancelled, or a
    /// reserved balance still waiting to be withdrawn (a prior `withdraw`
    /// must drain it first).
    pub open spec fn leave_err(self, member_badge: u64, proof_handle: Seq<char>, now: int) -> Option<
        ContractError,
    > {
        match self.proof_err(member_badge, proof_handle) {
            Some(e) => Some(e),
            None => if self.is_cancelled {
                Some(ContractError::PreconditionViolation)
            } else if self.reserved as int + self.reserve_due(now) != 0 {
                Some(ContractError::PreconditionViolation)
            } else {
                None
            },
        }
    }

    /// A member leaves: the whole contract is cancelled (one stream, one
    /// slot), provided nothing reserved is left unclaimed.
    pub fn leave(&mut self, member_badge: u64, proof_handle: String, now: i64) -> (r: Result<
        (),
        ContractError,
    >)
        requires
            old(self).wf(),
        ensures
            final(self).wf(),
            match r {
                Ok(()) => {
                    &&& old(self).leave_err(member_badge, proof_handle@, now as int) is None
                    &&& final(self).is_cancelled
                    &&& final(self).vesting_schedule.cancel_epoch == Some(now)
                    &&& final(self).funds == old(self).funds
                    &&& final(self).reserved == 0
                    &&& tx_logged(
                        old(self).badge_manager,
                        final(self).badge_manager,
                        now,
                        proof_handle@,
                        member_badge,
                        old(self).contract_handle@,
                        old(self).badge_manager.badge,
                        0u128,
                        TxType::Leave,
                    )
                    &&& *final(self) == (JobContract {
                        badge_manager: final(self).badge_manager,
                        is_cancelled: true,
                        vesting_schedule: final(self).vesting_schedule,
                        ..*old(self)
                    })
                    &&& final(self).vesting_schedule == (VestingSchedule {
                        cancel_epoch: Some(now),
                        ..old(self).vesting_schedule
                    })
                },
                Err(e) => {
                    &&& old(self).leave_err(member_badge, proof_handle@, now as int) == Some(e)
                    &&& *final(self) == *old(self)
                },
            },
    {
        if let Err(e) = self.check_proof(member_badge, &proof_handle) {
            return Err(e);
        }
        if self.is_cancelled {
            return Err(ContractError::PreconditionViolation);
        }
        proof {
            old(self).lemma_reserve_due_bounds(now as int);
        }
        // reserving must leave nothing: the member has claimed all vested
        // funds before walking away
        let due = self.compute_reserve_due(now);
        if self.reserved + due != 0 {
            return Err(ContractError::PreconditionViolation);
        }
        self.set_cancelled(now);

        self.create_tx(
            proof_handle,
            member_badge,
            self.contract_handle.clone(),
            self.badge_manager.badge,
            0,
            TxType::Leave,
            now,
        );
        Ok(())
    }

    /// The amount `set_reserved` would move at `now`.
    fn compute_reserve_due(&self, now: i64) -> (r: u128)
        requires
            self.wf(),
        ensures
            r as int == self.reserve_due(now as int),
    {
        proof {
            self.lemma_reserve_due_bounds(now as int);
        }
        if self.is_cancelled || self.vesting_schedule.amount == 0 {
            return 0;
        }
        let unvested = self.vesting_schedule.get_unvested(now);
        if self.funds > unvested {
            let withdraw_amount = self.funds - unvested;
            proof {
                lemma_mod_decreases(withdraw_amount as nat, self.granularity as nat);
            }
            withdraw_amount - withdraw_amount % self.granularity
        } else {
            0
        }
    }

    /// Why a join would be refused: the join window has closed, the proof
    /// does not authenticate the badge, or the badge has already signed.
    pub open spec fn join_err(self, member_badge: u64, proof_handle: Seq<char>, now: int) -> Option<
        ContractError,
    > {
        if self.vesting_schedule.is_check_join && self.vesting_schedule.start_epoch < now {
            Some(ContractError::PreconditionViolation)
        } else {
            match self.proof_err(member_badge, proof_handle) {
                Some(e) => Some(e),
                None => if self.signatures.has_key(member_badge) {
                    Some(ContractError::PreconditionViolation)
                } else {
                    None
                },
            }
        }
    }

    /// An invited member signs the contract and receives a member badge.
    pub fn join(&mut self, member_badge: u64, proof_handle: String, now: i64) -> (r: Result<
        BadgeData,
        ContractError,
    >)
        requires
            old(self).wf(),
        ensures
            final(self).wf(),
            match r {
                Ok(member_nft) => {
                    &&& old(self).join_err(member_badge, proof_handle@, now as int) is None
                    &&& final(self).signatures.has_key(member_badge)
                    &&& member_nft.contract_address == old(self).contract_address
                    &&& member_nft.contract_kind == ContractKind::Job
                    &&& member_nft.contract_role == ContractRole::Member
                    &&& member_nft.contract_handle@ == old(self).contract_handle@
                    &&& member_nft.app_handle@ == old(self).app_handle@
                    &&& tx_logged(
                        old(self).badge_manager,
                        final(self).badge_manager,
                        now,
                        proof_handle@,
                        member_badge,
                        old(self).contract_handle@,
                        old(self).badge_manager.badge,
                        0u128,
                        TxType::Join,
                    )
                    &&& *final(self) == (JobContract {
                        badge_manager: final(self).badge_manager,
                        signatures: final(self).signatures,
                        ..*old(self)
                    })
                    &&& forall|b: u64|
                        b != member_badge ==> final(self).signatures.has_key(b) == old(
                            self,
                        ).signatures.has_key(b)
                },
                Err(e) => {
                    &&& old(self).join_err(member_badge, proof_handle@, now as int) == Some(e)
                    &&& *final(self) == *old(self)
                },
            },
    {
        if let Err(e) = self.vesting_schedule.check_join(now) {
            return Err(e);
        }
        if let Err(e) = self.check_proof(member_badge, &proof_handle) {
            return Err(e);
        }
        if self.signatures.contains_key(member_badge) {
            return Err(ContractError::PreconditionViolation);
        }
        self.signatures.insert(member_badge, ());

        let member_nft = BadgeData {
            contract_address: self.contract_address,
            contract_kind: ContractKind::Job,
            contract_role: ContractRole::Member,
            contract_handle: self.contract_handle.clone(),
            app_handle: self.app_handle.clone(),
        };

        self.create_tx(
            proof_handle,
            member_badge,
            self.contract_handle.clone(),
            self.badge_manager.badge,
            0,
            TxType::Join,
            now,
        );

        Ok(member_nft)
    }

    /// Why a deposit would be refused: the contract is cancelled, the amount
    /// is zero, or the asset is not the designated fungible kind.
    pub open spec fn deposit_err(self, resource_address: u64, amount: u128) -> Option<
        ContractError,
    > {
        if self.is_cancelled {
            Some(ContractError::PreconditionViolation)
        } else if amount == 0 {
            Some(ContractError::LedgerInvariantViolation)
        } else if resource_address != self.resource_address {
            Some(ContractError::LedgerInvariantViolation)
        } else {
            None
        }
    }

    /// Deposits funds into escrow and grows the schedule's total by the same
    /// amount.
    pub fn deposit(&mut self, resource_address: u64, amount: u128, now: i64) -> (r: Result<
        (),
        ContractError,
    >)
        requires
            old(self).wf(),
            old(self).vesting_schedule.amount as int + amount as int <= u128::MAX as int,
        ensures
            final(self).wf(),
            match r {
                Ok(()) => {
                    &&& old(self).deposit_err(resource_address, amount) is None
                    &&& final(self).funds == old(self).funds + amount
                    &&& final(self).vesting_schedule == (VestingSchedule {
                        amount: (old(self).vesting_schedule.amount + amount) as u128,
                        ..old(self).vesting_schedule
                    })
                    &&& tx_logged(
                        old(self).badge_manager,
                        final(self).badge_manager,
                        now,
                        old(self).admin_handle@,
                        old(self).admin_badge,
                        old(self).contract_handle@,
                        old(self).badge_manager.badge,
                        amount,
                        TxType::Deposit,
                    )
                    &&& *final(self) == (JobContract {
                        badge_manager: final(self).badge_manager,
                        funds: final(self).funds,
                        vesting_schedule: final(self).vesting_schedule,
                        ..*old(self)
                    })
                },
                Err(e) => {
                    &&& old(self).deposit_err(resource_address, amount) == Some(e)
                    &&& *final(self) == *old(self)
                },
            },
    {
        if self.is_cancelled {
            return Err(ContractError::PreconditionViolation);
        }
        if amount == 0 {
            return Err(ContractError::LedgerInvariantViolation);
        }
        if resource_address != self.resource_address {
            return Err(ContractError::LedgerInvariantViolation);
        }

        self.create_tx(
            self.admin_handle.clone(),
            self.admin_badge,
            self.contract_handle.clone(),
            self.badge_manager.badge,
            amount,
            TxType::Deposit,
            now,
        );

        self.vesting_schedule.amount = self.vesting_schedule.amount + amount;
        self.funds = self.funds + amount;
        Ok(())
    }

    /// Updates the free-form metadata; later pairs win over earlier ones.
    pub fn details(&mut self, details: Vec<(String, String)>, now: i64)
        requires
            old(self).wf(),
        ensures
            final(self).wf(),
            forall|k: Seq<char>|
                final(self).details.get_spec(k) == str_upserted(
                    old(self).details.get_spec(k),
                    details@,
                    k,
                ),
            tx_logged(
                old(self).badge_manager,
                final(self).badge_manager,
                now,
                old(self).admin_handle@,
                old(self).admin_badge,
                old(self).contract_handle@,
                old(self).badge_manager.badge,
                0u128,
                TxType::Details,
            ),
            *final(self) == (JobContract {
                badge_manager: final(self).badge_manager,
                details: final(self).details,
                ..*old(self)
            }),
    {
        let n = details.len();
        let mut i: usize = 0;
        while i < n
            invariant
                n == details@.len(),
                i <= n,
                self.details.wf(),
                forall|k: Seq<char>|
                    self.details.get_spec(k) == str_upserted(
                        old(self).details.get_spec(k),
                        details@.subrange(0, i as int),
                        k,
                    ),
                *self == (JobContract { details: self.details, ..*old(self) }),
            decreases n - i,
        {
            let key = details[i].0.clone();
            let value = details[i].1.clone();
            self.details.insert(key, value);
            proof {
                crate::str_table::lemma_str_pairs_last_prefix(details@, i as int);
            }
            i += 1;
        }
        proof {
            assert(details@.subrange(0, n as int) =~= details@);
        }

        self.create_tx(
            self.admin_handle.clone(),
            self.admin_badge,
            self.contract_handle.clone(),
            self.badge_manager.badge,
            0,
            TxType::Details,
            now,
        );
    }

    /// Why a withdrawal would be refused: the listing lock has not passed,
    /// the proof does not authenticate, nobody has signed, or nothing has
    /// vested since the last drain.
    pub open spec fn withdraw_err(
        self,
        member_badge: u64,
        proof_handle: Seq<char>,
        now: int,
    ) -> Option<ContractError> {
        if !self.list_ok(now) {
            Some(ContractError::PreconditionViolation)
        } else {
            match self.proof_err(member_badge, proof_handle) {
                Some(e) => Some(e),
                None => if self.signatures.entries@.len() == 0 {
                    Some(ContractError::PreconditionViolation)
                } else if self.reserved as int + self.reserve_due(now) == 0 {
                    Some(ContractError::PreconditionViolation)
                } else {
                    None
                },
            }
        }
    }

    /// Drains the reserved pool (after reserving anything newly vested) to
    /// the member.  Fails when the drain would be empty — calling twice with
    /// no vesting progress in between fails the second time.
    pub fn withdraw(&mut self, member_badge: u64, proof_handle: String, now: i64) -> (r: Result<
        u128,
        ContractError,
    >)
        requires
            old(self).wf(),
        ensures
            final(self).wf(),
            match r {
                Ok(taken) => {
                    &&& old(self).withdraw_err(member_badge, proof_handle@, now as int) is None
                    &&& taken as int == old(self).reserved as int + old(self).reserve_due(
                        now as int,
                    )
                    &&& taken > 0
                    &&& final(self).reserved == 0
                    &&& final(self).funds as int == old(self).funds as int - old(self).reserve_due(
                        now as int,
                    )
                    &&& final(self).vesting_schedule == (VestingSchedule {
                        withdrawn: (old(self).vesting_schedule.withdrawn + taken) as u128,
                        ..old(self).vesting_schedule
                    })
                    &&& tx_logged(
                        old(self).badge_manager,
                        final(self).badge_manager,
                        now,
                        old(self).contract_handle@,
                        old(self).badge_manager.badge,
                        proof_handle@,
                        member_badge,
                        taken,
                        TxType::Withdraw,
                    )
                    &&& *final(self) == (JobContract {
                        badge_manager: final(self).badge_manager,
                        funds: final(self).funds,
                        reserved: 0u128,
                        vesting_schedule: final(self).vesting_schedule,
                        ..*old(self)
                    })
                },
                Err(e) => {
                    &&& old(self).withdraw_err(member_badge, proof_handle@, now as int) == Some(e)
                    &&& *final(self) == *old(self)
                },
            },
    {
        if !self.check_list(now) {
            return Err(ContractError::PreconditionViolation);
        }
        if let Err(e) = self.check_proof(member_badge, &proof_handle) {
            return Err(e);
        }
        if self.signatures.is_empty() {
            return Err(ContractError::PreconditionViolation);
        }
        proof {
            old(self).lemma_reserve_due_bounds(now as int);
        }
        self.set_reserved(now);
        let amount = self.reserved;
        if amount == 0 {
            return Err(ContractError::PreconditionViolation);
        }
        self.reserved = 0;
        self.vesting_schedule.withdrawn = self.vesting_schedule.withdrawn + amount;

        self.create_tx(
            self.contract_handle.clone(),
            self.badge_manager.badge,
            proof_handle,
            member_badge,
            amount,
            TxType::Withdraw,
            now,
        );

        Ok(amount)
    }

    /// Recalls the whole remaining escrow to the admin (vested or not),
    /// reserving anything already earned for the member first, and freezes
    /// the schedule.  Only the listing lock can refuse it.
    pub fn cancellation(&mut self, now: i64) -> (r: Result<u128, ContractError>)
        requires
            old(self).wf(),
        ensures
            final(self).wf(),
            match r {
                Ok(total) => {
                    &&& old(self).list_ok(now as int)
                    &&& ({
                        let due = if old(self).signatures.entries@.len() != 0 {
                            old(self).reserve_due(now as int)
                        } else {
                            0
                        };
                        &&& total as int == old(self).funds as int - due
                        &&& final(self).reserved as int == old(self).reserved as int + due
                    })
                    &&& final(self).funds == 0
                    &&& final(self).is_cancelled
                    &&& final(self).vesting_schedule.cancel_epoch == if old(self).is_cancelled {
                        old(self).vesting_schedule.cancel_epoch
                    } else {
                        Some(now)
                    }
                    &&& final(self).swept@ == old(self).swept@ + total as int
                    &&& tx_logged(
                        old(self).badge_manager,
                        final(self).badge_manager,
                        now,
                        old(self).contract_handle@,
                        old(self).badge_manager.badge,
                        old(self).admin_handle@,
                        old(self).admin_badge,
                        total,
                        TxType::Cancellation,
                    )
                    &&& *final(self) == (JobContract {
                        badge_manager: final(self).badge_manager,
                        funds: 0u128,
                        reserved: final(self).reserved,
                        is_cancelled: true,
                        vesting_schedule: final(self).vesting_schedule,
                        swept: final(self).swept,
                        ..*old(self)
                    })
                    &&& final(self).vesting_schedule == (VestingSchedule {
                        cancel_epoch: final(self).vesting_schedule.cancel_epoch,
                        ..old(self).vesting_schedule
                    })
                },
                Err(e) => {
                    &&& !old(self).list_ok(now as int)
                    &&& e == ContractError::PreconditionViolation
                    &&& *final(self) == *old(self)
                },
            },
    {
        if !self.check_list(now) {
            return Err(ContractError::PreconditionViolation);
        }
        proof {
            old(self).lemma_reserve_due_bounds(now as int);
        }
        if !self.signatures.is_empty() {
            self.set_reserved(now);
        }
        if !self.is_cancelled {
            self.set_cancelled(now);
        }
        let total = self.funds;
        self.funds = 0;
        self.swept = Ghost(self.swept@ + total as int);

        self.create_tx(
            self.contract_handle.clone(),
            self.badge_manager.badge,
            self.admin_handle.clone(),
            self.admin_badge,
            total,
            TxType::Cancellation,
            now,
        );

        Ok(total)
    }

    /// Why a listing would be refused: market cap reached or already listed
    /// there.  Marketplace eligibility is the marketplace's own check,
    /// made before this call.
    pub open spec fn list_err(self, market_name: Seq<char>) -> Option<ContractError> {
        if self.markets.entries@.len() > MAX_MARKETS {
            Some(ContractError::PreconditionViolation)
        } else if self.markets.has_key(market_name) {
            Some(ContractError::PreconditionViolation)
        } else {
            None
        }
    }

    /// Lists the contract on a market and starts the listing time lock.
    pub fn list(&mut self, market_name: String, now: i64) -> (r: Result<(), ContractError>)
        requires
            old(self).wf(),
        ensures
            final(self).wf(),
            match r {
                Ok(()) => {
                    &&& old(self).list_err(market_name@) is None
                    &&& final(self).markets.has_key(market_name@)
                    &&& final(self).list_epoch == now
                    &&& tx_logged(
                        old(self).badge_manager,
                        final(self).badge_manager,
                        now,
                        old(self).admin_handle@,
                        old(self).admin_badge,
                        old(self).contract_handle@,
                        old(self).badge_manager.badge,
                        0u128,
                        TxType::List,
                    )
                    &&& *final(self) == (JobContract {
                        badge_manager: final(self).badge_manager,
                        markets: final(self).markets,
                        list_epoch: now,
                        ..*old(self)
                    })
                },
                Err(e) => {
                    &&& old(self).list_err(market_name@) == Some(e)
                    &&& *final(self) == *old(self)
                },
            },
    {
        if self.markets.len() > MAX_MARKETS {
            return Err(ContractError::PreconditionViolation);
        }
        if self.markets.contains_key(&market_name) {
            return Err(ContractError::PreconditionViolation);
        }
        self.markets.insert(market_name, ());
        self.list_epoch = now;

        self.create_tx(
            self.admin_handle.clone(),
            self.admin_badge,
            self.contract_handle.clone(),
            self.badge_manager.badge,
            0,
            TxType::List,
            now,
        );
        Ok(())
    }

    /// The contract's public data: marketplace, admin badge, schedule
    /// amount, asset, whether it is open to an invite, and its address.
    pub fn data(&self) -> (r: (u64, u64, u128, u64, bool, u64))
        requires
            self.wf(),
        ensures
            r.0 == self.marketplace,
            r.1 == self.admin_badge,
            r.2 == self.vesting_schedule.amount,
            r.3 == self.resource_address,
            r.4 == (self.member_badges.entries@.len() == 0 && !self.is_cancelled),
            r.5 == self.contract_address,
    {
        (
            self.marketplace,
            self.admin_badge,
            self.vesting_schedule.amount,
            self.resource_address,
            self.member_badges.is_empty() && !self.is_cancelled,
            self.contract_address,
        )
    }

    /// Role of a badge: the admin's badge is `Admin`, a signed member's is
    /// `Member`, any other badge is refused.
    pub fn role(&self, member_badge: u64) -> (r: Result<ContractRole, ContractError>)
        requires
            self.wf(),
        ensures
            match r {
                Ok(role) => {
                    &&& (role == ContractRole::Admin) == (member_badge == self.admin_badge)
                    &&& role == ContractRole::Member ==> self.signatures.has_key(member_badge)
                },
                Err(e) => {
                    &&& member_badge != self.admin_badge
                    &&& !self.signatures.has_key(member_badge)
                    &&& e == ContractError::NotFound
                },
            },
    {
        let is_admin = self.admin_badge == member_badge;
        let is_member = self.signatures.contains_key(member_badge);
        if is_admin {
            Ok(ContractRole::Admin)
        } else if is_member {
            Ok(ContractRole::Member)
        } else {
            Err(ContractError::NotFound)
        }
    }
}

} // verus!
