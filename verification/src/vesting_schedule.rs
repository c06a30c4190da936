//! Linear vesting schedule: converts elapsed time into a vested/unvested
//! split of the deposited amount.
//!
//! Vesting is quantized into whole intervals of `vest_interval` days.  The
//! per-interval amount is the total amount divided by the schedule's span and
//! then multiplied by the interval length — the division is performed before
//! the multiplication on purpose, and that order fixes the rounding that
//! callers observe.  Once `cancel_epoch` is set, every later observation
//! reads the schedule as of that epoch.

use crate::contract_types::ContractError;
use crate::contract_types::SEC_IN_DAY;
use vstd::arithmetic::div_mod::lemma_fundamental_div_mod;
use vstd::arithmetic::div_mod::lemma_div_is_ordered;
use vstd::arithmetic::div_mod::lemma_div_pos_is_pos;
use vstd::arithmetic::div_mod::lemma_remainder_lower;
use vstd::arithmetic::mul::lemma_mul_inequality;
use vstd::arithmetic::mul::lemma_mul_is_associative;
use vstd::arithmetic::mul::lemma_mul_nonnegative;
use vstd::prelude::*;

verus! {

/// A vesting schedule.  `amount` is the cumulative total ever deposited and
/// `withdrawn` the cumulative total released, both in atto units.
pub struct VestingSchedule {
    pub start_epoch: i64,
    pub cliff_epoch: Option<i64>,
    pub end_epoch: i64,
    pub vest_interval: i64,
    pub amount: u128,
    pub withdrawn: u128,
    pub cancel_epoch: Option<i64>,
    pub is_check_join: bool,
}

impl VestingSchedule {
    /// The dates a schedule may be created with: a positive start no later
    /// than the end, the cliff (when present) between the two, and a positive
    /// interval.
    pub open spec fn dates_ok(
        start_epoch: int,
        cliff_epoch: Option<i64>,
        end_epoch: int,
        vest_interval: int,
    ) -> bool {
        &&& match cliff_epoch {
            Some(c) => end_epoch >= c && c >= start_epoch && start_epoch > 0,
            None => end_epoch >= start_epoch && start_epoch > 0,
        }
        &&& vest_interval > 0
    }

    pub open spec fn wf(self) -> bool {
        &&& Self::dates_ok(
            self.start_epoch as int,
            self.cliff_epoch,
            self.end_epoch as int,
            self.vest_interval as int,
        )
        &&& self.withdrawn <= self.amount
    }

    /// Length of one vesting interval in seconds.
    pub open spec fn interval_seconds(self) -> int {
        (self.vest_interval as int) * (SEC_IN_DAY as int)
    }

    /// Epoch before which nothing has vested: the cliff when present, else
    /// the start.
    pub open spec fn cutoff_epoch(self) -> int {
        match self.cliff_epoch {
            Some(c) => c as int,
            None => self.start_epoch as int,
        }
    }

    /// The epoch a reading taken at `now` actually observes: the cancel
    /// epoch once one is set, else `now`.
    pub open spec fn observation_epoch(self, now: int) -> int {
        match self.cancel_epoch {
            Some(c) => c as int,
            None => now,
        }
    }

    /// Amount vested when the schedule is observed at epoch `t`: the full
    /// amount from the end onward, nothing at or before the cutoff, and in
    /// between a per-interval amount — `(amount / span) * interval`, divide
    /// before multiply — times the number of whole elapsed intervals.
    pub open spec fn vested_at(self, t: int) -> int {
        if t >= self.end_epoch {
            self.amount as int
        } else if t <= self.cutoff_epoch() {
            0
        } else {
            let iv = self.interval_seconds();
            let per_interval = ((self.amount as int) / (self.end_epoch - self.start_epoch)) * iv;
            per_interval * ((t - self.start_epoch) / iv)
        }
    }

    /// Nothing vests below zero and never more than the amount on schedule.
    pub proof fn lemma_vested_bounds(self, t: int)
        requires
            self.wf(),
        ensures
            0 <= self.vested_at(t) <= self.amount,
    {
        if t >= self.end_epoch {
        } else if t <= self.cutoff_epoch() {
        } else {
            let a = self.amount as int;
            let vt = self.end_epoch - self.start_epoch;
            let iv = self.interval_seconds();
            let q = a / vt;
            let el = (t - self.start_epoch) / iv;
            assert(vt > 0);
            assert(iv > 0) by (nonlinear_arith)
                requires
                    self.vest_interval > 0,
                    iv == (self.vest_interval as int) * (SEC_IN_DAY as int),
            ;
            lemma_div_pos_is_pos(a, vt);
            lemma_div_pos_is_pos(t - self.start_epoch, iv);
            lemma_mul_nonnegative(q, iv);
            lemma_mul_nonnegative(q * iv, el);
            // iv * el <= t - start_epoch <= vt, so q * (iv * el) <= q * vt <= a
            lemma_fundamental_div_mod(t - self.start_epoch, iv);
            lemma_remainder_lower(t - self.start_epoch, iv);
            assert(iv * el <= t - self.start_epoch);
            lemma_mul_inequality(iv * el, vt, q);
            lemma_fundamental_div_mod(a, vt);
            lemma_remainder_lower(a, vt);
            assert(vt * q <= a);
            lemma_mul_is_associative(q, iv, el);
            assert(q * (iv * el) <= q * vt) by {
                lemma_mul_inequality(iv * el, vt, q);
                vstd::arithmetic::mul::lemma_mul_is_commutative(q, iv * el);
                vstd::arithmetic::mul::lemma_mul_is_commutative(q, vt);
            }
            vstd::arithmetic::mul::lemma_mul_is_commutative(vt, q);
        }
    }

    /// Vesting is monotone in time up to the end of the schedule, where the
    /// whole amount is vested.
    pub proof fn lemma_vested_monotonic(self, t1: int, t2: int)
        requires
            self.wf(),
            t1 <= t2 <= self.end_epoch,
        ensures
            self.vested_at(t1) <= self.vested_at(t2),
            self.vested_at(self.end_epoch as int) == self.amount,
    {
        self.lemma_vested_bounds(t1);
        self.lemma_vested_bounds(t2);
        if t2 >= self.end_epoch || t1 <= self.cutoff_epoch() {
        } else {
            let a = self.amount as int;
            let vt = self.end_epoch - self.start_epoch;
            let iv = self.interval_seconds();
            let q = a / vt;
            let per = q * iv;
            let el1 = (t1 - self.start_epoch) / iv;
            let el2 = (t2 - self.start_epoch) / iv;
            assert(iv > 0) by (nonlinear_arith)
                requires
                    self.vest_interval > 0,
                    iv == (self.vest_interval as int) * (SEC_IN_DAY as int),
            ;
            lemma_div_is_ordered(t1 - self.start_epoch, t2 - self.start_epoch, iv);
            assert(el1 <= el2);
            lemma_div_pos_is_pos(a, vt);
            lemma_mul_nonnegative(q, iv);
            lemma_mul_inequality(el1, el2, per);
            vstd::arithmetic::mul::lemma_mul_is_commutative(per, el1);
            vstd::arithmetic::mul::lemma_mul_is_commutative(per, el2);
        }
    }

    /// Once a cancel epoch is set, observations at any two times read the
    /// same vested amount: cancellation freezes vesting.
    pub proof fn lemma_cancellation_freezes(self, t1: int, t2: int)
        requires
            self.cancel_epoch.is_some(),
        ensures
            self.vested_at(self.observation_epoch(t1)) == self.vested_at(self.observation_epoch(t2)),
    {
    }

    /// Checks the dates a schedule is being created with.
    pub fn check_schedule(
        start_epoch: &i64,
        cliff_epoch: &Option<i64>,
        end_epoch: &i64,
        vest_interval: &i64,
    ) -> (ok: bool)
        ensures
            ok == Self::dates_ok(*start_epoch as int, *cliff_epoch, *end_epoch as int, *vest_interval as int),
    {
        let dates_ok = match cliff_epoch {
            Some(c_epoch) => *end_epoch >= *c_epoch && *c_epoch >= *start_epoch && *start_epoch > 0i64,
            None => *end_epoch >= *start_epoch && *start_epoch > 0i64,
        };
        dates_ok && *vest_interval > 0i64
    }

    /// Creates a schedule, rejecting invalid dates.
    pub fn new(
        start_epoch: i64,
        cliff_epoch: Option<i64>,
        end_epoch: i64,
        vest_interval: i64,
        amount: u128,
        is_check_join: bool,
    ) -> (r: Result<Self, ContractError>)
        ensures
            match r {
                Ok(s) => {
                    &&& Self::dates_ok(start_epoch as int, cliff_epoch, end_epoch as int, vest_interval as int)
                    &&& s == (VestingSchedule {
                        start_epoch,
                        cliff_epoch,
                        end_epoch,
                        vest_interval,
                        amount,
                        withdrawn: 0u128,
                        cancel_epoch: None::<i64>,
                        is_check_join,
                    })
                    &&& s.wf()
                },
                Err(e) => {
                    &&& !Self::dates_ok(start_epoch as int, cliff_epoch, end_epoch as int, vest_interval as int)
                    &&& e == ContractError::PreconditionViolation
                },
            },
    {
        if !Self::check_schedule(&start_epoch, &cliff_epoch, &end_epoch, &vest_interval) {
            return Err(ContractError::PreconditionViolation);
        }
        Ok(VestingSchedule {
            start_epoch,
            cliff_epoch,
            end_epoch,
            vest_interval,
            amount,
            withdrawn: 0,
            cancel_epoch: None,
            is_check_join,
        })
    }

    /// Amount vested as observed at `now` (or at the cancel epoch once set).
    pub fn get_vested(&self, now: i64) -> (r: u128)
        requires
            self.wf(),
        ensures
            r as int == self.vested_at(self.observation_epoch(now as int)),
            r <= self.amount,
    {
        proof {
            self.lemma_vested_bounds(self.observation_epoch(now as int));
        }
        let curr_epoch: i64 = match self.cancel_epoch {
            Some(v) => v,
            None => now,
        };
        let cutoff_epoch: i64 = match self.cliff_epoch {
            Some(c_epoch) => c_epoch,
            None => self.start_epoch,
        };
        if curr_epoch >= self.end_epoch {
            return self.amount;
        }
        if curr_epoch <= cutoff_epoch {
            return 0;
        }

        // vest in whole intervals, e.g. every 14 days
        let interval: u128 = (self.vest_interval as u128) * (SEC_IN_DAY as u128);
        let ghost iv = self.interval_seconds();
        assert(interval == iv && iv > 0) by (nonlinear_arith)
            requires
                0 < self.vest_interval <= i64::MAX,
                interval == (self.vest_interval as u128) * (SEC_IN_DAY as u128),
                iv == (self.vest_interval as int) * (SEC_IN_DAY as int),
        ;
        let elapsed_time: u128 = (curr_epoch - self.start_epoch) as u128;
        let elapsed_intervals: u128 = elapsed_time / interval;
        proof {
            lemma_fundamental_div_mod(elapsed_time as int, iv);
            lemma_remainder_lower(elapsed_time as int, iv);
        }
        if elapsed_intervals == 0 {
            proof {
                vstd::arithmetic::mul::lemma_mul_basics(
                    ((self.amount as int) / (self.end_epoch - self.start_epoch))
                        * self.interval_seconds(),
                );
            }
            return 0;
        }

        // divide the total amount by the total time, then multiply by the
        // interval: this order is the rounding contract
        let vest_time: u128 = (self.end_epoch - self.start_epoch) as u128;
        let ghost a = self.amount as int;
        let ghost vt = vest_time as int;
        let ghost q = a / vt;
        let ghost el = elapsed_intervals as int;
        proof {
            lemma_div_pos_is_pos(a, vt);
            lemma_fundamental_div_mod(a, vt);
            lemma_remainder_lower(a, vt);
            vstd::arithmetic::mul::lemma_mul_is_commutative(vt, q);
            assert(q * vt <= a);
            // one whole interval elapsed, so the interval fits in the span
            assert(iv * el <= elapsed_time);
            assert(iv <= iv * el) by (nonlinear_arith)
                requires
                    iv > 0,
                    el >= 1,
            ;
            assert(iv <= vt);
            lemma_mul_inequality(iv, vt, q);
            vstd::arithmetic::mul::lemma_mul_is_commutative(q, iv);
            vstd::arithmetic::mul::lemma_mul_is_commutative(q, vt);
            assert(q * iv <= a);
        }
        let vest_per_interval: u128 = (self.amount / vest_time) * interval;
        proof {
            assert((q * iv) * el <= a) by {
                lemma_mul_is_associative(q, iv, el);
                lemma_mul_inequality(iv * el, vt, q);
                vstd::arithmetic::mul::lemma_mul_is_commutative(q, iv * el);
                vstd::arithmetic::mul::lemma_mul_is_commutative(q, vt);
            }
            lemma_div_pos_is_pos(elapsed_time as int, iv);
            lemma_mul_nonnegative(q, iv);
            lemma_mul_nonnegative(q * iv, el);
        }
        let total_vested: u128 = vest_per_interval * elapsed_intervals;
        total_vested
    }

    /// Amount not yet vested as observed at `now`.
    pub fn get_unvested(&self, now: i64) -> (r: u128)
        requires
            self.wf(),
        ensures
            r as int == self.amount - self.vested_at(self.observation_epoch(now as int)),
            r <= self.amount,
    {
        self.amount - self.get_vested(now)
    }

    /// When the join-window policy is on, joining after the start is refused.
    pub fn check_join(&self, now: i64) -> (r: Result<(), ContractError>)
        ensures
            match r {
                Ok(()) => !(self.is_check_join && self.start_epoch < now),
                Err(e) => self.is_check_join && self.start_epoch < now
                    && e == ContractError::PreconditionViolation,
            },
    {
        if self.is_check_join && self.start_epoch < now {
            return Err(ContractError::PreconditionViolation);
        }
        Ok(())
    }
}

} // verus!
