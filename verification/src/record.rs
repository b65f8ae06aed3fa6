//! The accrual record: one account's staked balance and its time-weighted
//! interest, with the arithmetic that locks accrued interest in before any
//! change of principal.

use vstd::arithmetic::div_mod::{lemma_div_denominator, lemma_div_is_ordered};
use vstd::arithmetic::mul::lemma_mul_inequality;
use vstd::prelude::*;

verus! {

/// Seconds in a Julian year, the fixed divisor of the accrual formula.
pub const SECONDS_PER_YEAR: u64 = 31_557_600;

/// Fixed-point scale of the interest rate: a rate of 10^8 is 100% per year.
pub const RATE_SCALE: u64 = 100_000_000;

/// One account's staked balance.
///
/// `interests_before` holds the interest accumulated and locked in as of
/// `date`; interest accrued since `date` is computed on demand from `amount`.
/// `date` never decreases: every operation takes the current time and callers
/// guarantee monotonic clocks.
#[derive(Clone, Copy, Debug, PartialEq, Eq, Structural)]
pub struct UserStake {
    /// Currently staked principal, excluding interest.
    pub amount: u128,
    /// Interest locked in as of `date`.
    pub interests_before: u128,
    /// Seconds-resolution timestamp of the last accrual snapshot.
    pub date: u64,
}

impl UserStake {
    /// Interest claimable at time `now`: the locked-in part plus the
    /// principal-proportional accrual since `date`, floored to whole units.
    pub open spec fn spec_interests(self, rate: u128, now: u64) -> int {
        self.interests_before + (self.amount * (now - self.date) * rate) / (
        (RATE_SCALE as int) * (SECONDS_PER_YEAR as int))
    }

    /// The accrual computation at `now` stays within `u128` at every step.
    pub open spec fn interests_fit(self, rate: u128, now: u64) -> bool {
        &&& self.amount * (now - self.date) <= u128::MAX
        &&& self.amount * (now - self.date) * rate <= u128::MAX
        &&& self.spec_interests(rate, now) <= u128::MAX
    }

    /// The record after locking accrued interest in at `now`.
    pub open spec fn spec_snapshot(self, rate: u128, now: u64) -> UserStake {
        UserStake {
            amount: self.amount,
            interests_before: self.spec_interests(rate, now) as u128,
            date: now,
        }
    }

    /// The record after staking `amount` more at `now`.
    pub open spec fn spec_stake(self, amount: u128, rate: u128, now: u64) -> UserStake {
        UserStake { amount: (self.amount + amount) as u128, ..self.spec_snapshot(rate, now) }
    }

    /// The record after unstaking `amount` at `now`.
    pub open spec fn spec_unstake(self, amount: u128, rate: u128, now: u64) -> UserStake {
        UserStake { amount: (self.amount - amount) as u128, ..self.spec_snapshot(rate, now) }
    }

    /// The record after a successful interest payout at `now`.
    pub open spec fn spec_reset(self, now: u64) -> UserStake {
        UserStake { amount: self.amount, interests_before: 0, date: now }
    }

    /// A fresh record holding `amount`, created at `now`.
    pub fn new(amount: u128, now: u64) -> (r: UserStake)
        ensures
            r == (UserStake { amount, interests_before: 0, date: now }),
    {
        let mut stake = UserStake { amount: 0, interests_before: 0, date: now };
        stake.amount = amount;
        stake
    }

    /// Interest claimable at `now`, floored: the fractional remainder below
    /// one unit is dropped, never carried forward.
    pub fn calc_interests(&self, rate: u128, now: u64) -> (r: u128)
        requires
            self.date <= now,
            self.interests_fit(rate, now),
        ensures
            r == self.spec_interests(rate, now),
    {
        let time: u64 = now - self.date;
        let mut interests: u128 = self.amount;
        interests = interests * (time as u128);
        interests = interests * rate;
        interests = interests / (RATE_SCALE as u128);
        interests = interests / (SECONDS_PER_YEAR as u128);
        proof {
            lemma_div_denominator(
                (self.amount * (now - self.date) * rate) as int,
                RATE_SCALE as int,
                SECONDS_PER_YEAR as int,
            );
        }
        interests + self.interests_before
    }

    /// Locks the interest accrued so far in, so that a following change of
    /// principal cannot alter what was already earned.
    pub fn stock_interests_before(&mut self, rate: u128, now: u64)
        requires
            old(self).date <= now,
            old(self).interests_fit(rate, now),
        ensures
            *final(self) == old(self).spec_snapshot(rate, now),
    {
        self.interests_before = self.calc_interests(rate, now);
        self.date = now;
    }

    /// Adds `amount` to the principal after locking accrued interest in.
    pub fn stake(&mut self, amount: u128, rate: u128, now: u64)
        requires
            old(self).date <= now,
            old(self).interests_fit(rate, now),
            old(self).amount + amount <= u128::MAX,
        ensures
            *final(self) == old(self).spec_stake(amount, rate, now),
    {
        self.stock_interests_before(rate, now);
        self.amount = self.amount + amount;
    }

    /// Removes `amount` from the principal after locking accrued interest in.
    /// Callers validate `amount <= self.amount` before the transfer is even
    /// requested; an underflow here would be a protocol bug, not user error.
    pub fn unstake(&mut self, amount: u128, rate: u128, now: u64)
        requires
            old(self).date <= now,
            old(self).interests_fit(rate, now),
            amount <= old(self).amount,
        ensures
            *final(self) == old(self).spec_unstake(amount, rate, now),
    {
        self.stock_interests_before(rate, now);
        self.amount = self.amount - amount;
    }

    /// Clears the locked-in interest after a successful payout.
    pub fn reset_interests(&mut self, now: u64)
        requires
            old(self).date <= now,
        ensures
            *final(self) == old(self).spec_reset(now),
    {
        self.interests_before = 0;
        self.date = now;
    }
}

/// Accrual is monotonic: for an unchanged record, interest computed at a later
/// time is never less than interest computed at an earlier one.
pub proof fn lemma_interests_monotonic(s: UserStake, rate: u128, t1: u64, t2: u64)
    requires
        s.date <= t1,
        t1 <= t2,
    ensures
        s.spec_interests(rate, t1) <= s.spec_interests(rate, t2),
{
    let d = (RATE_SCALE as int) * (SECONDS_PER_YEAR as int);
    let e1 = (t1 - s.date) as int;
    let e2 = (t2 - s.date) as int;
    lemma_mul_inequality(e1, e2, s.amount as int);
    assert(s.amount * e1 == e1 * s.amount);
    assert(s.amount * e2 == e2 * s.amount);
    lemma_mul_inequality(s.amount * e1, s.amount * e2, rate as int);
    lemma_div_is_ordered(s.amount * e1 * rate, s.amount * e2 * rate, d);
}

/// Staking an amount and immediately unstaking the same amount at the same
/// timestamp restores the principal, and the locked-in interest is exactly one
/// snapshot of the original record: the zero elapsed time between the two
/// operations contributes no interest. When no time elapsed since the last
/// snapshot either, the whole record is unchanged.
pub proof fn lemma_stake_unstake_identity(s: UserStake, amount: u128, rate: u128, now: u64)
    requires
        s.date <= now,
        s.interests_fit(rate, now),
        s.amount + amount <= u128::MAX,
    ensures
        s.spec_stake(amount, rate, now).spec_unstake(amount, rate, now) == s.spec_snapshot(
            rate,
            now,
        ),
        now == s.date ==> s.spec_stake(amount, rate, now).spec_unstake(amount, rate, now) == s,
{
    let staked = s.spec_stake(amount, rate, now);
    assert(staked.amount * (now - staked.date) * rate == 0);
    assert(staked.spec_interests(rate, now) == staked.interests_before);
    if now == s.date {
        assert(s.amount * (now - s.date) * rate == 0) by (nonlinear_arith)
            requires
                now == s.date,
        ;
        assert(s.spec_interests(rate, now) == s.interests_before);
    }
}

} // verus!
