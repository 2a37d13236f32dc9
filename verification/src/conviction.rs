//! Conviction: the commitment level a voter chooses, trading a longer lock for more weight.

use vstd::prelude::*;
use crate::types::Delegations;

verus! {

/// A voter's commitment level.
///
/// | level      | multiplier | lock periods |
/// |------------|------------|--------------|
/// | `Unlocked` | 1/10       | 0            |
/// | `Locked1x` | 1          | 1            |
/// | `Locked2x` | 2          | 2            |
/// | `Locked3x` | 3          | 4            |
/// | `Locked4x` | 4          | 8            |
/// | `Locked5x` | 5          | 16           |
/// | `Locked6x` | 6          | 32           |
#[derive(Clone, Copy, Debug, PartialEq, Eq, Structural)]
pub enum Conviction {
    /// A tenth of the weight, no lock.
    Unlocked,
    /// Full weight, locked for one period.
    Locked1x,
    /// Twice the weight, locked for two periods.
    Locked2x,
    /// Three times the weight, locked for four periods.
    Locked3x,
    /// Four times the weight, locked for eight periods.
    Locked4x,
    /// Five times the weight, locked for sixteen periods.
    Locked5x,
    /// Six times the weight, locked for thirty-two periods.
    Locked6x,
}

impl Conviction {
    /// The number of lock periods this level commits to.
    pub open spec fn spec_lock_periods(self) -> nat {
        match self {
            Conviction::Unlocked => 0,
            Conviction::Locked1x => 1,
            Conviction::Locked2x => 2,
            Conviction::Locked3x => 4,
            Conviction::Locked4x => 8,
            Conviction::Locked5x => 16,
            Conviction::Locked6x => 32,
        }
    }

    /// The numerator of the weight multiplier.
    pub open spec fn spec_numerator(self) -> nat {
        match self {
            Conviction::Unlocked => 1,
            Conviction::Locked1x => 1,
            Conviction::Locked2x => 2,
            Conviction::Locked3x => 3,
            Conviction::Locked4x => 4,
            Conviction::Locked5x => 5,
            Conviction::Locked6x => 6,
        }
    }

    /// The denominator of the weight multiplier.
    pub open spec fn spec_denominator(self) -> nat {
        match self {
            Conviction::Unlocked => 10,
            _ => 1,
        }
    }

    /// The votes that `capital` is worth at this level: `capital` times the multiplier,
    /// rounded down and capped at the largest 64-bit value.
    pub open spec fn spec_votes(self, capital: nat) -> nat {
        let scaled = capital * self.spec_numerator() / self.spec_denominator();
        if scaled > u64::MAX {
            u64::MAX as nat
        } else {
            scaled
        }
    }

    /// The votes and the capital that `capital` contributes at this level.
    pub open spec fn spec_delegations(self, capital: u64) -> Delegations<u64> {
        Delegations { votes: self.spec_votes(capital as nat) as u64, capital }
    }

    /// The block at which a lock taken at this level expires, when the lock starts to run at
    /// block `from` and one period lasts `period` blocks. Capped at the largest block number.
    pub open spec fn spec_lock_expiry(self, from: u64, period: u64) -> u64 {
        let until = from + self.spec_lock_periods() * period;
        if until > u64::MAX {
            u64::MAX
        } else {
            until as u64
        }
    }

    /// The number of lock periods this level commits to.
    pub fn lock_periods(self) -> (periods: u32)
        ensures
            periods == self.spec_lock_periods(),
    {
        match self {
            Conviction::Unlocked => 0,
            Conviction::Locked1x => 1,
            Conviction::Locked2x => 2,
            Conviction::Locked3x => 4,
            Conviction::Locked4x => 8,
            Conviction::Locked5x => 16,
            Conviction::Locked6x => 32,
        }
    }

    /// The weight multiplier as a fraction: numerator and denominator.
    pub fn multiplier(self) -> (fraction: (u64, u64))
        ensures
            fraction.0 == self.spec_numerator(),
            fraction.1 == self.spec_denominator(),
    {
        match self {
            Conviction::Unlocked => (1, 10),
            Conviction::Locked1x => (1, 1),
            Conviction::Locked2x => (2, 1),
            Conviction::Locked3x => (3, 1),
            Conviction::Locked4x => (4, 1),
            Conviction::Locked5x => (5, 1),
            Conviction::Locked6x => (6, 1),
        }
    }

    /// How long a lock at this level lasts when one period lasts `period` blocks; capped at
    /// the largest 64-bit value.
    pub fn locked_for(self, period: u64) -> (duration: u64)
        ensures
            duration == self.spec_lock_expiry(0, period),
    {
        let periods: u64 = self.lock_periods() as u64;
        assert(period * periods == periods * period) by (nonlinear_arith);
        match period.checked_mul(periods) {
            Some(duration) => duration,
            None => u64::MAX,
        }
    }

    /// The block at which a lock taken at this level expires, counted from block `from`.
    pub fn lock_expiry(self, from: u64, period: u64) -> (until: u64)
        ensures
            until == self.spec_lock_expiry(from, period),
    {
        let duration = self.locked_for(period);
        match from.checked_add(duration) {
            Some(until) => until,
            None => u64::MAX,
        }
    }

    /// The votes and the capital that `capital` contributes at this level.
    pub fn votes(self, capital: u64) -> (d: Delegations<u64>)
        ensures
            d == self.spec_delegations(capital),
    {
        let (numerator, denominator) = self.multiplier();
        assert(denominator == 1 || (denominator == 10 && numerator == 1));
        let votes = match capital.checked_mul(numerator) {
            Some(scaled) => scaled / denominator,
            None => u64::MAX,
        };
        Delegations { votes, capital }
    }
}

} // verus!
