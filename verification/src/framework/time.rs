//! A time model that runs updates at a fixed step: time that passes builds
//! up as lag, and each update consumes one step of it.
use vstd::prelude::*;

verus! {

/// The default step: a sixtieth of a second, in nanoseconds.
pub const DEFAULT_STEP: u64 = 16666667;

/// Models how time drives the updates of an application.
pub trait TimeModel {
    /// Takes in `elapsed` nanoseconds that passed since the last tick.
    fn tick(&mut self, elapsed: u64);

    /// The number of updates to run now.
    fn update(&mut self) -> u64;
}

/// Updates at a fixed step of `duration` nanoseconds.
pub struct FixedUpdate {
    lag: u64,
    duration: u64,
}

impl FixedUpdate {
    #[verifier::type_invariant]
    spec fn wf(self) -> bool {
        self.duration > 0
    }

    /// The time that has built up and not been consumed by updates.
    pub closed spec fn lag_spec(self) -> nat {
        self.lag as nat
    }

    /// The step of each update.
    pub closed spec fn duration_spec(self) -> nat {
        self.duration as nat
    }

    /// A model with no lag and a step of `duration` nanoseconds.
    pub fn new(duration: u64) -> (r: Self)
        requires
            duration > 0,
        ensures
            r.lag_spec() == 0,
            r.duration_spec() == duration,
    {
        FixedUpdate { lag: 0, duration }
    }

    /// The step of each update.
    pub fn duration(&self) -> (r: u64)
        ensures
            r == self.duration_spec(),
            r > 0,
    {
        proof {
            use_type_invariant(self);
        }
        self.duration
    }

    /// The time that has built up and not been consumed by updates.
    pub fn lag(&self) -> (r: u64)
        ensures
            r == self.lag_spec(),
    {
        self.lag
    }
}

impl Default for FixedUpdate {
    /// A model with no lag and a step of a sixtieth of a second.
    fn default() -> (r: Self)
        ensures
            r.lag_spec() == 0,
            r.duration_spec() == DEFAULT_STEP,
    {
        FixedUpdate::new(DEFAULT_STEP)
    }
}

impl TimeModel for FixedUpdate {
    /// The elapsed time adds to the lag (which stops at the largest `u64`).
    fn tick(&mut self, elapsed: u64)
        ensures
            final(self).lag_spec() == (if old(self).lag_spec() + elapsed <= u64::MAX {
                old(self).lag_spec() + elapsed
            } else {
                u64::MAX as int
            }),
            final(self).duration_spec() == old(self).duration_spec(),
    {
        proof {
            use_type_invariant(&*self);
        }
        self.lag = self.lag.saturating_add(elapsed);
    }

    /// One update for each whole step in the lag, which the updates consume.
    fn update(&mut self) -> (r: u64)
        ensures
            r == old(self).lag_spec() / old(self).duration_spec(),
            final(self).lag_spec() == old(self).lag_spec() % old(self).duration_spec(),
            final(self).duration_spec() == old(self).duration_spec(),
    {
        proof {
            use_type_invariant(&*self);
        }
        let ghost start = self.lag as int;
        let d = self.duration;
        let mut count: u64 = 0;
        while self.lag >= d
            invariant
                self.duration == d,
                d > 0,
                start == old(self).lag,
                count * d + self.lag == start,
            decreases self.lag,
        {
            let ghost c = count as int;
            let ghost l = self.lag as int;
            assert(c + 1 <= (c + 1) * d) by (nonlinear_arith)
                requires
                    d > 0,
                    c >= 0,
            ;
            assert((c + 1) * d == c * d + d) by (nonlinear_arith);
            self.lag = self.lag - d;
            count = count + 1;
        }
        proof {
            vstd::arithmetic::div_mod::lemma_fundamental_div_mod_converse(
                start,
                d as int,
                count as int,
                self.lag as int,
            );
        }
        count
    }
}

/// Updating consumes the lag in whole steps: the steps taken and the lag
/// left add up to the lag before, and less than a step is left.
pub proof fn lemma_update_conserves_lag(lag: nat, duration: nat)
    requires
        duration > 0,
    ensures
        (lag / duration) * duration + lag % duration == lag,
        lag % duration < duration,
{
    vstd::arithmetic::div_mod::lemma_fundamental_div_mod(lag as int, duration as int);
    assert((lag / duration) * duration == duration * (lag / duration)) by (nonlinear_arith);
}

} // verus!
