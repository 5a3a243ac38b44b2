//! Hardware timer durations for the buzzer backend.
//!
//! The target timer counts prescaled clock ticks into a 16-bit compare
//! register. A raw tick count is made representable by repeatedly
//! dividing it by eight while raising the prescaler by the same factor;
//! a count that lands on no supported prescaler is rejected rather than
//! clipped.

use vstd::prelude::*;

use vstd::arithmetic::div_mod::lemma_div_denominator;
use vstd::arithmetic::div_mod::lemma_div_is_ordered;
use vstd::arithmetic::div_mod::lemma_fundamental_div_mod;
use vstd::arithmetic::div_mod::lemma_mod_division_less_than_divisor;

verus! {

/// Least raw tick count the scaling loop cannot represent: `65536 * 64`.
/// The loop steps the prescaler by factors of eight, the supported set
/// holds no power of eight beyond 64, and a 16-bit count under a
/// prescaler of 64 reaches at most one tick short of this.
pub const MAX_RAW_TICKS: u32 = 4194304;

/// The pin is held high for one part in `DUTY_CYCLE_DIVISOR` of each
/// period: a short pulse, not a half-period square wave.
pub const DUTY_CYCLE_DIVISOR: u32 = 100;

/// The one failure of the solver: the requested frequency's period
/// cannot be programmed with any supported prescaler and a 16-bit
/// count. The documented policy for callers is to fall back to
/// silence for that note rather than abort playback.
#[derive(Debug, Copy, Clone, PartialEq, Eq, Structural)]
pub struct UnrepresentableFrequency;

/// Hardware prescaler: the divider placed between the clock and the
/// 16-bit counter. Only these five factors exist on the target.
#[derive(Debug, Copy, Clone, PartialEq, Eq, Structural)]
pub enum Prescaler {
    Direct,
    Prescale8,
    Prescale64,
    Prescale256,
    Prescale1024,
}

impl Prescaler {
    /// The division factor this prescaler applies.
    pub open spec fn spec_factor(self) -> int {
        match self {
            Prescaler::Direct => 1,
            Prescaler::Prescale8 => 8,
            Prescaler::Prescale64 => 64,
            Prescaler::Prescale256 => 256,
            Prescaler::Prescale1024 => 1024,
        }
    }

    /// The division factor this prescaler applies.
    pub fn factor(&self) -> (f: u32)
        ensures
            f == self.spec_factor(),
    {
        match self {
            Prescaler::Direct => 1,
            Prescaler::Prescale8 => 8,
            Prescaler::Prescale64 => 64,
            Prescaler::Prescale256 => 256,
            Prescaler::Prescale1024 => 1024,
        }
    }
}

/// Every prescaler factor lies in the hardware's supported set
/// {1, 8, 64, 256, 1024}; no other divider can ever be produced.
pub proof fn lemma_prescaler_factor_supported(p: Prescaler)
    ensures
        p.spec_factor() == 1 || p.spec_factor() == 8 || p.spec_factor() == 64 || p.spec_factor()
            == 256 || p.spec_factor() == 1024,
{
}

/// One timer programming: a tick count that fits the 16-bit compare
/// register, together with the prescaler it was scaled by.
#[derive(Debug, Copy, Clone, PartialEq, Eq, Structural)]
pub struct TimerDuration {
    pub ticks: u16,
    pub prescale: Prescaler,
}

/// The prescaler factor the scaling loop lands on for a raw count below
/// `MAX_RAW_TICKS`: the smallest power of eight that brings the count
/// within sixteen bits.
pub open spec fn spec_scaled_factor(raw: u32) -> int {
    if raw < 65536 {
        1
    } else if raw < 524288 {
        8
    } else {
        64
    }
}

/// `d` is the duration the scaling loop produces for the raw count
/// `raw`: the count divided (truncating) by the least sufficient
/// power-of-eight prescaler.
pub open spec fn spec_duration_ok(d: TimerDuration, raw: u32) -> bool {
    &&& d.prescale.spec_factor() == spec_scaled_factor(raw)
    &&& d.ticks == raw as int / spec_scaled_factor(raw)
}

impl TimerDuration {
    /// The programmed tick count, at most `u16::MAX`.
    pub fn ticks(&self) -> (t: u16)
        ensures
            t == self.ticks,
    {
        self.ticks
    }

    /// The prescaler the count was scaled by.
    pub fn prescale(&self) -> (p: Prescaler)
        ensures
            p == self.prescale,
    {
        self.prescale
    }

    /// Clock ticks this duration spans: the programmed count times the
    /// prescaler factor.
    pub open spec fn spec_total_ticks(self) -> int {
        self.ticks * self.prescale.spec_factor()
    }

    /// Clock ticks this duration spans.
    pub fn total_ticks(&self) -> (t: u32)
        ensures
            t == self.spec_total_ticks(),
            t <= 67107840,
    {
        self.ticks as u32 * self.prescale.factor()
    }

    /// Scales a raw tick count into the 16-bit counter by stepping the
    /// prescaler in factors of eight. Succeeds exactly on counts below
    /// `MAX_RAW_TICKS`; beyond that the loop lands on a divider the
    /// hardware does not offer, and the count is rejected.
    pub fn try_from_ticks(ticks: u32) -> (r: Result<TimerDuration, UnrepresentableFrequency>)
        ensures
            r is Ok <==> ticks < MAX_RAW_TICKS,
            r matches Ok(d) ==> spec_duration_ok(d, ticks),
    {
        let mut counter: u32 = ticks;
        let mut prescale: u32 = 1;

        proof {
            assert(ticks as int / 1int == ticks);
        }
        while counter > 65535
            invariant
                prescale == 1 || prescale == 8 || prescale == 64 || prescale == 512 || prescale
                    == 4096 || prescale == 32768 || prescale == 262144,
                counter == ticks as int / prescale as int,
                prescale > 1 ==> ticks as int / (prescale as int / 8) > 65535,
            decreases counter,
        {
            proof {
                lemma_div_denominator(ticks as int, prescale as int, 8);
                if prescale == 262144 {
                    lemma_div_is_ordered(ticks as int, u32::MAX as int, 262144);
                    assert(u32::MAX as int / 262144 == 16383) by (nonlinear_arith);
                    assert(false);
                }
            }
            counter = counter / 8;
            prescale = prescale * 8;
        }

        let prescale = match prescale {
            1 => Prescaler::Direct,
            8 => Prescaler::Prescale8,
            64 => Prescaler::Prescale64,
            256 => Prescaler::Prescale256,
            1024 => Prescaler::Prescale1024,
            _ => {
                proof {
                    lemma_fundamental_div_mod(ticks as int, (prescale as int) / 8);
                    lemma_mod_division_less_than_divisor(ticks as int, (prescale as int) / 8);
                    lemma_div_is_ordered_by_denominator_use(ticks as int, 64, (prescale as int) / 8);
                }
                return Err(UnrepresentableFrequency);
            },
        };

        proof {
            lemma_fundamental_div_mod(ticks as int, prescale.spec_factor());
            lemma_mod_division_less_than_divisor(ticks as int, prescale.spec_factor());
        }
        Ok(TimerDuration { ticks: counter as u16, prescale })
    }
}

/// Division gets no larger when the divisor grows; stated here for
/// positive divisors and a non-negative dividend.
proof fn lemma_div_is_ordered_by_denominator_use(x: int, small: int, large: int)
    requires
        0 <= x,
        1 <= small <= large,
    ensures
        x / large <= x / small,
{
    vstd::arithmetic::div_mod::lemma_div_is_ordered_by_denominator(x, small, large);
}

/// The ticks the produced duration spans equal the raw count rounded
/// down to a multiple of the prescaler factor: never more than the raw
/// count, and short of it by less than one prescaled tick.
pub proof fn lemma_duration_covers_raw(d: TimerDuration, raw: u32)
    requires
        spec_duration_ok(d, raw),
    ensures
        d.spec_total_ticks() == raw as int - (raw as int) % spec_scaled_factor(raw),
        raw - spec_scaled_factor(raw) < d.spec_total_ticks() <= raw,
{
    lemma_fundamental_div_mod(raw as int, spec_scaled_factor(raw));
    lemma_mod_division_less_than_divisor(raw as int, spec_scaled_factor(raw));
}

/// Two timer durations, one for the active (pin high) state and one for
/// the inactive (pin low) state of each period.
#[derive(Debug, Copy, Clone, PartialEq, Eq, Structural)]
pub struct ActiveInactiveTimerDurations {
    pub active: TimerDuration,
    pub inactive: TimerDuration,
}

impl ActiveInactiveTimerDurations {
    /// Splits one full period of `ticks_per_period` clock ticks into a
    /// short active pulse of one part in `DUTY_CYCLE_DIVISOR` and the
    /// remaining inactive stretch, and scales each into the 16-bit
    /// counter. Fails exactly when either share is unrepresentable.
    pub fn try_from_period_ticks(ticks_per_period: u32) -> (r: Result<
        ActiveInactiveTimerDurations,
        UnrepresentableFrequency,
    >)
        ensures
            r is Ok <==> (ticks_per_period / DUTY_CYCLE_DIVISOR < MAX_RAW_TICKS && ticks_per_period
                - ticks_per_period / DUTY_CYCLE_DIVISOR < MAX_RAW_TICKS),
            r matches Ok(p) ==> {
                &&& spec_duration_ok(p.active, (ticks_per_period / DUTY_CYCLE_DIVISOR) as u32)
                &&& spec_duration_ok(
                    p.inactive,
                    (ticks_per_period - ticks_per_period / DUTY_CYCLE_DIVISOR) as u32,
                )
            },
    {
        let active_ticks: u32 = ticks_per_period / DUTY_CYCLE_DIVISOR;
        let inactive_ticks: u32 = ticks_per_period - active_ticks;

        let active = match TimerDuration::try_from_ticks(active_ticks) {
            Ok(d) => d,
            Err(e) => {
                return Err(e);
            },
        };
        let inactive = match TimerDuration::try_from_ticks(inactive_ticks) {
            Ok(d) => d,
            Err(e) => {
                return Err(e);
            },
        };
        Ok(ActiveInactiveTimerDurations { active, inactive })
    }
}

/// Round trip: whenever the solver accepts a period, the active and
/// inactive durations together span at most the whole period and miss
/// it by less than one prescaled tick of each state. Dividing the total
/// by the clock rate therefore approximates the requested period — one
/// over the requested frequency — to within that rounding error.
pub proof fn lemma_period_round_trip(p: ActiveInactiveTimerDurations, ticks_per_period: u32)
    requires
        spec_duration_ok(p.active, (ticks_per_period / DUTY_CYCLE_DIVISOR) as u32),
        spec_duration_ok(
            p.inactive,
            (ticks_per_period - ticks_per_period / DUTY_CYCLE_DIVISOR) as u32,
        ),
    ensures
        p.active.spec_total_ticks() + p.inactive.spec_total_ticks() <= ticks_per_period,
        ticks_per_period - p.active.prescale.spec_factor() - p.inactive.prescale.spec_factor()
            < p.active.spec_total_ticks() + p.inactive.spec_total_ticks(),
{
    let active_raw = (ticks_per_period / DUTY_CYCLE_DIVISOR) as u32;
    let inactive_raw = (ticks_per_period - ticks_per_period / DUTY_CYCLE_DIVISOR) as u32;
    lemma_duration_covers_raw(p.active, active_raw);
    lemma_duration_covers_raw(p.inactive, inactive_raw);
}

} // verus!
