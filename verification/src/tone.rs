//! The buzzer tone driver as a pure state machine.
//!
//! The hardware owns one 16-bit compare timer, its compare-match
//! interrupt, and one output pin. The driver's whole mutable state is a
//! shared slot that either is empty (disabled) or holds the current
//! active/inactive flag with the two programmed durations. The control
//! path and the interrupt handler each turn one event into a new slot
//! value plus one set of register writes; the embedding is expected to
//! apply slot updates inside a bounded critical section and the
//! register writes right after it, so the handler never observes a
//! partially written slot.

use vstd::prelude::*;

use crate::timer_duration::ActiveInactiveTimerDurations;
use crate::timer_duration::Prescaler;
use crate::timer_duration::TimerDuration;
use crate::timer_duration::UnrepresentableFrequency;
use crate::timer_duration::DUTY_CYCLE_DIVISOR;
use crate::timer_duration::MAX_RAW_TICKS;
use crate::timer_duration::spec_duration_ok;

verus! {

/// The register writes one transition asks of the hardware, in the
/// order they must land: counter first, then compare, then the clock
/// selection, then the pin level.
#[derive(Debug, Copy, Clone, PartialEq, Eq, Structural)]
pub struct TimerCommand {
    /// Value for the counter register.
    pub counter: u16,
    /// Value for the output compare register.
    pub compare: u16,
    /// Prescaler to clock the timer with, or `None` to stop its clock.
    pub clock: Option<Prescaler>,
    /// Level to drive the output pin to, or `None` to leave it alone.
    pub pin: Option<bool>,
}

/// What the shared slot holds while a tone plays: whether the pin is in
/// its active (high) stretch, and the two durations of the cycle.
#[derive(Debug, Copy, Clone, PartialEq, Eq, Structural)]
pub struct AudioState {
    /// True while the pin is high.
    pub active: bool,
    /// The active and inactive durations of the current period.
    pub timer_durations: ActiveInactiveTimerDurations,
}

impl AudioState {
    /// The duration that belongs to the state's current half of the
    /// cycle: the active duration while the pin is high, the inactive
    /// one while it is low.
    pub open spec fn spec_current_duration(self) -> TimerDuration {
        if self.active {
            self.timer_durations.active
        } else {
            self.timer_durations.inactive
        }
    }
}

/// The tone driver: the shared slot, empty while the tone is disabled.
#[derive(Debug, Clone, PartialEq, Eq, Structural)]
pub struct ToneDriver {
    pub state: Option<AudioState>,
}

impl ToneDriver {
    /// A disabled driver with an empty slot.
    pub fn new() -> (d: ToneDriver)
        ensures
            d.state is None,
    {
        ToneDriver { state: None }
    }

    /// Starts (or restarts) a tone whose full period spans
    /// `ticks_per_period` clock ticks. On success the slot holds the
    /// fresh durations in the active state, and the command programs
    /// the *active* duration from a zeroed counter and raises the pin.
    /// An unrepresentable period is reported and changes nothing, so
    /// the caller can fall back to silence for that note.
    pub fn set_period_ticks(&mut self, ticks_per_period: u32) -> (r: Result<TimerCommand, UnrepresentableFrequency>)
        ensures
            r is Ok <==> (ticks_per_period / DUTY_CYCLE_DIVISOR < MAX_RAW_TICKS && ticks_per_period
                - ticks_per_period / DUTY_CYCLE_DIVISOR < MAX_RAW_TICKS),
            r matches Ok(cmd) ==> {
                &&& final(self).state matches Some(s) && {
                    &&& s.active == true
                    &&& spec_duration_ok(
                        s.timer_durations.active,
                        (ticks_per_period / DUTY_CYCLE_DIVISOR) as u32,
                    )
                    &&& spec_duration_ok(
                        s.timer_durations.inactive,
                        (ticks_per_period - ticks_per_period / DUTY_CYCLE_DIVISOR) as u32,
                    )
                    &&& cmd.compare == s.timer_durations.active.ticks
                    &&& cmd.clock == Some(s.timer_durations.active.prescale)
                }
                &&& cmd.counter == 0
                &&& cmd.pin == Some(true)
            },
            r is Err ==> *final(self) == *old(self),
    {
        let durations = match ActiveInactiveTimerDurations::try_from_period_ticks(
            ticks_per_period,
        ) {
            Ok(d) => d,
            Err(e) => {
                return Err(e);
            },
        };
        let command = TimerCommand {
            counter: 0,
            compare: durations.active.ticks(),
            clock: Some(durations.active.prescale()),
            pin: Some(true),
        };
        self.state = Some(AudioState { active: true, timer_durations: durations });
        Ok(command)
    }

    /// Stops the tone: clears the slot, and asks the hardware to stop
    /// the timer clock and zero both the counter and the compare
    /// register. The pin is left as it is.
    pub fn disable_clock(&mut self) -> (cmd: TimerCommand)
        ensures
            final(self).state is None,
            cmd == (TimerCommand { counter: 0, compare: 0, clock: None, pin: None }),
    {
        self.state = None;
        TimerCommand { counter: 0, compare: 0, clock: None, pin: None }
    }

    /// The compare-match interrupt. With an empty slot (already
    /// disabled) it is a no-op. Otherwise it flips the active flag,
    /// keeps the durations, and programs the duration belonging to the
    /// *new* half of the cycle — each half must use its own duration —
    /// driving the pin to match.
    pub fn on_compare_match(&mut self) -> (r: Option<TimerCommand>)
        ensures
            old(self).state is None ==> {
                &&& *final(self) == *old(self)
                &&& r is None
            },
            old(self).state matches Some(s) ==> {
                &&& final(self).state matches Some(s2) && {
                    &&& s2.active == !s.active
                    &&& s2.timer_durations == s.timer_durations
                    &&& r matches Some(cmd) && cmd == (TimerCommand {
                        counter: 0,
                        compare: s2.spec_current_duration().ticks,
                        clock: Some(s2.spec_current_duration().prescale),
                        pin: Some(s2.active),
                    })
                }
            },
    {
        match self.state {
            None => None,
            Some(state) => {
                let now_active = !state.active;
                let duration = if now_active {
                    state.timer_durations.active
                } else {
                    state.timer_durations.inactive
                };
                let command = TimerCommand {
                    counter: 0,
                    compare: duration.ticks(),
                    clock: Some(duration.prescale()),
                    pin: Some(now_active),
                };
                self.state = Some(
                    AudioState { active: now_active, timer_durations: state.timer_durations },
                );
                Some(command)
            },
        }
    }
}

} // verus!
