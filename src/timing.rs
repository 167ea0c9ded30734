//! Pacing of the 60 Hz timer clock against the instruction clock.
//!
//! The scheduler keeps a phase in units of 1/(60 * hz) s: every instruction
//! tick adds 60, and every whole `hz` of phase is one timer tick. Over any
//! `hz` consecutive instruction ticks (one second) exactly 60 timer ticks
//! fall due, whatever the rate.

use vstd::prelude::*;
use vstd::arithmetic::div_mod::{lemma_basic_div, lemma_fundamental_div_mod, lemma_hoist_over_denominator};
use crate::chip8::{cycle_spec, tick_down, Chip8, Fault, Vm};

verus! {

/// Frequency of the timer clock in hertz.
pub const TIMER_HZ: u64 = 60;

/// Decides, for each instruction tick, how many timer ticks fall due.
pub struct Scheduler {
    /// Instruction ticks per second.
    pub hz: u64,
    /// Progress towards the next timer tick, always below `hz`.
    pub phase: u64,
}

/// Timer ticks that fall due over `k` instruction ticks from phase `phase`.
pub open spec fn due_over(hz: int, phase: int, k: nat) -> int
    decreases k,
{
    if k == 0 {
        0
    } else {
        (phase + 60) / hz + due_over(hz, (phase + 60) % hz, (k - 1) as nat)
    }
}

/// A timer value after `k` ticks.
pub open spec fn timer_after(t: u8, k: nat) -> u8
    decreases k,
{
    if k == 0 {
        t
    } else {
        timer_after(tick_down(t), (k - 1) as nat)
    }
}

impl Scheduler {
    /// The rate is positive and the phase below it.
    pub open spec fn well_formed(&self) -> bool {
        0 < self.hz && self.phase < self.hz
    }

    /// A scheduler for `hz` instruction ticks per second; `None` when `hz` is 0.
    pub fn new(hz: u64) -> (r: Option<Scheduler>)
        ensures
            hz == 0 <==> r is None,
            r matches Some(s) ==> s.well_formed() && s.hz == hz && s.phase == 0,
    {
        if hz == 0 {
            None
        } else {
            Some(Scheduler { hz, phase: 0 })
        }
    }

    /// Time between two instruction ticks, in whole microseconds.
    pub fn period_micros(&self) -> (us: u64)
        requires
            self.well_formed(),
        ensures
            us == 1_000_000int / self.hz as int,
    {
        1_000_000 / self.hz
    }

    /// Advances by one instruction tick and returns how many timer ticks
    /// fall due before it.
    pub fn tick(&mut self) -> (due: u64)
        requires
            old(self).well_formed(),
        ensures
            final(self).well_formed(),
            final(self).hz == old(self).hz,
            due == (old(self).phase + 60) / old(self).hz as int,
            final(self).phase == (old(self).phase + 60) % old(self).hz as int,
    {
        let total = self.phase as u128 + TIMER_HZ as u128;
        let hz = self.hz as u128;
        self.phase = (total % hz) as u64;
        proof {
            lemma_fundamental_div_mod(total as int, hz as int);
            let q = total as int / hz as int;
            assert(q <= 61) by (nonlinear_arith)
                requires
                    total == hz * q + total as int % hz as int,
                    0 <= total as int % hz as int,
                    total < hz + 60,
                    hz >= 1,
            ;
        }
        (total / hz) as u64
    }
}

/// From a phase below `hz`, the timer ticks due over `k` instruction ticks
/// number `(phase + 60 k) / hz`.
pub proof fn lemma_due_over(hz: int, phase: int, k: nat)
    requires
        0 <= phase < hz,
    ensures
        due_over(hz, phase, k) == (phase + 60 * k) / hz,
    decreases k,
{
    if k > 0 {
        let q = (phase + 60) / hz;
        let r = (phase + 60) % hz;
        lemma_fundamental_div_mod(phase + 60, hz);
        lemma_due_over(hz, r, (k - 1) as nat);
        lemma_hoist_over_denominator(r + 60 * (k - 1), q, hz as nat);
        assert(r + 60 * (k - 1) + q * hz == phase + 60 * k) by (nonlinear_arith)
            requires
                phase + 60 == hz * q + r,
        ;
    } else {
        lemma_basic_div(phase, hz);
    }
}

/// Each timer tick takes one off a non-zero timer and nothing off zero:
/// after `k` ticks a timer that started at `t` holds `t - k`, or 0.
pub proof fn lemma_timer_after(t: u8, k: nat)
    ensures
        timer_after(t, k) == if k >= t { 0 } else { t - k },
    decreases k,
{
    if k > 0 {
        lemma_timer_after(tick_down(t), (k - 1) as nat);
    }
}

/// Over one second of instruction ticks, at any rate, exactly sixty timer
/// ticks fall due; so a delay timer that starts at `d` ends the second at
/// `d - 60`, or at 0 when `d < 60`, and never below 0.
pub proof fn lemma_one_second_of_timers(hz: u64, d: u8)
    requires
        hz > 0,
    ensures
        due_over(hz as int, 0, hz as nat) == 60,
        timer_after(d, 60) == if d >= 60 { d - 60 } else { 0 },
{
    lemma_due_over(hz as int, 0, hz as nat);
    assert((60 * hz) / hz as int == 60) by (nonlinear_arith)
        requires
            hz > 0,
    ;
    lemma_timer_after(d, 60);
}

/// One more tick on top of `k` ticks.
pub proof fn lemma_timer_after_step(t: u8, k: nat)
    ensures
        timer_after(t, k + 1) == tick_down(timer_after(t, k)),
{
    lemma_timer_after(t, k);
    lemma_timer_after(t, k + 1);
}

/// The machine `m` after `due` timer ticks.
pub open spec fn after_timer_ticks(m: Vm, due: nat) -> Vm {
    Vm {
        delay_timer: timer_after(m.delay_timer, due),
        sound_timer: timer_after(m.sound_timer, due),
        ..m
    }
}

/// One instruction tick of the driver: the timer ticks that the scheduler
/// calls for, then one fetch-execute cycle. Returns whether the tone sounds
/// after those timer ticks, `None` when there were none, and the outcome of
/// the cycle.
pub fn run_tick(chip8: &mut Chip8, scheduler: &mut Scheduler) -> (r: (Option<bool>, Result<(), Fault>))
    requires
        old(chip8).well_formed(),
        old(scheduler).well_formed(),
    ensures
        final(chip8).well_formed(),
        final(scheduler).well_formed(),
        final(scheduler).hz == old(scheduler).hz,
        final(scheduler).phase == (old(scheduler).phase + 60) % old(scheduler).hz as int,
        ({
            let due = ((old(scheduler).phase + 60) / old(scheduler).hz as int) as nat;
            &&& exists|random: u8|
                final(chip8)@ == cycle_spec(after_timer_ticks(old(chip8)@, due), random)
            &&& r.0 == if due == 0 {
                None::<bool>
            } else {
                Some(timer_after(old(chip8)@.sound_timer, (due - 1) as nat) > 0)
            }
        }),
        r.1 == final(chip8)@.outcome(),
{
    let ghost start = chip8@;
    let due = scheduler.tick();
    let mut tone: Option<bool> = None;
    let mut k: u64 = 0;
    while k < due
        invariant
            k <= due,
            chip8.well_formed(),
            chip8@ == after_timer_ticks(start, k as nat),
            tone == if k == 0 {
                None::<bool>
            } else {
                Some(timer_after(start.sound_timer, (k - 1) as nat) > 0)
            },
        decreases due - k,
    {
        proof {
            lemma_timer_after_step(start.delay_timer, k as nat);
            lemma_timer_after_step(start.sound_timer, k as nat);
        }
        tone = Some(chip8.tick_timers());
        k = k + 1;
    }
    let outcome = chip8.single_cycle();
    (tone, outcome)
}

} // verus!
