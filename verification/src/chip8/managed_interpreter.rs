//! The real-time scheduler: wraps the engine and the reference backend and
//! converts "advance by a wall-clock duration" into interleaved instruction
//! cycles and fixed-frequency timer ticks.
//!
//! Three countdowns run side by side: the instruction cadence and one
//! cadence per timer. Advancing repeatedly picks the smallest remaining
//! countdown, spends that much time on all three, performs the action of
//! every countdown that reached zero (timers first, then one instruction),
//! and resets each fired countdown to its configured period. Leftover
//! remainders persist across calls, so splitting one advance into several
//! that sum to the same duration reaches the same state; that law is
//! proved below.

use vstd::prelude::*;
use crate::chip8::backend::{tick, FrameBuffer, ManagedPlatform, RandomNumberGenerator};
use crate::chip8::data::{Address, Key, RegisterIndex};
use crate::chip8::error::VmError;
use crate::chip8::image::Image;
use crate::chip8::interpreter::{
    initial_state, machine_wf, spec_step, step_safe, Interpreter, MachineState,
};
use crate::chip8::platform::{default_platform_model, model_wf, Platform, PlatformModel};

verus! {

/// Default time spent per instruction, in nanoseconds.
pub const DEFAULT_OPERATION_DURATION: u64 = 2_000_000;

/// Default delay-timer period, in nanoseconds: a 60 Hz tick.
pub const DEFAULT_DELAY_TICK_DURATION: u64 = 16_666_667;

/// Default sound-timer period, in nanoseconds: a 60 Hz tick.
pub const DEFAULT_SOUND_TICK_DURATION: u64 = 16_666_667;

/// The scheduler as the specification sees it: the machine plus the three
/// configured periods and the three remaining countdowns.
#[verifier::ext_equal]
pub struct SchedState {
    pub machine: MachineState,
    pub op_period: int,
    pub delay_period: int,
    pub sound_period: int,
    pub op_rem: int,
    pub delay_rem: int,
    pub sound_rem: int,
}

/// Well-formedness: a coherent machine, and every countdown positive and
/// no larger than its configured period.
pub open spec fn sched_wf(t: SchedState) -> bool {
    &&& machine_wf(t.machine)
    &&& 1 <= t.op_rem <= t.op_period <= u64::MAX
    &&& 1 <= t.delay_rem <= t.delay_period <= u64::MAX
    &&& 1 <= t.sound_rem <= t.sound_period <= u64::MAX
}

/// The smallest of three values.
pub open spec fn min3(a: int, b: int, c: int) -> int {
    if b < a {
        if c < b {
            c
        } else {
            b
        }
    } else {
        if c < a {
            c
        } else {
            a
        }
    }
}

/// All three countdowns after `d` time has passed without any firing.
pub open spec fn sub3(t: SchedState, d: int) -> SchedState {
    SchedState {
        op_rem: t.op_rem - d,
        delay_rem: t.delay_rem - d,
        sound_rem: t.sound_rem - d,
        ..t
    }
}

/// Fire the delay-timer countdown if it has reached zero: decrement the
/// delay timer (floored at zero) and reset the countdown.
pub open spec fn fire_delay(t: SchedState) -> SchedState {
    if t.delay_rem == 0 {
        SchedState {
            machine: MachineState {
                plat: PlatformModel { delay: tick(t.machine.plat.delay), ..t.machine.plat },
                ..t.machine
            },
            delay_rem: t.delay_period,
            ..t
        }
    } else {
        t
    }
}

/// Fire the sound-timer countdown if it has reached zero.
pub open spec fn fire_sound(t: SchedState) -> SchedState {
    if t.sound_rem == 0 {
        SchedState {
            machine: MachineState {
                plat: PlatformModel { sound: tick(t.machine.plat.sound), ..t.machine.plat },
                ..t.machine
            },
            sound_rem: t.sound_period,
            ..t
        }
    } else {
        t
    }
}

/// Perform the actions of every countdown that has reached zero: timers
/// first, then one instruction. An instruction error is surfaced with the
/// machine unchanged and the instruction cadence already reset.
pub open spec fn fire(t: SchedState) -> (SchedState, Option<VmError>) {
    let t1 = fire_sound(fire_delay(t));
    if t1.op_rem == 0 {
        let t2 = SchedState { op_rem: t1.op_period, ..t1 };
        match spec_step(t1.machine) {
            Ok(m) => (SchedState { machine: m, ..t2 }, None),
            Err(e) => (t2, Some(e)),
        }
    } else {
        (t1, None)
    }
}

/// Advance the scheduler by duration `d`: the final state, and the first
/// instruction error if one stopped the run early.
pub open spec fn advance_spec(t: SchedState, d: int) -> (SchedState, Option<VmError>)
    decreases d,
{
    let m = min3(t.op_rem, t.delay_rem, t.sound_rem);
    if m <= 0 {
        (t, None)
    } else if d < m {
        (sub3(t, d), None)
    } else {
        let fired = fire(sub3(t, m));
        if fired.1 is Some {
            fired
        } else {
            advance_spec(fired.0, d - m)
        }
    }
}

/// Every instruction executed while advancing by `d` is fetched and run
/// within the machine's bounds.
pub open spec fn advance_safe(t: SchedState, d: int) -> bool
    decreases d,
{
    let m = min3(t.op_rem, t.delay_rem, t.sound_rem);
    if m <= 0 || d < m {
        true
    } else {
        let t1 = fire_sound(fire_delay(sub3(t, m)));
        let fired = fire(sub3(t, m));
        &&& (t1.op_rem == 0 ==> step_safe(t1.machine))
        &&& (fired.1 is None ==> advance_safe(fired.0, d - m))
    }
}

/// Coherence of the countdowns alone: each positive and no larger than
/// its configured period. This is all that split invariance rests on.
pub open spec fn counters_wf(t: SchedState) -> bool {
    &&& 1 <= t.op_rem <= t.op_period <= u64::MAX
    &&& 1 <= t.delay_rem <= t.delay_period <= u64::MAX
    &&& 1 <= t.sound_rem <= t.sound_period <= u64::MAX
}

/// How firing moves the countdowns: every zeroed countdown resets to its
/// period, the others are untouched, and the periods never change.
pub proof fn lemma_fire_counters(t: SchedState)
    ensures
        fire(t).0.op_rem == if t.op_rem == 0 {
            t.op_period
        } else {
            t.op_rem
        },
        fire(t).0.delay_rem == if t.delay_rem == 0 {
            t.delay_period
        } else {
            t.delay_rem
        },
        fire(t).0.sound_rem == if t.sound_rem == 0 {
            t.sound_period
        } else {
            t.sound_rem
        },
        fire(t).0.op_period == t.op_period,
        fire(t).0.delay_period == t.delay_period,
        fire(t).0.sound_period == t.sound_period,
{
}

/// **Split invariance.** Advancing by `d1 + d2` in one call reaches
/// exactly the state reached by advancing by `d1` and then by `d2`,
/// provided no instruction error stops the longer run. The prefix run is
/// then error-free as well. Only the coherence of the countdowns matters:
/// the machine itself evolves identically on both sides.
pub proof fn lemma_advance_split(t: SchedState, d1: int, d2: int)
    requires
        counters_wf(t),
        0 <= d1,
        0 <= d2,
        advance_spec(t, d1 + d2).1 is None,
    ensures
        advance_spec(t, d1).1 is None,
        advance_spec(advance_spec(t, d1).0, d2) == advance_spec(t, d1 + d2),
    decreases d1,
{
    let m = min3(t.op_rem, t.delay_rem, t.sound_rem);
    if d1 < m {
        let t1 = sub3(t, d1);
        assert(min3(t1.op_rem, t1.delay_rem, t1.sound_rem) == m - d1);
        if d2 < m - d1 {
            assert(sub3(t1, d2) =~= sub3(t, d1 + d2));
        } else {
            assert(sub3(t1, m - d1) =~= sub3(t, m));
        }
    } else {
        let fired = fire(sub3(t, m));
        lemma_fire_counters(sub3(t, m));
        lemma_advance_split(fired.0, d1 - m, d2);
    }
}

/// The scheduler: owns one engine over the reference backend, plus the
/// three configured periods and the three remaining countdowns, in
/// nanoseconds.
pub struct ManagedInterpreter<R: RandomNumberGenerator> {
    inner: Interpreter<ManagedPlatform<R>>,
    operation_duration: u64,
    delay_tick_duration: u64,
    sound_tick_duration: u64,
    operation_remaining: u64,
    delay_remaining: u64,
    sound_remaining: u64,
}

impl<R: RandomNumberGenerator> View for ManagedInterpreter<R> {
    type V = SchedState;

    closed spec fn view(&self) -> SchedState {
        SchedState {
            machine: self.inner@,
            op_period: self.operation_duration as int,
            delay_period: self.delay_tick_duration as int,
            sound_period: self.sound_tick_duration as int,
            op_rem: self.operation_remaining as int,
            delay_rem: self.delay_remaining as int,
            sound_rem: self.sound_remaining as int,
        }
    }
}

impl<R: RandomNumberGenerator> ManagedInterpreter<R> {
    /// Build a scheduler with explicit periods, each at least one
    /// nanosecond.
    pub fn new_with_durations(
        image: impl Image,
        rand: R,
        operation_duration: u64,
        delay_tick_duration: u64,
        sound_tick_duration: u64,
    ) -> (s: ManagedInterpreter<R>)
        requires
            image.spec_entry() + image.spec_payload().len() <= 4096,
            operation_duration >= 1,
            delay_tick_duration >= 1,
            sound_tick_duration >= 1,
        ensures
            s@ == (SchedState {
                machine: initial_state(
                    image.spec_entry(),
                    image.spec_payload(),
                    default_platform_model(rand.upcoming()),
                ),
                op_period: operation_duration as int,
                delay_period: delay_tick_duration as int,
                sound_period: sound_tick_duration as int,
                op_rem: operation_duration as int,
                delay_rem: delay_tick_duration as int,
                sound_rem: sound_tick_duration as int,
            }),
            sched_wf(s@),
    {
        let platform = ManagedPlatform::new(rand);
        proof {
            assert(model_wf(platform.model()));
        }
        ManagedInterpreter {
            inner: Interpreter::new(image, platform),
            operation_duration,
            delay_tick_duration,
            sound_tick_duration,
            operation_remaining: operation_duration,
            delay_remaining: delay_tick_duration,
            sound_remaining: sound_tick_duration,
        }
    }

    /// Build a scheduler with the conventional defaults: 60 Hz timer ticks
    /// and the default instruction cadence.
    pub fn new(image: impl Image, rand: R) -> (s: ManagedInterpreter<R>)
        requires
            image.spec_entry() + image.spec_payload().len() <= 4096,
        ensures
            s@ == (SchedState {
                machine: initial_state(
                    image.spec_entry(),
                    image.spec_payload(),
                    default_platform_model(rand.upcoming()),
                ),
                op_period: DEFAULT_OPERATION_DURATION as int,
                delay_period: DEFAULT_DELAY_TICK_DURATION as int,
                sound_period: DEFAULT_SOUND_TICK_DURATION as int,
                op_rem: DEFAULT_OPERATION_DURATION as int,
                delay_rem: DEFAULT_DELAY_TICK_DURATION as int,
                sound_rem: DEFAULT_SOUND_TICK_DURATION as int,
            }),
            sched_wf(s@),
    {
        Self::new_with_durations(
            image,
            rand,
            DEFAULT_OPERATION_DURATION,
            DEFAULT_DELAY_TICK_DURATION,
            DEFAULT_SOUND_TICK_DURATION,
        )
    }

    /// Execute exactly one instruction, leaving the countdowns alone.
    pub fn simulate_one_instruction(&mut self) -> (r: Result<(), VmError>)
        requires
            sched_wf(old(self)@),
            step_safe(old(self)@.machine),
        ensures
            sched_wf(final(self)@),
            match spec_step(old(self)@.machine) {
                Ok(m) => r is Ok && final(self)@ == (SchedState { machine: m, ..old(self)@ }),
                Err(e) => r == Err::<(), VmError>(e) && final(self)@ == old(self)@,
            },
    {
        let r = self.inner.run_next_instruction();
        proof {
            if r is Err {
                assert(self@ =~= old(self)@);
            }
        }
        r
    }

    /// Consume a wall-clock duration, in nanoseconds: repeatedly spend the
    /// smallest remaining countdown on all three countdowns and perform the
    /// actions of those that reach zero. An instruction error surfaces
    /// immediately, with the remaining duration unconsumed.
    /// Perform the actions of every countdown that has reached zero:
    /// timers first, then one instruction.
    #[verifier::rlimit(100)]
    fn fire_zeroed(&mut self) -> (r: Result<(), VmError>)
        requires
            machine_wf(old(self)@.machine),
            0 <= old(self)@.op_rem <= old(self)@.op_period,
            0 <= old(self)@.delay_rem <= old(self)@.delay_period,
            0 <= old(self)@.sound_rem <= old(self)@.sound_period,
            fire_sound(fire_delay(old(self)@)).op_rem == 0 ==> step_safe(
                fire_sound(fire_delay(old(self)@)).machine,
            ),
        ensures
            machine_wf(final(self)@.machine),
            final(self)@ == fire(old(self)@).0,
            match fire(old(self)@).1 {
                None => r is Ok,
                Some(e) => r == Err::<(), VmError>(e),
            },
    {
        let ghost t = self@;
        if self.delay_remaining == 0 {
            self.inner.platform_mut().tick_delay();
            self.delay_remaining = self.delay_tick_duration;
        }
        proof {
            assert(self@ =~= fire_delay(t));
        }
        if self.sound_remaining == 0 {
            self.inner.platform_mut().tick_sound();
            self.sound_remaining = self.sound_tick_duration;
        }
        let ghost t1 = fire_sound(fire_delay(t));
        proof {
            assert(self@ =~= t1);
        }
        if self.operation_remaining == 0 {
            self.operation_remaining = self.operation_duration;
            proof {
                assert(self@ =~= (SchedState { op_rem: t1.op_period, ..t1 }));
            }
            match self.inner.run_next_instruction() {
                Ok(()) => {
                    proof {
                        assert(self@ =~= fire(t).0);
                    }
                    Ok(())
                },
                Err(e) => {
                    proof {
                        assert(self@ =~= fire(t).0);
                    }
                    Err(e)
                },
            }
        } else {
            proof {
                assert(self@ =~= fire(t).0);
            }
            Ok(())
        }
    }

    #[verifier::rlimit(100)]
    pub fn simulate_duration(&mut self, duration: u64) -> (r: Result<(), VmError>)
        requires
            sched_wf(old(self)@),
            advance_safe(old(self)@, duration as int),
        ensures
            sched_wf(final(self)@),
            final(self)@ == advance_spec(old(self)@, duration as int).0,
            match advance_spec(old(self)@, duration as int).1 {
                None => r is Ok,
                Some(e) => r == Err::<(), VmError>(e),
            },
    {
        let mut d = duration;
        let ghost orig = old(self)@;
        let ghost dur0 = duration as int;
        loop
            invariant
                orig == old(self)@,
                dur0 == duration as int,
                sched_wf(self@),
                advance_safe(self@, d as int),
                advance_spec(orig, dur0) == advance_spec(self@, d as int),
            decreases d,
        {
            let ghost t = self@;
            let ghost d_top = d as int;
            let mut m = self.operation_remaining;
            if self.delay_remaining < m {
                m = self.delay_remaining;
            }
            if self.sound_remaining < m {
                m = self.sound_remaining;
            }
            proof {
                assert(m as int == min3(t.op_rem, t.delay_rem, t.sound_rem));
                assert(m >= 1);
            }
            if d < m {
                self.operation_remaining = self.operation_remaining - d;
                self.delay_remaining = self.delay_remaining - d;
                self.sound_remaining = self.sound_remaining - d;
                proof {
                    assert(self@ =~= sub3(t, d_top));
                    assert(advance_spec(t, d_top) == (sub3(t, d_top), None::<VmError>));
                }
                return Ok(());
            }
            self.operation_remaining = self.operation_remaining - m;
            self.delay_remaining = self.delay_remaining - m;
            self.sound_remaining = self.sound_remaining - m;
            d = d - m;
            let ghost t3 = sub3(t, m as int);
            proof {
                assert(self@ =~= t3);
                lemma_fire_counters(t3);
            }
            match self.fire_zeroed() {
                Ok(()) => {
                    proof {
                        assert(self@ == fire(t3).0);
                        assert(advance_spec(t, d_top) == advance_spec(self@, d as int));
                    }
                },
                Err(e) => {
                    proof {
                        assert(self@ == fire(t3).0);
                        assert(fire(t3).1 == Some(e));
                        assert(advance_spec(t, d_top) == (self@, Some(e)));
                    }
                    return Err(e);
                },
            }
        }
    }

    /// The reference backend's frame buffer.
    pub fn frame_buffer(&self) -> (fb: &FrameBuffer)
        ensures
            fb@ == self@.machine.plat.screen,
    {
        self.inner.platform().frame_buffer_ref()
    }

    /// Record an external key event: key pressed or released.
    pub fn set_key_down(&mut self, key: Key, is_down: bool)
        requires
            key.wf(),
        ensures
            final(self)@ == (SchedState {
                machine: MachineState {
                    plat: PlatformModel {
                        keys: old(self)@.machine.plat.keys.update(key@, is_down),
                        last_key: if is_down {
                            Some(key)
                        } else {
                            old(self)@.machine.plat.last_key
                        },
                        ..old(self)@.machine.plat
                    },
                    ..old(self)@.machine
                },
                ..old(self)@
            }),
    {
        self.inner.platform_mut().set_key(key, is_down);
    }

    /// The value of one general-purpose register.
    pub fn register(&self, x: RegisterIndex) -> (v: u8)
        requires
            sched_wf(self@),
            x.wf(),
        ensures
            v == self@.machine.cpu.regs[x@],
    {
        self.inner.register(x)
    }

    /// The current program counter.
    pub fn program_counter(&self) -> (pc: usize)
        ensures
            pc == self@.machine.cpu.pc,
    {
        self.inner.program_counter()
    }

    /// The current index register.
    pub fn index_register(&self) -> (i: usize)
        ensures
            i == self@.machine.cpu.index,
    {
        self.inner.index_register()
    }

    /// How many call-stack entries are live.
    pub fn stack_depth(&self) -> (depth: usize)
        ensures
            depth == self@.machine.cpu.stack.len(),
    {
        self.inner.stack_depth()
    }

    /// One byte of memory.
    pub fn memory_byte(&self, addr: Address) -> (b: u8)
        requires
            sched_wf(self@),
            addr.wf(),
        ensures
            b == self@.machine.cpu.mem[addr@],
    {
        self.inner.memory_byte(addr)
    }

    /// The delay timer.
    pub fn delay_timer(&self) -> (t: u8)
        ensures
            t == self@.machine.plat.delay,
    {
        self.inner.platform().delay()
    }

    /// The sound timer.
    pub fn sound_timer(&self) -> (t: u8)
        ensures
            t == self@.machine.plat.sound,
    {
        self.inner.platform().sound()
    }
}

} // verus!
