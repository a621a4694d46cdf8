//! Cycles per frame and audio samples per sound.

use vstd::prelude::*;

verus! {

/// Frames, and timer ticks, per second.
pub const FRAME_RATE: u32 = 60;

/// Audio samples per second.
pub const SAMPLE_RATE: u32 = 48000;

/// Audio samples per frame.
pub const SAMPLES_PER_FRAME: u32 = 800;

/// The cycles that a frame executes: the accumulator, with the clock rate
/// added, holds sixtieths of a cycle.
pub open spec fn cycles_in_frame(clock_buffer: u32, clock_hz: u32) -> nat {
    ((clock_buffer + clock_hz) / 60) as nat
}

/// What the accumulator carries into the next frame.
pub open spec fn carried_clock(clock_buffer: u32, clock_hz: u32) -> u32 {
    ((clock_buffer + clock_hz) % 60) as u32
}

/// The samples of this frame that have gone by when pass number `cycle` of
/// `cycles` has run, rounded down.
pub open spec fn elapsed_samples(cycle: nat, cycles: nat) -> int {
    ((cycle + 1) * SAMPLES_PER_FRAME) / (cycles as int)
}

/// The samples left to play when the sound timer is set to `sound_timer`
/// in pass number `cycle` of `cycles`.
pub open spec fn scheduled_samples(sound_timer: u8, cycle: nat, cycles: nat) -> i32 {
    (sound_timer * SAMPLES_PER_FRAME - elapsed_samples(cycle, cycles)) as i32
}

/// The clock that paces execution: a rate in cycles per second and what is
/// left of earlier frames, in sixtieths of a cycle.
pub struct Clock {
    hz: u32,
    buffer: u32,
}

impl Clock {
    /// Less than a whole cycle is ever carried over.
    #[verifier::type_invariant]
    pub open spec fn inv(self) -> bool {
        self.carried() < FRAME_RATE
    }

    /// Cycles per second.
    pub closed spec fn rate(&self) -> u32 {
        self.hz
    }

    /// Sixtieths of a cycle carried over from earlier frames.
    pub closed spec fn carried(&self) -> u32 {
        self.buffer
    }

    /// A clock of `hz` cycles per second with nothing carried over.
    pub fn new(hz: u32) -> (clock: Clock)
        ensures
            clock.rate() == hz,
            clock.carried() == 0,
    {
        Clock { hz, buffer: 0 }
    }

    /// Starts a frame: returns the cycles it executes and keeps the remainder.
    pub fn begin_frame(&mut self) -> (cycles: u32)
        ensures
            cycles == cycles_in_frame(old(self).carried(), old(self).rate()),
            final(self).carried() == carried_clock(old(self).carried(), old(self).rate()),
            final(self).rate() == old(self).rate(),
            cycles * 60 + final(self).carried() == old(self).carried() + old(self).rate(),
    {
        proof {
            use_type_invariant(&*self);
        }
        let (cycles, carried): (u32, u32) = cycle_budget(self.buffer, self.hz);
        self.buffer = carried;
        cycles
    }
}

/// Splits the accumulator, with the clock rate added, into the whole cycles
/// that this frame executes and the remainder carried to the next frame.
pub fn cycle_budget(clock_buffer: u32, clock_hz: u32) -> (budget: (u32, u32))
    ensures
        budget.0 == cycles_in_frame(clock_buffer, clock_hz),
        budget.1 == carried_clock(clock_buffer, clock_hz),
        budget.1 < 60,
        budget.0 * 60 + budget.1 == clock_buffer + clock_hz,
{
    let total: u64 = clock_buffer as u64 + clock_hz as u64;
    ((total / 60) as u32, (total % 60) as u32)
}

/// The samples left to play when the sound timer is set to `sound_timer`
/// in pass number `cycle` of the `cycles` that the frame executes.
pub fn schedule_samples(sound_timer: u8, cycle: u32, cycles: u32) -> (samples: i32)
    requires
        cycle < cycles,
    ensures
        samples == scheduled_samples(sound_timer, cycle as nat, cycles as nat),
        samples == sound_timer * SAMPLES_PER_FRAME - elapsed_samples(cycle as nat, cycles as nat),
        0 <= elapsed_samples(cycle as nat, cycles as nat) <= SAMPLES_PER_FRAME,
{
    let per_frame: u64 = SAMPLES_PER_FRAME as u64;
    assert(per_frame == 800);
    let ran: u64 = (cycle as u64 + 1) * per_frame;
    let elapsed: u64 = ran / cycles as u64;
    assert(elapsed <= 800) by {
        vstd::arithmetic::div_mod::lemma_div_is_ordered(ran as int, cycles * 800, cycles as int);
        vstd::arithmetic::div_mod::lemma_div_by_multiple(800, cycles as int);
    }
    sound_timer as i32 * 800 - elapsed as i32
}

} // verus!
