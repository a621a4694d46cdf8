//! The beep: a square wave, softened by letting each sample keep
//! three fifths of the one before it.

use vstd::prelude::*;

verus! {

/// Samples in half a period of the tone, which is close to middle C at
/// 48000 samples a second.
pub const HALF_PERIOD_SAMPLES: u16 = 91;

/// The height of the square wave.
pub const VOLUME: i16 = 1024;

/// Three fifths of `sample`, rounded towards zero.
pub open spec fn damped(sample: i16) -> int {
    if sample >= 0 {
        sample * 3 / 5
    } else {
        -((-sample) * 3 / 5)
    }
}

/// The square wave at `phase`: up in the first half of the period, down in the second.
pub open spec fn square(phase: u16) -> int {
    if phase < HALF_PERIOD_SAMPLES {
        VOLUME as int
    } else {
        -VOLUME
    }
}

/// The phase `steps` samples after `phase`.
pub open spec fn phase_after(phase: u16, steps: nat) -> u16 {
    ((phase + steps) % (2 * HALF_PERIOD_SAMPLES) as int) as u16
}

/// Sample number `i` of the tone that starts at `phase` after the sample `previous`.
pub open spec fn sample_at(previous: i16, phase: u16, i: nat) -> i16
    decreases i,
{
    if i == 0 {
        (damped(previous) + square(phase)) as i16
    } else {
        (damped(sample_at(previous, phase, (i - 1) as nat)) + square(phase_after(phase, i))) as i16
    }
}

/// The first `count` samples of the tone that starts at `phase` after the sample `previous`.
pub open spec fn tone(previous: i16, phase: u16, count: nat) -> Seq<i16> {
    Seq::new(count, |i: int| sample_at(previous, phase, i as nat))
}

/// How many samples to play when `requested` are asked for and
/// `remaining` are left: no more than are left, and none if none are.
pub open spec fn playable(remaining: i32, requested: i32) -> nat {
    if remaining < requested {
        if remaining > 0 {
            remaining as nat
        } else {
            0
        }
    } else if requested > 0 {
        requested as nat
    } else {
        0
    }
}

/// Computes three fifths of `sample`, rounded towards zero.
pub fn damp(sample: i16) -> (softened: i16)
    ensures
        softened == damped(sample),
        -19661 <= softened <= 19660,
{
    if sample >= 0 {
        (sample as i32 * 3 / 5) as i16
    } else {
        (-((-(sample as i32)) * 3 / 5)) as i16
    }
}

/// Where the tone stands: its place in the period and its last sample.
pub struct Tone {
    phase: u16,
    previous: i16,
}

impl Tone {
    /// The place in the period is inside it.
    #[verifier::type_invariant]
    pub open spec fn inv(self) -> bool {
        self.phase() < 2 * HALF_PERIOD_SAMPLES
    }

    /// The place in the period.
    pub closed spec fn phase(&self) -> u16 {
        self.phase
    }

    /// The last sample.
    pub closed spec fn previous(&self) -> i16 {
        self.previous
    }

    /// A tone at the start of its period, after silence.
    pub fn new() -> (tone: Tone)
        ensures
            tone.phase() == 0,
            tone.previous() == 0,
    {
        Tone { phase: 0, previous: 0 }
    }

    /// Replaces what `buffer` holds by the next samples of the tone: as
    /// many as `requested`, but no more than `remaining`.
    pub fn fill(&mut self, buffer: &mut Vec<i16>, remaining: i32, requested: i32)
        ensures
            final(buffer)@ == tone(
                old(self).previous(),
                old(self).phase(),
                playable(remaining, requested),
            ),
            final(self).phase() == phase_after(old(self).phase(), playable(remaining, requested)),
            final(self).previous() == if playable(remaining, requested) == 0 {
                old(self).previous()
            } else {
                sample_at(
                    old(self).previous(),
                    old(self).phase(),
                    (playable(remaining, requested) - 1) as nat,
                )
            },
    {
        proof {
            use_type_invariant(&*self);
        }
        let count: i32 = if remaining < requested {
            remaining
        } else {
            requested
        };
        buffer.clear();
        let mut played: i32 = 0;
        while played < count
            invariant
                0 <= played,
                played <= count || count < 0,
                count < 0 ==> played == 0,
                count >= 0 ==> count == playable(remaining, requested),
                count < 0 ==> playable(remaining, requested) == 0,
                old(self).phase() < 2 * HALF_PERIOD_SAMPLES,
                self.phase < 2 * HALF_PERIOD_SAMPLES,
                self.phase == phase_after(old(self).phase(), played as nat),
                buffer@ == tone(old(self).previous(), old(self).phase(), played as nat),
                self.previous == if played == 0 {
                    old(self).previous()
                } else {
                    sample_at(old(self).previous(), old(self).phase(), (played - 1) as nat)
                },
            decreases count - played,
        {
            let wave: i16 = if self.phase < HALF_PERIOD_SAMPLES {
                VOLUME
            } else {
                -VOLUME
            };
            let sample: i16 = damp(self.previous) + wave;
            proof {
                assert(sample == sample_at(old(self).previous(), old(self).phase(), played as nat));
                assert(buffer@.push(sample) =~= tone(
                    old(self).previous(),
                    old(self).phase(),
                    (played + 1) as nat,
                ));
            }
            self.previous = sample;
            buffer.push(sample);
            self.phase = (self.phase + 1) % (HALF_PERIOD_SAMPLES * 2);
            played += 1;
        }
    }
}

} // verus!
