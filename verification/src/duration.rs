//! Note durations, measured in whole output samples.
//!
//! Tempo fixes the length in seconds of the base (quarter-note) unit;
//! at a given sample rate that length becomes a whole number of samples,
//! and every note length is a multiple or a division of it. All
//! arithmetic is integer arithmetic: products saturate at the largest
//! representable sample count, and divisions truncate.

use vstd::prelude::*;

use crate::abc::Length;
use crate::abc::Note;

verus! {

/// Samples in one base unit: `samples_per_second * 15 / beats_per_minute`
/// (a beat is a quarter note, and the unit lasts a quarter of a beat),
/// saturating at `u32::MAX`.
pub open spec fn spec_unit_samples(samples_per_second: u32, beats_per_minute: u32) -> int {
    if samples_per_second as int * 15 / beats_per_minute as int > u32::MAX {
        u32::MAX as int
    } else {
        samples_per_second as int * 15 / beats_per_minute as int
    }
}

/// Samples in one base unit at the given sample rate and tempo.
pub fn unit_samples(samples_per_second: u32, beats_per_minute: u32) -> (r: u32)
    requires
        beats_per_minute >= 1,
    ensures
        r == spec_unit_samples(samples_per_second, beats_per_minute),
{
    let scaled: u64 = samples_per_second as u64 * 15 / beats_per_minute as u64;
    if scaled > u32::MAX as u64 {
        u32::MAX
    } else {
        scaled as u32
    }
}

/// Samples a note of length `l` lasts, when the base unit lasts
/// `samples_per_unit` samples: the unit count times or divided by the
/// stated factor, truncated to whole samples and saturating at
/// `u32::MAX`. A division by zero saturates, standing in for an
/// unbounded duration.
pub open spec fn spec_note_samples(l: Length, samples_per_unit: int) -> int {
    match l {
        Length::Unit => samples_per_unit,
        Length::Multiple(m) => if samples_per_unit * m as int > u32::MAX {
            u32::MAX as int
        } else {
            samples_per_unit * m as int
        },
        Length::Division(d) => if d == 0 {
            u32::MAX as int
        } else {
            samples_per_unit / d as int
        },
    }
}

/// Whole samples a note of length `length` lasts. The result depends on
/// the length and the unit alone, never on the note's pitch.
pub fn note_total_samples(length: &Length, samples_per_unit: u32) -> (r: u32)
    ensures
        r == spec_note_samples(*length, samples_per_unit as int),
{
    match length {
        Length::Unit => samples_per_unit,
        Length::Multiple(m) => {
            proof {
                vstd::arithmetic::mul::lemma_mul_upper_bound(
                    samples_per_unit as int,
                    u32::MAX as int,
                    *m as int,
                    u64::MAX as int,
                );
            }
            let product: u128 = samples_per_unit as u128 * *m as u128;
            if product > u32::MAX as u128 {
                u32::MAX
            } else {
                product as u32
            }
        },
        Length::Division(d) => {
            if *d == 0 {
                u32::MAX
            } else {
                (samples_per_unit as u64 / *d as u64) as u32
            }
        },
    }
}

/// Total playtime of `notes` in samples: the sum of every note's own
/// duration at the given unit.
pub open spec fn spec_total_samples(notes: Seq<Note>, samples_per_unit: int) -> int
    decreases notes.len(),
{
    if notes.len() == 0 {
        0
    } else {
        spec_total_samples(notes.drop_last(), samples_per_unit) + spec_note_samples(
            notes.last().length,
            samples_per_unit,
        )
    }
}

/// A unit note lasts exactly one base unit — a quantity fixed by the
/// tempo and sample rate alone. The resolver never sees the pitch, so
/// no pitch can change any note's duration.
pub proof fn lemma_unit_duration_is_tempo_only(n: Note, samples_per_unit: int)
    requires
        n.length is Unit,
    ensures
        spec_note_samples(n.length, samples_per_unit) == samples_per_unit,
{
}

impl crate::abc::ABC {
    /// Total playtime of the song in samples: exactly the sum of every
    /// note's own duration at the given unit, each note truncated to
    /// whole samples on its own.
    pub fn total_playtime_samples(&self, samples_per_unit: u32) -> (total: u128)
        ensures
            total == spec_total_samples(self.notes@, samples_per_unit as int),
    {
        let mut total: u128 = 0;
        let mut i: usize = 0;
        while i < self.notes.len()
            invariant
                i <= self.notes@.len(),
                total == spec_total_samples(self.notes@.take(i as int), samples_per_unit as int),
                total <= i * (u32::MAX as int),
            decreases self.notes@.len() - i,
        {
            let n = note_total_samples(&self.notes[i].length, samples_per_unit);
            proof {
                assert(self.notes@.take(i + 1).drop_last() =~= self.notes@.take(i as int));
                assert(self.notes@.take(i + 1).last() == self.notes@[i as int]);
                vstd::arithmetic::mul::lemma_mul_inequality(
                    i as int,
                    usize::MAX as int,
                    u32::MAX as int,
                );
            }
            total = total + n as u128;
            i += 1;
        }
        proof {
            assert(self.notes@.take(self.notes@.len() as int) =~= self.notes@);
        }
        total
    }
}

} // verus!
