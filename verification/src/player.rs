//! The host sample-stream generator.
//!
//! One generator walks a song and produces, per output sample, a
//! synthesis command: silence, or a tone given by its half-step
//! distance from the reference pitch, the running sample index, and an
//! optional fade-out ramp. A backend turns a tone command into the
//! amplitude `sin(2·pi · f · sample_index / sample_rate)` scaled by the
//! ramp and a fixed attenuation, where `f` is the frequency of the
//! pitch; the command stream itself is independent of the sink that
//! consumes it.

use vstd::prelude::*;

use crate::abc::ABC;
use crate::abc::Note;
use crate::duration::note_total_samples;
use crate::duration::spec_note_samples;
use crate::duration::spec_unit_samples;
use crate::duration::unit_samples;

verus! {

/// Tempo of playback, in quarter-note beats per minute.
pub const BEATS_PER_MINUTE: u32 = 60;

/// The linear fade-out ramp applied over the tail of a note: the
/// amplitude is scaled by `10 · remaining / total`, which runs from one
/// down to zero across the final tenth of the note and avoids an abrupt
/// cutoff at the boundary.
#[derive(Debug, Copy, Clone, PartialEq, Eq, Structural)]
pub struct FadeRamp {
    /// Samples of the note still to play, this one included.
    pub remaining: u32,
    /// Samples the whole note spans; never zero.
    pub total: u32,
}

/// What one output sample should hold.
#[derive(Debug, Copy, Clone, PartialEq, Eq, Structural)]
pub enum SampleOut {
    /// Amplitude zero: a rest, or the song has ended.
    Silence,
    /// One sample of a tone: amplitude
    /// `sin(2·pi · f · sample_index / sample_rate)`, attenuated by the
    /// ramp when one is present, where `f` is 440 Hz scaled by
    /// `2^(half_steps / 12)`.
    Tone { half_steps: i16, sample_index: u32, fade: Option<FadeRamp> },
}

/// Least index at or past `i` whose note lasts at least one sample, or
/// the length of `notes` when none does.
pub open spec fn spec_next_audible(notes: Seq<Note>, i: int, spu: int) -> int
    decreases notes.len() - i,
    when 0 <= i <= notes.len()
{
    if i >= notes.len() {
        i
    } else if spec_note_samples(notes[i].length, spu) > 0 {
        i
    } else {
        spec_next_audible(notes, i + 1, spu)
    }
}

/// The note the generator plays next, starting from note `i0` with `p0`
/// samples of it already played: note `i0` itself while samples remain,
/// otherwise the first audible note past it.
pub open spec fn spec_active_index(notes: Seq<Note>, i0: int, p0: int, spu: int) -> int {
    if i0 >= notes.len() {
        i0
    } else if p0 < spec_note_samples(notes[i0].length, spu) {
        i0
    } else {
        spec_next_audible(notes, i0 + 1, spu)
    }
}

/// The command for one sample of `note`, `played` samples into it out
/// of `total`, at running sample index `count`: silence for a rest, and
/// otherwise a tone that fades exactly when at most a tenth of the note
/// remains.
pub open spec fn spec_sample_out(note: Note, played: int, total: int, count: u32) -> SampleOut {
    match note.pitch.spec_half_steps() {
        None => SampleOut::Silence,
        Some(h) => SampleOut::Tone {
            half_steps: h,
            sample_index: count,
            fade: if 10 * (total - played) <= total {
                Some(FadeRamp { remaining: (total - played) as u32, total: total as u32 })
            } else {
                None
            },
        },
    }
}

/// Produces the sample stream for one song: a cursor over the notes,
/// the samples already played of the current note, and the running
/// sample counter that spans the entire playback.
#[derive(Debug, Clone)]
pub struct AudioGenerator {
    /// The song being played.
    pub abc: ABC,
    /// Index of the current note; `None` before the first sample.
    pub note_index: Option<usize>,
    /// Samples of the current note already generated.
    pub samples_played_in_note: u32,
    /// Samples generated since playback began. Never reset at note or
    /// second boundaries: resetting it mid-playback would restart the
    /// sine phase and click wherever a note straddles the reset.
    pub sample_count: u32,
    /// Output sample rate.
    pub samples_per_second: u32,
    /// Channels per output frame; every channel carries the same value.
    pub channels: usize,
}

impl AudioGenerator {
    /// The playback position is consistent with the song: the cursor
    /// never passes one past the last note, the played count never
    /// exceeds the current note's span, and it is zero whenever no
    /// current note exists.
    pub open spec fn wf(self) -> bool {
        let spu = spec_unit_samples(self.samples_per_second, BEATS_PER_MINUTE);
        match self.note_index {
            None => self.samples_played_in_note == 0,
            Some(i) => {
                &&& i <= self.abc.notes@.len()
                &&& (i < self.abc.notes@.len() ==> self.samples_played_in_note
                    <= spec_note_samples(self.abc.notes@[i as int].length, spu))
                &&& (i == self.abc.notes@.len() ==> self.samples_played_in_note == 0)
            },
        }
    }

    /// What one call of `generate_and_tick` does to the generator and
    /// returns: it settles on the active note, resets the played count
    /// on a note change, emits that note's command for the current
    /// sample, and advances both counters — the running sample counter
    /// by exactly one, wrapping only at the width of its type. Past the
    /// end of the song nothing is emitted and the counter stands still.
    pub open spec fn spec_step(g: AudioGenerator) -> (AudioGenerator, Option<SampleOut>) {
        let spu = spec_unit_samples(g.samples_per_second, BEATS_PER_MINUTE);
        let notes = g.abc.notes@;
        let i0 = match g.note_index {
            Some(i) => i as int,
            None => 0,
        };
        let p0 = g.samples_played_in_note as int;
        let i1 = spec_active_index(notes, i0, p0, spu);
        if i1 >= notes.len() {
            (
                AudioGenerator {
                    note_index: Some(i1 as usize),
                    samples_played_in_note: 0,
                    ..g
                },
                None,
            )
        } else {
            let p1: int = if i1 == i0 { p0 } else { 0 };
            let total = spec_note_samples(notes[i1].length, spu);
            (
                AudioGenerator {
                    note_index: Some(i1 as usize),
                    samples_played_in_note: (p1 + 1) as u32,
                    sample_count: ((g.sample_count + 1) % 0x1_0000_0000) as u32,
                    ..g
                },
                Some(spec_sample_out(notes[i1], p1, total, g.sample_count)),
            )
        }
    }

    /// A generator at the start of the song, with the sample counter at
    /// zero.
    pub fn new(abc: ABC, samples_per_second: u32, channels: usize) -> (g: AudioGenerator)
        ensures
            g.abc == abc,
            g.note_index is None,
            g.samples_played_in_note == 0,
            g.sample_count == 0,
            g.samples_per_second == samples_per_second,
            g.channels == channels,
            g.wf(),
    {
        AudioGenerator {
            abc,
            note_index: None,
            samples_played_in_note: 0,
            sample_count: 0,
            samples_per_second,
            channels,
        }
    }

    /// Generates the command for the next sample and advances the
    /// position, exactly as `spec_step` describes; `None` reports that
    /// the song has ended and only silence follows.
    pub fn generate_and_tick(&mut self) -> (r: Option<SampleOut>)
        requires
            old(self).wf(),
        ensures
            final(self).wf(),
            (*final(self), r) == AudioGenerator::spec_step(*old(self)),
    {
        let ghost g0 = *old(self);
        let ghost notes = g0.abc.notes@;
        let unit: u32 = unit_samples(self.samples_per_second, BEATS_PER_MINUTE);
        let ghost spu: int = unit as int;
        let ghost i0: int = match g0.note_index {
            Some(i) => i as int,
            None => 0,
        };
        let ghost p0 = g0.samples_played_in_note as int;
        let ghost i1 = spec_active_index(notes, i0, p0, spu);

        let mut index: usize = match self.note_index {
            Some(i) => i,
            None => 0,
        };
        self.note_index = Some(index);

        loop
            invariant
                g0 == *old(self),
                self.abc == g0.abc,
                self.samples_per_second == g0.samples_per_second,
                self.channels == g0.channels,
                self.sample_count == g0.sample_count,
                self.note_index == Some(index),
                index <= notes.len(),
                notes == self.abc.notes@,
                unit == spec_unit_samples(g0.samples_per_second, BEATS_PER_MINUTE),
                spu == unit,
                i0 == (match g0.note_index {
                    Some(i) => i as int,
                    None => 0,
                }),
                p0 == g0.samples_played_in_note as int,
                i1 == spec_active_index(notes, i0, p0, spu),
                i1 == spec_active_index(
                    notes,
                    index as int,
                    self.samples_played_in_note as int,
                    spu,
                ),
                index < notes.len() ==> self.samples_played_in_note as int <= spec_note_samples(
                    notes[index as int].length,
                    spu,
                ),
                index >= notes.len() ==> self.samples_played_in_note == 0,
                i0 <= index as int,
                index as int == i0 ==> self.samples_played_in_note as int == p0,
                index as int > i0 ==> self.samples_played_in_note == 0,
            ensures
                index < notes.len(),
                (self.samples_played_in_note as int) < spec_note_samples(
                    notes[index as int].length,
                    spu,
                ),
            decreases notes.len() - index,
        {
            if index >= self.abc.notes.len() {
                proof {
                    assert(i1 == index as int);
                }
                return None;
            }
            let total: u32 = note_total_samples(&self.abc.notes[index].length, unit);
            if self.samples_played_in_note >= total {
                self.samples_played_in_note = 0;
                index = index + 1;
                self.note_index = Some(index);
            } else {
                break ;
            }
        }

        proof {
            assert(i1 == index as int);
        }
        let pitch_steps = self.abc.notes[index].pitch.half_steps_from_reference();
        let total: u32 = note_total_samples(&self.abc.notes[index].length, unit);
        let remaining: u32 = total - self.samples_played_in_note;
        let fade: Option<FadeRamp> = if 10u64 * (remaining as u64) <= total as u64 {
            Some(FadeRamp { remaining, total })
        } else {
            None
        };
        let out: SampleOut = match pitch_steps {
            Some(h) => SampleOut::Tone { half_steps: h, sample_index: self.sample_count, fade },
            None => SampleOut::Silence,
        };
        self.sample_count = if self.sample_count == u32::MAX {
            0
        } else {
            self.sample_count + 1
        };
        self.samples_played_in_note = self.samples_played_in_note + 1;
        Some(out)
    }
}

/// The host sample counter spans the whole playback: every emitted
/// sample advances it by exactly one, wrapping only at the width of
/// its type, and no note boundary or end of second ever resets it;
/// once the song has ended it stands still. Resetting it mid-playback
/// would restart the sine phase and click at whichever note straddles
/// the reset.
pub proof fn lemma_sample_counter_never_resets(g: AudioGenerator)
    ensures
        ({
            let stepped = AudioGenerator::spec_step(g);
            &&& stepped.1 is Some ==> stepped.0.sample_count == (g.sample_count + 1)
                % 0x1_0000_0000
            &&& stepped.1 is None ==> stepped.0.sample_count == g.sample_count
        }),
{
}

/// The generator run `n` samples forward from `g`: the state it reaches
/// and the `n` commands it emits, a command per sample, with silence
/// once the song has ended.
pub open spec fn spec_run(g: AudioGenerator, n: nat) -> (AudioGenerator, Seq<SampleOut>)
    decreases n,
{
    if n == 0 {
        (g, Seq::empty())
    } else {
        let stepped = AudioGenerator::spec_step(g);
        let first = match stepped.1 {
            Some(s) => s,
            None => SampleOut::Silence,
        };
        let rest = spec_run(stepped.0, (n - 1) as nat);
        (rest.0, seq![first] + rest.1)
    }
}

/// Running one more sample appends one command: the run of `n + 1`
/// samples is the run of `n` samples followed by a single step of the
/// state it reached.
pub proof fn lemma_run_unfold_right(g: AudioGenerator, n: nat)
    ensures
        spec_run(g, n + 1).0 == AudioGenerator::spec_step(spec_run(g, n).0).0,
        spec_run(g, n + 1).1 == spec_run(g, n).1.push(
            match AudioGenerator::spec_step(spec_run(g, n).0).1 {
                Some(s) => s,
                None => SampleOut::Silence,
            },
        ),
        spec_run(g, n).1.len() == n,
    decreases n,
{
    reveal_with_fuel(spec_run, 3);
    if n == 0 {
        assert(spec_run(g, 1).1 =~= spec_run(g, 0).1.push(
            match AudioGenerator::spec_step(spec_run(g, 0).0).1 {
                Some(s) => s,
                None => SampleOut::Silence,
            },
        ));
    } else {
        let stepped = AudioGenerator::spec_step(g);
        let first = match stepped.1 {
            Some(s) => s,
            None => SampleOut::Silence,
        };
        lemma_run_unfold_right(stepped.0, (n - 1) as nat);
        assert(spec_run(g, n).0 == spec_run(stepped.0, (n - 1) as nat).0);
        assert(spec_run(g, n + 1).1 == seq![first] + spec_run(stepped.0, n).1);
        assert(spec_run(g, n + 1).1 =~= spec_run(g, n).1.push(
            match AudioGenerator::spec_step(spec_run(g, n).0).1 {
                Some(s) => s,
                None => SampleOut::Silence,
            },
        ));
    }
}

/// The little-endian byte stream of 16-bit samples: two bytes per
/// sample, low byte first, in sample order.
pub fn samples_to_le_bytes(samples: &Vec<i16>) -> (out: Vec<u8>)
    ensures
        out@.len() == 2 * samples@.len(),
        forall|i: int|
            0 <= i < samples@.len() ==> out@[2 * i] == ((#[trigger] samples@[i] as u16) % 256) as u8
                && out@[2 * i + 1] == ((samples@[i] as u16) / 256) as u8,
{
    let mut out: Vec<u8> = Vec::new();
    let mut i: usize = 0;
    while i < samples.len()
        invariant
            i <= samples@.len(),
            out@.len() == 2 * i,
            forall|j: int|
                0 <= j < i ==> out@[2 * j] == ((#[trigger] samples@[j] as u16) % 256) as u8
                    && out@[2 * j + 1] == ((samples@[j] as u16) / 256) as u8,
        decreases samples@.len() - i,
    {
        let u: u16 = samples[i] as u16;
        out.push((u % 256) as u8);
        out.push((u / 256) as u8);
        i += 1;
    }
    out
}

impl AudioGenerator {
    /// Fills one buffer: `frame_count` commands, one per frame, walking
    /// the song exactly as `frame_count` single steps would; a backend
    /// repeats each command's value across the channels of its frame.
    pub fn fill_output(&mut self, frame_count: usize) -> (out: Vec<SampleOut>)
        requires
            old(self).wf(),
        ensures
            final(self).wf(),
            *final(self) == spec_run(*old(self), frame_count as nat).0,
            out@ == spec_run(*old(self), frame_count as nat).1,
            out@.len() == frame_count,
    {
        let ghost g0 = *old(self);
        let mut out: Vec<SampleOut> = Vec::new();
        let mut k: usize = 0;
        while k < frame_count
            invariant
                self.wf(),
                k <= frame_count,
                *self == spec_run(g0, k as nat).0,
                out@ == spec_run(g0, k as nat).1,
                out@.len() == k,
            decreases frame_count - k,
        {
            proof {
                lemma_run_unfold_right(g0, k as nat);
            }
            let command = match self.generate_and_tick() {
                Some(c) => c,
                None => SampleOut::Silence,
            };
            out.push(command);
            k += 1;
        }
        out
    }
}

} // verus!
