//! The whole-note view of the song cursor.
//!
//! The buzzer backend takes one note per call and holds it for its
//! full duration before asking for the next; the host backend instead
//! advances sample by sample through `crate::player`. Both walk the
//! same ordered note list front to back.

use vstd::prelude::*;

use crate::abc::ABC;
use crate::duration::note_total_samples;
use crate::duration::spec_note_samples;

verus! {

/// A cursor over a song, advanced one whole note at a time.
#[derive(Debug, Clone)]
pub struct NoteSequencer {
    /// The song being walked.
    pub abc: ABC,
    /// Notes already handed out.
    pub index: usize,
}

impl NoteSequencer {
    /// A cursor at the first note.
    pub fn new(abc: ABC) -> (s: NoteSequencer)
        ensures
            s.abc == abc,
            s.index == 0,
    {
        NoteSequencer { abc, index: 0 }
    }

    /// The next note as the buzzer backend needs it: its half-step
    /// distance from the reference pitch (`None` for a rest) and its
    /// duration, scaled from `unit_duration` exactly as
    /// `spec_note_samples` states — the caller picks the unit's
    /// measure, microseconds for a busy-wait or samples for a stream.
    /// The cursor advances by exactly one note per call, and `None`
    /// reports the end of the song.
    pub fn next(&mut self, unit_duration: u32) -> (r: Option<(Option<i16>, u32)>)
        ensures
            final(self).abc == old(self).abc,
            old(self).index >= old(self).abc.notes@.len() ==> {
                &&& r is None
                &&& final(self).index == old(self).index
            },
            old(self).index < old(self).abc.notes@.len() ==> {
                &&& final(self).index == old(self).index + 1
                &&& r == Some(
                    (
                        old(self).abc.notes@[old(self).index as int].pitch.spec_half_steps(),
                        spec_note_samples(
                            old(self).abc.notes@[old(self).index as int].length,
                            unit_duration as int,
                        ) as u32,
                    ),
                )
            },
    {
        if self.index >= self.abc.notes.len() {
            return None;
        }
        let note = &self.abc.notes[self.index];
        let half_steps = note.pitch.half_steps_from_reference();
        let duration = note_total_samples(&note.length, unit_duration);
        self.index = self.index + 1;
        Some((half_steps, duration))
    }
}

} // verus!
