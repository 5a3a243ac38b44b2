//! Notes as written in the source notation, before resolution: raw
//! accidental and octave marks around a pitch letter, and a raw length
//! specifier. Resolution turns them into the data-model types.

use vstd::prelude::*;

use crate::abc;
use crate::parser::ParseError;

verus! {

/// An accidental mark written before a pitch letter.
#[derive(Debug, Copy, Clone, PartialEq, Eq, Structural)]
pub enum Accidental {
    Natural,
    Flat,
    Sharp,
}

impl Accidental {
    /// The class this mark steps `class` to: one semitone up for a
    /// sharp, one down for a flat, unchanged for a natural.
    pub open spec fn spec_apply(self, class: abc::PitchClass) -> abc::PitchClass {
        match self {
            Accidental::Natural => class,
            Accidental::Flat => class.spec_half_step_down(),
            Accidental::Sharp => class.spec_half_step_up(),
        }
    }
}

/// An octave mark written after a pitch letter.
#[derive(Debug, Copy, Clone, PartialEq, Eq, Structural)]
pub enum Octave {
    Up,
    Down,
}

/// The class reached after applying every accidental mark, in written
/// order.
pub open spec fn spec_apply_accidentals(
    class: abc::PitchClass,
    accs: Seq<Accidental>,
) -> abc::PitchClass
    decreases accs.len(),
{
    if accs.len() == 0 {
        class
    } else {
        accs.last().spec_apply(spec_apply_accidentals(class, accs.drop_last()))
    }
}

/// Net octave shift of a run of octave marks: up marks count one,
/// down marks count minus one.
pub open spec fn spec_octave_shift(octaves: Seq<Octave>) -> int
    decreases octaves.len(),
{
    if octaves.len() == 0 {
        0
    } else {
        spec_octave_shift(octaves.drop_last()) + (if octaves.last() is Up {
            1int
        } else {
            -1int
        })
    }
}

/// A pitch as written: a rest, or a letter with its marks.
#[derive(Debug, Clone, PartialEq, Eq)]
pub enum Pitch {
    Rest,
    NonRest { accidentals: Vec<Accidental>, pitch_char: char, octaves: Vec<Octave> },
}

impl Pitch {
    /// The resolved pitch: the letter's class stepped by the
    /// accidentals, at the octave the marks add up to. Rejected when
    /// the letter names no natural class, or when the octave shift
    /// leaves the representable range.
    pub open spec fn spec_resolve(self) -> Result<abc::PitchOrRest, ParseError> {
        match self {
            Pitch::Rest => Ok(abc::PitchOrRest::Rest),
            Pitch::NonRest { accidentals, pitch_char, octaves } => {
                match abc::PitchClass::spec_from_char(pitch_char) {
                    Err(()) => Err(ParseError::InvalidPitch),
                    Ok(base) => {
                        let class = spec_apply_accidentals(base, accidentals@);
                        let shift = spec_octave_shift(octaves@);
                        if -128 <= shift <= 127 {
                            Ok(abc::PitchOrRest::Pitch { class, octave: shift as i8 })
                        } else {
                            Err(ParseError::OctaveOutOfRange)
                        }
                    },
                }
            },
        }
    }

    /// Resolves the written pitch, exactly as `spec_resolve` states.
    pub fn resolve(&self) -> (r: Result<abc::PitchOrRest, ParseError>)
        ensures
            r == self.spec_resolve(),
    {
        match self {
            Pitch::Rest => Ok(abc::PitchOrRest::Rest),
            Pitch::NonRest { accidentals, pitch_char, octaves } => {
                let base = match abc::PitchClass::try_from_char(*pitch_char) {
                    Ok(c) => c,
                    Err(()) => {
                        return Err(ParseError::InvalidPitch);
                    },
                };

                let mut class = base;
                let mut i: usize = 0;
                while i < accidentals.len()
                    invariant
                        i <= accidentals@.len(),
                        class == spec_apply_accidentals(base, accidentals@.take(i as int)),
                    decreases accidentals@.len() - i,
                {
                    let stepped = match accidentals[i] {
                        Accidental::Natural => class,
                        Accidental::Flat => class.half_step_down(),
                        Accidental::Sharp => class.half_step_up(),
                    };
                    proof {
                        assert(accidentals@.take(i + 1).drop_last() =~= accidentals@.take(
                            i as int,
                        ));
                        assert(accidentals@.take(i + 1).last() == accidentals@[i as int]);
                    }
                    class = stepped;
                    i += 1;
                }
                proof {
                    assert(accidentals@.take(accidentals@.len() as int) =~= accidentals@);
                }

                let mut shift: i128 = 0;
                let mut j: usize = 0;
                while j < octaves.len()
                    invariant
                        j <= octaves@.len(),
                        shift == spec_octave_shift(octaves@.take(j as int)),
                        -(j as int) <= shift <= j as int,
                    decreases octaves@.len() - j,
                {
                    proof {
                        assert(octaves@.take(j + 1).drop_last() =~= octaves@.take(j as int));
                        assert(octaves@.take(j + 1).last() == octaves@[j as int]);
                    }
                    shift = match octaves[j] {
                        Octave::Up => shift + 1,
                        Octave::Down => shift - 1,
                    };
                    j += 1;
                }
                proof {
                    assert(octaves@.take(octaves@.len() as int) =~= octaves@);
                }

                if shift < -128 || shift > 127 {
                    return Err(ParseError::OctaveOutOfRange);
                }
                Ok(abc::PitchOrRest::Pitch { class, octave: shift as i8 })
            },
        }
    }
}

/// A length as written: absent, or a number that multiplies or divides
/// the base unit.
#[derive(Debug, Copy, Clone, PartialEq, Eq, Structural)]
pub enum Length {
    Default,
    Specified { divided: bool, number: u64 },
}

impl Length {
    /// The data-model length this written length stands for.
    pub open spec fn spec_resolve(self) -> abc::Length {
        match self {
            Length::Default => abc::Length::Unit,
            Length::Specified { divided, number } => {
                if divided {
                    abc::Length::Multiple(number)
                } else {
                    abc::Length::Division(number)
                }
            },
        }
    }

    /// Resolves the written length, exactly as `spec_resolve` states.
    pub fn resolve(&self) -> (r: abc::Length)
        ensures
            r == self.spec_resolve(),
    {
        match self {
            Length::Default => abc::Length::Unit,
            Length::Specified { divided, number } => {
                if *divided {
                    abc::Length::Multiple(*number)
                } else {
                    abc::Length::Division(*number)
                }
            },
        }
    }
}

/// A note as written: its pitch and its length specifier.
#[derive(Debug, Clone, PartialEq, Eq)]
pub struct NoteParse {
    pub pitch: Pitch,
    pub length: Length,
}

impl NoteParse {
    /// The resolved note, or the first error its pitch raises.
    pub open spec fn spec_resolve(self) -> Result<abc::Note, ParseError> {
        match self.pitch.spec_resolve() {
            Err(e) => Err(e),
            Ok(pitch) => Ok(abc::Note { pitch, length: self.length.spec_resolve() }),
        }
    }

    /// Resolves the written note, exactly as `spec_resolve` states.
    pub fn resolve(&self) -> (r: Result<abc::Note, ParseError>)
        ensures
            r == self.spec_resolve(),
    {
        let pitch = match self.pitch.resolve() {
            Ok(p) => p,
            Err(e) => {
                return Err(e);
            },
        };
        Ok(abc::Note { pitch, length: self.length.resolve() })
    }
}

} // verus!
