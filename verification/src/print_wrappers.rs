//! Display wrappers: each wraps one data-model value and renders the
//! fixed diagnostic text for it, stated exactly at the spec level.

use vstd::prelude::*;

use crate::abc::Length;
use crate::abc::Note;
use crate::abc::PitchClass;
use crate::abc::PitchOrRest;
use crate::text::chars_into_string;
use crate::text::push_dec_i64;
use crate::text::push_dec_u64;
use crate::text::push_str_chars;
use crate::text::spec_dec_int;
use crate::text::spec_dec_nat;

verus! {

/// The label of a pitch class, sharps and flats joined.
pub open spec fn spec_class_label(c: PitchClass) -> Seq<char> {
    match c {
        PitchClass::A => "A"@,
        PitchClass::ASharpBFlat => "A#/Bb"@,
        PitchClass::B => "B"@,
        PitchClass::C => "C"@,
        PitchClass::CSharpDFlat => "C#/Db"@,
        PitchClass::D => "D"@,
        PitchClass::DSharpEFlat => "D#/Eb"@,
        PitchClass::E => "E"@,
        PitchClass::F => "F"@,
        PitchClass::FSharpGFlat => "F#/Gb"@,
        PitchClass::G => "G"@,
        PitchClass::GSharpAFlat => "G#/Ab"@,
    }
}

/// The display text of a pitch class.
pub open spec fn spec_class_display(c: PitchClass) -> Seq<char> {
    "PitchClass::"@ + spec_class_label(c)
}

/// The display text of a pitch or rest.
pub open spec fn spec_pitch_display(p: PitchOrRest) -> Seq<char> {
    match p {
        PitchOrRest::Pitch { class, octave } => "PitchOrRest::Pitch { class: "@
            + spec_class_display(class) + ", octave: "@ + spec_dec_int(octave as int) + " }"@,
        PitchOrRest::Rest => "PitchOrRest::Rest"@,
    }
}

/// The display text of a length.
pub open spec fn spec_length_display(l: Length) -> Seq<char> {
    match l {
        Length::Unit => "Length::Unit"@,
        Length::Multiple(x) => "Length::Multiple: "@ + spec_dec_nat(x as int),
        Length::Division(x) => "Length::Division: "@ + spec_dec_nat(x as int),
    }
}

/// The display text of a note.
pub open spec fn spec_note_display(n: Note) -> Seq<char> {
    "Note { pitch: "@ + spec_pitch_display(n.pitch) + ", length: "@ + spec_length_display(n.length)
        + " }"@
}

/// Appends the label of a pitch class.
fn push_class_label(out: &mut Vec<char>, c: &PitchClass)
    ensures
        final(out)@ == old(out)@ + spec_class_label(*c),
{
    match c {
        PitchClass::A => push_str_chars(out, "A"),
        PitchClass::ASharpBFlat => push_str_chars(out, "A#/Bb"),
        PitchClass::B => push_str_chars(out, "B"),
        PitchClass::C => push_str_chars(out, "C"),
        PitchClass::CSharpDFlat => push_str_chars(out, "C#/Db"),
        PitchClass::D => push_str_chars(out, "D"),
        PitchClass::DSharpEFlat => push_str_chars(out, "D#/Eb"),
        PitchClass::E => push_str_chars(out, "E"),
        PitchClass::F => push_str_chars(out, "F"),
        PitchClass::FSharpGFlat => push_str_chars(out, "F#/Gb"),
        PitchClass::G => push_str_chars(out, "G"),
        PitchClass::GSharpAFlat => push_str_chars(out, "G#/Ab"),
    }
}

/// Appends the display text of a pitch class.
fn push_class_display(out: &mut Vec<char>, c: &PitchClass)
    ensures
        final(out)@ == old(out)@ + spec_class_display(*c),
{
    push_str_chars(out, "PitchClass::");
    push_class_label(out, c);
    proof {
        assert(out@ =~= old(out)@ + spec_class_display(*c));
    }
}

/// Appends the display text of a pitch or rest.
fn push_pitch_display(out: &mut Vec<char>, p: &PitchOrRest)
    ensures
        final(out)@ == old(out)@ + spec_pitch_display(*p),
{
    match p {
        PitchOrRest::Pitch { class, octave } => {
            push_str_chars(out, "PitchOrRest::Pitch { class: ");
            push_class_display(out, class);
            push_str_chars(out, ", octave: ");
            push_dec_i64(out, *octave as i64);
            push_str_chars(out, " }");
            proof {
                assert(out@ =~= old(out)@ + spec_pitch_display(*p));
            }
        },
        PitchOrRest::Rest => {
            push_str_chars(out, "PitchOrRest::Rest");
        },
    }
}

/// Appends the display text of a length.
fn push_length_display(out: &mut Vec<char>, l: &Length)
    ensures
        final(out)@ == old(out)@ + spec_length_display(*l),
{
    match l {
        Length::Unit => {
            push_str_chars(out, "Length::Unit");
        },
        Length::Multiple(x) => {
            push_str_chars(out, "Length::Multiple: ");
            push_dec_u64(out, *x);
            proof {
                assert(out@ =~= old(out)@ + spec_length_display(*l));
            }
        },
        Length::Division(x) => {
            push_str_chars(out, "Length::Division: ");
            push_dec_u64(out, *x);
            proof {
                assert(out@ =~= old(out)@ + spec_length_display(*l));
            }
        },
    }
}

/// Renders a note for diagnostics.
pub struct NoteWrapper(pub Note);

impl NoteWrapper {
    /// The display text of the wrapped note.
    pub fn to_display_string(&self) -> (r: String)
        ensures
            r@ == spec_note_display(self.0),
    {
        let mut out: Vec<char> = Vec::new();
        push_str_chars(&mut out, "Note { pitch: ");
        push_pitch_display(&mut out, &self.0.pitch);
        push_str_chars(&mut out, ", length: ");
        push_length_display(&mut out, &self.0.length);
        push_str_chars(&mut out, " }");
        proof {
            assert(out@ =~= spec_note_display(self.0));
        }
        chars_into_string(&out)
    }
}

/// Renders a pitch or rest for diagnostics.
pub struct PitchOrRestWrapper(pub PitchOrRest);

impl PitchOrRestWrapper {
    /// The display text of the wrapped pitch.
    pub fn to_display_string(&self) -> (r: String)
        ensures
            r@ == spec_pitch_display(self.0),
    {
        let mut out: Vec<char> = Vec::new();
        push_pitch_display(&mut out, &self.0);
        proof {
            assert(out@ =~= spec_pitch_display(self.0));
        }
        chars_into_string(&out)
    }
}

/// Renders a pitch class for diagnostics.
pub struct PitchClassWrapper(pub PitchClass);

impl PitchClassWrapper {
    /// The display text of the wrapped class.
    pub fn to_display_string(&self) -> (r: String)
        ensures
            r@ == spec_class_display(self.0),
    {
        let mut out: Vec<char> = Vec::new();
        push_class_display(&mut out, &self.0);
        proof {
            assert(out@ =~= spec_class_display(self.0));
        }
        chars_into_string(&out)
    }
}

/// Renders a length for diagnostics.
pub struct LengthWrapper(pub Length);

impl LengthWrapper {
    /// The display text of the wrapped length.
    pub fn to_display_string(&self) -> (r: String)
        ensures
            r@ == spec_length_display(self.0),
    {
        let mut out: Vec<char> = Vec::new();
        push_length_display(&mut out, &self.0);
        proof {
            assert(out@ =~= spec_length_display(self.0));
        }
        chars_into_string(&out)
    }
}

} // verus!
