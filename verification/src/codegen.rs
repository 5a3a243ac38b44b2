//! Export of a song as C source text.
//!
//! A song is first optimized into its distinct notes, in order of
//! first appearance, plus a list of indices into them; the exported
//! header holds a lookup table of the distinct notes and the index
//! list, each note reduced to a pitch number and a length code.

use vstd::prelude::*;

use crate::abc::ABC;
use crate::abc::Length;
use crate::abc::Note;
use crate::abc::PitchOrRest;
use crate::text::chars_into_string;
use crate::text::push_dec_i64;
use crate::text::push_dec_i64_padded;
use crate::text::push_dec_u64;
use crate::text::push_str_chars;
use crate::text::spec_dec_int;
use crate::text::spec_dec_nat;
use crate::text::spec_pad_left;

verus! {

/// First position of `n` in `notes`, or their length when absent.
pub open spec fn spec_first_index(notes: Seq<Note>, n: Note) -> int
    decreases notes.len(),
{
    if notes.len() == 0 {
        0
    } else if notes[0] == n {
        0
    } else {
        1 + spec_first_index(notes.subrange(1, notes.len() as int), n)
    }
}

/// `spec_first_index` lands on the first occurrence, or at the length
/// exactly when the note never occurs.
pub proof fn lemma_first_index(notes: Seq<Note>, n: Note)
    ensures
        0 <= spec_first_index(notes, n) <= notes.len(),
        spec_first_index(notes, n) < notes.len() ==> notes[spec_first_index(notes, n)] == n,
        forall|j: int| 0 <= j < spec_first_index(notes, n) ==> notes[j] != n,
    decreases notes.len(),
{
    if notes.len() > 0 && notes[0] != n {
        let sub = notes.subrange(1, notes.len() as int);
        lemma_first_index(sub, n);
        assert forall|j: int| 0 <= j < spec_first_index(notes, n) implies notes[j] != n by {
            if j > 0 {
                assert(notes[j] == sub[j - 1]);
            }
        }
    }
}

/// A position that holds `n` with nothing equal before it is the very
/// one `spec_first_index` names.
pub proof fn lemma_first_index_characterize(notes: Seq<Note>, n: Note, i: int)
    requires
        0 <= i < notes.len(),
        notes[i] == n,
        forall|j: int| 0 <= j < i ==> notes[j] != n,
    ensures
        spec_first_index(notes, n) == i,
{
    lemma_first_index(notes, n);
    let fi = spec_first_index(notes, n);
    if fi < i {
        assert(false);
    }
    if fi > i {
        assert(false);
    }
}

/// The distinct notes of a song, in order of first appearance.
pub open spec fn spec_uniques(notes: Seq<Note>) -> Seq<Note>
    decreases notes.len(),
{
    if notes.len() == 0 {
        Seq::empty()
    } else {
        let u = spec_uniques(notes.drop_last());
        if u.contains(notes.last()) {
            u
        } else {
            u.push(notes.last())
        }
    }
}

/// Every distinct note occurs in the song.
pub proof fn lemma_uniques_are_notes(notes: Seq<Note>)
    ensures
        forall|k: int|
            0 <= k < spec_uniques(notes).len() ==> notes.contains(
                #[trigger] spec_uniques(notes)[k],
            ),
    decreases notes.len(),
{
    if notes.len() > 0 {
        lemma_uniques_are_notes(notes.drop_last());
        assert forall|k: int|
            0 <= k < spec_uniques(notes).len() implies notes.contains(
            #[trigger] spec_uniques(notes)[k],
        ) by {
            let u = spec_uniques(notes.drop_last());
            if k < u.len() {
                assert(notes.drop_last().contains(u[k]));
                let w = choose|w: int|
                    0 <= w < notes.drop_last().len() && notes.drop_last()[w] == u[k];
                assert(notes[w] == u[k]);
            } else {
                assert(spec_uniques(notes)[k] == notes.last());
                assert(notes[notes.len() - 1] == notes.last());
            }
        }
    }
}

/// The index each note of the song has in the table of distinct notes.
pub open spec fn spec_index_list(notes: Seq<Note>) -> Seq<usize> {
    Seq::new(notes.len(), |i: int| spec_first_index(spec_uniques(notes), notes[i]) as usize)
}

/// A song reduced for export: its distinct notes in order of first
/// appearance, and for every played note the index of its entry.
#[derive(Debug)]
pub struct Optimized {
    pub uniques: Vec<Note>,
    pub list: Vec<usize>,
}

/// First position of `n` in `uniques`, scanned from the front.
fn find_note(uniques: &Vec<Note>, n: &Note) -> (r: Option<usize>)
    ensures
        match r {
            Some(i) => i < uniques@.len() && uniques@[i as int] == *n && forall|j: int|
                0 <= j < i ==> uniques@[j] != *n,
            None => forall|j: int| 0 <= j < uniques@.len() ==> uniques@[j] != *n,
        },
{
    let mut i: usize = 0;
    while i < uniques.len()
        invariant
            i <= uniques@.len(),
            forall|j: int| 0 <= j < i ==> uniques@[j] != *n,
        decreases uniques@.len() - i,
    {
        if uniques[i] == *n {
            return Some(i);
        }
        i += 1;
    }
    None
}

impl Optimized {
    /// Reduces a song: each note's first occurrence joins the table of
    /// distinct notes, and the list records, note by note, the table
    /// position to play.
    pub fn from_abc(abc: &ABC) -> (r: Optimized)
        ensures
            r.uniques@ == spec_uniques(abc.notes@),
            r.list@ == spec_index_list(abc.notes@),
    {
        let ghost notes = abc.notes@;
        let mut uniques: Vec<Note> = Vec::new();
        let mut list: Vec<usize> = Vec::new();
        let mut k: usize = 0;
        while k < abc.notes.len()
            invariant
                k <= notes.len(),
                notes == abc.notes@,
                uniques@ == spec_uniques(notes.take(k as int)),
                list@.len() == k,
                forall|i: int|
                    0 <= i < k ==> (#[trigger] list@[i]) < uniques@.len() && uniques@[
                        list@[i] as int
                    ] == notes[i] && (forall|j: int| 0 <= j < list@[i] ==> uniques@[j] != notes[i]),
            decreases notes.len() - k,
        {
            let note = abc.notes[k];
            proof {
                assert(notes.take(k + 1).drop_last() =~= notes.take(k as int));
                assert(notes.take(k + 1).last() == notes[k as int]);
            }
            match find_note(&uniques, &note) {
                Some(idx) => {
                    list.push(idx);
                    proof {
                        assert(uniques@.contains(notes[k as int]));
                    }
                },
                None => {
                    proof {
                        if uniques@.contains(notes[k as int]) {
                            let w = choose|w: int|
                                0 <= w < uniques@.len() && uniques@[w] == notes[k as int];
                            assert(false);
                        }
                    }
                    uniques.push(note);
                    list.push(uniques.len() - 1);
                },
            }
            k += 1;
        }
        proof {
            assert(notes.take(notes.len() as int) =~= notes);
            assert forall|i: int| 0 <= i < notes.len() implies list@[i] == spec_first_index(
                spec_uniques(notes),
                notes[i],
            ) as usize by {
                lemma_first_index_characterize(spec_uniques(notes), notes[i], list@[i] as int);
            }
            assert(list@ =~= spec_index_list(notes));
        }
        Optimized { uniques, list }
    }
}

/// The pitch number exported for a note: its half-step distance from
/// the reference pitch, or 127 for a rest, which plays nothing.
pub open spec fn spec_pitch_to_number(p: PitchOrRest) -> int {
    match p {
        PitchOrRest::Pitch { class, octave } => octave * 12 + class.spec_half_steps_from_a(),
        PitchOrRest::Rest => 127,
    }
}

/// The pitch number exported for a note.
pub fn pitch_to_number(pitch: &PitchOrRest) -> (r: i16)
    ensures
        r == spec_pitch_to_number(*pitch),
{
    match pitch {
        PitchOrRest::Pitch { class, octave } => (*octave as i16) * 12 + class.half_steps_from_a()
            as i16,
        PitchOrRest::Rest => 127,
    }
}

/// The length code exported for a note, on the fixed scale from a
/// thirty-second division up to a sixteenfold multiple; lengths off
/// the scale have no code.
pub open spec fn spec_length_to_num(l: Length) -> Option<u16> {
    match l {
        Length::Division(d) => if d == 32 {
            Some(0u16)
        } else if d == 16 {
            Some(1u16)
        } else if d == 8 {
            Some(2u16)
        } else if d == 4 {
            Some(3u16)
        } else if d == 2 {
            Some(4u16)
        } else {
            None
        },
        Length::Unit => Some(5u16),
        Length::Multiple(m) => if m == 2 {
            Some(6u16)
        } else if m == 4 {
            Some(7u16)
        } else if m == 8 {
            Some(8u16)
        } else if m == 16 {
            Some(9u16)
        } else {
            None
        },
    }
}

/// The length code exported for a note; only lengths on the fixed
/// scale can be exported.
pub fn length_to_num(length: &Length) -> (r: u16)
    requires
        spec_length_to_num(*length) is Some,
    ensures
        Some(r) == spec_length_to_num(*length),
{
    match length {
        Length::Division(32) => 0,
        Length::Division(16) => 1,
        Length::Division(8) => 2,
        Length::Division(4) => 3,
        Length::Division(2) => 4,
        Length::Unit => 5,
        Length::Multiple(2) => 6,
        Length::Multiple(4) => 7,
        Length::Multiple(8) => 8,
        Length::Multiple(16) => 9,
        _ => 0,
    }
}

/// Whether a length sits on the export scale.
pub fn length_exportable(length: &Length) -> (b: bool)
    ensures
        b == (spec_length_to_num(*length) is Some),
{
    match length {
        Length::Division(32) => true,
        Length::Division(16) => true,
        Length::Division(8) => true,
        Length::Division(4) => true,
        Length::Division(2) => true,
        Length::Unit => true,
        Length::Multiple(2) => true,
        Length::Multiple(4) => true,
        Length::Multiple(8) => true,
        Length::Multiple(16) => true,
        _ => false,
    }
}

/// Whether every note of the song can be exported: the check a caller
/// makes before asking for the header text.
pub fn abc_exportable(abc: &ABC) -> (b: bool)
    ensures
        b == (forall|i: int|
            0 <= i < abc.notes@.len() ==> spec_length_to_num(
                #[trigger] abc.notes@[i].length,
            ) is Some),
{
    let mut i: usize = 0;
    while i < abc.notes.len()
        invariant
            i <= abc.notes@.len(),
            forall|j: int|
                0 <= j < i ==> spec_length_to_num(#[trigger] abc.notes@[j].length) is Some,
        decreases abc.notes@.len() - i,
    {
        if !length_exportable(&abc.notes[i].length) {
            return false;
        }
        i += 1;
    }
    true
}

/// One line of the lookup table: the pitch number padded to four
/// places, the length code padded to two, and a comma after every
/// entry but the last.
pub open spec fn spec_lookup_entry(pitch: int, num: int, comma: bool) -> Seq<char> {
    "\n\t{ .pitch = "@ + spec_pad_left(spec_dec_int(pitch), 4) + ", .length = "@ + spec_pad_left(
        spec_dec_int(num),
        2,
    ) + " }"@ + (if comma {
        ","@
    } else {
        Seq::<char>::empty()
    })
}

/// The first `k` lookup lines of the table of distinct notes.
pub open spec fn spec_lookup_entries(uniques: Seq<Note>, k: int) -> Seq<char>
    decreases k,
    when 0 <= k <= uniques.len()
{
    if k <= 0 {
        Seq::empty()
    } else {
        spec_lookup_entries(uniques, k - 1) + spec_lookup_entry(
            spec_pitch_to_number(uniques[k - 1].pitch),
            spec_length_to_num(uniques[k - 1].length)->Some_0 as int,
            k < uniques.len(),
        )
    }
}

/// The first `k` lines of the index list, one tab-indented index and a
/// comma per line.
pub open spec fn spec_song_indices(list: Seq<usize>, k: int) -> Seq<char>
    decreases k,
    when 0 <= k <= list.len()
{
    if k <= 0 {
        Seq::empty()
    } else {
        spec_song_indices(list, k - 1) + ("\t"@ + spec_dec_nat(list[k - 1] as int) + ",\n"@)
    }
}

/// The full exported header: the guarded preamble, the lookup table
/// opened by its terminator entry, and the index list closed by a
/// final zero.
pub open spec fn spec_header_text(uniques: Seq<Note>, list: Seq<usize>) -> Seq<char> {
    spec_header_top() + spec_lookup_entry(-127, 0, true) + spec_lookup_entries(
        uniques,
        uniques.len() as int,
    ) + spec_header_mid() + spec_song_indices(list, list.len() as int) + spec_header_bottom()
}

/// Everything before the lookup entries.
pub open spec fn spec_header_top() -> Seq<char> {
    "#ifndef ARDSOUND_SONG\n#define ARDSOUND_SONG\n\n// This is a song file\n\n#include <note.h>\n\nstruct Note note_lookup[] = {"@
}

/// Everything between the lookup table and the index list.
pub open spec fn spec_header_mid() -> Seq<char> {
    "\n};\n\nshort song[] = {\n"@
}

/// Everything after the index list.
pub open spec fn spec_header_bottom() -> Seq<char> {
    "\t0\n};\n\n#endif\n"@
}

/// Appends one lookup line.
fn push_lookup_entry(out: &mut Vec<char>, pitch: i16, num: u16, comma: bool)
    ensures
        final(out)@ == old(out)@ + spec_lookup_entry(pitch as int, num as int, comma),
{
    push_str_chars(out, "\n\t{ .pitch = ");
    push_dec_i64_padded(out, pitch as i64, 4);
    push_str_chars(out, ", .length = ");
    push_dec_i64_padded(out, num as i64, 2);
    push_str_chars(out, " }");
    if comma {
        push_str_chars(out, ",");
    }
    proof {
        assert(out@ =~= old(out)@ + spec_lookup_entry(pitch as int, num as int, comma));
    }
}

/// The exported C source for a song whose note lengths all sit on the
/// export scale: exactly the text `spec_header_text` states for the
/// song's distinct notes and index list.
pub fn generate_c_header_string(abc: &ABC) -> (r: String)
    requires
        forall|i: int|
            0 <= i < abc.notes@.len() ==> spec_length_to_num(
                #[trigger] abc.notes@[i].length,
            ) is Some,
    ensures
        r@ == spec_header_text(spec_uniques(abc.notes@), spec_index_list(abc.notes@)),
{
    let ghost notes = abc.notes@;
    let optimized = Optimized::from_abc(abc);
    proof {
        lemma_uniques_are_notes(notes);
    }

    let mut out: Vec<char> = Vec::new();
    push_str_chars(
        &mut out,
        "#ifndef ARDSOUND_SONG\n#define ARDSOUND_SONG\n\n// This is a song file\n\n#include <note.h>\n\nstruct Note note_lookup[] = {",
    );
    push_lookup_entry(&mut out, -127, 0, true);

    let ghost base = spec_header_top() + spec_lookup_entry(-127, 0, true);
    proof {
        assert(out@ =~= base + spec_lookup_entries(optimized.uniques@, 0));
    }
    let mut k: usize = 0;
    while k < optimized.uniques.len()
        invariant
            k <= optimized.uniques@.len(),
            optimized.uniques@ == spec_uniques(notes),
            forall|i: int|
                0 <= i < notes.len() ==> spec_length_to_num(#[trigger] notes[i].length) is Some,
            out@ == base + spec_lookup_entries(optimized.uniques@, k as int),
        decreases optimized.uniques@.len() - k,
    {
        proof {
            lemma_uniques_are_notes(notes);
            assert(notes.contains(optimized.uniques@[k as int]));
            let w = choose|w: int|
                0 <= w < notes.len() && notes[w] == optimized.uniques@[k as int];
            assert(spec_length_to_num(notes[w].length) is Some);
        }
        let pitch = pitch_to_number(&optimized.uniques[k].pitch);
        let num = length_to_num(&optimized.uniques[k].length);
        let comma = k + 1 < optimized.uniques.len();
        push_lookup_entry(&mut out, pitch, num, comma);
        k += 1;
    }

    push_str_chars(&mut out, "\n};\n\nshort song[] = {\n");
    let ghost base2 = out@;
    let mut m: usize = 0;
    while m < optimized.list.len()
        invariant
            m <= optimized.list@.len(),
            out@ == base2 + spec_song_indices(optimized.list@, m as int),
        decreases optimized.list@.len() - m,
    {
        let ghost before = out@;
        push_str_chars(&mut out, "\t");
        push_dec_u64(&mut out, optimized.list[m] as u64);
        push_str_chars(&mut out, ",\n");
        proof {
            assert(out@ =~= before + ("\t"@ + spec_dec_nat(optimized.list@[m as int] as int)
                + ",\n"@));
        }
        m += 1;
    }
    push_str_chars(&mut out, "\t0\n};\n\n#endif\n");
    proof {
        assert(out@ =~= spec_header_text(spec_uniques(notes), spec_index_list(notes)));
    }
    chars_into_string(&out)
}

/// The source name of a pitch class variant.
pub open spec fn spec_class_name(c: crate::abc::PitchClass) -> Seq<char> {
    match c {
        crate::abc::PitchClass::A => "A"@,
        crate::abc::PitchClass::ASharpBFlat => "ASharpBFlat"@,
        crate::abc::PitchClass::B => "B"@,
        crate::abc::PitchClass::C => "C"@,
        crate::abc::PitchClass::CSharpDFlat => "CSharpDFlat"@,
        crate::abc::PitchClass::D => "D"@,
        crate::abc::PitchClass::DSharpEFlat => "DSharpEFlat"@,
        crate::abc::PitchClass::E => "E"@,
        crate::abc::PitchClass::F => "F"@,
        crate::abc::PitchClass::FSharpGFlat => "FSharpGFlat"@,
        crate::abc::PitchClass::G => "G"@,
        crate::abc::PitchClass::GSharpAFlat => "GSharpAFlat"@,
    }
}

/// The constructor text of a pitch or rest.
pub open spec fn spec_pitch_literal(p: PitchOrRest) -> Seq<char> {
    match p {
        PitchOrRest::Pitch { class, octave } => "PitchOrRest::Pitch { class: PitchClass::"@
            + spec_class_name(class) + ", octave: "@ + spec_dec_int(octave as int) + " }"@,
        PitchOrRest::Rest => "PitchOrRest::Rest"@,
    }
}

/// The constructor text of a length.
pub open spec fn spec_length_literal(l: Length) -> Seq<char> {
    match l {
        Length::Unit => "Length::Unit"@,
        Length::Multiple(x) => "Length::Multiple("@ + spec_dec_nat(x as int) + ")"@,
        Length::Division(x) => "Length::Division("@ + spec_dec_nat(x as int) + ")"@,
    }
}

/// The constructor text of a note.
pub open spec fn spec_note_literal(n: Note) -> Seq<char> {
    "Note { pitch: "@ + spec_pitch_literal(n.pitch) + ", length: "@ + spec_length_literal(n.length)
        + " }"@
}

/// The first `k` lines of the table of distinct notes, one
/// constructor per line.
pub open spec fn spec_note_lines(uniques: Seq<Note>, k: int) -> Seq<char>
    decreases k,
    when 0 <= k <= uniques.len()
{
    if k <= 0 {
        Seq::empty()
    } else {
        spec_note_lines(uniques, k - 1) + ("        "@ + spec_note_literal(uniques[k - 1])
            + ",\n"@)
    }
}

/// The first `k` lines of the index list, one index per line.
pub open spec fn spec_index_lines(list: Seq<usize>, k: int) -> Seq<char>
    decreases k,
    when 0 <= k <= list.len()
{
    if k <= 0 {
        Seq::empty()
    } else {
        spec_index_lines(list, k - 1) + ("        "@ + spec_dec_nat(list[k - 1] as int) + ",\n"@)
    }
}

/// The whole constant-data item: a `static` of the reduced song, its
/// sizes written into the type.
pub open spec fn spec_static_source(name: Seq<char>, uniques: Seq<Note>, list: Seq<usize>) -> Seq<
    char,
> {
    "static "@ + name + ": OptimizedStatic<"@ + spec_dec_nat(uniques.len() as int) + ", "@
        + spec_dec_nat(list.len() as int) + "> = OptimizedStatic {\n    uniques: [\n"@
        + spec_note_lines(uniques, uniques.len() as int) + "    ],\n    list: [\n"@
        + spec_index_lines(list, list.len() as int) + "    ],\n};\n"@
}

/// Appends the source name of a pitch class variant.
fn push_class_name(out: &mut Vec<char>, class: &crate::abc::PitchClass)
    ensures
        final(out)@ == old(out)@ + spec_class_name(*class),
{
    match class {
        crate::abc::PitchClass::A => push_str_chars(out, "A"),
        crate::abc::PitchClass::ASharpBFlat => push_str_chars(out, "ASharpBFlat"),
        crate::abc::PitchClass::B => push_str_chars(out, "B"),
        crate::abc::PitchClass::C => push_str_chars(out, "C"),
        crate::abc::PitchClass::CSharpDFlat => push_str_chars(out, "CSharpDFlat"),
        crate::abc::PitchClass::D => push_str_chars(out, "D"),
        crate::abc::PitchClass::DSharpEFlat => push_str_chars(out, "DSharpEFlat"),
        crate::abc::PitchClass::E => push_str_chars(out, "E"),
        crate::abc::PitchClass::F => push_str_chars(out, "F"),
        crate::abc::PitchClass::FSharpGFlat => push_str_chars(out, "FSharpGFlat"),
        crate::abc::PitchClass::G => push_str_chars(out, "G"),
        crate::abc::PitchClass::GSharpAFlat => push_str_chars(out, "GSharpAFlat"),
    }
}

/// Appends the constructor text of a pitch or rest.
fn push_pitch_literal(out: &mut Vec<char>, p: &PitchOrRest)
    ensures
        final(out)@ == old(out)@ + spec_pitch_literal(*p),
{
    match p {
        PitchOrRest::Pitch { class, octave } => {
            push_str_chars(out, "PitchOrRest::Pitch { class: PitchClass::");
            push_class_name(out, class);
            push_str_chars(out, ", octave: ");
            push_dec_i64(out, *octave as i64);
            push_str_chars(out, " }");
            proof {
                assert(out@ =~= old(out)@ + spec_pitch_literal(*p));
            }
        },
        PitchOrRest::Rest => {
            push_str_chars(out, "PitchOrRest::Rest");
        },
    }
}

/// Appends the constructor text of one note.
fn push_note_literal(out: &mut Vec<char>, n: &Note)
    ensures
        final(out)@ == old(out)@ + spec_note_literal(*n),
{
    push_str_chars(out, "Note { pitch: ");
    push_pitch_literal(out, &n.pitch);
    push_str_chars(out, ", length: ");
    match &n.length {
        Length::Unit => {
            push_str_chars(out, "Length::Unit");
        },
        Length::Multiple(x) => {
            push_str_chars(out, "Length::Multiple(");
            push_dec_u64(out, *x);
            push_str_chars(out, ")");
        },
        Length::Division(x) => {
            push_str_chars(out, "Length::Division(");
            push_dec_u64(out, *x);
            push_str_chars(out, ")");
        },
    }
    push_str_chars(out, " }");
    proof {
        assert(out@ =~= old(out)@ + spec_note_literal(*n));
    }
}

/// The Rust source of a constant-data item embedding the reduced
/// song under the given name: exactly the text `spec_static_source`
/// states. An offline generator writes this text out, and the
/// embedded build compiles it in; the engine itself always receives
/// an ordinary song value.
pub fn generate_static_source(name: &str, optimized: &Optimized) -> (r: String)
    ensures
        r@ == spec_static_source(name@, optimized.uniques@, optimized.list@),
{
    let mut out: Vec<char> = Vec::new();
    push_str_chars(&mut out, "static ");
    push_str_chars(&mut out, name);
    push_str_chars(&mut out, ": OptimizedStatic<");
    push_dec_u64(&mut out, optimized.uniques.len() as u64);
    push_str_chars(&mut out, ", ");
    push_dec_u64(&mut out, optimized.list.len() as u64);
    push_str_chars(&mut out, "> = OptimizedStatic {\n    uniques: [\n");

    let ghost base = out@;
    let mut k: usize = 0;
    while k < optimized.uniques.len()
        invariant
            k <= optimized.uniques@.len(),
            out@ == base + spec_note_lines(optimized.uniques@, k as int),
        decreases optimized.uniques@.len() - k,
    {
        let ghost before = out@;
        push_str_chars(&mut out, "        ");
        push_note_literal(&mut out, &optimized.uniques[k]);
        push_str_chars(&mut out, ",\n");
        proof {
            assert(out@ =~= before + ("        "@ + spec_note_literal(
                optimized.uniques@[k as int],
            ) + ",\n"@));
        }
        k += 1;
    }

    push_str_chars(&mut out, "    ],\n    list: [\n");
    let ghost base2 = out@;
    let mut m: usize = 0;
    while m < optimized.list.len()
        invariant
            m <= optimized.list@.len(),
            out@ == base2 + spec_index_lines(optimized.list@, m as int),
        decreases optimized.list@.len() - m,
    {
        let ghost before = out@;
        push_str_chars(&mut out, "        ");
        push_dec_u64(&mut out, optimized.list[m] as u64);
        push_str_chars(&mut out, ",\n");
        proof {
            assert(out@ =~= before + ("        "@ + spec_dec_nat(optimized.list@[m as int] as int)
                + ",\n"@));
        }
        m += 1;
    }
    push_str_chars(&mut out, "    ],\n};\n");
    proof {
        assert(out@ =~= spec_static_source(name@, optimized.uniques@, optimized.list@));
    }
    chars_into_string(&out)
}

/// A reduced song embedded as constant data: the table of distinct
/// notes and the index list, sized at compile time.
pub struct OptimizedStatic<const UNIQUES: usize, const LIST: usize> {
    pub uniques: [Note; UNIQUES],
    pub list: [usize; LIST],
}

impl<const UNIQUES: usize, const LIST: usize> OptimizedStatic<UNIQUES, LIST> {
    /// The note the playback list names at position `i`, or `None`
    /// once `i` passes the end of the list or the entry points outside
    /// the table.
    pub fn note_at(&self, i: usize) -> (r: Option<&Note>)
        ensures
            ({
                if i < LIST && (self.list@[i as int] as int) < UNIQUES as int {
                    r matches Some(n) && *n == self.uniques@[self.list@[i as int] as int]
                } else {
                    r is None
                }
            }),
    {
        if i >= LIST {
            return None;
        }
        let idx = self.list[i];
        if idx >= UNIQUES {
            return None;
        }
        Some(&self.uniques[idx])
    }
}

} // verus!
