use ard_r_sound::abc::{ABC, Headers, Length, Note, PitchClass, PitchOrRest};
use ard_r_sound::codegen::{
    generate_c_header_string, generate_static_source, length_to_num, pitch_to_number, Optimized,
    OptimizedStatic,
};
use ard_r_sound::print_wrappers::{
    LengthWrapper, NoteWrapper, PitchClassWrapper, PitchOrRestWrapper,
};

fn song(notes: Vec<Note>) -> ABC {
    ABC { version: None, headers: Headers::new(), notes }
}

fn pitched(class: PitchClass, octave: i8, length: Length) -> Note {
    Note { pitch: PitchOrRest::Pitch { class, octave }, length }
}

#[test]
fn pitch_numbers_count_half_steps_from_the_reference() {
    assert_eq!(pitch_to_number(&PitchOrRest::Pitch { class: PitchClass::A, octave: 0 }), 0);
    assert_eq!(pitch_to_number(&PitchOrRest::Pitch { class: PitchClass::A, octave: 1 }), 12);
    assert_eq!(pitch_to_number(&PitchOrRest::Pitch { class: PitchClass::B, octave: -1 }), -10);
    assert_eq!(pitch_to_number(&PitchOrRest::Pitch { class: PitchClass::GSharpAFlat, octave: 0 }), 11);
    assert_eq!(pitch_to_number(&PitchOrRest::Rest), 127);
}

#[test]
fn length_codes_follow_the_export_scale() {
    assert_eq!(length_to_num(&Length::Division(32)), 0);
    assert_eq!(length_to_num(&Length::Division(16)), 1);
    assert_eq!(length_to_num(&Length::Division(8)), 2);
    assert_eq!(length_to_num(&Length::Division(4)), 3);
    assert_eq!(length_to_num(&Length::Division(2)), 4);
    assert_eq!(length_to_num(&Length::Unit), 5);
    assert_eq!(length_to_num(&Length::Multiple(2)), 6);
    assert_eq!(length_to_num(&Length::Multiple(4)), 7);
    assert_eq!(length_to_num(&Length::Multiple(8)), 8);
    assert_eq!(length_to_num(&Length::Multiple(16)), 9);
}

#[test]
fn optimizing_keeps_first_occurrences_only() {
    let a = pitched(PitchClass::A, 0, Length::Unit);
    let b = pitched(PitchClass::B, 0, Length::Unit);
    let abc = song(vec![a, b, a, a, b]);
    let optimized = Optimized::from_abc(&abc);
    assert_eq!(optimized.uniques, vec![a, b]);
    assert_eq!(optimized.list, vec![0, 1, 0, 0, 1]);

    let empty = Optimized::from_abc(&song(vec![]));
    assert_eq!(empty.uniques.len(), 0);
    assert_eq!(empty.list.len(), 0);
}

#[test]
fn notes_differing_only_in_length_stay_distinct() {
    let short = pitched(PitchClass::A, 0, Length::Unit);
    let long = pitched(PitchClass::A, 0, Length::Multiple(2));
    let optimized = Optimized::from_abc(&song(vec![short, long, short]));
    assert_eq!(optimized.uniques.len(), 2);
    assert_eq!(optimized.list, vec![0, 1, 0]);
}

#[test]
fn the_exported_header_matches_character_for_character() {
    let abc = song(vec![pitched(PitchClass::A, 0, Length::Unit)]);
    let text = generate_c_header_string(&abc);
    let expected = "#ifndef ARDSOUND_SONG\n#define ARDSOUND_SONG\n\n// This is a song file\n\n#include <note.h>\n\nstruct Note note_lookup[] = {\n\t{ .pitch = -127, .length =  0 },\n\t{ .pitch =    0, .length =  5 }\n};\n\nshort song[] = {\n\t0,\n\t0\n};\n\n#endif\n";
    assert_eq!(text, expected);
}

#[test]
fn exported_entries_are_comma_separated() {
    let abc = song(vec![
        pitched(PitchClass::B, -1, Length::Multiple(2)),
        pitched(PitchClass::A, 0, Length::Unit),
    ]);
    let text = generate_c_header_string(&abc);
    assert!(text.contains("{ .pitch =  -10, .length =  6 },"));
    assert!(text.contains("{ .pitch =    0, .length =  5 }\n"));
    assert!(text.contains("\t0,\n\t1,\n\t0\n"));
}

#[test]
fn the_static_source_writes_the_reduced_song() {
    let abc = song(vec![pitched(PitchClass::A, 0, Length::Unit)]);
    let optimized = Optimized::from_abc(&abc);
    let text = generate_static_source("SONG", &optimized);
    let expected = "static SONG: OptimizedStatic<1, 1> = OptimizedStatic {\n    uniques: [\n        Note { pitch: PitchOrRest::Pitch { class: PitchClass::A, octave: 0 }, length: Length::Unit },\n    ],\n    list: [\n        0,\n    ],\n};\n";
    assert_eq!(text, expected);
}

#[test]
fn static_sources_render_every_length_form() {
    let abc = song(vec![
        pitched(PitchClass::CSharpDFlat, -2, Length::Multiple(3)),
        Note { pitch: PitchOrRest::Rest, length: Length::Division(8) },
    ]);
    let optimized = Optimized::from_abc(&abc);
    let text = generate_static_source("TUNE", &optimized);
    assert!(text.contains("static TUNE: OptimizedStatic<2, 2>"));
    assert!(text.contains(
        "Note { pitch: PitchOrRest::Pitch { class: PitchClass::CSharpDFlat, octave: -2 }, \
         length: Length::Multiple(3) },"
    ));
    assert!(text.contains("Note { pitch: PitchOrRest::Rest, length: Length::Division(8) },"));
}

#[test]
fn static_tables_are_indexable() {
    let table = OptimizedStatic::<2, 3> {
        uniques: [
            pitched(PitchClass::A, 0, Length::Unit),
            pitched(PitchClass::B, 0, Length::Unit),
        ],
        list: [1, 0, 7],
    };
    assert_eq!(table.note_at(0), Some(&pitched(PitchClass::B, 0, Length::Unit)));
    assert_eq!(table.note_at(1), Some(&pitched(PitchClass::A, 0, Length::Unit)));
    // an entry pointing outside the table, and an index past the list
    assert_eq!(table.note_at(2), None);
    assert_eq!(table.note_at(3), None);
}

#[test]
fn wrappers_render_their_values() {
    let note = Note {
        pitch: PitchOrRest::Pitch { class: PitchClass::ASharpBFlat, octave: -1 },
        length: Length::Multiple(3),
    };
    assert_eq!(
        NoteWrapper(note).to_display_string(),
        "Note { pitch: PitchOrRest::Pitch { class: PitchClass::A#/Bb, octave: -1 }, \
         length: Length::Multiple: 3 }"
    );
    assert_eq!(
        PitchOrRestWrapper(PitchOrRest::Rest).to_display_string(),
        "PitchOrRest::Rest"
    );
    assert_eq!(
        PitchClassWrapper(PitchClass::FSharpGFlat).to_display_string(),
        "PitchClass::F#/Gb"
    );
    assert_eq!(LengthWrapper(Length::Unit).to_display_string(), "Length::Unit");
    assert_eq!(
        LengthWrapper(Length::Division(16)).to_display_string(),
        "Length::Division: 16"
    );
}
