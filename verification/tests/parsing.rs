use ard_r_sound::abc::{Length, PitchClass, PitchOrRest};
use ard_r_sound::parse_tree;
use ard_r_sound::parser::{
    parse_abc, parse_information, parse_note_length, parse_version, ABCParser, ParseError,
};

#[test]
fn versions_split_on_the_first_dot() {
    let v = parse_version("2.1").unwrap();
    assert_eq!(v.major, 2);
    assert_eq!(v.minor, 1);

    let v = parse_version("12.0.extra").unwrap();
    assert_eq!(v.major, 12);
    assert_eq!(v.minor, 0);
}

#[test]
fn bad_versions_are_rejected() {
    assert_eq!(parse_version("2"), Err(ParseError::InvalidVersion));
    assert_eq!(parse_version(""), Err(ParseError::InvalidVersion));
    assert_eq!(parse_version("2."), Err(ParseError::InvalidVersion));
    assert_eq!(parse_version("300.1"), Err(ParseError::InvalidVersion));
    assert_eq!(parse_version("2.x"), Err(ParseError::InvalidVersion));
    assert_eq!(parse_version("a.1"), Err(ParseError::InvalidVersion));
}

#[test]
fn information_keys_are_single_characters() {
    let (key, value) = parse_information("T", "A Title").unwrap();
    assert_eq!(key, 'T');
    assert_eq!(value, "A Title");
    assert_eq!(parse_information("ab", "x"), Err(ParseError::InvalidInformation));
    assert_eq!(parse_information("", "x"), Err(ParseError::InvalidInformation));
}

#[test]
fn lengths_follow_the_slash_and_digit_runs() {
    assert_eq!(parse_note_length(""), Ok(parse_tree::Length::Default));
    assert_eq!(
        parse_note_length("2"),
        Ok(parse_tree::Length::Specified { divided: false, number: 2 })
    );
    assert_eq!(
        parse_note_length("/2"),
        Ok(parse_tree::Length::Specified { divided: true, number: 2 })
    );
    assert_eq!(
        parse_note_length("/"),
        Ok(parse_tree::Length::Specified { divided: true, number: 1 })
    );
    assert_eq!(
        parse_note_length("//"),
        Ok(parse_tree::Length::Specified { divided: true, number: 4 })
    );
    assert_eq!(
        parse_note_length("///"),
        Ok(parse_tree::Length::Specified { divided: true, number: 8 })
    );
}

#[test]
fn oversized_length_numbers_are_rejected() {
    // twenty-one digits exceed a 64-bit number
    assert_eq!(
        parse_note_length("999999999999999999999"),
        Err(ParseError::NumberTooLarge)
    );
    // sixty-four halvings exceed it as well
    let slashes: String = std::iter::repeat('/').take(64).collect();
    assert_eq!(parse_note_length(&slashes), Err(ParseError::NumberTooLarge));
    let slashes: String = std::iter::repeat('/').take(63).collect();
    assert_eq!(
        parse_note_length(&slashes),
        Ok(parse_tree::Length::Specified { divided: true, number: 1u64 << 63 })
    );
}

#[test]
fn a_full_file_parses_into_version_headers_and_notes() {
    let input = "%abc-2.1\nT:Mary\nK:C\nA B c2 z/2 ^a _b =c a' a,\n";
    let abc = parse_abc(input).unwrap();

    let version = abc.version.unwrap();
    assert_eq!(version.major, 2);
    assert_eq!(version.minor, 1);

    let titles = abc.headers.get('T').unwrap();
    assert_eq!(titles.len(), 1);
    assert_eq!(titles[0], "Mary");
    let keys = abc.headers.get('K').unwrap();
    assert_eq!(keys[0], "C");
    assert!(abc.headers.get('X').is_none());

    let pitches: Vec<PitchOrRest> = abc.notes.iter().map(|n| n.pitch).collect();
    assert_eq!(
        pitches,
        vec![
            PitchOrRest::Pitch { class: PitchClass::A, octave: 0 },
            PitchOrRest::Pitch { class: PitchClass::B, octave: 0 },
            PitchOrRest::Pitch { class: PitchClass::C, octave: 0 },
            PitchOrRest::Rest,
            PitchOrRest::Pitch { class: PitchClass::ASharpBFlat, octave: 0 },
            PitchOrRest::Pitch { class: PitchClass::ASharpBFlat, octave: 0 },
            PitchOrRest::Pitch { class: PitchClass::C, octave: 0 },
            PitchOrRest::Pitch { class: PitchClass::A, octave: 1 },
            PitchOrRest::Pitch { class: PitchClass::A, octave: -1 },
        ]
    );

    let lengths: Vec<Length> = abc.notes.iter().map(|n| n.length).collect();
    assert_eq!(
        lengths,
        vec![
            Length::Unit,
            Length::Unit,
            Length::Division(2),
            Length::Multiple(2),
            Length::Unit,
            Length::Unit,
            Length::Unit,
            Length::Unit,
            Length::Unit,
        ]
    );
}

#[test]
fn the_entry_point_and_the_parser_type_agree() {
    let a = ABCParser::parse("A z2\n").unwrap();
    let b = parse_abc("A z2\n").unwrap();
    assert_eq!(a.notes, b.notes);
    assert_eq!(a.notes.len(), 2);
}

#[test]
fn repeated_header_keys_collect_their_values() {
    let abc = parse_abc("T:first\nC:someone\nT:second\n").unwrap();
    let titles = abc.headers.get('T').unwrap();
    assert_eq!(titles.as_slice(), ["first", "second"]);
    let composers = abc.headers.get('C').unwrap();
    assert_eq!(composers.as_slice(), ["someone"]);
}

#[test]
fn the_version_is_read_only_from_the_first_line() {
    let abc = parse_abc("T:x\n%abc-9.9\nA\n").unwrap();
    assert!(abc.version.is_none());
    assert_eq!(abc.notes.len(), 1);
}

#[test]
fn an_unreadable_version_is_dropped_not_fatal() {
    let abc = parse_abc("%abc-xyz\nA\n").unwrap();
    assert!(abc.version.is_none());
    assert_eq!(abc.notes.len(), 1);
}

#[test]
fn comment_lines_and_blank_lines_are_ignored() {
    let abc = parse_abc("%abc-2.1\n\n% a remark\nA | B\n\n").unwrap();
    assert!(abc.version.is_some());
    assert_eq!(abc.notes.len(), 2);
}

#[test]
fn empty_input_is_an_empty_song() {
    let abc = parse_abc("").unwrap();
    assert!(abc.version.is_none());
    assert_eq!(abc.notes.len(), 0);
    assert_eq!(abc.headers.entries.len(), 0);
}

#[test]
fn stray_characters_in_the_body_are_rejected() {
    assert_eq!(parse_abc("?\n").unwrap_err(), ParseError::UnexpectedCharacter);
    assert_eq!(parse_abc("A !\n").unwrap_err(), ParseError::UnexpectedCharacter);
    // an accidental must be followed by a pitch letter
    assert_eq!(parse_abc("^2\n").unwrap_err(), ParseError::UnexpectedCharacter);
    assert_eq!(parse_abc("^\n").unwrap_err(), ParseError::UnexpectedCharacter);
}

#[test]
fn too_many_octave_marks_are_rejected() {
    let marks: String = std::iter::repeat('\'').take(128).collect();
    let input = format!("a{}\n", marks);
    assert_eq!(parse_abc(&input).unwrap_err(), ParseError::OctaveOutOfRange);

    let marks: String = std::iter::repeat('\'').take(127).collect();
    let input = format!("a{}\n", marks);
    let abc = parse_abc(&input).unwrap();
    assert_eq!(
        abc.notes[0].pitch,
        PitchOrRest::Pitch { class: PitchClass::A, octave: 127 }
    );
}

#[test]
fn accidentals_wrap_around_the_scale() {
    let abc = parse_abc("_a ^g =b ^^a\n").unwrap();
    let pitches: Vec<PitchOrRest> = abc.notes.iter().map(|n| n.pitch).collect();
    assert_eq!(
        pitches,
        vec![
            PitchOrRest::Pitch { class: PitchClass::GSharpAFlat, octave: 0 },
            PitchOrRest::Pitch { class: PitchClass::GSharpAFlat, octave: 0 },
            PitchOrRest::Pitch { class: PitchClass::B, octave: 0 },
            PitchOrRest::Pitch { class: PitchClass::B, octave: 0 },
        ]
    );
}

#[test]
fn rests_carry_lengths_like_notes() {
    let abc = parse_abc("z Z2 z/4\n").unwrap();
    let lengths: Vec<Length> = abc.notes.iter().map(|n| n.length).collect();
    assert_eq!(lengths, vec![Length::Unit, Length::Division(2), Length::Multiple(4)]);
    assert!(abc.notes.iter().all(|n| n.pitch == PitchOrRest::Rest));
}

#[test]
fn header_tables_group_by_first_appearance() {
    let mut headers = ard_r_sound::abc::Headers::new();
    headers.push_value('T', String::from("one"));
    headers.push_value('K', String::from("C"));
    headers.push_value('T', String::from("two"));
    assert_eq!(headers.entries.len(), 2);
    assert_eq!(headers.get('T').unwrap().as_slice(), ["one", "two"]);
    assert_eq!(headers.get('K').unwrap().as_slice(), ["C"]);
    assert!(headers.get('Q').is_none());
}

#[test]
fn the_default_song_is_empty() {
    let abc = ard_r_sound::abc::ABC::default();
    assert!(abc.version.is_none());
    assert_eq!(abc.headers.entries.len(), 0);
    assert_eq!(abc.notes.len(), 0);
}

#[test]
fn pitch_letters_name_the_natural_classes() {
    assert_eq!(PitchClass::try_from_char('G'), Ok(PitchClass::G));
    assert_eq!(PitchClass::try_from_char('d'), Ok(PitchClass::D));
    assert_eq!(PitchClass::try_from_char('x'), Err(()));
    assert_eq!(PitchClass::try_from_char('^'), Err(()));
}

#[test]
fn half_steps_cycle_through_all_twelve_classes() {
    let mut class = PitchClass::A;
    for _ in 0..12 {
        let up = class.half_step_up();
        assert_eq!(up.half_step_down(), class);
        class = up;
    }
    assert_eq!(class, PitchClass::A);
    assert_eq!(PitchClass::A.half_steps_from_a(), 0);
    assert_eq!(PitchClass::GSharpAFlat.half_steps_from_a(), 11);
}

#[test]
fn a_bad_pitch_letter_reports_invalid_pitch() {
    let written = parse_tree::Pitch::NonRest {
        accidentals: vec![],
        pitch_char: 'x',
        octaves: vec![],
    };
    assert_eq!(written.resolve(), Err(ParseError::InvalidPitch));
}

#[test]
fn resolving_a_written_note_applies_all_marks() {
    let written = parse_tree::NoteParse {
        pitch: parse_tree::Pitch::NonRest {
            accidentals: vec![parse_tree::Accidental::Sharp, parse_tree::Accidental::Sharp],
            pitch_char: 'a',
            octaves: vec![parse_tree::Octave::Up, parse_tree::Octave::Down, parse_tree::Octave::Up],
        },
        length: parse_tree::Length::Specified { divided: true, number: 3 },
    };
    let note = written.resolve().unwrap();
    assert_eq!(note.pitch, PitchOrRest::Pitch { class: PitchClass::B, octave: 1 });
    assert_eq!(note.length, Length::Multiple(3));
}
