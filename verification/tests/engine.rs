use ard_r_sound::abc::{ABC, Headers, Length, Note, PitchClass, PitchOrRest};
use ard_r_sound::duration::{note_total_samples, unit_samples};
use ard_r_sound::player::{AudioGenerator, SampleOut};
use ard_r_sound::timer_duration::{ActiveInactiveTimerDurations, Prescaler, TimerDuration};
use ard_r_sound::tone::ToneDriver;

fn song(notes: Vec<Note>) -> ABC {
    ABC { version: None, headers: Headers::new(), notes }
}

fn note(pitch: PitchOrRest, length: Length) -> Note {
    Note { pitch, length }
}

#[allow(non_snake_case)]
fn A0() -> PitchOrRest {
    PitchOrRest::Pitch { class: PitchClass::A, octave: 0 }
}

#[allow(non_snake_case)]
fn B0() -> PitchOrRest {
    PitchOrRest::Pitch { class: PitchClass::B, octave: 0 }
}

#[test]
fn unit_samples_at_sixty_bpm_is_a_quarter_second() {
    // 0.25 s at 44100 Hz
    assert_eq!(unit_samples(44100, 60), 11025);
    assert_eq!(unit_samples(44100, 120), 5512);
    assert_eq!(unit_samples(8, 60), 2);
}

#[test]
fn note_durations_scale_the_unit() {
    assert_eq!(note_total_samples(&Length::Unit, 11025), 11025);
    assert_eq!(note_total_samples(&Length::Multiple(2), 11025), 22050);
    assert_eq!(note_total_samples(&Length::Division(3), 10), 3);
    assert_eq!(note_total_samples(&Length::Division(0), 100), u32::MAX);
    assert_eq!(note_total_samples(&Length::Multiple(u64::MAX), 2), u32::MAX);
}

#[test]
fn unit_duration_ignores_pitch() {
    // the same length gives the same duration whatever the pitch
    let pitched = song(vec![note(A0(), Length::Unit)]);
    let rested = song(vec![note(PitchOrRest::Rest, Length::Unit)]);
    assert_eq!(pitched.total_playtime_samples(11025), 11025);
    assert_eq!(rested.total_playtime_samples(11025), 11025);
}

#[test]
fn total_playtime_sums_every_note() {
    let abc = song(vec![
        note(A0(), Length::Unit),
        note(B0(), Length::Multiple(2)),
        note(PitchOrRest::Rest, Length::Division(2)),
    ]);
    assert_eq!(abc.total_playtime_samples(11025), 11025 + 22050 + 5512);
    let empty = song(vec![]);
    assert_eq!(empty.total_playtime_samples(11025), 0);
}

#[test]
fn reference_pitch_is_440_hertz() {
    // scenario: one unit note of the reference pitch at 60 BPM
    let abc = song(vec![note(A0(), Length::Unit)]);
    assert_eq!(abc.total_playtime_samples(11025), 11025); // 0.25 s at 44100 Hz

    let steps = A0().half_steps_from_reference().unwrap();
    assert_eq!(steps, 0);
    let frequency = 440.0_f64 * 2.0_f64.powf(steps as f64 / 12.0);
    assert_eq!(frequency, 440.0);
}

#[test]
fn octave_up_doubles_the_frequency() {
    for octave in -3i8..4 {
        let lower = PitchOrRest::Pitch { class: PitchClass::D, octave };
        let upper = PitchOrRest::Pitch { class: PitchClass::D, octave: octave + 1 };
        let h1 = lower.half_steps_from_reference().unwrap();
        let h2 = upper.half_steps_from_reference().unwrap();
        assert_eq!(h2, h1 + 12);
        let f1 = 440.0_f64 * 2.0_f64.powf(h1 as f64 / 12.0);
        let f2 = 440.0_f64 * 2.0_f64.powf(h2 as f64 / 12.0);
        assert!((f2 - 2.0 * f1).abs() < 1e-9 * f1.abs());
    }
}

#[test]
fn first_sample_of_reference_note() {
    let abc = song(vec![note(A0(), Length::Unit)]);
    let mut generator = AudioGenerator::new(abc, 44100, 1);
    match generator.generate_and_tick() {
        Some(SampleOut::Tone { half_steps, sample_index, fade }) => {
            assert_eq!(half_steps, 0);
            assert_eq!(sample_index, 0);
            assert!(fade.is_none());
        }
        other => panic!("expected a tone, got {:?}", other),
    }
}

#[test]
fn rest_note_is_silent_for_its_whole_duration() {
    // scenario: one rest of two units at 60 BPM is 0.5 s of silence
    let abc = song(vec![note(PitchOrRest::Rest, Length::Multiple(2))]);
    assert_eq!(abc.total_playtime_samples(11025), 22050);
    let mut generator = AudioGenerator::new(abc, 44100, 1);
    let frames = generator.fill_output(22050);
    assert_eq!(frames.len(), 22050);
    assert!(frames.iter().all(|f| *f == SampleOut::Silence));
    // the song is over afterwards
    assert_eq!(generator.generate_and_tick(), None);
}

#[test]
fn sample_counter_never_resets_across_note_boundaries() {
    // two notes of two samples each: the counter must keep running
    let abc = song(vec![note(A0(), Length::Unit), note(B0(), Length::Unit)]);
    let mut generator = AudioGenerator::new(abc, 8, 1); // 2 samples per unit
    let mut expected_index = 0u32;
    for _ in 0..4 {
        match generator.generate_and_tick() {
            Some(SampleOut::Tone { sample_index, .. }) => {
                assert_eq!(sample_index, expected_index);
            }
            other => panic!("expected a tone, got {:?}", other),
        }
        expected_index += 1;
    }
    assert_eq!(generator.generate_and_tick(), None);
}

#[test]
fn fade_out_covers_the_final_tenth() {
    // a 20-sample note fades over its last 2 samples
    let abc = song(vec![note(A0(), Length::Multiple(10))]);
    let mut generator = AudioGenerator::new(abc, 8, 1); // unit = 2 samples, note = 20
    let mut fading = Vec::new();
    for _ in 0..20 {
        match generator.generate_and_tick() {
            Some(SampleOut::Tone { fade, .. }) => fading.push(fade),
            other => panic!("expected a tone, got {:?}", other),
        }
    }
    for (i, fade) in fading.iter().enumerate() {
        if i < 18 {
            assert!(fade.is_none(), "no fade expected at sample {}", i);
        } else {
            let ramp = fade.expect("fade expected in the final tenth");
            assert_eq!(ramp.total, 20);
            assert_eq!(ramp.remaining, 20 - i as u32);
        }
    }
}

#[test]
fn zero_length_notes_are_skipped() {
    let abc = song(vec![
        note(A0(), Length::Multiple(0)),
        note(B0(), Length::Unit),
    ]);
    let mut generator = AudioGenerator::new(abc, 8, 1);
    match generator.generate_and_tick() {
        Some(SampleOut::Tone { half_steps, .. }) => assert_eq!(half_steps, 2),
        other => panic!("expected the second note, got {:?}", other),
    }
}

#[test]
fn empty_song_generates_nothing() {
    let mut generator = AudioGenerator::new(song(vec![]), 44100, 2);
    assert_eq!(generator.generate_and_tick(), None);
    let frames = generator.fill_output(5);
    assert_eq!(frames.len(), 5);
    assert!(frames.iter().all(|f| *f == SampleOut::Silence));
}

#[test]
fn solver_keeps_small_counts_unscaled() {
    let d = TimerDuration::try_from_ticks(65535).unwrap();
    assert_eq!(d.ticks(), 65535);
    assert_eq!(d.prescale(), Prescaler::Direct);
    assert_eq!(d.total_ticks(), 65535);
}

#[test]
fn solver_steps_the_prescaler_by_eights() {
    let d = TimerDuration::try_from_ticks(65536).unwrap();
    assert_eq!(d.ticks(), 8192);
    assert_eq!(d.prescale(), Prescaler::Prescale8);
    assert_eq!(d.total_ticks(), 65536);

    let d = TimerDuration::try_from_ticks(524287).unwrap();
    assert_eq!(d.ticks(), 65535);
    assert_eq!(d.prescale(), Prescaler::Prescale8);

    let d = TimerDuration::try_from_ticks(524288).unwrap();
    assert_eq!(d.ticks(), 8192);
    assert_eq!(d.prescale(), Prescaler::Prescale64);

    let d = TimerDuration::try_from_ticks(4194303).unwrap();
    assert_eq!(d.ticks(), 65535);
    assert_eq!(d.prescale(), Prescaler::Prescale64);
}

#[test]
fn prescaler_factors_stay_in_the_supported_set() {
    let supported = [1u32, 8, 64, 256, 1024];
    for p in [
        Prescaler::Direct,
        Prescaler::Prescale8,
        Prescaler::Prescale64,
        Prescaler::Prescale256,
        Prescaler::Prescale1024,
    ] {
        assert!(supported.contains(&p.factor()));
    }
    // every solvable count lands on one of the supported factors
    for raw in [1u32, 70000, 600000, 4194303] {
        let d = TimerDuration::try_from_ticks(raw).unwrap();
        assert!(supported.contains(&d.prescale().factor()));
    }
}

#[test]
fn counts_needing_a_finer_step_are_rejected() {
    assert!(TimerDuration::try_from_ticks(4194304).is_err());
    assert!(TimerDuration::try_from_ticks(67108864).is_err());
    assert!(TimerDuration::try_from_ticks(u32::MAX).is_err());
}

#[test]
fn solver_splits_a_period_at_one_percent_duty() {
    // scenario: 440 Hz at a 16 MHz clock
    let period = 16_000_000u32 / 440;
    assert_eq!(period, 36363);
    let pair = ActiveInactiveTimerDurations::try_from_period_ticks(period).unwrap();
    assert_eq!(pair.active.ticks(), 363);
    assert_eq!(pair.active.prescale(), Prescaler::Direct);
    assert_eq!(pair.inactive.ticks(), 36000);
    assert_eq!(pair.inactive.prescale(), Prescaler::Direct);
}

#[test]
fn solved_durations_round_trip_the_period() {
    for period in [36363u32, 2_000_000, 100, 4_000_000] {
        let pair = ActiveInactiveTimerDurations::try_from_period_ticks(period).unwrap();
        let sum = pair.active.total_ticks() + pair.inactive.total_ticks();
        let slack = pair.active.prescale().factor() + pair.inactive.prescale().factor();
        assert!(sum <= period);
        assert!(period - sum < slack);
    }
}

#[test]
fn unrepresentable_periods_are_reported() {
    // a period past 65535 * 1024 ticks cannot be programmed
    assert!(ActiveInactiveTimerDurations::try_from_period_ticks(u32::MAX).is_err());
}

#[test]
fn tone_driver_programs_the_active_duration_first() {
    let mut driver = ToneDriver::new();
    let command = driver.set_period_ticks(36363).unwrap();
    assert_eq!(command.counter, 0);
    assert_eq!(command.compare, 363);
    assert_eq!(command.clock, Some(Prescaler::Direct));
    assert_eq!(command.pin, Some(true));
}

#[test]
fn compare_match_alternates_and_uses_its_own_duration() {
    let mut driver = ToneDriver::new();
    driver.set_period_ticks(36363).unwrap();

    // active -> inactive: the inactive duration is programmed, pin low
    let command = driver.on_compare_match().expect("a playing driver reprograms");
    assert_eq!(command.compare, 36000);
    assert_eq!(command.pin, Some(false));

    // inactive -> active: back to the active duration, pin high
    let command = driver.on_compare_match().expect("a playing driver reprograms");
    assert_eq!(command.compare, 363);
    assert_eq!(command.pin, Some(true));
}

#[test]
fn disable_clears_the_slot_and_stops_the_clock() {
    let mut driver = ToneDriver::new();
    driver.set_period_ticks(36363).unwrap();
    let command = driver.disable_clock();
    assert_eq!(command.clock, None);
    assert_eq!(command.compare, 0);
    assert_eq!(command.counter, 0);
    // a disabled driver ignores compare matches
    assert_eq!(driver.on_compare_match(), None);
}

#[test]
fn rejected_frequencies_leave_the_driver_unchanged() {
    let mut driver = ToneDriver::new();
    assert!(driver.set_period_ticks(u32::MAX).is_err());
    assert_eq!(driver.on_compare_match(), None);
}

#[test]
fn the_generator_emits_exactly_the_total_playtime() {
    let abc = song(vec![
        note(A0(), Length::Unit),
        note(PitchOrRest::Rest, Length::Division(3)),
        note(B0(), Length::Multiple(2)),
    ]);
    let total = abc.total_playtime_samples(unit_samples(8, 60));
    let mut generator = AudioGenerator::new(abc, 8, 1);
    let mut emitted = 0u128;
    while generator.generate_and_tick().is_some() {
        emitted += 1;
    }
    assert_eq!(emitted, total);
}

#[test]
fn the_whole_note_view_hands_out_one_note_per_call() {
    let abc = song(vec![
        note(A0(), Length::Unit),
        note(PitchOrRest::Rest, Length::Multiple(2)),
        note(B0(), Length::Division(4)),
    ]);
    let mut sequencer = ard_r_sound::sequencer::NoteSequencer::new(abc);
    // unit of one second, measured in microseconds
    assert_eq!(sequencer.next(1_000_000), Some((Some(0), 1_000_000)));
    assert_eq!(sequencer.next(1_000_000), Some((None, 2_000_000)));
    assert_eq!(sequencer.next(1_000_000), Some((Some(2), 250_000)));
    assert_eq!(sequencer.next(1_000_000), None);
    assert_eq!(sequencer.next(1_000_000), None);
}

#[test]
fn samples_serialize_little_endian() {
    let bytes = ard_r_sound::player::samples_to_le_bytes(&vec![-1i16, 258]);
    assert_eq!(bytes, vec![255u8, 255, 2, 1]);
}
