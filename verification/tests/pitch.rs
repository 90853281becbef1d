use polysynth::detune::{detune_oscillator, detuned_frequencies};
use polysynth::key_mapping::{get_pitch_class, Key, Note, PitchClass};
use polysynth::level::{compute_root_gain, floor_sqrt, fraction_level, scale, UNITY};
use polysynth::pitch::frequency_of_pitch;

#[test]
fn pitch_class_new_keeps_its_arguments() {
    let p = PitchClass::new(Note::FSharp, 3);
    assert_eq!(p.note, Note::FSharp);
    assert_eq!(p.octave, 3);
    assert_eq!(p, PitchClass { note: Note::FSharp, octave: 3 });
}

#[test]
fn note_index_counts_semitones_from_c() {
    let notes = [
        Note::C,
        Note::CSharp,
        Note::D,
        Note::DSharp,
        Note::E,
        Note::F,
        Note::FSharp,
        Note::G,
        Note::GSharp,
        Note::A,
        Note::ASharp,
        Note::B,
    ];
    for (i, note) in notes.iter().enumerate() {
        assert_eq!(note.index(), i as i32);
    }
}

#[test]
fn keys_map_to_their_pitches() {
    let expected = [
        (Key::W, Note::C, 3),
        (Key::X, Note::D, 3),
        (Key::C, Note::E, 3),
        (Key::V, Note::F, 3),
        (Key::B, Note::G, 3),
        (Key::N, Note::A, 3),
        (Key::Comma, Note::B, 3),
        (Key::Dot, Note::C, 4),
        (Key::Slash, Note::D, 4),
        (Key::A, Note::C, 4),
        (Key::Z, Note::D, 4),
        (Key::E, Note::E, 4),
        (Key::R, Note::F, 4),
        (Key::T, Note::G, 4),
        (Key::Y, Note::A, 4),
        (Key::U, Note::B, 4),
        (Key::I, Note::C, 5),
        (Key::O, Note::D, 5),
        (Key::P, Note::E, 5),
        (Key::S, Note::CSharp, 3),
        (Key::D, Note::DSharp, 3),
        (Key::G, Note::FSharp, 3),
        (Key::H, Note::GSharp, 3),
        (Key::J, Note::ASharp, 3),
        (Key::L, Note::CSharp, 4),
        (Key::Semicolon, Note::DSharp, 4),
        (Key::Key2, Note::CSharp, 4),
        (Key::Key3, Note::DSharp, 4),
        (Key::Key5, Note::FSharp, 4),
        (Key::Key6, Note::GSharp, 4),
        (Key::Key7, Note::ASharp, 4),
        (Key::Key9, Note::CSharp, 5),
        (Key::Key0, Note::DSharp, 5),
    ];
    for (key, note, octave) in expected {
        assert_eq!(get_pitch_class(&key), Some(PitchClass::new(note, octave)), "{:?}", key);
    }
}

#[test]
fn other_keys_play_no_pitch() {
    for key in [Key::Space, Key::Escape, Key::Q, Key::F, Key::K, Key::M, Key::Key1, Key::Key4, Key::Key8, Key::Enter, Key::F1] {
        assert_eq!(get_pitch_class(&key), None, "{:?}", key);
    }
}

#[test]
fn a4_is_440_hertz_and_c4_is_middle_c() {
    assert_eq!(frequency_of_pitch(&PitchClass::new(Note::A, 4)), Some(440_000));
    assert_eq!(frequency_of_pitch(&PitchClass::new(Note::C, 4)), Some(261_625));
    assert_eq!(frequency_of_pitch(&PitchClass::new(Note::A, 3)), Some(220_000));
    assert_eq!(frequency_of_pitch(&PitchClass::new(Note::A, 5)), Some(880_000));
    assert_eq!(frequency_of_pitch(&PitchClass::new(Note::C, 0)), Some(16_351));
    assert_eq!(frequency_of_pitch(&PitchClass::new(Note::B, 9)), Some(15_804_265));
}

#[test]
fn frequencies_follow_equal_temperament() {
    let notes = [
        Note::C,
        Note::CSharp,
        Note::D,
        Note::DSharp,
        Note::E,
        Note::F,
        Note::FSharp,
        Note::G,
        Note::GSharp,
        Note::A,
        Note::ASharp,
        Note::B,
    ];
    for octave in 0..10 {
        for (i, note) in notes.iter().enumerate() {
            let semitones = (octave - 4) * 12 + (i as i32 - 9);
            let exact = 440_000.0 * 2f64.powf(semitones as f64 / 12.0);
            let got = frequency_of_pitch(&PitchClass::new(*note, octave)).unwrap();
            assert!((got as f64 - exact).abs() <= 1.0 + exact * 1e-9, "{:?}{}: {} vs {}", note, octave, got, exact);
            assert!(got as f64 <= exact + exact * 1e-9);
        }
    }
}

#[test]
fn octaves_outside_the_range_have_no_frequency() {
    assert_eq!(frequency_of_pitch(&PitchClass::new(Note::A, -1)), None);
    assert_eq!(frequency_of_pitch(&PitchClass::new(Note::A, 10)), None);
    assert_eq!(frequency_of_pitch(&PitchClass::new(Note::C, i32::MIN)), None);
    assert_eq!(frequency_of_pitch(&PitchClass::new(Note::B, i32::MAX)), None);
}

#[test]
fn no_detune_keeps_every_oscillator_at_the_base() {
    for count in [1u32, 2, 3, 4, 7, 64] {
        let bank = detuned_frequencies(440_000, 0, count);
        assert_eq!(bank.len(), count as usize);
        assert!(bank.iter().all(|f| *f == 440_000));
    }
}

#[test]
fn one_oscillator_ignores_detune() {
    assert_eq!(detuned_frequencies(440_000, UNITY, 1), vec![440_000]);
    assert_eq!(detuned_frequencies(440_000, 123_456, 1), vec![440_000]);
}

#[test]
fn no_oscillators_give_an_empty_bank() {
    assert_eq!(detuned_frequencies(440_000, 100_000, 0), Vec::<u64>::new());
}

#[test]
fn four_oscillators_spread_in_thirds_of_the_range() {
    assert_eq!(detuned_frequencies(440_000, 100_000, 4), vec![418_000, 432_667, 447_333, 462_000]);
    assert_eq!(detuned_frequencies(261_625, UNITY, 4), vec![130_813, 218_021, 305_229, 392_437]);
    let f: u64 = 311_127;
    let d: u64 = 37_000;
    let half = f * d / 2_000_000;
    let sixth = f * d / 6_000_000;
    assert_eq!(detuned_frequencies(f, d as u32, 4), vec![f - half, f - sixth, f + sixth, f + half]);
}

#[test]
fn other_counts_spread_evenly_and_symmetrically() {
    assert_eq!(detuned_frequencies(440_000, 100_000, 2), vec![418_000, 462_000]);
    assert_eq!(detuned_frequencies(440_000, 100_000, 3), vec![418_000, 440_000, 462_000]);
    let bank = detuned_frequencies(440_000, 333_333, 9);
    for i in 0..9 {
        assert_eq!(bank[i] + bank[8 - i], 880_000);
        assert_eq!(bank[i], detune_oscillator(440_000, 333_333, 9, i as u32));
    }
    assert!(bank.windows(2).all(|w| w[0] < w[1]));
}

#[test]
fn detune_holds_at_the_largest_base() {
    let base = 0x7FFF_FFFF_FFFF_FFFFu64;
    let bank = detuned_frequencies(base, UNITY, 2);
    assert_eq!(bank, vec![base - base / 2, base + base / 2]);
}

#[test]
fn root_gain_is_one_over_the_square_root() {
    assert_eq!(compute_root_gain(0), UNITY);
    assert_eq!(compute_root_gain(1), UNITY);
    assert_eq!(compute_root_gain(2), 707_106);
    assert_eq!(compute_root_gain(3), 577_350);
    assert_eq!(compute_root_gain(4), 500_000);
    assert_eq!(compute_root_gain(9), 333_333);
    assert_eq!(compute_root_gain(16), 250_000);
    assert_eq!(compute_root_gain(u64::MAX), 0);
}

#[test]
fn floor_sqrt_rounds_down() {
    assert_eq!(floor_sqrt(0), 0);
    assert_eq!(floor_sqrt(1), 1);
    assert_eq!(floor_sqrt(3), 1);
    assert_eq!(floor_sqrt(4), 2);
    assert_eq!(floor_sqrt(99), 9);
    assert_eq!(floor_sqrt(1_000_000_000_000), 1_000_000);
    assert_eq!(floor_sqrt(u64::MAX), 4_294_967_295);
}

#[test]
fn scale_rounds_toward_zero() {
    assert_eq!(scale(1_000_000, 800_000), 800_000);
    assert_eq!(scale(-1_000_000, 800_000), -800_000);
    assert_eq!(scale(3, 500_000), 1);
    assert_eq!(scale(-3, 500_000), -1);
    assert_eq!(scale(123_456_789, UNITY), 123_456_789);
    assert_eq!(scale(123_456_789, 0), 0);
    assert_eq!(scale(1_600_000, 707_106), 1_131_369);
    let big: i128 = 1 << 126;
    assert_eq!(scale(big, UNITY), big);
    assert_eq!(scale(-big, 500_000), -(big / 2));
}

#[test]
fn fraction_level_rounds_toward_zero() {
    assert_eq!(fraction_level(1, 3), 333_333);
    assert_eq!(fraction_level(-1, 3), -333_333);
    assert_eq!(fraction_level(3, 3), 1_000_000);
    assert_eq!(fraction_level(-3, 3), -1_000_000);
    assert_eq!(fraction_level(0, 7), 0);
    assert_eq!(fraction_level(u64::MAX as i128, u64::MAX), 1_000_000);
}
