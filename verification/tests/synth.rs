use polysynth::adsr::ADSR;
use polysynth::clock::Clock;
use polysynth::envelope::EnvelopeStage;
use polysynth::key_mapping::Key;
use polysynth::level::UNITY;
use polysynth::mixing::{mix_voices, scale_voice};
use polysynth::synth::Synth;
use polysynth::waveform::{SineTable, WaveForm};

fn sine_table(len: usize) -> SineTable {
    let samples: Vec<i32> = (0..len)
        .map(|i| {
            let turn = i as f64 / len as f64;
            ((turn * std::f64::consts::TAU).sin() * UNITY as f64).round() as i32
        })
        .collect();
    SineTable::new(samples).unwrap()
}

fn synth() -> Synth {
    Synth::new(44_100, ADSR::new(100, 1000, UNITY, 350), sine_table(1024))
}

fn keys(s: &Synth) -> Vec<Key> {
    s.voices.iter().map(|v| v.key).collect()
}

#[test]
fn new_synth_has_the_default_settings() {
    let s = synth();
    assert_eq!(s.sample_rate, 44_100);
    assert_eq!(s.get_sample_clock(), 0);
    assert!(s.voices.is_empty());
    assert_eq!(s.current_waveform(), WaveForm::Sine);
    assert_eq!(s.detune, 0);
    assert_eq!(s.num_oscillators, 4);
    assert_eq!(s.master_volume(), UNITY);
    assert_eq!(s.active_voice_count(), 0);
    assert_eq!(s.adsr.attack, 100);
    assert_eq!(s.sine.samples.len(), 1024);
}

#[test]
fn frequency_resolves_keys() {
    let s = synth();
    assert_eq!(s.frequency(Key::A), Some(261_625));
    assert_eq!(s.frequency(Key::Dot), Some(261_625));
    assert_eq!(s.frequency(Key::Y), Some(440_000));
    assert_eq!(s.frequency(Key::N), Some(220_000));
    assert_eq!(s.frequency(Key::W), Some(130_812));
    assert_eq!(s.frequency(Key::P), Some(659_255));
    assert_eq!(s.frequency(Key::Space), None);
    assert_eq!(s.frequency(Key::Q), None);
}

#[test]
fn add_note_creates_a_voice() {
    let mut s = synth();
    s.add_note_at(Key::A, 5);
    assert_eq!(s.active_voice_count(), 1);
    let voice = &s.voices[0];
    assert_eq!(voice.key, Key::A);
    assert_eq!(voice.envelope.stage, EnvelopeStage::Attack);
    assert_eq!(voice.envelope.start_time, 5);
    assert_eq!(voice.envelope.amplitude, 0);
    assert_eq!(voice.envelope.adsr.decay, 1000);
    assert_eq!(voice.oscillators.len(), 4);
    for osc in &voice.oscillators {
        assert_eq!(osc.frequency, 261_625);
        assert_eq!(osc.waveform, WaveForm::Sine);
    }
}

#[test]
fn add_note_uses_the_present_detune_and_waveform() {
    let mut s = synth();
    s.set_detune(100_000);
    s.toggle_waveform();
    s.add_note_at(Key::Y, 0);
    let freqs: Vec<u64> = s.voices[0].oscillators.iter().map(|o| o.frequency).collect();
    assert_eq!(freqs, vec![418_000, 432_667, 447_333, 462_000]);
    assert!(s.voices[0].oscillators.iter().all(|o| o.waveform == WaveForm::Saw));
    assert_eq!(s.get_detuned_frequencies(440_000), freqs);
}

#[test]
fn add_note_twice_does_not_reset_the_envelope() {
    let mut s = synth();
    s.add_note_at(Key::A, 0);
    s.update_envelope_at(60);
    assert_eq!(s.voices[0].envelope.amplitude, 600_000);
    s.add_note_at(Key::A, 60);
    assert_eq!(s.active_voice_count(), 1);
    assert_eq!(s.voices[0].envelope.stage, EnvelopeStage::Attack);
    assert_eq!(s.voices[0].envelope.amplitude, 600_000);
    assert_eq!(s.voices[0].envelope.start_time, 0);
    s.update_envelope_at(100);
    s.update_envelope_at(400);
    s.add_note_at(Key::A, 400);
    assert_eq!(s.voices[0].envelope.stage, EnvelopeStage::Decay);
    assert_eq!(s.voices[0].envelope.start_time, 100);
    assert_eq!(s.active_voice_count(), 1);
}

#[test]
fn add_note_ignores_keys_without_a_pitch() {
    let mut s = synth();
    s.add_note_at(Key::Space, 0);
    s.add_note_at(Key::Escape, 0);
    assert_eq!(s.active_voice_count(), 0);
    assert_eq!(s.get_polyphonic_scaling_factor(), UNITY);
}

#[test]
fn add_note_during_release_leaves_the_voice() {
    let mut s = synth();
    s.add_note_at(Key::A, 0);
    s.update_envelope_at(100);
    s.remove_note_at(Key::A, 100);
    s.add_note_at(Key::A, 150);
    assert_eq!(s.active_voice_count(), 1);
    assert_eq!(s.voices[0].envelope.stage, EnvelopeStage::Release);
    assert_eq!(s.voices[0].envelope.start_time, 100);
}

#[test]
fn remove_note_releases_and_keeps_the_voice() {
    let mut s = synth();
    s.add_note_at(Key::A, 0);
    s.add_note_at(Key::Y, 0);
    s.update_envelope_at(40);
    s.remove_note_at(Key::A, 40);
    assert_eq!(keys(&s), vec![Key::A, Key::Y]);
    assert_eq!(s.voices[0].envelope.stage, EnvelopeStage::Release);
    assert_eq!(s.voices[0].envelope.release_start_amplitude, 400_000);
    assert_eq!(s.voices[0].envelope.start_time, 40);
    assert_eq!(s.voices[0].oscillators.len(), 4);
    assert_eq!(s.voices[1].envelope.stage, EnvelopeStage::Attack);
    assert_eq!(s.voices[1].envelope.start_time, 0);
}

#[test]
fn remove_note_on_an_inactive_key_changes_nothing() {
    let mut s = synth();
    s.remove_note_at(Key::A, 10);
    assert_eq!(s.active_voice_count(), 0);
    s.add_note_at(Key::Y, 0);
    s.update_envelope_at(30);
    s.remove_note_at(Key::A, 30);
    s.remove_note_at(Key::Space, 30);
    assert_eq!(keys(&s), vec![Key::Y]);
    assert_eq!(s.voices[0].envelope.stage, EnvelopeStage::Attack);
    assert_eq!(s.voices[0].envelope.amplitude, 300_000);
    assert_eq!(s.voices[0].envelope.start_time, 0);
    assert_eq!(s.voices[0].envelope.release_start_amplitude, 0);
}

#[test]
fn remove_note_twice_keeps_the_first_release() {
    let mut s = synth();
    s.add_note_at(Key::A, 0);
    s.update_envelope_at(50);
    s.remove_note_at(Key::A, 50);
    s.update_envelope_at(120);
    s.remove_note_at(Key::A, 120);
    assert_eq!(s.voices[0].envelope.start_time, 50);
    assert_eq!(s.voices[0].envelope.release_start_amplitude, 500_000);
    assert_eq!(s.voices[0].envelope.amplitude, 400_000);
}

#[test]
fn set_detune_retunes_every_voice_in_place() {
    let mut s = synth();
    s.add_note_at(Key::Y, 0);
    s.add_note_at(Key::A, 0);
    s.update_envelope_at(50);
    s.set_detune(UNITY);
    assert_eq!(s.detune, UNITY);
    let y: Vec<u64> = s.voices[0].oscillators.iter().map(|o| o.frequency).collect();
    let a: Vec<u64> = s.voices[1].oscillators.iter().map(|o| o.frequency).collect();
    assert_eq!(y, vec![220_000, 366_667, 513_333, 660_000]);
    assert_eq!(a, vec![130_813, 218_021, 305_229, 392_437]);
    assert_eq!(s.voices[0].envelope.amplitude, 500_000);
    assert!(s.voices[0].oscillators.iter().all(|o| o.waveform == WaveForm::Sine));
    s.set_detune(0);
    assert!(s.voices[0].oscillators.iter().all(|o| o.frequency == 440_000));
    assert!(s.voices[1].oscillators.iter().all(|o| o.frequency == 261_625));
}

#[test]
fn toggle_waveform_reaches_every_oscillator() {
    let mut s = synth();
    s.add_note_at(Key::Y, 0);
    s.add_note_at(Key::A, 0);
    let order = [
        WaveForm::Saw,
        WaveForm::Square,
        WaveForm::Pulse,
        WaveForm::Triangle,
        WaveForm::WhiteNoise,
        WaveForm::Sine,
    ];
    for expected in order {
        s.toggle_waveform();
        assert_eq!(s.current_waveform(), expected);
        for voice in &s.voices {
            assert!(voice.oscillators.iter().all(|o| o.waveform == expected));
        }
    }
    assert!(s.voices[0].oscillators.iter().all(|o| o.frequency == 440_000));
}

#[test]
fn master_volume_is_held_to_the_range() {
    let mut s = synth();
    s.set_master_volume(800_000);
    assert_eq!(s.master_volume(), 800_000);
    s.set_master_volume(0);
    assert_eq!(s.master_volume(), 0);
    s.set_master_volume(UNITY + 1);
    assert_eq!(s.master_volume(), UNITY);
    s.set_master_volume(u32::MAX);
    assert_eq!(s.master_volume(), UNITY);
}

#[test]
fn sample_clock_counts_and_wraps() {
    let mut s = synth();
    s.increment_sample_clock();
    s.increment_sample_clock();
    assert_eq!(s.get_sample_clock(), 2);
    s.sample_clock = u64::MAX;
    s.increment_sample_clock();
    assert_eq!(s.get_sample_clock(), 0);
}

#[test]
fn polyphonic_scaling_is_one_over_the_root_of_the_voices() {
    let mut s = synth();
    assert_eq!(s.get_polyphonic_scaling_factor(), UNITY);
    let nine = [Key::A, Key::Z, Key::E, Key::R, Key::T, Key::Y, Key::U, Key::I, Key::O];
    let mut factors = Vec::new();
    for key in nine {
        s.add_note_at(key, 0);
        factors.push(s.get_polyphonic_scaling_factor());
    }
    assert_eq!(factors[0], UNITY);
    assert_eq!(factors[1], 707_106);
    assert_eq!(factors[3], 500_000);
    assert_eq!(factors[8], 333_333);
}

#[test]
fn update_envelope_updates_every_voice() {
    let mut s = synth();
    s.add_note_at(Key::A, 0);
    s.add_note_at(Key::Y, 20);
    s.update_envelope_at(70);
    assert_eq!(s.voices[0].envelope.amplitude, 700_000);
    assert_eq!(s.voices[1].envelope.amplitude, 500_000);
    s.update_envelope_at(110);
    assert_eq!(s.voices[0].envelope.stage, EnvelopeStage::Decay);
    assert_eq!(s.voices[1].envelope.stage, EnvelopeStage::Attack);
}

#[test]
fn voice_sample_sums_normalizes_and_scales() {
    let mut s = synth();
    s.toggle_waveform();
    s.add_note_at(Key::Y, 0);
    s.increment_sample_clock();
    assert_eq!(s.generate_waveform(Key::Y), 0);
    s.update_envelope_at(100);
    // Four saws at -980045 each, brought down by the root of four.
    assert_eq!(s.generate_waveform(Key::Y), -1_960_090);
    assert_eq!(s.voice_sample(0), -1_960_090);
    s.set_master_volume(800_000);
    assert_eq!(s.generate_waveform(Key::Y), -1_568_072);
    s.update_envelope_at(600);
    assert_eq!(s.voices[0].envelope.amplitude, UNITY);
}

#[test]
fn voice_sample_follows_the_envelope() {
    let mut s = synth();
    s.toggle_waveform();
    s.toggle_waveform();
    s.add_note_at(Key::Y, 0);
    s.update_envelope_at(25);
    // Four squares at full scale, halved, at a quarter of the attack.
    assert_eq!(s.generate_waveform(Key::Y), 500_000);
    s.update_envelope_at(50);
    assert_eq!(s.generate_waveform(Key::Y), 1_000_000);
}

#[test]
fn voice_sample_handles_banks_that_are_no_multiple_of_four() {
    for count in [1u32, 2, 3, 5, 6, 7, 8, 9] {
        let mut s = synth();
        s.num_oscillators = count;
        s.toggle_waveform();
        s.toggle_waveform();
        s.add_note_at(Key::Y, 0);
        s.update_envelope_at(100);
        let gain = polysynth::level::compute_root_gain(count as u64) as i64;
        assert_eq!(s.generate_waveform(Key::Y), count as i64 * gain, "{} oscillators", count);
    }
}

#[test]
fn generate_waveform_is_silent_for_a_key_without_a_voice() {
    let mut s = synth();
    assert_eq!(s.generate_waveform(Key::A), 0);
    s.add_note_at(Key::Y, 0);
    s.update_envelope_at(100);
    assert_eq!(s.generate_waveform(Key::A), 0);
    assert_eq!(s.generate_waveform(Key::Space), 0);
}

#[test]
fn two_voices_at_full_sustain_contribute_volume_each() {
    let mut s = synth();
    s.num_oscillators = 1;
    s.set_master_volume(800_000);
    s.toggle_waveform();
    s.toggle_waveform();
    s.add_note_at(Key::A, 0);
    s.add_note_at(Key::Y, 0);
    s.update_envelope_at(100);
    s.update_envelope_at(1100);
    assert_eq!(s.voices[0].envelope.stage, EnvelopeStage::Sustain);
    assert_eq!(s.voices[0].envelope.amplitude, UNITY);
    assert_eq!(s.voices[1].envelope.amplitude, UNITY);
    assert_eq!(s.generate_waveform(Key::A), 800_000);
    assert_eq!(s.generate_waveform(Key::Y), 800_000);
    assert_eq!(s.mix_sample(), 1_600_000);
    assert_eq!(s.get_polyphonic_scaling_factor(), 707_106);
}

#[test]
fn mix_leaves_finished_voices_out() {
    let mut s = synth();
    s.num_oscillators = 1;
    s.toggle_waveform();
    s.toggle_waveform();
    s.add_note_at(Key::A, 0);
    s.add_note_at(Key::Y, 0);
    s.update_envelope_at(100);
    s.remove_note_at(Key::A, 100);
    s.update_envelope_at(450);
    assert_eq!(s.voices[0].envelope.stage, EnvelopeStage::Finished);
    assert_eq!(s.mix_sample(), 1_000_000);
    s.sweep();
    assert_eq!(keys(&s), vec![Key::Y]);
    assert_eq!(s.mix_sample(), 1_000_000);
}

#[test]
fn sweep_drops_finished_voices_and_keeps_the_order() {
    let mut s = synth();
    for key in [Key::A, Key::Z, Key::E, Key::R, Key::T] {
        s.add_note_at(key, 0);
    }
    s.update_envelope_at(100);
    s.remove_note_at(Key::A, 100);
    s.remove_note_at(Key::E, 100);
    s.remove_note_at(Key::T, 300);
    s.update_envelope_at(450);
    s.sweep();
    assert_eq!(keys(&s), vec![Key::Z, Key::R, Key::T]);
    assert_eq!(s.voices[2].envelope.stage, EnvelopeStage::Release);
    assert_eq!(s.voices[0].oscillators.len(), 4);
    s.update_envelope_at(650);
    s.sweep();
    assert_eq!(keys(&s), vec![Key::Z, Key::R]);
    s.sweep();
    assert_eq!(keys(&s), vec![Key::Z, Key::R]);
}

#[test]
fn white_noise_voice_stays_in_range() {
    let mut s = synth();
    for _ in 0..5 {
        s.toggle_waveform();
    }
    assert_eq!(s.current_waveform(), WaveForm::WhiteNoise);
    s.add_note_at(Key::Y, 0);
    s.update_envelope_at(100);
    let mut seen = std::collections::HashSet::new();
    for _ in 0..500 {
        let sample = s.generate_waveform(Key::Y);
        assert!(sample.abs() <= 4 * UNITY as i64);
        seen.insert(sample);
        s.increment_sample_clock();
    }
    assert!(seen.len() > 50);
}

#[test]
fn clock_driven_calls_act_on_the_registry() {
    let mut s = synth();
    s.add_note(Key::A);
    s.add_note(Key::A);
    s.add_note(Key::Space);
    assert_eq!(keys(&s), vec![Key::A]);
    assert_eq!(s.voices[0].envelope.stage, EnvelopeStage::Attack);
    s.update_envelope();
    assert!(s.voices[0].envelope.amplitude <= UNITY);
    s.remove_note(Key::A);
    assert_eq!(s.voices[0].envelope.stage, EnvelopeStage::Release);
    s.remove_note(Key::Y);
    assert_eq!(keys(&s), vec![Key::A]);
}

#[test]
fn clock_counts_milliseconds_forward() {
    let clock = Clock::start();
    let started = std::time::Instant::now();
    let first = clock.now();
    assert!(first < 1000);
    let mut last = first;
    while started.elapsed() < std::time::Duration::from_millis(30) {
        let now = clock.now();
        assert!(now >= last);
        last = now;
    }
    let second = clock.now();
    assert!(second >= first + 25);
    assert!(second < first + 5000);
}

#[test]
fn clock_holds_milliseconds_to_64_bits() {
    assert_eq!(Clock::hold_millis(0), 0);
    assert_eq!(Clock::hold_millis(1_234), 1_234);
    assert_eq!(Clock::hold_millis(u64::MAX as u128), u64::MAX);
    assert_eq!(Clock::hold_millis(u64::MAX as u128 + 1), u64::MAX);
    assert_eq!(Clock::hold_millis(u128::MAX), u64::MAX);
}

#[test]
fn scale_voice_sums_normalizes_and_scales() {
    let saws = vec![-980_045; 4];
    assert_eq!(scale_voice(&saws, UNITY, UNITY), -1_960_090);
    assert_eq!(scale_voice(&saws, UNITY, 800_000), -1_568_072);
    assert_eq!(scale_voice(&saws, 500_000, UNITY), -980_045);
    assert_eq!(scale_voice(&saws, 0, UNITY), 0);
    assert_eq!(scale_voice(&saws, UNITY, 0), 0);
    assert_eq!(scale_voice(&vec![1_000_000], UNITY, 800_000), 800_000);
    assert_eq!(scale_voice(&vec![1_000_000; 9], UNITY, UNITY), 2_999_997);
    assert_eq!(scale_voice(&vec![1_000_000, -1_000_000], UNITY, UNITY), 0);
    assert_eq!(scale_voice(&vec![1, 2, 3, 4, 5, 6, 7], UNITY, UNITY), 10);
    assert_eq!(scale_voice(&vec![100, 200, 300, 400, 500], 500_000, 500_000), 167);
    assert_eq!(scale_voice(&Vec::new(), UNITY, UNITY), 0);
}

#[test]
fn scale_voice_does_not_depend_on_the_order_of_the_samples() {
    let a = vec![900_000, -123_456, 7, 400_000, -1_000_000, 55_555];
    let mut b = a.clone();
    b.reverse();
    let mut c = a.clone();
    c.rotate_left(2);
    let expected = scale_voice(&a, 700_000, 800_000);
    // 232106 / sqrt(6) = 94756, times 0.7 = 66329, times 0.8 = 53063.
    assert_eq!(expected, 53_063);
    assert_eq!(scale_voice(&b, 700_000, 800_000), expected);
    assert_eq!(scale_voice(&c, 700_000, 800_000), expected);
}

#[test]
fn mix_voices_adds_the_samples() {
    assert_eq!(mix_voices(&Vec::new()), 0);
    assert_eq!(mix_voices(&vec![800_000, 800_000]), 1_600_000);
    assert_eq!(mix_voices(&vec![5, -7, 0, 100]), 98);
    assert_eq!(mix_voices(&vec![i64::MAX, i64::MAX, i64::MAX]), 3 * i64::MAX as i128);
    assert_eq!(mix_voices(&vec![i64::MIN, i64::MIN]), 2 * i64::MIN as i128);
}

#[test]
fn drawing_and_scaling_give_the_sample_of_a_voice() {
    let mut s = synth();
    s.toggle_waveform();
    s.set_detune(30_000);
    s.set_master_volume(650_000);
    s.add_note_at(Key::Y, 0);
    s.add_note_at(Key::A, 0);
    s.update_envelope_at(40);
    s.remove_note_at(Key::A, 40);
    s.update_envelope_at(400);
    for _ in 0..50 {
        s.increment_sample_clock();
        let drawn = s.draw_voice(0);
        assert_eq!(drawn.len(), 4);
        for (j, osc) in s.voices[0].oscillators.iter().enumerate() {
            assert_eq!(drawn[j], osc.next_sample(s.get_sample_clock(), 44_100, &s.sine));
        }
        let sample = scale_voice(&drawn, s.voices[0].envelope.amplitude, s.master_volume());
        assert_eq!(s.voice_sample(0), sample);
        assert_eq!(s.generate_waveform(Key::Y), sample);
        let round = s.draw_round();
        assert_eq!(round, vec![sample, 0]);
        assert_eq!(s.mix_sample(), mix_voices(&round));
    }
    assert_eq!(s.voices[1].envelope.stage, EnvelopeStage::Finished);
}

#[test]
fn a_voice_sounds_the_same_whatever_else_sounds() {
    let mut alone = synth();
    let mut crowd = synth();
    for s in [&mut alone, &mut crowd] {
        s.toggle_waveform();
        s.set_detune(10_000);
    }
    crowd.add_note_at(Key::A, 0);
    crowd.add_note_at(Key::E, 0);
    alone.add_note_at(Key::Y, 0);
    crowd.add_note_at(Key::Y, 0);
    crowd.add_note_at(Key::U, 0);
    alone.update_envelope_at(80);
    crowd.update_envelope_at(80);
    for _ in 0..64 {
        alone.increment_sample_clock();
        crowd.increment_sample_clock();
        assert_eq!(alone.generate_waveform(Key::Y), crowd.generate_waveform(Key::Y));
    }
    assert_ne!(alone.generate_waveform(Key::Y), 0);
}
