use polysynth::level::UNITY;
use polysynth::oscillator::Oscillator;
use polysynth::waveform::{phase, SineTable, WaveForm};

const FULL: i32 = UNITY as i32;

fn sine_table(len: usize) -> SineTable {
    let samples: Vec<i32> = (0..len)
        .map(|i| {
            let turn = i as f64 / len as f64;
            ((turn * std::f64::consts::TAU).sin() * UNITY as f64).round() as i32
        })
        .collect();
    SineTable::new(samples).unwrap()
}

#[test]
fn toggle_returns_to_sine_after_six() {
    let mut w = WaveForm::Sine;
    let order = [
        WaveForm::Saw,
        WaveForm::Square,
        WaveForm::Pulse,
        WaveForm::Triangle,
        WaveForm::WhiteNoise,
        WaveForm::Sine,
    ];
    for expected in order {
        w.toggle();
        assert_eq!(w, expected);
    }
    assert_eq!(w, WaveForm::Sine);
}

#[test]
fn toggle_cycle_has_length_six_from_every_kind() {
    let kinds = [
        WaveForm::Sine,
        WaveForm::Saw,
        WaveForm::Square,
        WaveForm::Pulse,
        WaveForm::Triangle,
        WaveForm::WhiteNoise,
    ];
    for start in kinds {
        let mut w = start;
        for step in 1..6 {
            w.toggle();
            assert_ne!(w, start, "back after {} toggles", step);
        }
        w.toggle();
        assert_eq!(w, start);
    }
}

#[test]
fn phase_is_the_fraction_of_the_cycle() {
    assert_eq!(phase(440_000, 0, 44_100), 0);
    assert_eq!(phase(440_000, 1, 44_100), 440_000);
    assert_eq!(phase(261_625, 100, 44_100), 26_162_500);
    // One second of samples is a whole number of cycles of 440 Hz.
    assert_eq!(phase(440_000, 44_100, 44_100), 0);
    // 1 Hz at a rate of 4: a quarter of the cycle per sample.
    assert_eq!(phase(1_000, 1, 4), 1_000);
    assert_eq!(phase(1_000, 5, 4), 1_000);
}

#[test]
fn phase_does_not_overflow_on_large_clocks() {
    let p = phase(u64::MAX, u64::MAX, u32::MAX);
    assert!(p < u32::MAX as u64 * 1000);
    let expected = ((u64::MAX as u128 * u64::MAX as u128) % (u32::MAX as u128 * 1000)) as u64;
    assert_eq!(p, expected);
}

#[test]
fn saw_rises_from_minus_one() {
    let table = sine_table(16);
    assert_eq!(WaveForm::Saw.shape(0, 1000, &table, 0), -FULL);
    assert_eq!(WaveForm::Saw.shape(250, 1000, &table, 0), -500_000);
    assert_eq!(WaveForm::Saw.shape(500, 1000, &table, 0), 0);
    assert_eq!(WaveForm::Saw.shape(750, 1000, &table, 0), 500_000);
    assert_eq!(WaveForm::Saw.shape(999, 1000, &table, 0), 998_000);
}

#[test]
fn square_switches_at_half() {
    let table = sine_table(16);
    assert_eq!(WaveForm::Square.shape(0, 1000, &table, 0), FULL);
    assert_eq!(WaveForm::Square.shape(499, 1000, &table, 0), FULL);
    assert_eq!(WaveForm::Square.shape(500, 1000, &table, 0), -FULL);
    assert_eq!(WaveForm::Square.shape(999, 1000, &table, 0), -FULL);
}

#[test]
fn pulse_switches_at_a_quarter() {
    let table = sine_table(16);
    assert_eq!(WaveForm::Pulse.shape(0, 1000, &table, 0), FULL);
    assert_eq!(WaveForm::Pulse.shape(249, 1000, &table, 0), FULL);
    assert_eq!(WaveForm::Pulse.shape(250, 1000, &table, 0), -FULL);
    assert_eq!(WaveForm::Pulse.shape(750, 1000, &table, 0), -FULL);
}

#[test]
fn triangle_is_piecewise_linear() {
    let table = sine_table(16);
    let expected = [
        (0, 0),
        (125, 500_000),
        (250, FULL),
        (500, 0),
        (750, -FULL),
        (875, -500_000),
        (999, -4_000),
    ];
    for (num, sample) in expected {
        assert_eq!(WaveForm::Triangle.shape(num, 1000, &table, 0), sample, "at {}", num);
    }
}

#[test]
fn sine_reads_the_table() {
    let table = SineTable::new(vec![0, FULL, 0, -FULL]).unwrap();
    assert_eq!(WaveForm::Sine.shape(0, 1000, &table, 0), 0);
    assert_eq!(WaveForm::Sine.shape(249, 1000, &table, 0), 0);
    assert_eq!(WaveForm::Sine.shape(250, 1000, &table, 0), FULL);
    assert_eq!(WaveForm::Sine.shape(300, 1000, &table, 0), FULL);
    assert_eq!(WaveForm::Sine.shape(500, 1000, &table, 0), 0);
    assert_eq!(WaveForm::Sine.shape(999, 1000, &table, 0), -FULL);
    assert_eq!(table.lookup(750, 1000), -FULL);
}

#[test]
fn sine_follows_the_sine_within_a_table_step() {
    let table = sine_table(4096);
    for clock in 0..2000u64 {
        let sample = WaveForm::Sine.generate(440_000, clock, 44_100, &table);
        let turn = (clock as f64 * 440.0 / 44_100.0).fract();
        let exact = (turn * std::f64::consts::TAU).sin();
        let got = sample as f64 / UNITY as f64;
        assert!((got - exact).abs() < 0.002, "clock {}: {} vs {}", clock, got, exact);
    }
}

#[test]
fn white_noise_shape_is_the_drawn_sample() {
    let table = sine_table(16);
    assert_eq!(WaveForm::WhiteNoise.shape(3, 1000, &table, 123_456), 123_456);
    assert_eq!(WaveForm::WhiteNoise.shape(3, 1000, &table, -FULL), -FULL);
}

#[test]
fn white_noise_stays_in_range_and_varies() {
    let table = sine_table(16);
    let mut seen = std::collections::HashSet::new();
    for clock in 0..2000u64 {
        let sample = WaveForm::WhiteNoise.generate(440_000, clock, 44_100, &table);
        assert!(sample >= -FULL && sample < FULL);
        seen.insert(sample);
    }
    assert!(seen.len() > 100);
    assert!(seen.iter().any(|s| *s > 0));
    assert!(seen.iter().any(|s| *s < 0));
}

#[test]
fn generate_is_shape_at_the_phase() {
    let table = sine_table(64);
    assert_eq!(WaveForm::Saw.generate(440_000, 1, 44_100, &table), -980_045);
    assert_eq!(WaveForm::Saw.generate(261_625, 100, 44_100, &table), 186_507);
    for kind in [WaveForm::Sine, WaveForm::Saw, WaveForm::Square, WaveForm::Pulse, WaveForm::Triangle] {
        for clock in [0u64, 1, 17, 44_099, 1_000_000_007] {
            let num = phase(311_127, clock, 48_000);
            assert_eq!(
                kind.generate(311_127, clock, 48_000, &table),
                kind.shape(num, 48_000_000, &table, 0)
            );
        }
    }
}

#[test]
fn sine_table_is_refused_when_empty_or_out_of_range() {
    assert!(SineTable::new(Vec::new()).is_none());
    assert!(SineTable::new(vec![0, FULL + 1]).is_none());
    assert!(SineTable::new(vec![-FULL - 1]).is_none());
    let table = SineTable::new(vec![-FULL, 0, FULL]).unwrap();
    assert_eq!(table.samples, vec![-FULL, 0, FULL]);
}

#[test]
fn oscillator_holds_frequency_and_waveform() {
    let table = sine_table(16);
    let mut osc = Oscillator::new(440_000, WaveForm::Saw);
    assert_eq!(osc.frequency, 440_000);
    assert_eq!(osc.waveform, WaveForm::Saw);
    assert_eq!(osc.next_sample(1, 44_100, &table), -980_045);
    osc.set_frequency(261_625);
    assert_eq!(osc.frequency, 261_625);
    assert_eq!(osc.waveform, WaveForm::Saw);
    assert_eq!(osc.next_sample(100, 44_100, &table), 186_507);
    osc.set_waveform(WaveForm::Square);
    assert_eq!(osc.frequency, 261_625);
    assert_eq!(osc.waveform, WaveForm::Square);
    assert_eq!(osc.next_sample(100, 44_100, &table), -FULL);
}
