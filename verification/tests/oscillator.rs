use wav_generator::config::{frames, WavGenerator, Waveform};
use wav_generator::fixed::ONE;
use wav_generator::oscillator::{
    oscillation_at, sawtooth_shape_at, sine_wave_at, triangle_shape_at,
};

fn tone(kind: &str, rate: u32, duration: i64, frequency: i64, amplitude: i64) -> WavGenerator {
    WavGenerator {
        waveform_type: Some(kind.to_string()),
        sample_rate: rate,
        bit_depth: 16,
        duration,
        frequency,
        amplitude,
        dc_offset: 0,
        phase_shift: 0,
        harmonics: None,
        noise_type: None,
        noise_volume: 0,
        low_pass_filter: None,
        high_pass_filter: None,
        fade_in: 0,
        fade_out: 0,
        reverb_amount: 0,
        num_channels: 1,
        channel_volumes: vec![ONE],
    }
}

#[test]
fn frames_round_to_the_nearest_sample() {
    assert_eq!(frames(44_100, ONE), 44_100);
    assert_eq!(frames(8, 300_000_000), 2);
    assert_eq!(frames(8, 450_000_000), 4);
    assert_eq!(frames(8, 437_500_000), 4);
    assert_eq!(frames(8, 437_499_999), 3);
    assert_eq!(frames(8, 0), 0);
    assert_eq!(frames(8, -ONE), 0);
    assert_eq!(frames(0, ONE), 0);
    assert_eq!(frames(u32::MAX, i64::MAX), usize::MAX);
}

#[test]
fn waveform_names_are_classified() {
    assert_eq!(tone("sine", 8, ONE, ONE, ONE).waveform_kind(), Waveform::Sine);
    assert_eq!(tone("square", 8, ONE, ONE, ONE).waveform_kind(), Waveform::Square);
    assert_eq!(tone("triangle", 8, ONE, ONE, ONE).waveform_kind(), Waveform::Triangle);
    assert_eq!(tone("sawtooth", 8, ONE, ONE, ONE).waveform_kind(), Waveform::Sawtooth);
    assert_eq!(tone("Square", 8, ONE, ONE, ONE).waveform_kind(), Waveform::Sine);
    assert_eq!(tone("", 8, ONE, ONE, ONE).waveform_kind(), Waveform::Sine);
    let mut unnamed = tone("sine", 8, ONE, ONE, ONE);
    unnamed.waveform_type = None;
    assert_eq!(unnamed.waveform_kind(), Waveform::Sine);
}

#[test]
fn sine_wave_follows_the_sine() {
    let half = ONE / 2;
    assert_eq!(sine_wave_at(half, 440 * ONE, 0, 44_100, 0), 0);
    assert_eq!(sine_wave_at(half, 440 * ONE, 0, 44_100, 1), 31_324_161);
    assert_eq!(sine_wave_at(half, 440 * ONE, 0, 44_100, 2), 62_525_261);
    assert_eq!(sine_wave_at(half, 440 * ONE, 0, 44_100, 25), 499_996_828);
    assert_eq!(sine_wave_at(half, 440 * ONE, 0, 44_100, 100), -7_123_551);
    for i in 0..500usize {
        let exact = 0.5e9 * (std::f64::consts::TAU * 440.0 * i as f64 / 44_100.0).sin();
        let got = sine_wave_at(half, 440 * ONE, 0, 44_100, i) as f64;
        assert!((got - exact).abs() <= 3.0, "sample {i}: {got} against {exact}");
    }
}

#[test]
fn sine_wave_honours_the_phase_shift() {
    let quarter_turn = 1_570_796_327;
    let got = sine_wave_at(ONE, ONE, quarter_turn, 8, 0);
    assert!((got - ONE).abs() <= 2);
    let later = sine_wave_at(ONE, ONE, quarter_turn, 8, 2);
    assert!(later.abs() <= 2);
}

#[test]
fn square_wave_is_plus_or_minus_the_amplitude() {
    let a = 300_000_000;
    let expected = [-a, a, a, a, -a, -a, -a, -a, -a, a, a, a, -a, -a, -a, -a, -a];
    for (i, want) in expected.iter().enumerate() {
        assert_eq!(oscillation_at(Waveform::Square, a, ONE, 0, 8, i), *want);
    }
    for i in 0..3000usize {
        let s = oscillation_at(Waveform::Square, 123_456_789, 441 * ONE + 7, 250_000_000, 44_100, i);
        assert!(s == 123_456_789 || s == -123_456_789);
    }
    assert_eq!(oscillation_at(Waveform::Square, i64::MIN, ONE, 0, 8, 1), i64::MAX);
    assert_eq!(oscillation_at(Waveform::Square, i64::MIN, ONE, 0, 8, 5), i64::MIN);
}

#[test]
fn triangle_wave_is_piecewise_linear() {
    let a = 300_000_000;
    let q = 75_000_000;
    let expected = [
        0, q, 2 * q, 3 * q, a, 3 * q, 2 * q, q, 0, -q, -2 * q, -3 * q, -a, -3 * q, -2 * q, -q, 0,
    ];
    for (i, want) in expected.iter().enumerate() {
        assert_eq!(oscillation_at(Waveform::Triangle, a, ONE, 0, 8, i), *want);
    }
    assert_eq!(triangle_shape_at(ONE, 8, 4), ONE);
    assert_eq!(triangle_shape_at(ONE, 8, 12), -ONE);
    assert_eq!(triangle_shape_at(-ONE, 8, 4), -ONE);
}

#[test]
fn sawtooth_wave_ramps_once_per_cycle() {
    let a = 300_000_000;
    let q = 75_000_000;
    let expected = [-a, -3 * q, -2 * q, -q, 0, q, 2 * q, 3 * q, -a, -3 * q, -2 * q, -q, 0, q, 2 * q, 3 * q, -a];
    for (i, want) in expected.iter().enumerate() {
        assert_eq!(oscillation_at(Waveform::Sawtooth, a, ONE, 0, 8, i), *want);
    }
    assert_eq!(sawtooth_shape_at(ONE, 4, 0), -ONE);
    assert_eq!(sawtooth_shape_at(ONE, 4, 3), ONE / 2);
}

#[test]
fn sine_repeats_after_whole_cycles() {
    for kind in [Waveform::Sine, Waveform::Square, Waveform::Sawtooth] {
        for i in 0..300usize {
            let now = oscillation_at(kind, 700_000_000, 441 * ONE, 123_456_789, 44_100, i);
            let later = oscillation_at(kind, 700_000_000, 441 * ONE, 123_456_789, 44_100, i + 100);
            assert_eq!(now, later);
        }
    }
}

#[test]
fn one_cycle_of_a_sine_fills_its_duration() {
    let g = tone("sine", 44_100, 10_000_000, 100 * ONE, ONE);
    let wave = g.oscillate();
    assert_eq!(wave.len(), 441);
    assert_eq!(wave[0], 0);
    assert_eq!(sine_wave_at(ONE, 100 * ONE, 0, 44_100, 441), wave[0]);
    assert_eq!(sine_wave_at(ONE, 100 * ONE, 0, 44_100, 441 + 17), wave[17]);
}

#[test]
fn oscillate_fills_the_whole_duration() {
    let g = tone("sawtooth", 8, 2 * ONE, ONE, 300_000_000);
    let wave = g.oscillate();
    assert_eq!(wave.len(), 16);
    assert_eq!(g.sample_count(), 16);
    assert_eq!(wave[0], -300_000_000);
    assert_eq!(wave[7], 225_000_000);
    assert_eq!(wave[8], -300_000_000);
    let none = tone("sine", 8, 0, ONE, ONE).oscillate();
    assert!(none.is_empty());
}

#[test]
fn zero_amplitude_is_silent_for_every_waveform() {
    for kind in [Waveform::Sine, Waveform::Square, Waveform::Triangle, Waveform::Sawtooth] {
        for i in 0..64usize {
            assert_eq!(oscillation_at(kind, 0, 440 * ONE, ONE, 44_100, i), 0);
        }
    }
}
