use wav_generator::config::WavGenerator;
use wav_generator::filter::{high_pass, high_pass_alpha_of, low_pass, low_pass_alpha_of};
use wav_generator::fixed::ONE;

fn base(rate: u32) -> WavGenerator {
    WavGenerator {
        waveform_type: None,
        sample_rate: rate,
        bit_depth: 16,
        duration: ONE,
        frequency: ONE,
        amplitude: ONE,
        dc_offset: 0,
        phase_shift: 0,
        harmonics: None,
        noise_type: None,
        noise_volume: 0,
        low_pass_filter: None,
        high_pass_filter: None,
        fade_in: 0,
        fade_out: 0,
        reverb_amount: 0,
        num_channels: 1,
        channel_volumes: vec![ONE],
    }
}

#[test]
fn filter_coefficients_follow_the_cutoff() {
    assert_eq!(low_pass_alpha_of(1_000 * ONE, 44_100), 124_707_980);
    assert_eq!(high_pass_alpha_of(1_000 * ONE, 44_100), 875_292_019);
    let low = low_pass_alpha_of(1_000 * ONE, 44_100) as f64 / 1e9;
    let exact = std::f64::consts::TAU * 1_000.0 / (44_100.0 + std::f64::consts::TAU * 1_000.0);
    assert!((low - exact).abs() < 1e-8);
    assert_eq!(low_pass_alpha_of(i64::MAX, 0), ONE);
    assert_eq!(high_pass_alpha_of(i64::MAX, 0), 0);
    assert_eq!(low_pass_alpha_of(1, u32::MAX), 0);
    assert_eq!(high_pass_alpha_of(1, u32::MAX), ONE - 1);
}

#[test]
fn low_pass_blends_each_sample_with_the_last_output() {
    let mut wave = vec![ONE, 0, 0, ONE];
    low_pass(&mut wave, ONE / 2);
    assert_eq!(wave, vec![ONE, ONE / 2, ONE / 4, 625_000_000]);
    let mut one = vec![-7];
    low_pass(&mut one, ONE / 2);
    assert_eq!(one, vec![-7]);
}

#[test]
fn high_pass_follows_the_steps_of_the_raw_signal() {
    let mut wave = vec![ONE, ONE, 0, 0];
    high_pass(&mut wave, ONE / 2);
    assert_eq!(wave, vec![ONE, ONE / 2, -ONE / 4, -ONE / 8]);
    let mut flat = vec![ONE; 6];
    high_pass(&mut flat, ONE);
    assert_eq!(flat, vec![ONE; 6]);
}

#[test]
fn filters_leave_an_empty_buffer_empty() {
    let mut empty: Vec<i64> = Vec::new();
    low_pass(&mut empty, ONE / 2);
    assert!(empty.is_empty());
    high_pass(&mut empty, ONE / 2);
    assert!(empty.is_empty());
    let mut g = base(44_100);
    g.low_pass_filter = Some(1_000 * ONE);
    g.high_pass_filter = Some(1_000 * ONE);
    g.apply_low_pass_filter(&mut empty);
    g.apply_high_pass_filter(&mut empty);
    assert!(empty.is_empty());
}

#[test]
fn configured_filters_use_their_cutoff() {
    let mut g = base(44_100);
    g.low_pass_filter = Some(1_000 * ONE);
    let mut wave = vec![ONE, 0, ONE];
    g.apply_low_pass_filter(&mut wave);
    assert_eq!(wave, vec![ONE, 124_707_980, 140_260_060]);
    g.high_pass_filter = Some(1_000 * ONE);
    let mut wave = vec![ONE, ONE, 0];
    g.apply_high_pass_filter(&mut wave);
    assert_eq!(wave, vec![ONE, 875_292_019, -109_155_900]);
}

#[test]
fn filters_that_are_not_set_change_nothing() {
    let g = base(44_100);
    let mut wave = vec![3, -4, 5];
    g.apply_low_pass_filter(&mut wave);
    g.apply_high_pass_filter(&mut wave);
    assert_eq!(wave, vec![3, -4, 5]);
}

#[test]
fn fades_ramp_the_ends() {
    let mut g = base(4);
    g.fade_in = ONE;
    g.fade_out = ONE / 2;
    let mut wave = vec![ONE; 8];
    g.apply_fades(&mut wave);
    let q = ONE / 4;
    assert_eq!(wave, vec![0, q, 2 * q, 3 * q, ONE, ONE, ONE, ONE / 2]);
}

#[test]
fn fades_over_the_two_halves_rise_and_then_fall() {
    let mut g = base(4);
    g.fade_in = ONE;
    g.fade_out = ONE;
    let mut wave = vec![800_000_000; 8];
    g.apply_fades(&mut wave);
    assert_eq!(
        wave,
        vec![0, 200_000_000, 400_000_000, 600_000_000, 800_000_000, 600_000_000, 400_000_000, 200_000_000]
    );
    for k in 0..3 {
        assert!(wave[k] <= wave[k + 1]);
    }
    for k in 4..7 {
        assert!(wave[k] >= wave[k + 1]);
    }
}

#[test]
fn fades_longer_than_the_buffer_are_cut_at_its_ends() {
    let mut g = base(4);
    g.fade_in = ONE;
    let mut wave = vec![ONE, ONE];
    g.apply_fades(&mut wave);
    assert_eq!(wave, vec![0, ONE / 4]);
    let mut h = base(4);
    h.fade_out = ONE;
    let mut wave = vec![ONE, ONE];
    h.apply_fades(&mut wave);
    assert_eq!(wave, vec![ONE / 2, ONE / 4]);
    let mut empty: Vec<i64> = Vec::new();
    h.apply_fades(&mut empty);
    assert!(empty.is_empty());
}

#[test]
fn overlapping_fades_both_apply() {
    let mut g = base(4);
    g.fade_in = ONE;
    g.fade_out = ONE;
    let mut wave = vec![ONE; 4];
    g.apply_fades(&mut wave);
    assert_eq!(wave, vec![0, 187_500_000, 250_000_000, 187_500_000]);
}

#[test]
fn no_fade_times_change_nothing() {
    let mut g = base(4);
    g.fade_in = -ONE;
    let mut wave = vec![5, 6, 7];
    g.apply_fades(&mut wave);
    assert_eq!(wave, vec![5, 6, 7]);
}

#[test]
fn reverb_feeds_back_the_delayed_signal() {
    let mut g = base(20);
    g.reverb_amount = ONE / 2;
    let mut wave = vec![ONE, 0, 0, 0, 0, 0, 0];
    g.apply_reverb(&mut wave);
    assert_eq!(wave, vec![ONE, 0, ONE / 2, 0, ONE / 4, 0, ONE / 8]);
}

#[test]
fn reverb_of_nothing_changes_nothing() {
    let mut g = base(20);
    g.reverb_amount = 0;
    let start: Vec<i64> = (0..50).map(|i| i * 12_345 - 300_000).collect();
    let mut wave = start.clone();
    g.apply_reverb(&mut wave);
    assert_eq!(wave, start);
}

#[test]
fn reverb_delay_is_a_tenth_of_a_second() {
    let mut g = base(5);
    g.reverb_amount = ONE;
    let mut wave = vec![1, 0, 0];
    g.apply_reverb(&mut wave);
    assert_eq!(wave, vec![1, 1, 1]);
    let mut h = base(4);
    h.reverb_amount = ONE;
    let mut wave = vec![1, 2, 3];
    h.apply_reverb(&mut wave);
    assert_eq!(wave, vec![2, 4, 6]);
    let mut far = base(44_100);
    far.reverb_amount = ONE;
    let mut wave = vec![1, 2, 3];
    far.apply_reverb(&mut wave);
    assert_eq!(wave, vec![1, 2, 3]);
}

#[test]
fn normalizer_brings_the_peak_to_one() {
    let g = base(4);
    let mut wave = vec![250_000_000, -500_000_000, 500_000_000, 0];
    g.normalize_channels(&mut wave);
    assert_eq!(wave, vec![ONE / 2, -ONE, ONE, 0]);
    let mut odd = vec![3, 1, -7];
    g.normalize_channels(&mut odd);
    assert_eq!(odd, vec![ONE, 333_333_333, -2_333_333_333]);
    assert_eq!(*odd.iter().max().unwrap(), ONE);
}

#[test]
fn normalizer_uses_the_signed_peak() {
    let g = base(4);
    let mut wave = vec![100, -1_000];
    g.normalize_channels(&mut wave);
    assert_eq!(wave, vec![ONE, -10 * ONE]);
}

#[test]
fn normalizer_leaves_a_buffer_without_a_positive_sample() {
    let g = base(4);
    let mut zeros = vec![0i64; 5];
    g.normalize_channels(&mut zeros);
    assert_eq!(zeros, vec![0i64; 5]);
    let mut below = vec![-5, -1, 0];
    g.normalize_channels(&mut below);
    assert_eq!(below, vec![-5, -1, 0]);
    let mut empty: Vec<i64> = Vec::new();
    g.normalize_channels(&mut empty);
    assert!(empty.is_empty());
}
