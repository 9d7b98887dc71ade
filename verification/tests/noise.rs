use wav_generator::config::{NoiseColor, WavGenerator};
use wav_generator::fixed::ONE;
use wav_generator::noise::{draw_series, pink_series, unit_of_word, white_series, PinkNoise, ROWS};

fn noisy(kind: Option<&str>, volume: i64) -> WavGenerator {
    WavGenerator {
        waveform_type: None,
        sample_rate: 8,
        bit_depth: 16,
        duration: ONE,
        frequency: ONE,
        amplitude: ONE,
        dc_offset: 0,
        phase_shift: 0,
        harmonics: None,
        noise_type: kind.map(|k| k.to_string()),
        noise_volume: volume,
        low_pass_filter: None,
        high_pass_filter: None,
        fade_in: 0,
        fade_out: 0,
        reverb_amount: 0,
        num_channels: 1,
        channel_volumes: vec![ONE],
    }
}

fn rows_of(seed: i64) -> Vec<i64> {
    (0..ROWS as i64).map(|r| ((seed * 31 + r * 17) % 2001 - 1000) * 1_000_000).collect()
}

#[test]
fn noise_names_are_classified() {
    assert_eq!(noisy(Some("white"), 0).noise_kind(), Some(NoiseColor::White));
    assert_eq!(noisy(Some("pink"), 0).noise_kind(), Some(NoiseColor::Pink));
    assert_eq!(noisy(Some("brown"), 0).noise_kind(), Some(NoiseColor::Silent));
    assert_eq!(noisy(None, 0).noise_kind(), None);
}

#[test]
fn random_words_spread_over_the_unit_interval() {
    assert_eq!(unit_of_word(0), -ONE);
    assert_eq!(unit_of_word(1 << 31), 0);
    assert_eq!(unit_of_word(u32::MAX), ONE - 1);
    assert_eq!(unit_of_word(1 << 30), -ONE / 2);
    assert_eq!(unit_of_word(3 << 30), ONE / 2);
}

#[test]
fn first_pink_call_draws_every_row() {
    let mut g = PinkNoise::new();
    assert_eq!(g.call_count(), 0);
    let fresh: Vec<i64> = (0..ROWS as i64).map(|r| r * 16_000_000).collect();
    let out = g.advance(&fresh);
    assert_eq!(out, (0..16).sum::<i64>() * 16_000_000 / 16);
    assert_eq!(g.call_count(), 1);
}

#[test]
fn pink_rows_are_redrawn_by_the_bits_of_the_counter() {
    let mut g = PinkNoise::new();
    let zeros = vec![0i64; ROWS];
    assert_eq!(g.advance(&zeros), 0);
    let ones = vec![ONE; ROWS];
    // counter 1: row 0 only
    assert_eq!(g.advance(&ones), ONE / 16);
    // counter 2: row 1 only
    assert_eq!(g.advance(&ones), 2 * ONE / 16);
    // counter 3: rows 0 and 1, already at one
    assert_eq!(g.advance(&ones), 2 * ONE / 16);
    // counter 4: row 2
    assert_eq!(g.advance(&ones), 3 * ONE / 16);
    // counter 5: rows 0 and 2, now back to zero
    assert_eq!(g.advance(&zeros), ONE / 16);
    // counter 6: rows 1 and 2
    assert_eq!(g.advance(&ones), 2 * ONE / 16);
    // counter 7: rows 0, 1 and 2
    assert_eq!(g.advance(&ones), 3 * ONE / 16);
    // counter 8: row 3
    assert_eq!(g.advance(&ones), 4 * ONE / 16);
    assert_eq!(g.call_count(), 9);
}

#[test]
fn pink_mean_is_cut_toward_zero() {
    let mut g = PinkNoise::new();
    let mut fresh = vec![0i64; ROWS];
    fresh[0] = -17;
    assert_eq!(g.advance(&fresh), -1);
    let mut h = PinkNoise::new();
    fresh[0] = 31;
    assert_eq!(h.advance(&fresh), 1);
}

#[test]
fn fresh_pink_generators_replay_the_same_sequence() {
    let mut a = PinkNoise::new();
    let mut b = PinkNoise::new();
    let mut first = Vec::new();
    for call in 0..300 {
        first.push(a.advance(&rows_of(call)));
    }
    let mut second = Vec::new();
    for call in 0..300 {
        second.push(b.advance(&rows_of(call)));
    }
    assert_eq!(first, second);
    assert_eq!(a.call_count(), b.call_count());
    let mut c = PinkNoise::new();
    let restart: Vec<i64> = (0..300).map(|call| c.advance(&rows_of(call))).collect();
    assert_eq!(restart, first);
    assert!(first.iter().any(|v| *v != first[0]));
}

#[test]
fn random_pink_noise_stays_in_the_unit_interval() {
    let mut g = PinkNoise::new();
    let mut seen = Vec::new();
    for _ in 0..2000 {
        let v = g.next();
        assert!(v >= -ONE && v <= ONE);
        seen.push(v);
    }
    assert_eq!(g.call_count(), 2000);
    assert!(seen.iter().any(|v| *v != seen[0]));
}

#[test]
fn white_series_is_random_and_in_range() {
    let draws = white_series(4000);
    assert_eq!(draws.len(), 4000);
    assert!(draws.iter().all(|v| *v >= -ONE && *v < ONE));
    assert!(draws.iter().any(|v| *v != draws[0]));
    assert!(draws.iter().any(|v| *v > 0));
    assert!(draws.iter().any(|v| *v < 0));
}

#[test]
fn pink_series_is_random_and_in_range() {
    let draws = pink_series(4000);
    assert_eq!(draws.len(), 4000);
    assert!(draws.iter().all(|v| *v >= -ONE && *v <= ONE));
    assert!(draws.iter().any(|v| *v != draws[0]));
}

#[test]
fn draw_series_draws_for_the_colours_that_sound() {
    assert_eq!(draw_series(NoiseColor::White, 10).len(), 10);
    assert_eq!(draw_series(NoiseColor::Pink, 10).len(), 10);
    assert!(draw_series(NoiseColor::Silent, 10).is_empty());
    assert!(draw_series(NoiseColor::White, 0).is_empty());
}

#[test]
fn mix_noise_adds_the_draws_at_the_volume() {
    let g = noisy(Some("white"), ONE / 2);
    let mut wave = vec![0, ONE, i64::MAX, -3];
    g.mix_noise(&mut wave, &vec![ONE / 2, -ONE, ONE, 0, 99]);
    assert_eq!(wave, vec![ONE / 4, ONE / 2, i64::MAX, -3]);
    let p = noisy(Some("pink"), 2 * ONE);
    let mut wave = vec![0, ONE];
    p.mix_noise(&mut wave, &vec![ONE / 4, -ONE / 4]);
    assert_eq!(wave, vec![ONE / 2, ONE / 2]);
}

#[test]
fn mix_noise_without_noise_changes_nothing() {
    let mut wave = vec![1, 2, 3];
    noisy(None, ONE).mix_noise(&mut wave, &Vec::new());
    assert_eq!(wave, vec![1, 2, 3]);
    noisy(Some("brown"), ONE).mix_noise(&mut wave, &vec![ONE, ONE, ONE]);
    assert_eq!(wave, vec![1, 2, 3]);
}

#[test]
fn add_noise_stays_within_the_volume() {
    for kind in ["white", "pink"] {
        let g = noisy(Some(kind), ONE / 10);
        let start: Vec<i64> = (0..3000).map(|i| (i % 7) * 1_000_000).collect();
        let mut wave = start.clone();
        g.add_noise(&mut wave);
        assert_eq!(wave.len(), start.len());
        for (after, before) in wave.iter().zip(start.iter()) {
            assert!((after - before).abs() <= ONE / 10);
        }
        assert_ne!(wave, start);
    }
}

#[test]
fn add_noise_without_a_known_colour_changes_nothing() {
    let mut wave = vec![5, 6, 7];
    noisy(None, ONE).add_noise(&mut wave);
    assert_eq!(wave, vec![5, 6, 7]);
    noisy(Some("brown"), ONE).add_noise(&mut wave);
    assert_eq!(wave, vec![5, 6, 7]);
    let mut empty: Vec<i64> = Vec::new();
    noisy(Some("pink"), ONE).add_noise(&mut empty);
    assert!(empty.is_empty());
}
