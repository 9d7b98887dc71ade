use wav_generator::config::WavGenerator;
use wav_generator::fixed::ONE;
use wav_generator::level::centibels_of;
use wav_generator::text::{
    hundredths_of, magnitude_of, push_decimal, push_fraction, push_padded, push_plain,
    push_two_places, push_two_places_of,
};

fn plain_text(x: i64) -> String {
    let mut out = String::from("<");
    push_plain(&mut out, x);
    out
}

fn two_places_text(x: i64) -> String {
    let mut out = String::new();
    push_two_places(&mut out, x);
    out
}

fn default_run() -> WavGenerator {
    WavGenerator {
        waveform_type: Some("sine".to_string()),
        sample_rate: 44_100,
        bit_depth: 16,
        duration: 5 * ONE,
        frequency: 440 * ONE,
        amplitude: ONE / 2,
        dc_offset: 0,
        phase_shift: 0,
        harmonics: None,
        noise_type: None,
        noise_volume: 0,
        low_pass_filter: None,
        high_pass_filter: None,
        fade_in: 0,
        fade_out: 0,
        reverb_amount: 0,
        num_channels: 1,
        channel_volumes: vec![ONE],
    }
}

#[test]
fn decimal_digits_are_appended() {
    let mut out = String::from("n=");
    push_decimal(&mut out, 0);
    push_decimal(&mut out, 7);
    push_decimal(&mut out, 1_203);
    push_decimal(&mut out, u64::MAX);
    assert_eq!(out, "n=07120318446744073709551615");
}

#[test]
fn padded_digits_keep_their_width() {
    let mut out = String::new();
    push_padded(&mut out, 7, 3);
    push_padded(&mut out, 1_234, 2);
    push_padded(&mut out, 5, 0);
    assert_eq!(out, "00734");
}

#[test]
fn fractions_drop_their_trailing_zeros() {
    let mut out = String::new();
    push_fraction(&mut out, 500_000_000, 9);
    out.push('|');
    push_fraction(&mut out, 1, 9);
    out.push('|');
    push_fraction(&mut out, 120, 3);
    out.push('|');
    push_fraction(&mut out, 0, 9);
    assert_eq!(out, "5|000000001|12|");
}

#[test]
fn plain_values_take_the_shortest_form() {
    assert_eq!(plain_text(0), "<0");
    assert_eq!(plain_text(440 * ONE), "<440");
    assert_eq!(plain_text(-ONE / 2), "<-0.5");
    assert_eq!(plain_text(1), "<0.000000001");
    assert_eq!(plain_text(12_340_000_000), "<12.34");
    assert_eq!(plain_text(1_320_500_000_000), "<1320.5");
    assert_eq!(plain_text(i64::MIN), "<-9223372036.854775808");
    assert_eq!(plain_text(i64::MAX), "<9223372036.854775807");
}

#[test]
fn two_places_round_to_the_nearest_hundredth() {
    assert_eq!(two_places_text(0), "0.00");
    assert_eq!(two_places_text(5 * ONE), "5.00");
    assert_eq!(two_places_text(1_999_000_000), "2.00");
    assert_eq!(two_places_text(-1_234_000_000), "-1.23");
    assert_eq!(two_places_text(50_000_000), "0.05");
    assert_eq!(two_places_text(-1_000_000), "-0.00");
    assert_eq!(two_places_text(99_994_999_999), "99.99");
    assert_eq!(two_places_text(99_995_000_001), "100.00");
}

#[test]
fn two_places_break_ties_toward_the_even_hundredth() {
    assert_eq!(two_places_text(5_000_000), "0.00");
    assert_eq!(two_places_text(15_000_000), "0.02");
    assert_eq!(two_places_text(25_000_000), "0.02");
    assert_eq!(two_places_text(125_000_000), "0.12");
    assert_eq!(two_places_text(375_000_000), "0.38");
    assert_eq!(hundredths_of(5_000_001), 1);
    assert_eq!(hundredths_of(u64::MAX), 1_844_674_407_371);
    let mut out = String::new();
    push_two_places_of(&mut out, 1_207);
    assert_eq!(out, "12.07");
}

#[test]
fn magnitude_drops_the_sign() {
    assert_eq!(magnitude_of(-5), 5);
    assert_eq!(magnitude_of(5), 5);
    assert_eq!(magnitude_of(i64::MIN), 1u64 << 63);
}

#[test]
fn levels_are_decibels_in_hundredths() {
    assert_eq!(centibels_of(ONE), 0);
    assert_eq!(centibels_of(ONE / 2), -602);
    assert_eq!(centibels_of(2 * ONE), 602);
    assert_eq!(centibels_of(ONE / 4), -1_204);
    assert_eq!(centibels_of(ONE / 10), -2_000);
    assert_eq!(centibels_of(10 * ONE), 2_000);
    assert_eq!(centibels_of(1), -18_000);
    assert_eq!(centibels_of(i64::MAX), 19_930);
}

#[test]
fn levels_are_close_to_the_true_logarithm() {
    let mut amplitude: i64 = 1;
    while amplitude < i64::MAX / 3 {
        let exact = 2_000.0 * (amplitude as f64 / 1e9).log10();
        let got = centibels_of(amplitude) as f64;
        assert!((got - exact).abs() <= 0.500_001, "{amplitude}: {got} against {exact}");
        amplitude = amplitude * 3 / 2 + 1;
    }
}

#[test]
fn descriptor_of_a_plain_sine() {
    assert_eq!(default_run().describe(), "sine_freq440Hz_amp-6.02dB_samp44100Hz16bit_5.00s");
}

#[test]
fn descriptor_names_every_effect() {
    let mut g = default_run();
    g.waveform_type = Some("square".to_string());
    g.frequency = 220_500_000_000;
    g.amplitude = ONE;
    g.bit_depth = 24;
    g.duration = 1_500_000_000;
    g.dc_offset = -100_000_000;
    g.harmonics = Some(vec![(880 * ONE, 250_000_000), (1_320_500_000_000, 125_000_000)]);
    g.noise_type = Some("pink".to_string());
    g.noise_volume = 50_000_000;
    g.low_pass_filter = Some(1_000 * ONE);
    g.high_pass_filter = Some(20_500_000_000);
    g.fade_in = ONE / 2;
    g.fade_out = ONE;
    g.reverb_amount = 300_000_000;
    assert_eq!(
        g.describe(),
        "square_freq220.5Hz_amp0.00dB_samp44100Hz24bit_1.50s_-0.10dco_harmonics-880Hz_0.25-1320.5Hz_0.12\
         _noise-pink_volume-0.05_1000Hz-lp_20.5Hz-hp_fade_in-0.50s_fade_out-1.00s_reverb-0.30"
    );
}

#[test]
fn descriptor_keeps_names_as_given() {
    let mut g = default_run();
    g.waveform_type = None;
    assert_eq!(g.describe(), "sine_freq440Hz_amp-6.02dB_samp44100Hz16bit_5.00s");
    g.waveform_type = Some("wobble".to_string());
    g.noise_type = Some("brown".to_string());
    g.harmonics = Some(Vec::new());
    assert_eq!(
        g.describe(),
        "wobble_freq440Hz_amp-6.02dB_samp44100Hz16bit_5.00s_harmonics_noise-brown"
    );
}

#[test]
fn descriptor_of_an_amplitude_without_a_level() {
    let mut g = default_run();
    g.amplitude = 0;
    assert_eq!(g.describe(), "sine_freq440Hz_amp-infdB_samp44100Hz16bit_5.00s");
    g.amplitude = -ONE;
    assert_eq!(g.describe(), "sine_freq440Hz_ampNaNdB_samp44100Hz16bit_5.00s");
    g.amplitude = 2 * ONE;
    assert_eq!(g.describe(), "sine_freq440Hz_amp6.02dB_samp44100Hz16bit_5.00s");
}

#[test]
fn descriptor_leaves_out_what_is_switched_off() {
    let mut g = default_run();
    g.fade_in = -ONE;
    g.reverb_amount = -ONE;
    g.fade_out = ONE / 4;
    assert_eq!(g.describe(), "sine_freq440Hz_amp-6.02dB_samp44100Hz16bit_5.00s_fade_out-0.25s");
}
