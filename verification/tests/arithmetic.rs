use wav_generator::fixed::{divide, modulo, negate, plus, saturate, scale, scale_by_count, times, ONE};
use wav_generator::phase::{cycle_phase_of, phase_of, residue_of, shift_phase_of, TAU, TURN};
use wav_generator::sine::{sine_of, HALF_TURN, QUADRANT};

#[test]
fn plus_adds_and_saturates() {
    assert_eq!(plus(ONE, 2 * ONE), 3 * ONE);
    assert_eq!(plus(-5, 3), -2);
    assert_eq!(plus(i64::MAX, 1), i64::MAX);
    assert_eq!(plus(i64::MIN, -1), i64::MIN);
}

#[test]
fn negate_saturates_only_at_the_minimum() {
    assert_eq!(negate(7), -7);
    assert_eq!(negate(-7), 7);
    assert_eq!(negate(i64::MIN), i64::MAX);
}

#[test]
fn saturate_clamps_wide_values() {
    assert_eq!(saturate(12), 12);
    assert_eq!(saturate(i64::MAX as i128 + 10), i64::MAX);
    assert_eq!(saturate(i64::MIN as i128 - 10), i64::MIN);
}

#[test]
fn divide_cuts_toward_zero() {
    assert_eq!(divide(7, 2), 3);
    assert_eq!(divide(-7, 2), -3);
    assert_eq!(divide(-1, 1_000_000_000), 0);
    assert_eq!(divide(0, 5), 0);
}

#[test]
fn modulo_is_never_negative() {
    assert_eq!(modulo(7, 5), 2);
    assert_eq!(modulo(-7, 5), 3);
    assert_eq!(modulo(-10, 5), 0);
    assert_eq!(modulo(0, 5), 0);
}

#[test]
fn times_is_the_fixed_point_product() {
    assert_eq!(times(ONE / 2, ONE / 2), ONE / 4);
    assert_eq!(times(3 * ONE, -2 * ONE), -6 * ONE);
    assert_eq!(times(1, 1), 0);
    assert_eq!(times(-1, 999_999_999), 0);
    assert_eq!(times(i64::MAX, 2 * ONE), i64::MAX);
    assert_eq!(times(i64::MIN, 2 * ONE), i64::MIN);
    assert_eq!(times(i64::MIN, -2 * ONE), i64::MAX);
}

#[test]
fn scale_multiplies_before_it_divides() {
    assert_eq!(scale(10, 1, 3), 3);
    assert_eq!(scale(-10, 1, 3), -3);
    assert_eq!(scale(i64::MAX, 3, 3), i64::MAX);
    assert_eq!(scale(1_000, 7, 2), 3_500);
    assert_eq!(scale_by_count(1_000, 1, 4), 250);
    assert_eq!(scale_by_count(-1_001, 1, 2), -500);
    assert_eq!(scale_by_count(i64::MIN, usize::MAX, usize::MAX), i64::MIN);
}

#[test]
fn sine_hits_its_landmarks() {
    assert_eq!(sine_of(0), 0);
    assert_eq!(sine_of(QUADRANT), ONE);
    assert_eq!(sine_of(HALF_TURN), 0);
    assert_eq!(sine_of(0xC000_0000), -ONE);
    assert_eq!(sine_of(QUADRANT / 2), 707_106_781);
    assert_eq!(sine_of(QUADRANT / 3), 499_999_999);
}

#[test]
fn sine_is_close_to_the_true_sine() {
    let mut phase: u64 = 0;
    while phase < TURN {
        let exact = (phase as f64 / TURN as f64 * std::f64::consts::TAU).sin() * 1e9;
        let got = sine_of(phase as u32) as f64;
        assert!((got - exact).abs() <= 1.5, "phase {phase}: {got} against {exact}");
        phase += 1_234_567;
    }
}

#[test]
fn sine_changes_sign_after_half_a_turn() {
    let mut phase: u32 = 17;
    for _ in 0..2000 {
        assert_eq!(sine_of(phase.wrapping_add(HALF_TURN)), -sine_of(phase));
        assert!(sine_of(phase) >= -ONE && sine_of(phase) <= ONE);
        phase = phase.wrapping_mul(1_664_525).wrapping_add(1_013_904_223);
    }
}

#[test]
fn residue_reduces_the_product() {
    assert_eq!(residue_of(7, 5, 10), 5);
    assert_eq!(residue_of(-7, 5, 10), 5);
    assert_eq!(residue_of(-1, 1, 10), 9);
    assert_eq!(residue_of(i64::MAX, usize::MAX, 1 << 63), ((i64::MAX as u128 * usize::MAX as u128) % (1u128 << 63)) as u64);
    assert_eq!(residue_of(440 * ONE, 44_100, 44_100 * ONE as u64), 0);
}

#[test]
fn cycle_phase_is_the_fraction_of_a_cycle() {
    assert_eq!(cycle_phase_of(ONE, 4, 0), 0);
    assert_eq!(cycle_phase_of(ONE, 4, 1), QUADRANT);
    assert_eq!(cycle_phase_of(ONE, 4, 2), HALF_TURN);
    assert_eq!(cycle_phase_of(ONE, 4, 5), QUADRANT);
    assert_eq!(cycle_phase_of(-ONE, 4, 1), 0xC000_0000);
    assert_eq!(cycle_phase_of(ONE / 2, 1, 1), HALF_TURN);
}

#[test]
fn shift_phase_turns_radians_into_a_binary_angle() {
    assert_eq!(shift_phase_of(0), 0);
    assert_eq!(shift_phase_of(TAU), 0);
    assert_eq!(shift_phase_of(TAU / 4), 1_073_741_823);
    assert_eq!(shift_phase_of(-(TAU / 4)), 3_221_225_473);
    assert_eq!(phase_of(ONE, TAU / 4, 4, 1), (QUADRANT as u64 + 1_073_741_823) as u32);
    assert_eq!(phase_of(ONE, TAU / 4, 4, 3), 1_073_741_823u32.wrapping_add(0xC000_0000));
}
