//! Tests for the perceptual volume converter and the slider.

use hud_state::volume::to_perceptual;
use hud_state::volume::to_volume;
use hud_state::volume::VolumeSliderSettings;
use hud_state::volume::MAX_TICKS;
use hud_state::volume::MAX_VOLUME;
use hud_state::volume::PERCEPTUAL_SCALE;
use hud_state::volume::VOLUME_UNITY;

#[test]
fn silence_maps_to_zero_and_back() {
    assert_eq!(to_perceptual(0), 0);
    assert_eq!(to_volume(0), 0);
}

#[test]
fn endpoints_and_known_points() {
    assert_eq!(to_perceptual(MAX_VOLUME as i64), PERCEPTUAL_SCALE);
    assert_eq!(to_volume(PERCEPTUAL_SCALE as i64), MAX_VOLUME);
    // Half the perceptual fraction is an eighth of the top gain: 0.25.
    assert_eq!(to_volume(500_000), 2_500);
    assert_eq!(to_perceptual(2_500), 500_000);
    // Half unity gain (the initial main volume) sits at about 0.63.
    assert_eq!(to_perceptual(5_000), 629_961);
    // The quietest audible step still gets a nonzero fraction.
    assert_eq!(to_perceptual(1), 36_841);
}

#[test]
fn round_trip_is_exact_across_the_domain() {
    let mut v: i64 = 0;
    while v <= MAX_VOLUME as i64 {
        let p = to_perceptual(v);
        assert_eq!(to_volume(p as i64) as i64, v, "round trip at {}", v);
        v += 1;
    }
}

#[test]
fn perceptual_is_strictly_monotone() {
    let mut prev = to_perceptual(0);
    let mut v: i64 = 1;
    while v <= MAX_VOLUME as i64 {
        let p = to_perceptual(v);
        assert!(p > prev, "not strictly increasing at {}", v);
        prev = p;
        v += 1;
    }
}

#[test]
fn out_of_range_inputs_are_clamped() {
    assert_eq!(to_volume(-1), 0);
    assert_eq!(to_volume(i64::MIN), 0);
    assert_eq!(to_volume(2_000_000), MAX_VOLUME);
    assert_eq!(to_volume(i64::MAX), MAX_VOLUME);
    assert_eq!(to_perceptual(-5), 0);
    assert_eq!(to_perceptual(1_000_000), PERCEPTUAL_SCALE);
    assert_eq!(to_perceptual(i64::MAX), PERCEPTUAL_SCALE);
}

#[test]
fn float_round_trip_stays_within_tolerance() {
    // The engine hands over linear gain as a float in [0, 2]; the shim
    // rounds it onto the fixed-point grid. One grid step is 1e-4, so the
    // full round trip stays within half of that.
    let mut i: i64 = 0;
    while i <= 2_000 {
        let x: f64 = i as f64 / 1_000.0;
        let units: i64 = (x * VOLUME_UNITY as f64).round() as i64;
        let back: f64 = to_volume(to_perceptual(units) as i64) as f64 / VOLUME_UNITY as f64;
        assert!((back - x).abs() <= 1e-4, "round trip drifted at {}", x);
        i += 1;
    }
}

#[test]
fn default_slider_matches_initial_volume() {
    let slider = VolumeSliderSettings::default();
    // to_perceptual(half unity) is about 0.63; rounded to twentieths
    // that is 13 ticks.
    assert_eq!(slider.ticks(), 13);
}

#[test]
fn slider_stays_clamped_under_repeated_stepping() {
    let mut slider = VolumeSliderSettings::default();
    let mut i: u32 = 0;
    while i < 50 {
        slider.increment();
        assert!(slider.ticks() <= MAX_TICKS);
        i += 1;
    }
    assert_eq!(slider.ticks(), MAX_TICKS);
    let mut i: u32 = 0;
    while i < 50 {
        slider.decrement();
        assert!(slider.ticks() <= MAX_TICKS);
        i += 1;
    }
    assert_eq!(slider.ticks(), 0);
    slider.increment();
    assert_eq!(slider.ticks(), 1);
}

#[test]
fn slider_positions_give_expected_gain() {
    let mut slider = VolumeSliderSettings::default();
    let mut i: u32 = 0;
    while i < 50 {
        slider.decrement();
        i += 1;
    }
    assert_eq!(slider.perceptual_fraction(), 0);
    assert_eq!(slider.linear_volume(), 0);

    slider.increment();
    assert_eq!(slider.perceptual_fraction(), 50_000);
    assert_eq!(slider.linear_volume(), 2);

    let mut i: u32 = 0;
    while i < 9 {
        slider.increment();
        i += 1;
    }
    assert_eq!(slider.perceptual_fraction(), 500_000);
    assert_eq!(slider.linear_volume(), 2_500);

    let mut i: u32 = 0;
    while i < 10 {
        slider.increment();
        i += 1;
    }
    assert_eq!(slider.perceptual_fraction(), PERCEPTUAL_SCALE);
    assert_eq!(slider.linear_volume(), MAX_VOLUME);
}
