use zombie_game::utils::{
    normalize_angle, offset_back, offset_by, saturate, scale, travel, Heading, FULL_TURN, ONE,
    QUARTER_TURN,
};

#[test]
fn normalize_angle_keeps_angles_in_range() {
    assert_eq!(normalize_angle(0), 0);
    assert_eq!(normalize_angle(45_000), 45_000);
    assert_eq!(normalize_angle(FULL_TURN - 1), FULL_TURN - 1);
}

#[test]
fn normalize_angle_adds_a_turn_to_negative_angles() {
    assert_eq!(normalize_angle(-1), FULL_TURN - 1);
    assert_eq!(normalize_angle(-90_000), 270_000);
    assert_eq!(normalize_angle(-FULL_TURN), 0);
}

#[test]
fn normalize_angle_takes_a_turn_from_large_angles() {
    assert_eq!(normalize_angle(FULL_TURN), 0);
    assert_eq!(normalize_angle(FULL_TURN + 1), 1);
    assert_eq!(normalize_angle(2 * FULL_TURN - 1), FULL_TURN - 1);
}

#[test]
fn normalize_angle_moves_far_angles_one_turn_only() {
    assert_eq!(normalize_angle(2 * FULL_TURN), FULL_TURN);
    assert_eq!(normalize_angle(3 * FULL_TURN), 2 * FULL_TURN);
    assert_eq!(normalize_angle(-FULL_TURN - 1), -1);
    assert_eq!(normalize_angle(-2 * FULL_TURN - 5), -FULL_TURN - 5);
}

#[test]
fn normalize_angle_is_in_range_and_congruent_within_one_turn() {
    let mut angle = -FULL_TURN;
    while angle < 2 * FULL_TURN {
        let r = normalize_angle(angle);
        assert!(0 <= r && r < FULL_TURN, "angle {angle} gave {r}");
        assert_eq!((r - angle).rem_euclid(FULL_TURN), 0);
        angle += 37;
    }
}

#[test]
fn normalize_angle_does_not_overflow_at_the_ends() {
    assert_eq!(normalize_angle(i64::MIN), i64::MIN + FULL_TURN);
    assert_eq!(normalize_angle(i64::MAX), i64::MAX - FULL_TURN);
}

#[test]
fn saturate_clips_to_the_ends_of_the_range() {
    assert_eq!(saturate(0), 0);
    assert_eq!(saturate(-17), -17);
    assert_eq!(saturate(i64::MAX as i128), i64::MAX);
    assert_eq!(saturate(i64::MAX as i128 + 1), i64::MAX);
    assert_eq!(saturate(i64::MIN as i128), i64::MIN);
    assert_eq!(saturate(i64::MIN as i128 - 1), i64::MIN);
    assert_eq!(saturate(i128::MAX), i64::MAX);
    assert_eq!(saturate(i128::MIN), i64::MIN);
}

#[test]
fn offsets_saturate() {
    assert_eq!(offset_by(3, 4), 7);
    assert_eq!(offset_by(i64::MAX, 1), i64::MAX);
    assert_eq!(offset_by(i64::MIN, -1), i64::MIN);
    assert_eq!(offset_back(3, 4), -1);
    assert_eq!(offset_back(i64::MIN, 1), i64::MIN);
    assert_eq!(offset_back(0, i64::MIN), i64::MAX);
}

#[test]
fn scale_multiplies_by_millionths() {
    assert_eq!(scale(ONE, 2_500), 2_500);
    assert_eq!(scale(-ONE, 2_500), -2_500);
    assert_eq!(scale(0, 2_500), 0);
    assert_eq!(scale(500_000, 2_500), 1_250);
    assert_eq!(scale(866_025, 1_000), 866);
}

#[test]
fn scale_rounds_toward_zero() {
    assert_eq!(scale(500_000, 3), 1);
    assert_eq!(scale(-500_000, 3), -1);
    assert_eq!(scale(999_999, 1), 0);
    assert_eq!(scale(-999_999, 1), 0);
    assert_eq!(scale(1_999_999, 1), 1);
    assert_eq!(scale(-1_999_999, 1), -1);
}

#[test]
fn scale_saturates() {
    assert_eq!(scale(i64::MAX, i64::MAX), i64::MAX);
    assert_eq!(scale(i64::MIN, i64::MAX), i64::MIN);
    assert_eq!(scale(i64::MIN, i64::MIN), i64::MAX);
    assert_eq!(scale(2 * ONE, i64::MAX), i64::MAX);
}

#[test]
fn travel_is_speed_times_time() {
    assert_eq!(travel(150, 1_000_000), 150_000);
    assert_eq!(travel(150, 0), 0);
    assert_eq!(travel(0, 1_000_000), 0);
    assert_eq!(travel(500, 10_000), 5_000);
    assert_eq!(travel(380, 100_000), 38_000);
    assert_eq!(travel(150, 16_667), 2_500);
    assert_eq!(travel(500, 16_667), 8_333);
    assert_eq!(travel(-150, 16_667), -2_500);
    assert_eq!(travel(1, 999), 0);
    assert_eq!(travel(-1, 999), 0);
}

#[test]
fn travel_saturates() {
    assert_eq!(travel(i64::MAX, u32::MAX), i64::MAX);
    assert_eq!(travel(i64::MIN, u32::MAX), i64::MIN);
}

#[test]
fn heading_normalize_keeps_sine_and_cosine() {
    let h = Heading { angle: -30_000, sin: -500_000, cos: 866_025 };
    assert_eq!(h.normalize(), Heading { angle: 330_000, sin: -500_000, cos: 866_025 });
    let g = Heading { angle: 400_000, sin: 642_788, cos: 766_044 };
    assert_eq!(g.normalize(), Heading { angle: 40_000, sin: 642_788, cos: 766_044 });
}

#[test]
fn heading_quarter_turns_swap_sine_and_cosine() {
    let h = Heading { angle: 30_000, sin: 500_000, cos: 866_025 };
    assert_eq!(
        h.turn_ahead(),
        Heading { angle: 30_000 + QUARTER_TURN, sin: 866_025, cos: -500_000 }
    );
    assert_eq!(
        h.turn_behind(),
        Heading { angle: 30_000 - QUARTER_TURN, sin: -866_025, cos: 500_000 }
    );
    assert_eq!(h.turn_ahead().turn_behind(), h);
    assert_eq!(h.turn_behind().turn_ahead(), h);
}

#[test]
fn heading_quarter_turns_agree_with_trigonometry() {
    let mut degrees = -180;
    while degrees <= 180 {
        let radians = (degrees as f64).to_radians();
        let h = Heading {
            angle: degrees * 1_000,
            sin: (radians.sin() * 1e6).round() as i64,
            cos: (radians.cos() * 1e6).round() as i64,
        };
        let ahead = h.turn_ahead();
        let turned = radians + std::f64::consts::FRAC_PI_2;
        assert_eq!(ahead.angle, degrees * 1_000 + 90_000);
        assert_eq!(ahead.sin, (turned.sin() * 1e6).round() as i64);
        assert_eq!(ahead.cos, (turned.cos() * 1e6).round() as i64);
        degrees += 15;
    }
}

#[test]
fn heading_quarter_turns_saturate() {
    let h = Heading { angle: i64::MAX, sin: i64::MIN, cos: i64::MIN };
    assert_eq!(h.turn_ahead(), Heading { angle: i64::MAX, sin: i64::MIN, cos: i64::MAX });
    let g = Heading { angle: i64::MIN, sin: i64::MIN, cos: i64::MIN };
    assert_eq!(g.turn_behind(), Heading { angle: i64::MIN, sin: i64::MAX, cos: i64::MIN });
}
