use astralis::angle::{
    clamp, normalize_0_360, sanitize_elevation, ElevationWarning, DEGREE, FULL_TURN, HALF_TURN,
    MAX_ELEVATION, MIN_ELEVATION,
};

fn deg(whole: i64) -> i64 {
    whole * DEGREE
}

#[test]
fn units_are_microdegrees() {
    assert_eq!(DEGREE, 1_000_000);
    assert_eq!(HALF_TURN, 180 * DEGREE);
    assert_eq!(FULL_TURN, 360 * DEGREE);
    assert_eq!(MIN_ELEVATION, 5 * DEGREE);
    assert_eq!(MAX_ELEVATION, 70 * DEGREE);
}

#[test]
fn normalize_reduces_above_full_turn() {
    assert_eq!(normalize_0_360(deg(370)), deg(10));
    assert_eq!(normalize_0_360(deg(720)), 0);
    assert_eq!(normalize_0_360(deg(725)), deg(5));
    assert_eq!(normalize_0_360(FULL_TURN + 1), 1);
    assert_eq!(normalize_0_360(FULL_TURN + 500_000), 500_000);
}

#[test]
fn normalize_adds_a_turn_to_negative() {
    assert_eq!(normalize_0_360(deg(-10)), deg(350));
    assert_eq!(normalize_0_360(-1), FULL_TURN - 1);
    assert_eq!(normalize_0_360(-FULL_TURN), 0);
}

#[test]
fn normalize_snaps_below_one_degree_to_full_turn() {
    assert_eq!(normalize_0_360(500_000), FULL_TURN);
    assert_eq!(normalize_0_360(1), FULL_TURN);
    assert_eq!(normalize_0_360(DEGREE - 1), FULL_TURN);
}

#[test]
fn normalize_leaves_the_rest() {
    assert_eq!(normalize_0_360(0), 0);
    assert_eq!(normalize_0_360(DEGREE), DEGREE);
    assert_eq!(normalize_0_360(deg(45)), deg(45));
    assert_eq!(normalize_0_360(FULL_TURN), FULL_TURN);
}

#[test]
fn normalize_stays_in_range_from_minus_one_turn_up() {
    let samples = [
        -FULL_TURN,
        -FULL_TURN + 1,
        -1,
        0,
        1,
        DEGREE - 1,
        DEGREE,
        FULL_TURN - 1,
        FULL_TURN,
        FULL_TURN + 1,
        deg(100_000),
        i64::MAX,
    ];
    for a in samples {
        let r = normalize_0_360(a);
        assert!(0 <= r && r <= FULL_TURN, "{} gave {}", a, r);
    }
}

#[test]
fn normalize_is_no_general_modulo() {
    assert_eq!(normalize_0_360(deg(-400)), deg(-40));
    assert_eq!(normalize_0_360(-FULL_TURN - 1), -1);
    assert_eq!(normalize_0_360(i64::MIN), i64::MIN + FULL_TURN);
}

#[test]
fn clamp_limits_to_the_interval() {
    assert_eq!(clamp(3, 5, 70), 5);
    assert_eq!(clamp(75, 5, 70), 70);
    assert_eq!(clamp(40, 5, 70), 40);
    assert_eq!(clamp(5, 5, 70), 5);
    assert_eq!(clamp(70, 5, 70), 70);
    assert_eq!(clamp(i64::MIN, -1, 1), -1);
    assert_eq!(clamp(i64::MAX, -1, 1), 1);
}

#[test]
fn elevation_below_limit_is_raised() {
    assert_eq!(sanitize_elevation(deg(3)), (deg(5), Some(ElevationWarning::BelowLimit)));
    assert_eq!(sanitize_elevation(0), (deg(5), Some(ElevationWarning::BelowLimit)));
    assert_eq!(
        sanitize_elevation(MIN_ELEVATION - 1),
        (MIN_ELEVATION, Some(ElevationWarning::BelowLimit))
    );
}

#[test]
fn elevation_above_limit_is_lowered() {
    assert_eq!(sanitize_elevation(deg(75)), (deg(70), Some(ElevationWarning::AboveLimit)));
    assert_eq!(
        sanitize_elevation(MAX_ELEVATION + 1),
        (MAX_ELEVATION, Some(ElevationWarning::AboveLimit))
    );
}

#[test]
fn elevation_within_limits_is_unchanged() {
    assert_eq!(sanitize_elevation(deg(40)), (deg(40), None));
    assert_eq!(sanitize_elevation(MIN_ELEVATION), (MIN_ELEVATION, None));
    assert_eq!(sanitize_elevation(MAX_ELEVATION), (MAX_ELEVATION, None));
}
