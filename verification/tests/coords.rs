use astralis::angle::{normalize_0_360, DEGREE, FULL_TURN, HALF_TURN};
use astralis::coords::Coordinates;

fn deg(whole: i64) -> i64 {
    whole * DEGREE
}

#[test]
fn calibration_stores_the_difference() {
    assert_eq!(Coordinates::new(deg(100), deg(30)).offset(), deg(70));
    assert_eq!(Coordinates::new(deg(30), deg(100)).offset(), deg(-70));
    assert_eq!(Coordinates::new(123_456_789, 23_456_789).offset(), 100_000_000);
}

#[test]
fn fixed_offset_is_kept() {
    assert_eq!(Coordinates::offset_new(deg(360)).offset(), deg(360));
    assert_eq!(Coordinates::offset_new(-5).offset(), -5);
}

#[test]
fn to_internal_subtracts_the_target_from_the_offset() {
    let frame = Coordinates::offset_new(deg(360));
    assert_eq!(frame.to_internal(deg(45)), deg(315));
    assert_eq!(frame.to_internal(deg(360)), 0);
    assert_eq!(frame.to_internal(0), deg(360));
    let other = Coordinates::offset_new(deg(90));
    assert_eq!(other.to_internal(deg(45)), deg(45));
}

#[test]
fn to_internal_wraps_a_negative_difference_once() {
    let frame = Coordinates::offset_new(0);
    assert_eq!(frame.to_internal(deg(45)), deg(315));
    assert_eq!(frame.to_internal(deg(360)), 0);
    let low = Coordinates::offset_new(deg(-100));
    assert_eq!(low.to_internal(deg(300)), deg(-40));
}

#[test]
fn to_internal_reduces_a_difference_above_a_turn() {
    let frame = Coordinates::offset_new(deg(800));
    assert_eq!(frame.to_internal(deg(70)), deg(10));
}

#[test]
fn to_internal_snaps_a_difference_below_one_degree() {
    let frame = Coordinates::offset_new(deg(45) + 500_000);
    assert_eq!(frame.to_internal(deg(45)), FULL_TURN);
}

#[test]
fn to_internal_is_the_policy_of_the_difference() {
    let offsets = [deg(-500), deg(-100), 0, 1, deg(90), deg(360), deg(1000)];
    let targets = [0, 1, deg(45), deg(180), deg(359), deg(360)];
    for offset in offsets {
        for target in targets {
            let frame = Coordinates::offset_new(offset);
            assert_eq!(frame.to_internal(target), normalize_0_360(offset - target));
        }
    }
}

#[test]
fn to_internal_depends_on_the_offset_alone() {
    let calibrated = Coordinates::new(deg(250), deg(180));
    let fixed = Coordinates::offset_new(deg(70));
    for target in [0, deg(10), deg(70), deg(71), deg(200), deg(360)] {
        assert_eq!(calibrated.to_internal(target), fixed.to_internal(target));
    }
}

#[test]
fn round_trip_holds_at_zero_and_half_turn() {
    for s in [0, deg(10), deg(123), deg(359)] {
        assert_eq!(Coordinates::new(s, 0).to_internal(s), 0);
        assert_eq!(Coordinates::new(s, HALF_TURN).to_internal(s), HALF_TURN);
    }
}

#[test]
fn round_trip_mirrors_every_other_reading() {
    assert_eq!(Coordinates::new(deg(100), deg(30)).to_internal(deg(100)), deg(330));
    assert_eq!(Coordinates::new(deg(100), deg(90)).to_internal(deg(100)), deg(270));
    assert_eq!(Coordinates::new(deg(100), deg(360)).to_internal(deg(100)), 0);
    assert_eq!(Coordinates::new(deg(7), 1).to_internal(deg(7)), FULL_TURN - 1);
}

#[test]
fn to_internal_at_the_edge_of_the_integers() {
    let frame = Coordinates::offset_new(i64::MIN);
    assert_eq!(frame.to_internal(0), i64::MIN + FULL_TURN);
    assert_eq!(frame.to_internal(FULL_TURN), i64::MIN);
    let high = Coordinates::offset_new(i64::MAX);
    assert_eq!(high.to_internal(-FULL_TURN), (i64::MAX % FULL_TURN));
}
