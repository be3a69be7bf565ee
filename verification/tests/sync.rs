use astralis::coords::Coordinates;
use astralis::sync::{
    azimuth_query, north_sync, read_azimuth_reply, sun_sync, sun_sync_with_reply, SunSync,
    SyncError, NORTH_SYNC_OFFSET,
};

const DEG: i64 = 1_000_000;

#[test]
fn north_sync_uses_the_calibration_constant() {
    assert_eq!(NORTH_SYNC_OFFSET, 360 * DEG);
    assert_eq!(north_sync().offset(), NORTH_SYNC_OFFSET);
    assert_eq!(north_sync().to_internal(90 * DEG), 270 * DEG);
}

#[test]
fn sun_sync_with_known_azimuth_calibrates_at_once() {
    match sun_sync(100 * DEG, Some(30 * DEG)) {
        SunSync::Calibrated(c) => assert_eq!(c.offset(), 70 * DEG),
        SunSync::QueryDevice => panic!("asked the device"),
    }
    match sun_sync(10 * DEG, Some(-20 * DEG)) {
        SunSync::Calibrated(c) => assert_eq!(c.offset(), 30 * DEG),
        SunSync::QueryDevice => panic!("asked the device"),
    }
}

#[test]
fn sun_sync_without_known_azimuth_asks_the_device() {
    assert_eq!(sun_sync(100 * DEG, None), SunSync::QueryDevice);
}

#[test]
fn sun_sync_calibrates_as_a_calibration_would() {
    assert_eq!(
        sun_sync(100 * DEG, Some(30 * DEG)),
        SunSync::Calibrated(Coordinates::new(100 * DEG, 30 * DEG))
    );
    assert_eq!(
        sun_sync_with_reply(100 * DEG, Some(b"0\n30.0")),
        Ok(Coordinates::offset_new(70 * DEG))
    );
}

#[test]
fn the_azimuth_query() {
    assert_eq!(azimuth_query(), b"azacc\r\n".to_vec());
}

#[test]
fn the_reading_is_the_second_part_of_the_reply() {
    assert_eq!(read_azimuth_reply(b"1\n123.4"), Ok(123_400_000));
    assert_eq!(read_azimuth_reply(b"az 12.5\r\nel 45.0"), Ok(45 * DEG));
    assert_eq!(read_azimuth_reply(b"0\n30.0\n7"), Ok(30 * DEG));
    assert_eq!(read_azimuth_reply(b"azacc 2\rx\nazimuth: 271.25 deg\r"), Ok(271_250_000));
}

#[test]
fn a_reply_without_a_reading_fails() {
    let failed = Err(SyncError::DeviceUnresponsive);
    assert_eq!(read_azimuth_reply(b""), failed);
    assert_eq!(read_azimuth_reply(b"12"), failed);
    assert_eq!(read_azimuth_reply(b"12\n"), failed);
    assert_eq!(read_azimuth_reply(b"azacc\r\n123.4"), failed);
    assert_eq!(read_azimuth_reply(b"1\n2\n"), failed);
    assert_eq!(read_azimuth_reply(b"1\n1.2.3"), failed);
    assert_eq!(read_azimuth_reply(b"1\n99999999999999999999"), failed);
    assert_eq!(read_azimuth_reply(b"1\n2\nthree"), failed);
}

#[test]
fn sun_sync_calibrates_with_the_reading() {
    let frame = sun_sync_with_reply(100 * DEG, Some(b"0\n30.0")).unwrap();
    assert_eq!(frame.offset(), 70 * DEG);
    let other = sun_sync_with_reply(0, Some(b"1\n9223372036854.775807")).unwrap();
    assert_eq!(other.offset(), -i64::MAX);
    let edge = sun_sync_with_reply(-1, Some(b"1\n9223372036854.775807")).unwrap();
    assert_eq!(edge.offset(), i64::MIN);
}

#[test]
fn sun_sync_fails_without_a_reply() {
    assert_eq!(
        sun_sync_with_reply(100 * DEG, None).map(|c| c.offset()),
        Err(SyncError::DeviceUnresponsive)
    );
}

#[test]
fn sun_sync_fails_on_an_unreadable_reply() {
    assert_eq!(
        sun_sync_with_reply(100 * DEG, Some(b"azacc\r\n")).map(|c| c.offset()),
        Err(SyncError::DeviceUnresponsive)
    );
    assert_eq!(
        sun_sync_with_reply(100 * DEG, Some(b"")).map(|c| c.offset()),
        Err(SyncError::DeviceUnresponsive)
    );
}
