use astralis::args::{read_flag, ConfigError, Configuration, Flag, Mode, DEFAULT_PORT};
use astralis::sync::SyncMode;

fn parse(args: &[&str]) -> Result<Configuration, ConfigError> {
    Configuration::parse_args(args.iter().map(|a| a.to_string()).collect())
}

fn direct() -> Configuration {
    Configuration { port: None, gps: None, coax_azim: None, dish_azim: None, mode: Mode::Direct }
}

#[test]
fn direct_mode_alone() {
    assert_eq!(parse(&["astralis", "-D"]), Ok(direct()));
    assert_eq!(parse(&["astralis", "--direct"]), Ok(direct()));
}

#[test]
fn sun_mode_with_site() {
    let expected = Configuration {
        port: None,
        gps: Some((48_850_000, 2_350_000)),
        coax_azim: None,
        dish_azim: None,
        mode: Mode::Sun,
    };
    assert_eq!(parse(&["astralis", "-S", "48.85", "2.35"]), Ok(expected));
    assert_eq!(parse(&["astralis", "--sun", "48.85", "2.35"]), Ok(expected));
}

#[test]
fn sun_mode_with_signed_site() {
    let config = parse(&["astralis", "-S", "-33.5", "+151.2"]).unwrap();
    assert_eq!(config.gps, Some((-33_500_000, 151_200_000)));
    assert_eq!(config.mode, Mode::Sun);
}

#[test]
fn all_options_together() {
    let config = parse(&[
        "astralis", "-p", "4533", "-S", "48.85", "2.35", "-h", "12.5", "-d", "120",
    ])
    .unwrap();
    assert_eq!(
        config,
        Configuration {
            port: Some(4533),
            gps: Some((48_850_000, 2_350_000)),
            coax_azim: Some(12_500_000),
            dish_azim: Some(120_000_000),
            mode: Mode::Sun,
        }
    );
}

#[test]
fn long_options() {
    let config = parse(&[
        "astralis", "--heading", "-7.25", "--dish", "300", "--port", "+80", "--direct",
    ])
    .unwrap();
    assert_eq!(
        config,
        Configuration {
            port: Some(80),
            gps: None,
            coax_azim: Some(-7_250_000),
            dish_azim: Some(300_000_000),
            mode: Mode::Direct,
        }
    );
}

#[test]
fn no_sync_option_is_an_error() {
    assert_eq!(parse(&["astralis"]), Err(ConfigError::NoSyncMode));
    assert_eq!(parse(&[]), Err(ConfigError::NoSyncMode));
    assert_eq!(parse(&["astralis", "-p", "4533"]), Err(ConfigError::NoSyncMode));
    assert_eq!(parse(&["astralis", "-x", "direct"]), Err(ConfigError::NoSyncMode));
}

#[test]
fn the_program_name_is_no_option() {
    assert_eq!(parse(&["-D"]), Err(ConfigError::NoSyncMode));
    assert_eq!(parse(&["-D", "-D"]), Ok(direct()));
}

#[test]
fn sun_mode_needs_two_values() {
    assert_eq!(parse(&["astralis", "-S"]), Err(ConfigError::MissingCoordinates));
    assert_eq!(parse(&["astralis", "-S", "48.85"]), Err(ConfigError::MissingCoordinates));
}

#[test]
fn sun_mode_needs_readable_values() {
    assert_eq!(parse(&["astralis", "-S", "north", "2.35"]), Err(ConfigError::UnreadableCoordinates));
    assert_eq!(parse(&["astralis", "-S", "48.85", "east"]), Err(ConfigError::UnreadableCoordinates));
    assert_eq!(parse(&["astralis", "-S", "4e1", "2"]), Err(ConfigError::UnreadableCoordinates));
    assert_eq!(parse(&["astralis", "-S", "-D", "5"]), Err(ConfigError::UnreadableCoordinates));
    assert_eq!(
        parse(&["astralis", "-S", "99999999999999999999", "east"]),
        Err(ConfigError::UnreadableCoordinates)
    );
}

#[test]
fn sun_mode_needs_a_site_within_range() {
    let out = Err(ConfigError::CoordinatesOutOfRange);
    assert_eq!(parse(&["astralis", "-S", "90", "0"]), out);
    assert_eq!(parse(&["astralis", "-S", "-90", "0"]), out);
    assert_eq!(parse(&["astralis", "-S", "0", "180"]), out);
    assert_eq!(parse(&["astralis", "-S", "0", "-180"]), out);
    assert_eq!(parse(&["astralis", "-S", "91", "0"]), out);
    assert_eq!(parse(&["astralis", "-S", "99999999999999999999", "0"]), out);
    assert_eq!(parse(&["astralis", "-S", "0", "-99999999999999999999"]), out);
}

#[test]
fn a_site_just_within_range() {
    let config = parse(&["astralis", "-S", "89.999999", "-179.999999"]).unwrap();
    assert_eq!(config.gps, Some((89_999_999, -179_999_999)));
    let other = parse(&["astralis", "-S", "-89.999999", "179.999999"]).unwrap();
    assert_eq!(other.gps, Some((-89_999_999, 179_999_999)));
    let zero = parse(&["astralis", "-S", "0", "0"]).unwrap();
    assert_eq!(zero.gps, Some((0, 0)));
}

#[test]
fn the_first_sync_option_decides() {
    assert_eq!(parse(&["astralis", "-D", "-S", "1", "2"]), Ok(direct()));
    let sun = parse(&["astralis", "-S", "1", "2", "-D"]).unwrap();
    assert_eq!(sun.mode, Mode::Sun);
    assert_eq!(sun.gps, Some((1_000_000, 2_000_000)));
    assert_eq!(
        parse(&["astralis", "-S", "x", "y", "-S", "1", "2"]),
        Err(ConfigError::UnreadableCoordinates)
    );
    assert_eq!(parse(&["astralis", "-S", "1", "-D"]), Err(ConfigError::UnreadableCoordinates));
}

#[test]
fn the_first_occurrence_of_an_option_decides() {
    let config = parse(&["astralis", "-D", "-p", "x", "-p", "80", "-h", "1", "-h", "2"]).unwrap();
    assert_eq!(config.port, None);
    assert_eq!(config.coax_azim, Some(1_000_000));
    let mixed = parse(&["astralis", "-D", "--dish", "5", "-d", "6"]).unwrap();
    assert_eq!(mixed.dish_azim, Some(5_000_000));
}

#[test]
fn a_value_is_looked_at_as_an_option_too() {
    let config = parse(&["astralis", "-h", "-p", "80", "-D"]).unwrap();
    assert_eq!(config.coax_azim, None);
    assert_eq!(config.port, Some(80));
    let other = parse(&["astralis", "-p", "-D"]).unwrap();
    assert_eq!(other.port, None);
    assert_eq!(other.mode, Mode::Direct);
}

#[test]
fn an_option_at_the_end_has_no_value() {
    let config = parse(&["astralis", "-D", "-p"]).unwrap();
    assert_eq!(config.port, None);
    let heading = parse(&["astralis", "-D", "-h"]).unwrap();
    assert_eq!(heading.coax_azim, None);
    let dish = parse(&["astralis", "-D", "-d"]).unwrap();
    assert_eq!(dish.dish_azim, None);
}

#[test]
fn unreadable_optional_values_count_as_absent() {
    let config =
        parse(&["astralis", "-D", "-p", "65536", "-h", "north", "-d", "99999999999999999999"])
            .unwrap();
    assert_eq!(config, direct());
}

#[test]
fn flags_are_spelled_exactly() {
    assert_eq!(read_flag(b"-p"), Some(Flag::Port));
    assert_eq!(read_flag(b"--port"), Some(Flag::Port));
    assert_eq!(read_flag(b"-S"), Some(Flag::Sun));
    assert_eq!(read_flag(b"--sun"), Some(Flag::Sun));
    assert_eq!(read_flag(b"-D"), Some(Flag::Direct));
    assert_eq!(read_flag(b"--direct"), Some(Flag::Direct));
    assert_eq!(read_flag(b"-h"), Some(Flag::Heading));
    assert_eq!(read_flag(b"--heading"), Some(Flag::Heading));
    assert_eq!(read_flag(b"-d"), Some(Flag::Dish));
    assert_eq!(read_flag(b"--dish"), Some(Flag::Dish));
    for other in ["", "-", "--", "-s", "-P", "-H", "--Sun", "-pp", "--ports", "p", "-D ", "direct"] {
        assert_eq!(read_flag(other.as_bytes()), None, "{:?}", other);
    }
}

#[test]
fn the_mode_getter() {
    assert_eq!(*direct().mode(), Mode::Direct);
    let undefined = Configuration { mode: Mode::Undef, ..direct() };
    assert_eq!(*undefined.mode(), Mode::Undef);
}

#[test]
fn the_default_port() {
    assert_eq!(DEFAULT_PORT, 42690);
    assert_eq!(direct().listen_port(), 42690);
    let with_port = Configuration { port: Some(4533), ..direct() };
    assert_eq!(with_port.listen_port(), 4533);
}

#[test]
fn sync_mode_of_a_sun_configuration() {
    let config = Configuration {
        port: None,
        gps: Some((48_850_000, 2_350_000)),
        coax_azim: Some(1),
        dish_azim: Some(120_000_000),
        mode: Mode::Sun,
    };
    assert_eq!(
        config.sync_mode(),
        SyncMode::Sun {
            latitude: 48_850_000,
            longitude: 2_350_000,
            known_internal_azimuth: Some(120_000_000),
        }
    );
    let unknown = Configuration { dish_azim: None, ..config };
    assert_eq!(
        unknown.sync_mode(),
        SyncMode::Sun { latitude: 48_850_000, longitude: 2_350_000, known_internal_azimuth: None }
    );
}

#[test]
fn sync_mode_of_a_direct_configuration() {
    assert_eq!(direct().sync_mode(), SyncMode::Direct { coax_heading: None });
    let with_heading = Configuration { coax_azim: Some(12_500_000), ..direct() };
    assert_eq!(with_heading.sync_mode(), SyncMode::Direct { coax_heading: Some(12_500_000) });
}

#[test]
fn sync_mode_of_an_unusable_configuration() {
    let no_mode = Configuration { mode: Mode::Undef, ..direct() };
    assert_eq!(no_mode.sync_mode(), SyncMode::Undefined);
    let no_site = Configuration { mode: Mode::Sun, ..direct() };
    assert_eq!(no_site.sync_mode(), SyncMode::Undefined);
    let undefined_with_site = Configuration { mode: Mode::Undef, gps: Some((1, 2)), ..direct() };
    assert_eq!(undefined_with_site.sync_mode(), SyncMode::Undefined);
}

#[test]
fn parsed_configurations_always_name_a_way() {
    let samples: [&[&str]; 4] = [
        &["astralis", "-D"],
        &["astralis", "-S", "10", "20"],
        &["astralis", "-S", "10", "20", "-d", "5"],
        &["astralis", "-D", "-h", "90"],
    ];
    for args in samples {
        let config = parse(args).unwrap();
        assert_ne!(config.sync_mode(), SyncMode::Undefined);
    }
}
