//! The configuration of a run and how it is read from command-line
//! arguments.
//!
//! Each option counts where it first occurs; later occurrences are not
//! looked at. The two sync options share one place: whichever comes first
//! decides. An option's values are the arguments right behind it, whatever
//! they look like. Angles are given in degrees as decimal numbers with an
//! optional sign, and are held in microdegrees.

use vstd::prelude::*;
use vstd::utf8::encode_utf8;
use crate::decimal::{parse_signed_decimal, parse_u16, port_value, signed_value, NumberError};
use crate::sync::SyncMode;

verus! {

/// The network port that is used when none is configured.
pub const DEFAULT_PORT: u16 = 42690;

/// The bound on a latitude, in microdegrees; the bound itself is excluded.
pub const LATITUDE_BOUND: i64 = 90_000_000;

/// The bound on a longitude, in microdegrees; the bound itself is excluded.
pub const LONGITUDE_BOUND: i64 = 180_000_000;

/// The way of calibration that was asked for.
#[derive(Clone, Copy, Debug, PartialEq, Eq, Structural)]
pub enum Mode {
    /// By the sun's azimuth at the site.
    Sun,
    /// By pointing the coax input north.
    Direct,
    /// None that can be used.
    Undef,
}

/// The configuration of a run. Angles are in microdegrees.
#[derive(Clone, Copy, Debug, PartialEq, Eq)]
pub struct Configuration {
    /// The network port to listen on.
    pub port: Option<u16>,
    /// Latitude and longitude of the site.
    pub gps: Option<(i64, i64)>,
    /// The heading of the coax input.
    pub coax_azim: Option<i64>,
    /// The azimuth of the dish in the rotator's own frame.
    pub dish_azim: Option<i64>,
    /// The way of calibration.
    pub mode: Mode,
}

/// Why arguments give no configuration to start with.
#[derive(Clone, Copy, Debug, PartialEq, Eq, Structural)]
pub enum ConfigError {
    /// No sync option is among the arguments.
    NoSyncMode,
    /// Sun sync was asked for with fewer than two arguments behind it.
    MissingCoordinates,
    /// Latitude or longitude is not a decimal number.
    UnreadableCoordinates,
    /// Latitude is not strictly between -90 and 90 degrees, or longitude not
    /// strictly between -180 and 180.
    CoordinatesOutOfRange,
}

/// The options of the command line.
#[derive(Clone, Copy, Debug, PartialEq, Eq, Structural)]
pub enum Flag {
    /// `-p` or `--port`, with the port number behind it.
    Port,
    /// `-S` or `--sun`, with latitude and longitude behind it.
    Sun,
    /// `-D` or `--direct`.
    Direct,
    /// `-h` or `--heading`, with the heading of the coax input behind it.
    Heading,
    /// `-d` or `--dish`, with the dish's internal azimuth behind it.
    Dish,
}

/// The places that options compete for: the two sync options share one.
#[derive(Clone, Copy, Debug, PartialEq, Eq, Structural)]
pub enum Slot {
    Port,
    Sync,
    Heading,
    Dish,
}

/// The short and the long spelling of an option, in ASCII.
pub open spec fn spellings(flag: Flag) -> (Seq<u8>, Seq<u8>) {
    match flag {
        // -p and --port
        Flag::Port => (
            seq![0x2du8, 0x70u8],
            seq![0x2du8, 0x2du8, 0x70u8, 0x6fu8, 0x72u8, 0x74u8],
        ),
        // -S and --sun
        Flag::Sun => (seq![0x2du8, 0x53u8], seq![0x2du8, 0x2du8, 0x73u8, 0x75u8, 0x6eu8]),
        // -D and --direct
        Flag::Direct => (
            seq![0x2du8, 0x44u8],
            seq![0x2du8, 0x2du8, 0x64u8, 0x69u8, 0x72u8, 0x65u8, 0x63u8, 0x74u8],
        ),
        // -h and --heading
        Flag::Heading => (
            seq![0x2du8, 0x68u8],
            seq![0x2du8, 0x2du8, 0x68u8, 0x65u8, 0x61u8, 0x64u8, 0x69u8, 0x6eu8, 0x67u8],
        ),
        // -d and --dish
        Flag::Dish => (
            seq![0x2du8, 0x64u8],
            seq![0x2du8, 0x2du8, 0x64u8, 0x69u8, 0x73u8, 0x68u8],
        ),
    }
}

/// Whether an argument spells the given option, short or long.
pub open spec fn spells(arg: Seq<u8>, flag: Flag) -> bool {
    arg == spellings(flag).0 || arg == spellings(flag).1
}

/// The option that an argument spells, if it spells one.
pub open spec fn flag_of(arg: Seq<u8>) -> Option<Flag> {
    if spells(arg, Flag::Port) {
        Some(Flag::Port)
    } else if spells(arg, Flag::Sun) {
        Some(Flag::Sun)
    } else if spells(arg, Flag::Direct) {
        Some(Flag::Direct)
    } else if spells(arg, Flag::Heading) {
        Some(Flag::Heading)
    } else if spells(arg, Flag::Dish) {
        Some(Flag::Dish)
    } else {
        None
    }
}

/// The place that an option takes.
pub open spec fn slot_of(flag: Flag) -> Slot {
    match flag {
        Flag::Port => Slot::Port,
        Flag::Sun => Slot::Sync,
        Flag::Direct => Slot::Sync,
        Flag::Heading => Slot::Heading,
        Flag::Dish => Slot::Dish,
    }
}

/// Whether an argument spells an option for the given place.
pub open spec fn takes_slot(arg: Seq<u8>, slot: Slot) -> bool {
    match flag_of(arg) {
        Some(flag) => slot_of(flag) == slot,
        None => false,
    }
}

/// The index of the first argument at or behind `from` that spells an option
/// for `slot`; the number of arguments when there is none.
pub open spec fn first_of(args: Seq<Seq<u8>>, slot: Slot, from: int) -> int
    decreases args.len() - from,
{
    if from < 0 || from >= args.len() {
        args.len() as int
    } else if takes_slot(args[from], slot) {
        from
    } else {
        first_of(args, slot, from + 1)
    }
}

/// What `first_of` finds is the first: it lies at or behind `from`, no
/// argument between `from` and it spells an option for `slot`, and unless it
/// is the number of arguments, the argument at it does.
pub proof fn lemma_first_of_is_first(args: Seq<Seq<u8>>, slot: Slot, from: int)
    requires
        0 <= from <= args.len(),
    ensures
        from <= first_of(args, slot, from) <= args.len(),
        forall|j: int| from <= j < first_of(args, slot, from) ==> !takes_slot(#[trigger] args[j], slot),
        first_of(args, slot, from) < args.len() ==> takes_slot(
            args[first_of(args, slot, from)],
            slot,
        ),
    decreases args.len() - from,
{
    if from < args.len() && !takes_slot(args[from], slot) {
        lemma_first_of_is_first(args, slot, from + 1);
    }
}

/// The index of the option that decides `slot`: its first occurrence behind
/// the program's name, which is argument zero and never an option.
pub open spec fn deciding(args: Seq<Seq<u8>>, slot: Slot) -> int {
    first_of(args, slot, 1)
}

/// The port that the arguments configure: the value behind the deciding
/// port option, where there is one and it is a port number.
pub open spec fn port_of(args: Seq<Seq<u8>>) -> Option<u16> {
    let i = deciding(args, Slot::Port);
    if i + 1 < args.len() {
        port_value(args[i + 1])
    } else {
        None
    }
}

/// The angle that the arguments configure for `slot`: the value behind the
/// deciding option, where there is one and it is a decimal number that can
/// be held.
pub open spec fn angle_of(args: Seq<Seq<u8>>, slot: Slot) -> Option<i64> {
    let i = deciding(args, slot);
    if i + 1 < args.len() {
        match signed_value(args[i + 1]) {
            Ok(v) => Some(v as i64),
            Err(_) => None,
        }
    } else {
        None
    }
}

/// The site that the two values behind a sun option name, or why they name
/// none. A number too large to be held is out of range.
pub open spec fn site_of(latitude: Seq<u8>, longitude: Seq<u8>) -> Result<(i64, i64), ConfigError> {
    match (signed_value(latitude), signed_value(longitude)) {
        (Err(NumberError::Malformed), _) => Err(ConfigError::UnreadableCoordinates),
        (_, Err(NumberError::Malformed)) => Err(ConfigError::UnreadableCoordinates),
        (Err(NumberError::TooLarge), _) => Err(ConfigError::CoordinatesOutOfRange),
        (_, Err(NumberError::TooLarge)) => Err(ConfigError::CoordinatesOutOfRange),
        (Ok(lat), Ok(lon)) => if -LATITUDE_BOUND < lat < LATITUDE_BOUND && -LONGITUDE_BOUND < lon
            < LONGITUDE_BOUND {
            Ok((lat as i64, lon as i64))
        } else {
            Err(ConfigError::CoordinatesOutOfRange)
        },
    }
}

/// The configuration that the arguments give, or why they give none.
///
/// The deciding sync option must be there. `--direct` needs nothing more;
/// `--sun` needs a readable site within range behind it. Port, heading and
/// dish azimuth are optional, and one that cannot be read counts as absent.
pub open spec fn configuration_of(args: Seq<Seq<u8>>) -> Result<Configuration, ConfigError> {
    let i = deciding(args, Slot::Sync);
    let port = port_of(args);
    let coax_azim = angle_of(args, Slot::Heading);
    let dish_azim = angle_of(args, Slot::Dish);
    if i >= args.len() {
        Err(ConfigError::NoSyncMode)
    } else if flag_of(args[i]) == Some(Flag::Direct) {
        Ok(Configuration { port, gps: None, coax_azim, dish_azim, mode: Mode::Direct })
    } else if i + 2 >= args.len() {
        Err(ConfigError::MissingCoordinates)
    } else {
        match site_of(args[i + 1], args[i + 2]) {
            Err(e) => Err(e),
            Ok(site) => Ok(
                Configuration { port, gps: Some(site), coax_azim, dish_azim, mode: Mode::Sun },
            ),
        }
    }
}

/// The arguments as byte strings.
pub open spec fn arg_bytes(args: Seq<String>) -> Seq<Seq<u8>> {
    Seq::new(args.len(), |i: int| encode_utf8(args[i]@))
}

/// Tells whether two byte strings are the same.
fn same_bytes(a: &[u8], b: &[u8]) -> (r: bool)
    ensures
        r == (a@ == b@),
{
    if a.len() != b.len() {
        return false;
    }
    let mut i: usize = 0;
    while i < a.len()
        invariant
            a@.len() == b@.len(),
            i <= a@.len(),
            forall|k: int| 0 <= k < i ==> a@[k] == b@[k],
        decreases a@.len() - i,
    {
        if a[i] != b[i] {
            return false;
        }
        i = i + 1;
    }
    assert(a@ =~= b@);
    true
}

/// Tells whether `arg` is one of two spellings.
fn is_either(arg: &[u8], short: &[u8], long: &[u8]) -> (r: bool)
    ensures
        r == (arg@ == short@ || arg@ == long@),
{
    same_bytes(arg, short) || same_bytes(arg, long)
}

/// Tells which option an argument spells, if any.
pub fn read_flag(arg: &[u8]) -> (r: Option<Flag>)
    ensures
        r == flag_of(arg@),
{
    let port_short: [u8; 2] = [0x2d, 0x70];
    let port_long: [u8; 6] = [0x2d, 0x2d, 0x70, 0x6f, 0x72, 0x74];
    let sun_short: [u8; 2] = [0x2d, 0x53];
    let sun_long: [u8; 5] = [0x2d, 0x2d, 0x73, 0x75, 0x6e];
    let direct_short: [u8; 2] = [0x2d, 0x44];
    let direct_long: [u8; 8] = [0x2d, 0x2d, 0x64, 0x69, 0x72, 0x65, 0x63, 0x74];
    let heading_short: [u8; 2] = [0x2d, 0x68];
    let heading_long: [u8; 9] = [0x2d, 0x2d, 0x68, 0x65, 0x61, 0x64, 0x69, 0x6e, 0x67];
    let dish_short: [u8; 2] = [0x2d, 0x64];
    let dish_long: [u8; 6] = [0x2d, 0x2d, 0x64, 0x69, 0x73, 0x68];
    proof {
        assert(port_short@ =~= spellings(Flag::Port).0);
        assert(port_long@ =~= spellings(Flag::Port).1);
        assert(sun_short@ =~= spellings(Flag::Sun).0);
        assert(sun_long@ =~= spellings(Flag::Sun).1);
        assert(direct_short@ =~= spellings(Flag::Direct).0);
        assert(direct_long@ =~= spellings(Flag::Direct).1);
        assert(heading_short@ =~= spellings(Flag::Heading).0);
        assert(heading_long@ =~= spellings(Flag::Heading).1);
        assert(dish_short@ =~= spellings(Flag::Dish).0);
        assert(dish_long@ =~= spellings(Flag::Dish).1);
    }
    if is_either(arg, port_short.as_slice(), port_long.as_slice()) {
        Some(Flag::Port)
    } else if is_either(arg, sun_short.as_slice(), sun_long.as_slice()) {
        Some(Flag::Sun)
    } else if is_either(arg, direct_short.as_slice(), direct_long.as_slice()) {
        Some(Flag::Direct)
    } else if is_either(arg, heading_short.as_slice(), heading_long.as_slice()) {
        Some(Flag::Heading)
    } else if is_either(arg, dish_short.as_slice(), dish_long.as_slice()) {
        Some(Flag::Dish)
    } else {
        None
    }
}

/// Tells whether an option takes the given place.
fn flag_takes(flag: Option<Flag>, slot: Slot) -> (r: bool)
    ensures
        r == match flag {
            Some(f) => slot_of(f) == slot,
            None => false,
        },
{
    match flag {
        None => false,
        Some(Flag::Port) => matches!(slot, Slot::Port),
        Some(Flag::Sun) => matches!(slot, Slot::Sync),
        Some(Flag::Direct) => matches!(slot, Slot::Sync),
        Some(Flag::Heading) => matches!(slot, Slot::Heading),
        Some(Flag::Dish) => matches!(slot, Slot::Dish),
    }
}

/// The bytes of argument `i`.
fn arg_at(args: &Vec<String>, i: usize) -> (bytes: &[u8])
    requires
        i < args@.len(),
    ensures
        bytes@ == arg_bytes(args@)[i as int],
{
    args[i].as_str().as_bytes()
}

/// Finds the option that decides `slot`.
fn find_deciding(args: &Vec<String>, slot: Slot) -> (i: usize)
    ensures
        i == deciding(arg_bytes(args@), slot),
        i <= args@.len(),
        i < args@.len() ==> 1 <= i && takes_slot(arg_bytes(args@)[i as int], slot),
{
    let mut i: usize = 1;
    if args.len() < 1 {
        return 0;
    }
    while i < args.len()
        invariant
            1 <= i <= args@.len(),
            deciding(arg_bytes(args@), slot) == first_of(arg_bytes(args@), slot, i as int),
        decreases args@.len() - i,
    {
        if flag_takes(read_flag(arg_at(args, i)), slot) {
            return i;
        }
        i = i + 1;
    }
    i
}

/// Reads the angle that the arguments configure for `slot`.
fn read_angle(args: &Vec<String>, slot: Slot) -> (r: Option<i64>)
    ensures
        r == angle_of(arg_bytes(args@), slot),
{
    let i: usize = find_deciding(args, slot);
    if i < args.len() && i + 1 < args.len() {
        match parse_signed_decimal(arg_at(args, i + 1)) {
            Ok(v) => Some(v),
            Err(_) => None,
        }
    } else {
        None
    }
}

/// Reads the site that the two values behind a sun option name.
fn read_site(latitude: &[u8], longitude: &[u8]) -> (r: Result<(i64, i64), ConfigError>)
    ensures
        r == site_of(latitude@, longitude@),
{
    let lat = parse_signed_decimal(latitude);
    let lon = parse_signed_decimal(longitude);
    match (lat, lon) {
        (Err(NumberError::Malformed), _) => Err(ConfigError::UnreadableCoordinates),
        (_, Err(NumberError::Malformed)) => Err(ConfigError::UnreadableCoordinates),
        (Err(NumberError::TooLarge), _) => Err(ConfigError::CoordinatesOutOfRange),
        (_, Err(NumberError::TooLarge)) => Err(ConfigError::CoordinatesOutOfRange),
        (Ok(lat), Ok(lon)) => if -LATITUDE_BOUND < lat && lat < LATITUDE_BOUND && -LONGITUDE_BOUND
            < lon && lon < LONGITUDE_BOUND {
            Ok((lat, lon))
        } else {
            Err(ConfigError::CoordinatesOutOfRange)
        },
    }
}

impl Configuration {
    /// The way of calibration.
    pub fn mode(&self) -> (m: &Mode)
        ensures
            *m == self.mode,
    {
        &self.mode
    }

    /// The network port to listen on: the configured one, or
    /// [`DEFAULT_PORT`].
    pub fn listen_port(&self) -> (port: u16)
        ensures
            port == match self.port {
                Some(p) => p,
                None => DEFAULT_PORT,
            },
    {
        match self.port {
            Some(p) => p,
            None => DEFAULT_PORT,
        }
    }

    /// How the reference frame is to be established under this
    /// configuration. Sun sync needs the site; without it, and without a
    /// mode, there is no way.
    pub fn sync_mode(&self) -> (sync: SyncMode)
        ensures
            sync == match (self.mode, self.gps) {
                (Mode::Sun, Some(site)) => SyncMode::Sun {
                    latitude: site.0,
                    longitude: site.1,
                    known_internal_azimuth: self.dish_azim,
                },
                (Mode::Sun, None) => SyncMode::Undefined,
                (Mode::Direct, _) => SyncMode::Direct { coax_heading: self.coax_azim },
                (Mode::Undef, _) => SyncMode::Undefined,
            },
    {
        match self.mode {
            Mode::Sun => match self.gps {
                Some(site) => SyncMode::Sun {
                    latitude: site.0,
                    longitude: site.1,
                    known_internal_azimuth: self.dish_azim,
                },
                None => SyncMode::Undefined,
            },
            Mode::Direct => SyncMode::Direct { coax_heading: self.coax_azim },
            Mode::Undef => SyncMode::Undefined,
        }
    }

    /// Reads the configuration from the command-line arguments, the first of
    /// which is the program's name.
    pub fn parse_args(args: Vec<String>) -> (r: Result<Configuration, ConfigError>)
        ensures
            r == configuration_of(arg_bytes(args@)),
    {
        let port_at: usize = find_deciding(&args, Slot::Port);
        let port: Option<u16> = if port_at < args.len() && port_at + 1 < args.len() {
            parse_u16(arg_at(&args, port_at + 1))
        } else {
            None
        };
        let coax_azim: Option<i64> = read_angle(&args, Slot::Heading);
        let dish_azim: Option<i64> = read_angle(&args, Slot::Dish);
        let sync_at: usize = find_deciding(&args, Slot::Sync);
        if sync_at >= args.len() {
            return Err(ConfigError::NoSyncMode);
        }
        match read_flag(arg_at(&args, sync_at)) {
            Some(Flag::Direct) => Ok(
                Configuration { port, gps: None, coax_azim, dish_azim, mode: Mode::Direct },
            ),
            _ => {
                if args.len() - sync_at <= 2 {
                    return Err(ConfigError::MissingCoordinates);
                }
                match read_site(arg_at(&args, sync_at + 1), arg_at(&args, sync_at + 2)) {
                    Err(e) => Err(e),
                    Ok(site) => Ok(
                        Configuration {
                            port,
                            gps: Some(site),
                            coax_azim,
                            dish_azim,
                            mode: Mode::Sun,
                        },
                    ),
                }
            },
        }
    }
}

} // verus!
