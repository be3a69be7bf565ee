//! Calibration strategies: how a reference frame comes to be.
//!
//! North sync trusts the operator to have pointed the coax feed at geometric
//! north. Sun sync compares the sun's azimuth, which the caller supplies,
//! with the rotator's own azimuth, which is either known beforehand or read
//! from the rotator's reply to a query that the caller sends.

use vstd::prelude::*;
use crate::coords::Coordinates;
use crate::decimal::{first_defect, number_of, parse_tokens};
use crate::text::{lines, split_lines, views};

verus! {

/// The offset that north sync assumes, in microdegrees.
///
/// With the coax feed pointing north the two frames differ by a reversal
/// only, because the rotator counts its azimuth in the opposite sense. This
/// is a calibration constant of the installation: a full turn is the value
/// in use here, a half turn has been seen elsewhere, and which one a given
/// rotator needs has to be verified on site.
pub const NORTH_SYNC_OFFSET: i64 = 360_000_000;

/// How the reference frame is to be established.
#[derive(Clone, Copy, Debug, PartialEq, Eq, Structural)]
pub enum SyncMode {
    /// By the sun's azimuth at the given place; angles in microdegrees.
    Sun { latitude: i64, longitude: i64, known_internal_azimuth: Option<i64> },
    /// By pointing the coax feed north.
    Direct { coax_heading: Option<i64> },
    /// Not at all: the configuration names no usable way, and calibration
    /// must not proceed.
    Undefined,
}

/// Why a calibration failed.
#[derive(Clone, Copy, Debug, PartialEq, Eq, Structural)]
pub enum SyncError {
    /// The rotator gave no reply from which its azimuth can be read.
    DeviceUnresponsive,
}

/// What sun sync needs next.
#[derive(Clone, Copy, Debug, PartialEq, Eq, Structural)]
pub enum SunSync {
    /// Nothing: the frame is calibrated.
    Calibrated(Coordinates),
    /// The rotator's azimuth: send [`azimuth_query`] and hand the reply to
    /// [`sun_sync_with_reply`].
    QueryDevice,
}

/// The frame for a rotator whose coax feed points north: its offset is
/// [`NORTH_SYNC_OFFSET`]. An installation that needs another offset builds
/// its frame with [`Coordinates::offset_new`].
pub fn north_sync() -> (c: Coordinates)
    ensures
        c.offset() == NORTH_SYNC_OFFSET,
{
    Coordinates::offset_new(NORTH_SYNC_OFFSET)
}

/// Starts sun sync with the sun's azimuth. With the rotator's azimuth known
/// the frame is calibrated at once and the rotator is not asked; without it
/// the rotator has to be queried.
pub fn sun_sync(solar_azimuth: i64, internal_azim: Option<i64>) -> (step: SunSync)
    requires
        internal_azim matches Some(azim) ==> i64::MIN <= solar_azimuth - azim <= i64::MAX,
    ensures
        match internal_azim {
            Some(azim) => step matches SunSync::Calibrated(c) && c.offset() == solar_azimuth
                - azim,
            None => step is QueryDevice,
        },
{
    match internal_azim {
        Some(azim) => SunSync::Calibrated(Coordinates::new(solar_azimuth, azim)),
        None => SunSync::QueryDevice,
    }
}

/// The query that asks the rotator for its azimuth: `azacc`, a carriage
/// return and a line feed.
pub open spec fn azimuth_query_text() -> Seq<u8> {
    seq![0x61u8, 0x7au8, 0x61u8, 0x63u8, 0x63u8, 0x0du8, 0x0au8]
}

/// The query that asks the rotator for its azimuth.
pub fn azimuth_query() -> (query: Vec<u8>)
    ensures
        query@ == azimuth_query_text(),
{
    let mut query: Vec<u8> = Vec::new();
    query.push(0x61);
    query.push(0x7a);
    query.push(0x61);
    query.push(0x63);
    query.push(0x63);
    query.push(0x0d);
    query.push(0x0a);
    assert(query@ =~= azimuth_query_text());
    query
}

/// The azimuth, in microdegrees, that a reply of the rotator reports.
///
/// The reply is cut at its line feeds, and every part must stand for a
/// number once all but its digits and points are dropped. The reading is the
/// number of the second part. A reply with a part that stands for no number,
/// or with a single part, reports nothing.
pub open spec fn reply_reading(reply: Seq<u8>) -> Option<int> {
    let parts = lines(reply);
    if first_defect(parts) is Some || parts.len() < 2 {
        None
    } else {
        Some(number_of(parts[1]))
    }
}

/// Reads the rotator's azimuth from its reply to the azimuth query.
pub fn read_azimuth_reply(reply: &[u8]) -> (r: Result<i64, SyncError>)
    ensures
        match r {
            Ok(azim) => reply_reading(reply@) == Some(azim as int),
            Err(_) => reply_reading(reply@) is None,
        },
        r matches Ok(azim) ==> azim >= 0,
{
    let parts: Vec<Vec<u8>> = split_lines(reply);
    assert(views(parts@).skip(0) =~= views(parts@));
    match parse_tokens(&parts, 0) {
        Err(_) => Err(SyncError::DeviceUnresponsive),
        Ok(values) => {
            if values.len() < 2 {
                Err(SyncError::DeviceUnresponsive)
            } else {
                assert(views(parts@)[1] == parts@[1]@);
                Ok(values[1])
            }
        },
    }
}

/// Finishes sun sync with what came back for the azimuth query: the reply,
/// or nothing when the read failed.
///
/// The frame is calibrated with the sun's azimuth and the reading exactly
/// when a reply came and reports an azimuth; in every other case the rotator
/// counts as unresponsive. The sun's azimuth must be such that every reading
/// can be subtracted from it.
pub fn sun_sync_with_reply(solar_azimuth: i64, reply: Option<&[u8]>) -> (r: Result<
    Coordinates,
    SyncError,
>)
    requires
        i64::MIN <= solar_azimuth - i64::MAX,
    ensures
        match r {
            Ok(c) => reply matches Some(bytes) && reply_reading(bytes@) == Some(
                solar_azimuth - c.offset(),
            ),
            Err(e) => e == SyncError::DeviceUnresponsive && (reply matches Some(bytes)
                ==> reply_reading(bytes@) is None),
        },
{
    match reply {
        None => Err(SyncError::DeviceUnresponsive),
        Some(bytes) => match read_azimuth_reply(bytes) {
            Err(e) => Err(e),
            Ok(azim) => Ok(Coordinates::new(solar_azimuth, azim)),
        },
    }
}

} // verus!
