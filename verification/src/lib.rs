//! The core of a bridge between rotctld-style position commands and an
//! antenna rotator controller: the reference frame and its calibration, the
//! sanitizing of targets, the rotator's heading encoding, and the session that
//! turns the frames of one connection into commands for the serial link.
//!
//! The library computes and decides; it reads no socket, writes to no serial
//! port and asks no clock. Whoever owns those hands it plain values and
//! carries out what it returns.
//!
//! Angles are exact fixed-point numbers: an `i64` counts microdegrees, so one
//! degree is [`angle::DEGREE`]. Headings, the rotator controller's own unit, are
//! held in `i128` with eight decimal places ([`heading::HEADING_SCALE`]), wide
//! enough for the heading of every angle.

pub mod angle;
pub mod args;
pub mod coords;
pub mod decimal;
pub mod heading;
pub mod session;
pub mod sync;
pub mod text;
pub mod transport;
