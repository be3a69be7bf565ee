//! The command session: what one connection's frames do to the rotator.
//!
//! A session is a state machine over frames. Its state is the azimuth of the
//! last command that was applied; its input is one frame as it was received;
//! its output says what became of the frame and, when a command is due, holds
//! everything that goes to the serial link. Reading frames and writing to the
//! link are the caller's part.

use vstd::prelude::*;
use vstd::slice::slice_subrange;
use crate::angle::{
    elevation_warning, normalize_0_360, normalized, sanitize_elevation, sanitized_elevation,
    ElevationWarning, FULL_TURN,
};
use crate::coords::{internal_azimuth, Coordinates};
use crate::decimal::{first_defect, number_of, parse_tokens, NumberError};
use crate::heading::{
    azimuth_heading_of, azimuth_line, elevation_heading_of, elevation_line, encode, HeadingPair,
};
use crate::text::{split_whitespace, tokens, views};
use crate::transport::{extend_write_plan, write_plan_of, TransportOp};

verus! {

/// The size of the buffer that one read on the connection fills at most, and
/// so the greatest length of a frame.
pub const READ_BUFFER_LEN: usize = 1024;

/// Frames shorter than this many bytes are dropped unread.
pub const MIN_FRAME_LEN: usize = 18;

/// A new azimuth within this distance of the last applied one, in
/// microdegrees, is not sent (0.2 degrees; the distance itself still counts
/// as within).
pub const SUPPRESS_WITHIN: i64 = 200_000;

/// Why the arguments of a position command could not be used.
#[derive(Clone, Copy, Debug, PartialEq, Eq, Structural)]
pub enum FrameError {
    /// An argument is not a number that can be held; this is the defect of
    /// the first such argument.
    BadNumber(NumberError),
    /// All arguments are numbers, but there are fewer than two.
    MissingArgument,
}

/// The target of a position command as it was received, before any
/// sanitizing. Angles are in microdegrees.
#[derive(Clone, Copy, Debug, PartialEq, Eq, Structural)]
pub struct Target {
    pub azimuth: i64,
    pub elevation: i64,
}

/// A position command that is due: the sanitized target and what follows
/// from it. Angles are in microdegrees.
#[derive(Clone, Copy, Debug, PartialEq, Eq, Structural)]
pub struct PositionCommand {
    /// The target azimuth in the external frame, after the azimuth policy.
    pub azimuth: i64,
    /// The target elevation, limited to the rotator's range.
    pub elevation: i64,
    /// Whether the requested elevation had to be limited, and on which side.
    pub elevation_warning: Option<ElevationWarning>,
    /// The target azimuth in the rotator's frame.
    pub internal_azimuth: i64,
    /// The headings of the internal azimuth and the elevation.
    pub headings: HeadingPair,
}

/// What became of a frame.
#[derive(Clone, Copy, Debug, PartialEq, Eq, Structural)]
pub enum FrameOutcome {
    /// The frame was too short and was dropped unread.
    Discarded,
    /// The frame holds no position command; nothing is to be done.
    Ignored,
    /// The frame holds a position command whose arguments cannot be used.
    /// The frame is dropped; the session goes on.
    Malformed(FrameError),
    /// The commanded azimuth is within [`SUPPRESS_WITHIN`] of the last one
    /// applied; nothing is sent.
    Suppressed,
    /// The command is to be sent to the rotator.
    Applied(PositionCommand),
}

/// Why a session is over.
#[derive(Clone, Copy, Debug, PartialEq, Eq, Structural)]
pub enum SessionEnd {
    /// The peer closed the connection: a read gave no bytes.
    ConnectionClosed,
    /// A read on the connection failed.
    ReadError,
}

/// What a read on the connection led to.
#[derive(Clone, Copy, Debug, PartialEq, Eq, Structural)]
pub enum SessionStep {
    /// A frame came and was handled; the session awaits the next one.
    Handled(FrameOutcome),
    /// The session is over.
    Ended(SessionEnd),
}

/// The state of one connection's session: the azimuth of the last command
/// that was applied, which always lies within `[0, 360]` degrees.
#[derive(Debug)]
pub struct CommandSession {
    last_azim: i64,
}

/// The word `\set_pos`, the long form of the position command.
pub open spec fn long_position_word() -> Seq<u8> {
    seq![0x5cu8, 0x73u8, 0x65u8, 0x74u8, 0x5fu8, 0x70u8, 0x6fu8, 0x73u8]
}

/// The word `P`, the short form of the position command.
pub open spec fn short_position_word() -> Seq<u8> {
    seq![0x50u8]
}

/// The commands that a session acts on. A frame whose first token names
/// none of them asks for nothing.
#[derive(Clone, Copy, Debug, PartialEq, Eq, Structural)]
pub enum Command {
    /// Point the rotator at an azimuth and an elevation.
    SetPosition,
}

/// The command that a token names, if it names one: `\set_pos` and `P` both
/// name the position command.
pub open spec fn command_of(token: Seq<u8>) -> Option<Command> {
    if token == long_position_word() || token == short_position_word() {
        Some(Command::SetPosition)
    } else {
        None
    }
}

/// The azimuth and elevation that the arguments of a position command ask
/// for, as received. Every argument must be a number, also those beyond the
/// second, which are otherwise not used.
pub open spec fn requested_position(args: Seq<Seq<u8>>) -> Result<(int, int), FrameError> {
    match first_defect(args) {
        Some(e) => Err(FrameError::BadNumber(e)),
        None => if args.len() < 2 {
            Err(FrameError::MissingArgument)
        } else {
            Ok((number_of(args[0]), number_of(args[1])))
        },
    }
}

/// What a session decides about a frame, before anything is computed for the
/// rotator.
pub enum Decision {
    /// Drop the frame unread.
    Discard,
    /// The frame asks for nothing.
    Ignore,
    /// Drop the frame for this defect.
    Reject(FrameError),
    /// The azimuth moved too little.
    Suppress,
    /// Send a command for this sanitized azimuth and this elevation as
    /// received.
    Apply { azimuth: int, elevation: int },
}

/// The decision of a session whose last applied azimuth is `last` about
/// `frame`.
///
/// A frame below the minimum length is discarded. Otherwise its first token
/// selects the command, and a frame that names none is ignored. The
/// arguments of a position command must all be numbers and at least two. The azimuth goes through
/// the azimuth policy, and the command is suppressed when the result is
/// within the suppression distance of `last`.
pub open spec fn decide(last: int, frame: Seq<u8>) -> Decision {
    let words = tokens(frame);
    if frame.len() < MIN_FRAME_LEN {
        Decision::Discard
    } else if words.len() == 0 {
        Decision::Ignore
    } else {
        match command_of(words[0]) {
            None => Decision::Ignore,
            Some(Command::SetPosition) => match requested_position(words.skip(1)) {
                Err(e) => Decision::Reject(e),
                Ok((az, el)) => {
                    let azimuth = normalized(az);
                    if -SUPPRESS_WITHIN <= azimuth - last <= SUPPRESS_WITHIN {
                        Decision::Suppress
                    } else {
                        Decision::Apply { azimuth, elevation: el }
                    }
                },
            },
        }
    }
}

/// The last applied azimuth after a session in state `last` has handled
/// `frame`: the azimuth of the command where one is applied, and `last`
/// itself in every other case.
pub open spec fn next_azimuth(last: int, frame: Seq<u8>) -> int {
    match decide(last, frame) {
        Decision::Apply { azimuth, elevation } => azimuth,
        _ => last,
    }
}

/// Whether `command` is the command for the sanitized azimuth `azimuth` and
/// the received elevation `elevation` under a reference frame with the given
/// offset.
pub open spec fn is_command_for(
    command: PositionCommand,
    offset: int,
    azimuth: int,
    elevation: int,
) -> bool {
    &&& command.azimuth == azimuth
    &&& command.elevation == sanitized_elevation(elevation)
    &&& command.elevation_warning == elevation_warning(elevation)
    &&& command.internal_azimuth == internal_azimuth(offset, azimuth)
    &&& command.headings.azimuth_heading == azimuth_heading_of(internal_azimuth(offset, azimuth))
    &&& command.headings.elevation_heading == elevation_heading_of(sanitized_elevation(elevation))
}

/// Whether `outcome` is what carrying out `decision` gives under a reference
/// frame with the given offset.
pub open spec fn carries_out(outcome: FrameOutcome, decision: Decision, offset: int) -> bool {
    match decision {
        Decision::Discard => outcome == FrameOutcome::Discarded,
        Decision::Ignore => outcome == FrameOutcome::Ignored,
        Decision::Reject(e) => outcome == FrameOutcome::Malformed(e),
        Decision::Suppress => outcome == FrameOutcome::Suppressed,
        Decision::Apply { azimuth, elevation } => match outcome {
            FrameOutcome::Applied(command) => is_command_for(command, offset, azimuth, elevation),
            _ => false,
        },
    }
}

/// A frame below the minimum length is discarded whatever it holds, and the
/// session stays as it was.
pub proof fn lemma_short_frame_is_discarded(last: int, frame: Seq<u8>)
    requires
        frame.len() < MIN_FRAME_LEN,
    ensures
        decide(last, frame) == Decision::Discard,
        next_azimuth(last, frame) == last,
{
}

/// The suppression distance is inclusive. A position command whose
/// sanitized azimuth lies within the distance of the last applied azimuth,
/// the distance itself included, is suppressed and leaves the session as it
/// was; one that lies further away is applied, and the session remembers
/// its azimuth.
pub proof fn lemma_suppression_is_inclusive(last: int, frame: Seq<u8>, az: int, el: int)
    requires
        frame.len() >= MIN_FRAME_LEN,
        tokens(frame).len() > 0,
        command_of(tokens(frame)[0]) == Some(Command::SetPosition),
        requested_position(tokens(frame).skip(1)) == Ok::<(int, int), FrameError>((az, el)),
    ensures
        -SUPPRESS_WITHIN <= normalized(az) - last <= SUPPRESS_WITHIN ==> decide(last, frame)
            == Decision::Suppress && next_azimuth(last, frame) == last,
        !(-SUPPRESS_WITHIN <= normalized(az) - last <= SUPPRESS_WITHIN) ==> decide(last, frame)
            == (Decision::Apply { azimuth: normalized(az), elevation: el }) && next_azimuth(
            last,
            frame,
        ) == normalized(az),
{
}

/// Two commands in a row that both lie within the suppression distance of
/// the last applied azimuth are both suppressed: the first one does not move
/// the point from which the second is measured.
pub proof fn lemma_consecutive_suppression(last: int, first: Seq<u8>, second: Seq<u8>)
    requires
        decide(last, first) == Decision::Suppress,
        decide(last, second) == Decision::Suppress,
    ensures
        decide(next_azimuth(last, first), second) == Decision::Suppress,
        next_azimuth(next_azimuth(last, first), second) == last,
{
}

/// The azimuth of an applied command lies within a full turn, so a session
/// that starts within `[0, 360]` degrees stays there whatever frames it
/// handles.
pub proof fn lemma_session_azimuth_stays_in_range(last: int, frame: Seq<u8>)
    ensures
        decide(last, frame) matches Decision::Apply { azimuth, elevation } ==> 0 <= azimuth
            <= FULL_TURN && elevation >= 0,
        0 <= last <= FULL_TURN ==> 0 <= next_azimuth(last, frame) <= FULL_TURN,
{
}

/// End to end: what goes on the wire for an applied command is fixed by the
/// frame's offset, the sanitized azimuth and the received elevation. The
/// azimuth is converted into the rotator's frame, the elevation is limited,
/// both are encoded, and the two command lines are written azimuth first.
pub proof fn lemma_applied_wire_text(
    command: PositionCommand,
    offset: int,
    azimuth: int,
    elevation: int,
)
    requires
        is_command_for(command, offset, azimuth, elevation),
    ensures
        command.wire_text() == azimuth_line(azimuth_heading_of(internal_azimuth(offset, azimuth)))
            + elevation_line(elevation_heading_of(sanitized_elevation(elevation))),
{
}

/// Tells which command a token names, if any.
pub fn read_command(token: &[u8]) -> (r: Option<Command>)
    ensures
        r == command_of(token@),
{
    if token.len() == 1 {
        if token[0] == 0x50 {
            assert(token@ =~= short_position_word());
            return Some(Command::SetPosition);
        }
    } else if token.len() == 8 {
        if token[0] == 0x5c && token[1] == 0x73 && token[2] == 0x65 && token[3] == 0x74
            && token[4] == 0x5f && token[5] == 0x70 && token[6] == 0x6f && token[7] == 0x73 {
            assert(token@ =~= long_position_word());
            return Some(Command::SetPosition);
        }
    }
    None
}

/// Reads the arguments of a position command: the tokens of `words` from the
/// second on.
pub fn read_position(words: &Vec<Vec<u8>>) -> (r: Result<Target, FrameError>)
    requires
        words@.len() >= 1,
    ensures
        match r {
            Ok(target) => requested_position(views(words@).skip(1)) == Ok::<
                (int, int),
                FrameError,
            >((target.azimuth as int, target.elevation as int)),
            Err(e) => requested_position(views(words@).skip(1)) == Err::<(int, int), FrameError>(e),
        },
        r matches Ok(target) ==> target.azimuth >= 0 && target.elevation >= 0,
{
    match parse_tokens(words, 1) {
        Err(e) => Err(FrameError::BadNumber(e)),
        Ok(values) => {
            if values.len() < 2 {
                Err(FrameError::MissingArgument)
            } else {
                assert(views(words@).skip(1)[0] == words@[1]@);
                assert(views(words@).skip(1)[1] == words@[2]@);
                Ok(Target { azimuth: values[0], elevation: values[1] })
            }
        },
    }
}

impl CommandSession {
    #[verifier::type_invariant]
    spec fn within_full_turn(self) -> bool {
        0 <= self.last_azim <= FULL_TURN
    }

    /// The azimuth of the last command that this session applied, in
    /// microdegrees; zero as long as none was.
    pub closed spec fn spec_last_commanded_azimuth(&self) -> i64 {
        self.last_azim
    }

    /// A session that has applied no command yet.
    pub fn new() -> (s: CommandSession)
        ensures
            s.last_commanded_azimuth() == 0,
    {
        CommandSession { last_azim: 0 }
    }

    /// The azimuth of the last command that this session applied, in
    /// microdegrees; zero as long as none was.
    #[verifier::when_used_as_spec(spec_last_commanded_azimuth)]
    pub fn last_commanded_azimuth(&self) -> (r: i64)
        ensures
            r == self.last_commanded_azimuth(),
            0 <= r <= FULL_TURN,
    {
        proof {
            use_type_invariant(self);
        }
        self.last_azim
    }

    /// Handles one frame as it was received.
    ///
    /// The outcome carries out the session's [`decide`]d decision, and the
    /// session remembers the azimuth of an applied command and nothing else:
    /// a frame that is discarded, ignored, malformed or suppressed leaves the
    /// session as it was.
    pub fn handle_frame(&mut self, coords: &Coordinates, frame: &[u8]) -> (outcome: FrameOutcome)
        ensures
            carries_out(
                outcome,
                decide(old(self).last_commanded_azimuth() as int, frame@),
                coords.offset() as int,
            ),
            final(self).last_commanded_azimuth() == next_azimuth(
                old(self).last_commanded_azimuth() as int,
                frame@,
            ),
            !(outcome is Applied) ==> *final(self) == *old(self),
            outcome matches FrameOutcome::Applied(command) ==> 0 <= command.azimuth <= FULL_TURN,
    {
        if frame.len() < MIN_FRAME_LEN {
            return FrameOutcome::Discarded;
        }
        let words: Vec<Vec<u8>> = split_whitespace(frame);
        if words.len() == 0 {
            return FrameOutcome::Ignored;
        }
        assert(views(words@)[0] == words@[0]@);
        let target: Target = match read_command(words[0].as_slice()) {
            None => {
                return FrameOutcome::Ignored;
            },
            Some(Command::SetPosition) => match read_position(&words) {
                Err(e) => {
                    return FrameOutcome::Malformed(e);
                },
                Ok(target) => target,
            },
        };
        proof {
            use_type_invariant(&*self);
        }
        let azimuth: i64 = normalize_0_360(target.azimuth);
        let moved: i64 = azimuth - self.last_azim;
        if -SUPPRESS_WITHIN <= moved && moved <= SUPPRESS_WITHIN {
            return FrameOutcome::Suppressed;
        }
        self.last_azim = azimuth;
        let (elevation, elevation_warning) = sanitize_elevation(target.elevation);
        let internal: i64 = coords.to_internal(azimuth);
        let headings: HeadingPair = encode(internal, elevation);
        FrameOutcome::Applied(
            PositionCommand {
                azimuth,
                elevation,
                elevation_warning,
                internal_azimuth: internal,
                headings,
            },
        )
    }
}

impl CommandSession {
    /// Takes the result of one read on the connection: `read` is the number
    /// of bytes that the read put at the start of `buffer`, or nothing when
    /// the read failed.
    ///
    /// A failed read and a read of no bytes end the session and leave its
    /// state alone. Any other read is a frame, which is handled as
    /// [`CommandSession::handle_frame`] says; no frame ends the session.
    pub fn handle_read(&mut self, coords: &Coordinates, buffer: &[u8], read: Option<usize>) -> (step:
        SessionStep)
        requires
            read matches Some(n) ==> n <= buffer@.len(),
        ensures
            match read {
                None => step == SessionStep::Ended(SessionEnd::ReadError) && *final(self) == *old(
                    self,
                ),
                Some(n) => if n == 0 {
                    step == SessionStep::Ended(SessionEnd::ConnectionClosed) && *final(self)
                        == *old(self)
                } else {
                    &&& step matches SessionStep::Handled(outcome) && carries_out(
                        outcome,
                        decide(old(self).last_commanded_azimuth() as int, buffer@.take(n as int)),
                        coords.offset() as int,
                    )
                    &&& final(self).last_commanded_azimuth() == next_azimuth(
                        old(self).last_commanded_azimuth() as int,
                        buffer@.take(n as int),
                    )
                },
            },
    {
        match read {
            None => SessionStep::Ended(SessionEnd::ReadError),
            Some(n) => {
                if n == 0 {
                    SessionStep::Ended(SessionEnd::ConnectionClosed)
                } else {
                    let frame = slice_subrange(buffer, 0, n);
                    assert(frame@ =~= buffer@.take(n as int));
                    SessionStep::Handled(self.handle_frame(coords, frame))
                }
            },
        }
    }
}

impl PositionCommand {
    /// The two command lines of this command, azimuth first, as one text.
    pub open spec fn wire_text(&self) -> Seq<u8> {
        azimuth_line(self.headings.azimuth_heading as int) + elevation_line(
            self.headings.elevation_heading as int,
        )
    }

    /// Everything that the serial link is to do for this command, in order:
    /// the azimuth line and then the elevation line, each byte written alone
    /// and after a clearing of the buffers.
    pub fn transport_ops(&self) -> (plan: Vec<TransportOp>)
        ensures
            plan@ == write_plan_of(self.wire_text()),
    {
        let azimuth_command: Vec<u8> = self.headings.azimuth_command();
        let elevation_command: Vec<u8> = self.headings.elevation_command();
        let mut plan: Vec<TransportOp> = Vec::new();
        extend_write_plan(&mut plan, azimuth_command.as_slice());
        extend_write_plan(&mut plan, elevation_command.as_slice());
        proof {
            crate::transport::lemma_write_plan_concat(azimuth_command@, elevation_command@);
            assert(plan@ =~= write_plan_of(azimuth_command@) + write_plan_of(elevation_command@));
        }
        plan
    }
}

} // verus!
