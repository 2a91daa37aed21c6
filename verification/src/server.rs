//! The command dispatcher: routes framed requests into the MDB engine.
//!
//! The dispatcher owns at most one engine.  `exec` maps one decoded request
//! to one response, and `run` drives a whole framed byte stream: one frame
//! in, one frame out, until a STOP command or the end of input.

use crate::error::MdbError;
use crate::error::TimeoutPhase;
use crate::gpio::MockGpio;
use crate::gpio::PinWrite;
use crate::mdb::DEFAULT_WAIT_STEP_US;
use crate::mdb::GpioMdb;
use crate::mdb::script_fits;
use crate::proto::Command;
use crate::proto::Request;
use crate::proto::Response;
use crate::proto::Status;
use crate::proto::command_of_code_spec;
use crate::proto::decode_le32;
use crate::proto::decode_request;
use crate::proto::encode_frame;
use crate::proto::encode_response_payload;
use crate::proto::encode_response_spec;
use crate::proto::frame_spec;
use crate::proto::le32;
use crate::proto::le32_decode;
use crate::proto::lemma_le32_round;
use crate::wire::scan_data;
use vstd::arithmetic::mul::lemma_mul_inequality;
use vstd::prelude::*;
use vstd::slice::slice_subrange;

verus! {

/// The transaction timeout handed to the engine for `MDB_TX`, microseconds.
pub const MDB_TIMEOUT_US: u32 = 300_000;

/// Every failure the dispatcher reports to its caller.  The response a
/// request gets carries the same information; the error is for the process
/// driving the dispatcher.
#[derive(Debug, PartialEq, Eq)]
pub enum ServerError {
    /// The request carried the invalid command.
    InvalidCommand,
    /// An argument had the wrong shape for its command.
    InvalidArgBytes,
    /// `MDB_RESET` or `MDB_TX` arrived before any `MDB_OPEN`.
    MustMdbOpen,
    /// The engine failed; the engine's error is carried.
    Mdb(MdbError),
    /// The control channel ended before a STOP command.
    UnexpectedEof,
}

/// The diagnostic text `invalid command`.
pub open spec fn msg_invalid_command() -> Seq<u8> {
    seq![0x69u8, 0x6eu8, 0x76u8, 0x61u8, 0x6cu8, 0x69u8, 0x64u8, 0x20u8, 0x63u8, 0x6fu8, 0x6du8, 0x6du8, 0x61u8, 0x6eu8, 0x64u8]
}

fn bytes_invalid_command() -> (r: Vec<u8>)
    ensures
        r@ == msg_invalid_command(),
{
    let v: Vec<u8> = vec![0x69u8, 0x6eu8, 0x76u8, 0x61u8, 0x6cu8, 0x69u8, 0x64u8, 0x20u8, 0x63u8, 0x6fu8, 0x6du8, 0x6du8, 0x61u8, 0x6eu8, 0x64u8];
    proof {
        assert(v@ =~= msg_invalid_command());
    }
    v
}

/// The diagnostic text `invalid arg_bytes`.
pub open spec fn msg_invalid_arg_bytes() -> Seq<u8> {
    seq![0x69u8, 0x6eu8, 0x76u8, 0x61u8, 0x6cu8, 0x69u8, 0x64u8, 0x20u8, 0x61u8, 0x72u8, 0x67u8, 0x5fu8, 0x62u8, 0x79u8, 0x74u8, 0x65u8, 0x73u8]
}

fn bytes_invalid_arg_bytes() -> (r: Vec<u8>)
    ensures
        r@ == msg_invalid_arg_bytes(),
{
    let v: Vec<u8> = vec![0x69u8, 0x6eu8, 0x76u8, 0x61u8, 0x6cu8, 0x69u8, 0x64u8, 0x20u8, 0x61u8, 0x72u8, 0x67u8, 0x5fu8, 0x62u8, 0x79u8, 0x74u8, 0x65u8, 0x73u8];
    proof {
        assert(v@ =~= msg_invalid_arg_bytes());
    }
    v
}

/// The diagnostic text `must mdb_open`.
pub open spec fn msg_must_mdb_open() -> Seq<u8> {
    seq![0x6du8, 0x75u8, 0x73u8, 0x74u8, 0x20u8, 0x6du8, 0x64u8, 0x62u8, 0x5fu8, 0x6fu8, 0x70u8, 0x65u8, 0x6eu8]
}

fn bytes_must_mdb_open() -> (r: Vec<u8>)
    ensures
        r@ == msg_must_mdb_open(),
{
    let v: Vec<u8> = vec![0x6du8, 0x75u8, 0x73u8, 0x74u8, 0x20u8, 0x6du8, 0x64u8, 0x62u8, 0x5fu8, 0x6fu8, 0x70u8, 0x65u8, 0x6eu8];
    proof {
        assert(v@ =~= msg_must_mdb_open());
    }
    v
}

/// The diagnostic text `invalid request`.
pub open spec fn msg_invalid_request() -> Seq<u8> {
    seq![0x69u8, 0x6eu8, 0x76u8, 0x61u8, 0x6cu8, 0x69u8, 0x64u8, 0x20u8, 0x72u8, 0x65u8, 0x71u8, 0x75u8, 0x65u8, 0x73u8, 0x74u8]
}

fn bytes_invalid_request() -> (r: Vec<u8>)
    ensures
        r@ == msg_invalid_request(),
{
    let v: Vec<u8> = vec![0x69u8, 0x6eu8, 0x76u8, 0x61u8, 0x6cu8, 0x69u8, 0x64u8, 0x20u8, 0x72u8, 0x65u8, 0x71u8, 0x75u8, 0x65u8, 0x73u8, 0x74u8];
    proof {
        assert(v@ =~= msg_invalid_request());
    }
    v
}

/// The diagnostic text for each engine failure.
pub open spec fn error_message_spec(e: MdbError) -> Seq<u8> {
    match e {
        MdbError::MdbNak => seq![0x4du8, 0x44u8, 0x42u8, 0x20u8, 0x72u8, 0x65u8, 0x63u8, 0x65u8, 0x69u8, 0x76u8, 0x65u8, 0x64u8, 0x20u8, 0x4eu8, 0x41u8, 0x4bu8],
        MdbError::MdbInvalidResponse(_) => seq![0x4du8, 0x44u8, 0x42u8, 0x20u8, 0x69u8, 0x6eu8, 0x76u8, 0x61u8, 0x6cu8, 0x69u8, 0x64u8, 0x20u8, 0x72u8, 0x65u8, 0x73u8, 0x70u8, 0x6fu8, 0x6eu8, 0x73u8, 0x65u8, 0x20u8, 0x62u8, 0x79u8, 0x74u8, 0x65u8],
        MdbError::MdbChecksum(_, _, _) => seq![0x4du8, 0x44u8, 0x42u8, 0x20u8, 0x69u8, 0x6eu8, 0x76u8, 0x61u8, 0x6cu8, 0x69u8, 0x64u8, 0x20u8, 0x63u8, 0x68u8, 0x65u8, 0x63u8, 0x6bu8, 0x73u8, 0x75u8, 0x6du8],
        MdbError::Driver(_) => seq![0x70u8, 0x69u8, 0x67u8, 0x70u8, 0x69u8, 0x6fu8, 0x20u8, 0x65u8, 0x72u8, 0x72u8, 0x6fu8, 0x72u8],
        MdbError::DurationOverflow => seq![0x64u8, 0x75u8, 0x72u8, 0x61u8, 0x74u8, 0x69u8, 0x6fu8, 0x6eu8, 0x20u8, 0x6fu8, 0x76u8, 0x65u8, 0x72u8, 0x66u8, 0x6cu8, 0x6fu8, 0x77u8],
        MdbError::Timeout(TimeoutPhase::SendRequest) => seq![0x73u8, 0x65u8, 0x6eu8, 0x64u8, 0x20u8, 0x72u8, 0x65u8, 0x71u8, 0x75u8, 0x65u8, 0x73u8, 0x74u8, 0x20u8, 0x74u8, 0x69u8, 0x6du8, 0x65u8, 0x6fu8, 0x75u8, 0x74u8],
        MdbError::Timeout(TimeoutPhase::SendAck) => seq![0x73u8, 0x65u8, 0x6eu8, 0x64u8, 0x20u8, 0x41u8, 0x43u8, 0x4bu8, 0x20u8, 0x74u8, 0x69u8, 0x6du8, 0x65u8, 0x6fu8, 0x75u8, 0x74u8],
        MdbError::Timeout(TimeoutPhase::SendNak) => seq![0x73u8, 0x65u8, 0x6eu8, 0x64u8, 0x20u8, 0x4eu8, 0x41u8, 0x4bu8, 0x20u8, 0x74u8, 0x69u8, 0x6du8, 0x65u8, 0x6fu8, 0x75u8, 0x74u8],
        MdbError::Timeout(TimeoutPhase::Receive) => seq![0x72u8, 0x65u8, 0x63u8, 0x76u8, 0x20u8, 0x74u8, 0x69u8, 0x6du8, 0x65u8, 0x6fu8, 0x75u8, 0x74u8],
    }
}

/// Renders an engine failure for a response's diagnostic field.
pub fn error_message(e: &MdbError) -> (r: Vec<u8>)
    ensures
        r@ == error_message_spec(*e),
{
    let v: Vec<u8> = match e {
        MdbError::MdbNak => vec![0x4du8, 0x44u8, 0x42u8, 0x20u8, 0x72u8, 0x65u8, 0x63u8, 0x65u8, 0x69u8, 0x76u8, 0x65u8, 0x64u8, 0x20u8, 0x4eu8, 0x41u8, 0x4bu8],
        MdbError::MdbInvalidResponse(_) => vec![0x4du8, 0x44u8, 0x42u8, 0x20u8, 0x69u8, 0x6eu8, 0x76u8, 0x61u8, 0x6cu8, 0x69u8, 0x64u8, 0x20u8, 0x72u8, 0x65u8, 0x73u8, 0x70u8, 0x6fu8, 0x6eu8, 0x73u8, 0x65u8, 0x20u8, 0x62u8, 0x79u8, 0x74u8, 0x65u8],
        MdbError::MdbChecksum(_, _, _) => vec![0x4du8, 0x44u8, 0x42u8, 0x20u8, 0x69u8, 0x6eu8, 0x76u8, 0x61u8, 0x6cu8, 0x69u8, 0x64u8, 0x20u8, 0x63u8, 0x68u8, 0x65u8, 0x63u8, 0x6bu8, 0x73u8, 0x75u8, 0x6du8],
        MdbError::Driver(_) => vec![0x70u8, 0x69u8, 0x67u8, 0x70u8, 0x69u8, 0x6fu8, 0x20u8, 0x65u8, 0x72u8, 0x72u8, 0x6fu8, 0x72u8],
        MdbError::DurationOverflow => vec![0x64u8, 0x75u8, 0x72u8, 0x61u8, 0x74u8, 0x69u8, 0x6fu8, 0x6eu8, 0x20u8, 0x6fu8, 0x76u8, 0x65u8, 0x72u8, 0x66u8, 0x6cu8, 0x6fu8, 0x77u8],
        MdbError::Timeout(TimeoutPhase::SendRequest) => vec![0x73u8, 0x65u8, 0x6eu8, 0x64u8, 0x20u8, 0x72u8, 0x65u8, 0x71u8, 0x75u8, 0x65u8, 0x73u8, 0x74u8, 0x20u8, 0x74u8, 0x69u8, 0x6du8, 0x65u8, 0x6fu8, 0x75u8, 0x74u8],
        MdbError::Timeout(TimeoutPhase::SendAck) => vec![0x73u8, 0x65u8, 0x6eu8, 0x64u8, 0x20u8, 0x41u8, 0x43u8, 0x4bu8, 0x20u8, 0x74u8, 0x69u8, 0x6du8, 0x65u8, 0x6fu8, 0x75u8, 0x74u8],
        MdbError::Timeout(TimeoutPhase::SendNak) => vec![0x73u8, 0x65u8, 0x6eu8, 0x64u8, 0x20u8, 0x4eu8, 0x41u8, 0x4bu8, 0x20u8, 0x74u8, 0x69u8, 0x6du8, 0x65u8, 0x6fu8, 0x75u8, 0x74u8],
        MdbError::Timeout(TimeoutPhase::Receive) => vec![0x72u8, 0x65u8, 0x63u8, 0x76u8, 0x20u8, 0x74u8, 0x69u8, 0x6du8, 0x65u8, 0x6fu8, 0x75u8, 0x74u8],
    };
    proof {
        assert(v@ =~= error_message_spec(*e));
    }
    v
}

/// The whole frame at the head of a stream, as its payload and the rest
/// of the stream; nothing when the stream ends or its last frame is torn.
pub open spec fn head_frame(b: Seq<u8>) -> Option<(Seq<u8>, Seq<u8>)> {
    if b.len() < 4 {
        None
    } else {
        let n = le32_decode(b.subrange(0, 4)) as int;
        if b.len() - 4 < n {
            None
        } else {
            Some((b.subrange(4, 4 + n), b.skip(4 + n)))
        }
    }
}

/// A payload that decodes to a STOP request.
pub open spec fn is_stop_payload(p: Seq<u8>) -> bool {
    p.len() >= 5 && command_of_code_spec(p[0]) == Command::STOP
}

/// Whether a stream of whole frames reaches a STOP request before it
/// ends or tears.
pub open spec fn reaches_stop(b: Seq<u8>) -> bool
    decreases b.len(),
{
    head_frame(b) matches Some((p, rest)) && (is_stop_payload(p) || reaches_stop(rest))
}

/// How many requests a dispatcher consumes from a stream of whole frames:
/// one per frame, stopping after a STOP request.
pub open spec fn consumed_requests(b: Seq<u8>) -> int
    decreases b.len(),
{
    match head_frame(b) {
        None => 0,
        Some((p, rest)) => 1 + if is_stop_payload(p) {
            0int
        } else {
            consumed_requests(rest)
        },
    }
}

/// A byte string that is a whole number of frames.
pub open spec fn whole_frames(b: Seq<u8>) -> bool
    decreases b.len(),
{
    b.len() == 0 || (head_frame(b) matches Some((p, rest)) && whole_frames(rest))
}

/// How many frames a whole-frame byte string holds.
pub open spec fn frame_count(b: Seq<u8>) -> int
    decreases b.len(),
{
    match head_frame(b) {
        None => 0,
        Some((p, rest)) => 1 + frame_count(rest),
    }
}

/// Appending one more frame to a whole-frame byte string keeps it whole and
/// raises its frame count by one.
pub proof fn lemma_frames_snoc(b: Seq<u8>, payload: Seq<u8>)
    requires
        whole_frames(b),
        payload.len() < 0x1_0000_0000,
    ensures
        whole_frames(b + frame_spec(payload)),
        frame_count(b + frame_spec(payload)) == frame_count(b) + 1,
    decreases b.len(),
{
    let fr = frame_spec(payload);
    assert(fr.len() == 4 + payload.len());
    if b.len() == 0 {
        assert(b + fr =~= fr);
        lemma_le32_round(payload.len() as u32);
        assert(fr.subrange(0, 4) =~= le32(payload.len() as u32));
        assert(le32_decode(fr.subrange(0, 4)) as int == payload.len());
        assert(fr.subrange(4, 4 + payload.len() as int) =~= payload);
        assert(fr.skip(4 + payload.len() as int) =~= Seq::<u8>::empty());
        assert(head_frame(fr) == Some((payload, Seq::<u8>::empty())));
        assert(whole_frames(Seq::<u8>::empty()));
        assert(whole_frames(fr));
        assert(frame_count(Seq::<u8>::empty()) == 0);
        assert(frame_count(fr) == 1);
    } else {
        assert(head_frame(b) is Some);
        assert(b.len() >= 4);
        let n = le32_decode(b.subrange(0, 4)) as int;
        assert(b.len() - 4 >= n);
        assert((b + fr).subrange(0, 4) =~= b.subrange(0, 4));
        assert((b + fr).subrange(4, 4 + n) =~= b.subrange(4, 4 + n));
        assert((b + fr).skip(4 + n) =~= b.skip(4 + n) + fr);
        assert(head_frame(b + fr) == Some((b.subrange(4, 4 + n), b.skip(4 + n) + fr)));
        lemma_frames_snoc(b.skip(4 + n), payload);
        assert(whole_frames(b + fr));
        assert(frame_count(b + fr) == 1 + frame_count(b.skip(4 + n) + fr));
        assert(frame_count(b) == 1 + frame_count(b.skip(4 + n)));
    }
}

/// In mock mode, the response one request payload gets, as status,
/// diagnostic bytes and data bytes; `engine` is whether the engine slot
/// is filled when the payload arrives.
pub open spec fn mock_response_spec(engine: bool, p: Seq<u8>) -> (Status, Seq<u8>, Seq<u8>) {
    if p.len() < 5 {
        (Status::ERR_INPUT, msg_invalid_request(), Seq::<u8>::empty())
    } else {
        let arg = p.skip(5);
        match command_of_code_spec(p[0]) {
            Command::INVALID => (Status::ERR_INPUT, msg_invalid_command(), Seq::<u8>::empty()),
            Command::STOP => (Status::OK, Seq::<u8>::empty(), Seq::<u8>::empty()),
            Command::MDB_OPEN => if arg.len() != 2 {
                (Status::ERR_INPUT, msg_invalid_arg_bytes(), Seq::<u8>::empty())
            } else {
                (Status::OK, Seq::<u8>::empty(), Seq::<u8>::empty())
            },
            Command::MDB_RESET => if !engine {
                (Status::ERR_INPUT, msg_must_mdb_open(), Seq::<u8>::empty())
            } else if le32_decode(p.subrange(1, 5)) * 1000 < u32::MAX {
                (Status::OK, Seq::<u8>::empty(), Seq::<u8>::empty())
            } else {
                (
                    Status::ERR_HARDWARE,
                    error_message_spec(MdbError::DurationOverflow),
                    Seq::<u8>::empty(),
                )
            },
            Command::MDB_TX => if !engine {
                (Status::ERR_INPUT, msg_must_mdb_open(), Seq::<u8>::empty())
            } else {
                (Status::OK, Seq::<u8>::empty(), arg)
            },
        }
    }
}

/// Whether the engine slot is filled after a mock dispatcher served the
/// payload: an MDB_OPEN fills or clears it, everything else leaves it.
pub open spec fn mock_engine_after(engine: bool, p: Seq<u8>) -> bool {
    if p.len() >= 5 && command_of_code_spec(p[0]) == Command::MDB_OPEN {
        p.skip(5).len() == 2
    } else {
        engine
    }
}

/// The bytes a mock dispatcher appends to its output for a stream: one
/// response frame per whole frame consumed, ending after a STOP request.
pub open spec fn mock_run_output(engine: bool, b: Seq<u8>) -> Seq<u8>
    decreases b.len(),
{
    match head_frame(b) {
        None => Seq::<u8>::empty(),
        Some((p, rest)) => {
            let resp = mock_response_spec(engine, p);
            let fr = frame_spec(encode_response_spec(resp.0, resp.1, resp.2));
            if is_stop_payload(p) {
                fr
            } else {
                fr + mock_run_output(mock_engine_after(engine, p), rest)
            }
        },
    }
}

/// The dispatcher.
pub struct Server {
    /// The engine slot: zero or one open engine.
    pub mdb: Option<GpioMdb>,
    /// In mock mode `MDB_TX` echoes its argument and never drives a bus.
    pub mock: bool,
    /// Cleared by a STOP command; `run` exits when it is clear.
    pub running: bool,
}

impl Server {
    /// Whatever engine the slot holds is open, well-formed, and scripted
    /// within the engine's polling bounds.
    pub open spec fn wf(self) -> bool {
        self.mdb matches Some(m) ==> {
            &&& m.wf()
            &&& !m.closed
            &&& script_fits(m.gpio, m.wait_step)
        }
    }

    /// A dispatcher with an empty engine slot, not yet running.
    pub fn new(mock: bool) -> (r: Result<Server, MdbError>)
        ensures
            r matches Ok(s) && {
                &&& s.mdb is None
                &&& s.mock == mock
                &&& !s.running
                &&& s.wf()
            },
    {
        Ok(Server { mdb: None, mock, running: false })
    }

    /// Routes one request into the engine and fills in its response: every
    /// command sets a status other than `INVALID`, input-shape failures get
    /// `ERR_INPUT`, engine failures `ERR_HARDWARE`, and the error returned
    /// mirrors what the response already says.
    pub fn exec(&mut self, request: &Request, response: &mut Response) -> (r: Result<
        (),
        ServerError,
    >)
        requires
            old(self).wf(),
        ensures
            final(self).wf(),
            final(self).mock == old(self).mock,
            final(response).status != Status::INVALID,
            final(response).error@.len() <= old(response).error@.len() + 64,
            final(response).data_bytes@.len() <= old(response).data_bytes@.len()
                + request.arg_bytes@.len() + 39,
            match request.command {
                Command::INVALID => {
                    &&& r == Err::<(), ServerError>(ServerError::InvalidCommand)
                    &&& final(response).status == Status::ERR_INPUT
                    &&& final(response).error@ == msg_invalid_command()
                    &&& final(self).mdb == old(self).mdb
                    &&& final(self).running == old(self).running
                    &&& final(response).data_bytes == old(response).data_bytes
                },
                Command::STOP => {
                    &&& r == Ok::<(), ServerError>(())
                    &&& final(response).status == Status::OK
                    &&& !final(self).running
                    &&& final(self).mdb == old(self).mdb
                    &&& final(response).data_bytes == old(response).data_bytes
                    &&& final(response).error == old(response).error
                },
                Command::MDB_OPEN => {
                    &&& final(self).running == old(self).running
                    &&& final(response).data_bytes == old(response).data_bytes
                    &&& if request.arg_bytes@.len() != 2 {
                        &&& r == Err::<(), ServerError>(ServerError::InvalidArgBytes)
                        &&& final(response).status == Status::ERR_INPUT
                        &&& final(response).error@ == msg_invalid_arg_bytes()
                        &&& final(self).mdb is None
                    } else {
                        &&& r == Ok::<(), ServerError>(())
                        &&& final(response).status == Status::OK
                        &&& final(response).error == old(response).error
                        &&& (final(self).mdb matches Some(m) && {
                            &&& m.rx_pin == request.arg_bytes@[0] as u16
                            &&& m.tx_pin == request.arg_bytes@[1] as u16
                            &&& m.wait_step == DEFAULT_WAIT_STEP_US
                            &&& !m.closed
                            &&& m.wf()
                            &&& m.gpio.rx_pending@.len() == 0
                            &&& m.gpio.sends@.len() == 0
                            &&& m.gpio.pin_writes@.len() == 0
                        })
                    }
                },
                Command::MDB_RESET => {
                    &&& final(self).running == old(self).running
                    &&& final(response).data_bytes == old(response).data_bytes
                    &&& if old(self).mdb is None {
                        &&& r == Err::<(), ServerError>(ServerError::MustMdbOpen)
                        &&& final(response).status == Status::ERR_INPUT
                        &&& final(response).error@ == msg_must_mdb_open()
                        &&& final(self).mdb is None
                    } else {
                        (old(self).mdb matches Some(m0) && if request.arg_uint * 1000
                            < u32::MAX {
                            &&& r == Ok::<(), ServerError>(())
                            &&& final(response).status == Status::OK
                            &&& final(response).error == old(response).error
                            &&& (final(self).mdb matches Some(m1) && {
                                &&& m1.rx_pin == m0.rx_pin
                                &&& m1.tx_pin == m0.tx_pin
                                &&& m1.gpio.pin_writes@ == m0.gpio.pin_writes@.push(
                                    PinWrite { pin: m0.tx_pin, level: 1, at: m0.gpio.now },
                                ).push(
                                    PinWrite {
                                        pin: m0.tx_pin,
                                        level: 0,
                                        at: m0.gpio.now.wrapping_add(
                                            (request.arg_uint * 1000) as u32,
                                        ),
                                    },
                                )
                            })
                        } else {
                            &&& r == Err::<(), ServerError>(
                                ServerError::Mdb(MdbError::DurationOverflow),
                            )
                            &&& final(response).status == Status::ERR_HARDWARE
                            &&& final(response).error@ == error_message_spec(
                                MdbError::DurationOverflow,
                            )
                            &&& final(self).mdb is Some
                        })
                    }
                },
                Command::MDB_TX => {
                    &&& final(self).running == old(self).running
                    &&& if old(self).mdb is None {
                        &&& r == Err::<(), ServerError>(ServerError::MustMdbOpen)
                        &&& final(response).status == Status::ERR_INPUT
                        &&& final(response).error@ == msg_must_mdb_open()
                        &&& final(self).mdb is None
                        &&& final(response).data_bytes == old(response).data_bytes
                    } else if old(self).mock {
                        &&& r == Ok::<(), ServerError>(())
                        &&& final(response).status == Status::OK
                        &&& final(response).error == old(response).error
                        &&& final(response).data_bytes@ == old(response).data_bytes@
                            + request.arg_bytes@
                        &&& final(self).mdb == old(self).mdb
                    } else if request.arg_bytes@.len() == 0 || request.arg_bytes@.len() >= 40 {
                        &&& r == Err::<(), ServerError>(ServerError::InvalidArgBytes)
                        &&& final(response).status == Status::ERR_INPUT
                        &&& final(response).error@ == msg_invalid_arg_bytes()
                        &&& final(self).mdb == old(self).mdb
                        &&& final(response).data_bytes == old(response).data_bytes
                    } else if (old(self).mdb matches Some(m0) && m0.gpio.waves@.len() + 1
                        >= 0xffff_ffff) {
                        &&& r == Err::<(), ServerError>(ServerError::Mdb(MdbError::Driver(-1i32)))
                        &&& final(response).status == Status::ERR_HARDWARE
                        &&& final(response).error@ == error_message_spec(MdbError::Driver(-1i32))
                        &&& final(response).data_bytes == old(response).data_bytes
                        &&& final(self).mdb == old(self).mdb
                    } else {
                        (old(self).mdb matches Some(m0) && {
                            &&& (r is Ok ==> {
                                &&& final(response).status == Status::OK
                                &&& final(response).error == old(response).error
                                &&& final(response).data_bytes@ == old(response).data_bytes@
                                    + scan_data(m0.gpio.rx_pending@)
                            })
                            &&& (r is Err ==> (r matches Err(ServerError::Mdb(e)) && {
                                &&& final(response).status == Status::ERR_HARDWARE
                                &&& final(response).error@ == error_message_spec(e)
                                &&& final(response).data_bytes == old(response).data_bytes
                            }))
                            &&& (final(self).mdb matches Some(m1) && m1.rx_pin == m0.rx_pin
                                && m1.tx_pin == m0.tx_pin)
                        })
                    }
                },
            },
    {
        match request.command {
            Command::INVALID => {
                response.status = Status::ERR_INPUT;
                response.error = bytes_invalid_command();
                Err(ServerError::InvalidCommand)
            },
            Command::STOP => {
                self.running = false;
                response.status = Status::OK;
                Ok(())
            },
            Command::MDB_OPEN => {
                let old_slot = self.mdb.take();
                match old_slot {
                    Some(mut old_engine) => {
                        let _ = old_engine.close();
                    },
                    None => {},
                }
                if request.arg_bytes.len() != 2 {
                    response.status = Status::ERR_INPUT;
                    response.error = bytes_invalid_arg_bytes();
                    return Err(ServerError::InvalidArgBytes);
                }
                let rx = request.arg_bytes[0];
                let tx = request.arg_bytes[1];
                match GpioMdb::new(MockGpio::new(), rx as u16, tx as u16, DEFAULT_WAIT_STEP_US) {
                    Ok(m) => {
                        self.mdb = Some(m);
                        response.status = Status::OK;
                        Ok(())
                    },
                    Err(e) => {
                        response.status = Status::ERR_HARDWARE;
                        response.error = error_message(&e);
                        Err(ServerError::Mdb(e))
                    },
                }
            },
            Command::MDB_RESET => {
                let slot = self.mdb.take();
                match slot {
                    None => {
                        response.status = Status::ERR_INPUT;
                        response.error = bytes_must_mdb_open();
                        Err(ServerError::MustMdbOpen)
                    },
                    Some(mut m) => {
                        let res = m.bus_reset(request.arg_uint);
                        self.mdb = Some(m);
                        match res {
                            Ok(()) => {
                                response.status = Status::OK;
                                Ok(())
                            },
                            Err(e) => {
                                response.status = Status::ERR_HARDWARE;
                                response.error = error_message(&e);
                                Err(ServerError::Mdb(e))
                            },
                        }
                    },
                }
            },
            Command::MDB_TX => {
                if self.mdb.is_none() {
                    response.status = Status::ERR_INPUT;
                    response.error = bytes_must_mdb_open();
                    return Err(ServerError::MustMdbOpen);
                }
                if self.mock {
                    let mut echoed: Vec<u8> = Vec::new();
                    echoed.extend_from_slice(request.arg_bytes.as_slice());
                    response.status = Status::OK;
                    response.data_bytes.append(&mut echoed);
                    return Ok(());
                }
                if request.arg_bytes.len() == 0 || request.arg_bytes.len() >= 40 {
                    response.status = Status::ERR_INPUT;
                    response.error = bytes_invalid_arg_bytes();
                    return Err(ServerError::InvalidArgBytes);
                }
                let slot = self.mdb.take();
                match slot {
                    None => {
                        response.status = Status::ERR_INPUT;
                        response.error = bytes_must_mdb_open();
                        Err(ServerError::MustMdbOpen)
                    },
                    Some(mut m) => {
                        if m.gpio.waves.len() >= 0xffff_fffe {
                            self.mdb = Some(m);
                            response.status = Status::ERR_HARDWARE;
                            response.error = error_message(&MdbError::Driver(-1));
                            return Err(ServerError::Mdb(MdbError::Driver(-1)));
                        }
                        let mut mdb_response: Vec<u8> = Vec::new();
                        let ghost polls_before = m.gpio.rx_empty_polls;
                        let res = m.tx(
                            request.arg_bytes.as_slice(),
                            &mut mdb_response,
                            MDB_TIMEOUT_US,
                        );
                        proof {
                            lemma_mul_inequality(
                                m.gpio.rx_empty_polls as int + 1,
                                polls_before as int + 1,
                                m.wait_step as int,
                            );
                        }
                        self.mdb = Some(m);
                        match res {
                            Ok(()) => {
                                response.status = Status::OK;
                                response.data_bytes.append(&mut mdb_response);
                                Ok(())
                            },
                            Err(e) => {
                                response.status = Status::ERR_HARDWARE;
                                response.error = error_message(&e);
                                Err(ServerError::Mdb(e))
                            },
                        }
                    },
                }
            },
        }
    }

    /// Serves a whole framed input stream, appending one framed response per
    /// consumed request, until a STOP command clears the running flag.  It
    /// succeeds exactly when the stream reaches a STOP request through whole
    /// frames; a stream that ends or tears first is an unexpected end of the
    /// control channel.  In mock mode the appended bytes are fixed frame by
    /// frame by [`mock_run_output`].
    #[verifier::rlimit(80)]
    pub fn run(&mut self, input: &[u8], output: &mut Vec<u8>) -> (r: Result<(), ServerError>)
        requires
            old(self).wf(),
            input@.len() < 0x4000_0000,
        ensures
            final(self).wf(),
            final(self).mock == old(self).mock,
            r is Ok <==> reaches_stop(input@),
            r is Ok ==> !final(self).running,
            r is Ok ==> final(output)@.len() > old(output)@.len(),
            r matches Err(e) ==> e == ServerError::UnexpectedEof,
            whole_frames(final(output)@.skip(old(output)@.len() as int)),
            frame_count(final(output)@.skip(old(output)@.len() as int)) == consumed_requests(
                input@,
            ),
            old(self).mock ==> final(output)@ == old(output)@ + mock_run_output(
                old(self).mdb is Some,
                input@,
            ),
            input@.len() == 0 ==> r == Err::<(), ServerError>(ServerError::UnexpectedEof)
                && final(output)@ == old(output)@ && final(self).mdb == old(self).mdb,
            final(output)@.len() >= old(output)@.len(),
    {
        let ghost out0 = old(output)@.len() as int;
        self.running = true;
        let mut pos: usize = 0;
        proof {
            assert(input@.skip(0) =~= input@);
            assert(output@.skip(out0) =~= Seq::<u8>::empty());
            assert(output@.subrange(0, out0) =~= output@);
        }
        while self.running
            invariant
                self.wf(),
                self.mock == old(self).mock,
                pos <= input@.len(),
                input@.len() < 0x4000_0000,
                output@.len() >= old(output)@.len(),
                out0 == old(output)@.len() as int,
                output@.subrange(0, out0) == old(output)@,
                input@.len() == 0 ==> (output@ == old(output)@ && self.mdb == old(self).mdb
                    && pos == 0),
                !self.running ==> output@.len() > old(output)@.len(),
                self.running ==> (reaches_stop(input@) <==> reaches_stop(
                    input@.skip(pos as int),
                )),
                !self.running ==> reaches_stop(input@),
                whole_frames(output@.skip(out0)),
                consumed_requests(input@) == frame_count(output@.skip(out0)) + (
                if self.running {
                    consumed_requests(input@.skip(pos as int))
                } else {
                    0int
                }),
                old(self).mock ==> mock_run_output(old(self).mdb is Some, input@)
                    == output@.skip(out0) + (if self.running {
                    mock_run_output(self.mdb is Some, input@.skip(pos as int))
                } else {
                    Seq::<u8>::empty()
                }),
            decreases input@.len() - pos,
        {
            let ghost rem = input@.skip(pos as int);
            if input.len() - pos < 4 {
                proof {
                    assert(head_frame(rem) is None);
                    assert(output@ =~= old(output)@ + output@.skip(out0));
                }
                return Err(ServerError::UnexpectedEof);
            }
            let len_bytes = slice_subrange(input, pos, pos + 4);
            let msglen = decode_le32(len_bytes) as usize;
            proof {
                assert(rem.subrange(0, 4) =~= input@.subrange(pos as int, pos + 4));
            }
            if msglen > input.len() - pos - 4 {
                proof {
                    assert(head_frame(rem) is None);
                    assert(output@ =~= old(output)@ + output@.skip(out0));
                }
                return Err(ServerError::UnexpectedEof);
            }
            let payload = slice_subrange(input, pos + 4, pos + 4 + msglen);
            let ghost pos_next = pos + 4 + msglen;
            proof {
                assert(payload@ =~= rem.subrange(4, 4 + msglen as int));
                assert(rem.skip(4 + msglen as int) =~= input@.skip(pos_next as int));
                assert(head_frame(rem) == Some(
                    (payload@, input@.skip(pos_next as int)),
                ));
            }
            pos = pos + 4 + msglen;
            let mut response = Response::new();
            match decode_request(payload) {
                None => {
                    response.status = Status::ERR_INPUT;
                    response.error = bytes_invalid_request();
                },
                Some(req) => {
                    proof {
                        assert(req.arg_uint == le32_decode(payload@.subrange(1, 5)));
                    }
                    let _ = self.exec(&req, &mut response);
                },
            }
            let body = encode_response_payload(&response);
            let frame = encode_frame(&body);
            let ghost out_before = output@;
            output.extend_from_slice(frame.as_slice());
            proof {
                assert(output@.subrange(0, out0) =~= old(output)@);
                assert(output@.skip(out0) =~= out_before.skip(out0) + frame@);
                lemma_frames_snoc(out_before.skip(out0), body@);
            }
        }
        proof {
            assert(output@ =~= old(output)@ + output@.skip(out0));
        }
        Ok(())
    }
}

} // verus!
