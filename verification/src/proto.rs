//! The control-channel messages and their byte encoding.
//!
//! The dispatcher exchanges framed messages with its parent: each frame is a
//! 32-bit little-endian length followed by the payload.  A request payload is
//! the command code, the unsigned argument in four little-endian bytes, and
//! the argument bytes; a response payload is the status code, the diagnostic
//! length in four little-endian bytes, the diagnostic bytes, and the data
//! bytes.

use vstd::prelude::*;
use vstd::slice::slice_subrange;
use vstd::slice::slice_to_vec;

verus! {

/// A request's command.
#[derive(Debug, Clone, Copy, PartialEq, Eq, Structural)]
#[allow(non_camel_case_types)]
pub enum Command {
    INVALID,
    MDB_OPEN,
    MDB_RESET,
    MDB_TX,
    STOP,
}

/// A response's status.
#[derive(Debug, Clone, Copy, PartialEq, Eq, Structural)]
#[allow(non_camel_case_types)]
pub enum Status {
    INVALID,
    OK,
    ERR_INPUT,
    ERR_HARDWARE,
}

/// A request from the parent process.
#[derive(Debug, PartialEq, Eq)]
pub struct Request {
    pub command: Command,
    pub arg_bytes: Vec<u8>,
    pub arg_uint: u32,
}

impl Request {
    /// An empty request: the invalid command with no arguments.
    pub fn new() -> (r: Request)
        ensures
            r.command == Command::INVALID,
            r.arg_bytes@ == Seq::<u8>::empty(),
            r.arg_uint == 0,
    {
        Request { command: Command::INVALID, arg_bytes: Vec::new(), arg_uint: 0 }
    }
}

/// A response to the parent process.
#[derive(Debug, PartialEq, Eq)]
pub struct Response {
    pub status: Status,
    pub error: Vec<u8>,
    pub data_bytes: Vec<u8>,
}

impl Response {
    /// An empty response: the invalid status with no diagnostic and no data.
    pub fn new() -> (r: Response)
        ensures
            r.status == Status::INVALID,
            r.error@ == Seq::<u8>::empty(),
            r.data_bytes@ == Seq::<u8>::empty(),
    {
        Response { status: Status::INVALID, error: Vec::new(), data_bytes: Vec::new() }
    }
}

/// The code of a command on the wire.
pub open spec fn command_code_spec(c: Command) -> u8 {
    match c {
        Command::INVALID => 0u8,
        Command::MDB_OPEN => 1u8,
        Command::MDB_RESET => 2u8,
        Command::MDB_TX => 3u8,
        Command::STOP => 4u8,
    }
}

/// The command a wire code names; unknown codes fall back to the invalid
/// command, which the dispatcher rejects.
pub open spec fn command_of_code_spec(b: u8) -> Command {
    if b == 1 {
        Command::MDB_OPEN
    } else if b == 2 {
        Command::MDB_RESET
    } else if b == 3 {
        Command::MDB_TX
    } else if b == 4 {
        Command::STOP
    } else {
        Command::INVALID
    }
}

/// Encodes a command.
pub fn command_code(c: Command) -> (r: u8)
    ensures
        r == command_code_spec(c),
{
    match c {
        Command::INVALID => 0u8,
        Command::MDB_OPEN => 1u8,
        Command::MDB_RESET => 2u8,
        Command::MDB_TX => 3u8,
        Command::STOP => 4u8,
    }
}

/// Decodes a command code.
pub fn command_of_code(b: u8) -> (r: Command)
    ensures
        r == command_of_code_spec(b),
{
    if b == 1 {
        Command::MDB_OPEN
    } else if b == 2 {
        Command::MDB_RESET
    } else if b == 3 {
        Command::MDB_TX
    } else if b == 4 {
        Command::STOP
    } else {
        Command::INVALID
    }
}

/// The code of a status on the wire.
pub open spec fn status_code_spec(s: Status) -> u8 {
    match s {
        Status::INVALID => 0u8,
        Status::OK => 1u8,
        Status::ERR_INPUT => 2u8,
        Status::ERR_HARDWARE => 3u8,
    }
}

/// Encodes a status.
pub fn status_code(s: Status) -> (r: u8)
    ensures
        r == status_code_spec(s),
{
    match s {
        Status::INVALID => 0u8,
        Status::OK => 1u8,
        Status::ERR_INPUT => 2u8,
        Status::ERR_HARDWARE => 3u8,
    }
}

/// A 32-bit value as four little-endian bytes.
pub open spec fn le32(n: u32) -> Seq<u8> {
    seq![
        (n & 0xff) as u8,
        ((n >> 8) & 0xff) as u8,
        ((n >> 16) & 0xff) as u8,
        ((n >> 24) & 0xff) as u8,
    ]
}

/// Four little-endian bytes as a 32-bit value.
pub open spec fn le32_decode(b: Seq<u8>) -> u32
    recommends
        b.len() == 4,
{
    (b[0] as u32) | ((b[1] as u32) << 8) | ((b[2] as u32) << 16) | ((b[3] as u32) << 24)
}

/// The four little-endian bytes of a value decode back to it.
pub proof fn lemma_le32_round(n: u32)
    ensures
        le32_decode(le32(n)) == n,
{
    assert(((n & 0xff) | (((n >> 8) & 0xff) << 8) | (((n >> 16) & 0xff) << 16) | (((n >> 24)
        & 0xff) << 24)) == n) by (bit_vector);
    assert(n & 0xff < 256) by (bit_vector);
    assert((n >> 8) & 0xff < 256) by (bit_vector);
    assert((n >> 16) & 0xff < 256) by (bit_vector);
    assert((n >> 24) & 0xff < 256) by (bit_vector);
}

/// Appends the four little-endian bytes of a value.
pub fn push_le32(out: &mut Vec<u8>, n: u32)
    ensures
        final(out)@ == old(out)@ + le32(n),
{
    out.push((n & 0xff) as u8);
    out.push(((n >> 8) & 0xff) as u8);
    out.push(((n >> 16) & 0xff) as u8);
    out.push(((n >> 24) & 0xff) as u8);
    proof {
        assert(n & 0xff < 256) by (bit_vector);
        assert((n >> 8) & 0xff < 256) by (bit_vector);
        assert((n >> 16) & 0xff < 256) by (bit_vector);
        assert((n >> 24) & 0xff < 256) by (bit_vector);
        assert(final(out)@ =~= old(out)@ + le32(n));
    }
}

/// Reads four little-endian bytes.
pub fn decode_le32(b: &[u8]) -> (r: u32)
    requires
        b@.len() == 4,
    ensures
        r == le32_decode(b@),
{
    (b[0] as u32) | ((b[1] as u32) << 8) | ((b[2] as u32) << 16) | ((b[3] as u32) << 24)
}

/// A request payload: command code, unsigned argument, argument bytes.
pub open spec fn encode_request_spec(command: Command, arg_bytes: Seq<u8>, arg_uint: u32) -> Seq<
    u8,
> {
    seq![command_code_spec(command)] + le32(arg_uint) + arg_bytes
}

/// The fields a request payload decodes to, if it is long enough to be one.
pub open spec fn decode_request_spec(b: Seq<u8>) -> Option<(Command, Seq<u8>, u32)> {
    if b.len() < 5 {
        None
    } else {
        Some((command_of_code_spec(b[0]), b.skip(5), le32_decode(b.subrange(1, 5))))
    }
}

/// Serialises a request.
pub fn encode_request_payload(r: &Request) -> (out: Vec<u8>)
    ensures
        out@ == encode_request_spec(r.command, r.arg_bytes@, r.arg_uint),
        out@.len() == 5 + r.arg_bytes@.len(),
{
    let mut out: Vec<u8> = Vec::new();
    out.push(command_code(r.command));
    push_le32(&mut out, r.arg_uint);
    out.extend_from_slice(r.arg_bytes.as_slice());
    proof {
        assert(out@ =~= encode_request_spec(r.command, r.arg_bytes@, r.arg_uint));
    }
    out
}

/// Parses a request payload; anything shorter than a header is refused.
pub fn decode_request(b: &[u8]) -> (r: Option<Request>)
    ensures
        b@.len() >= 5 ==> (r matches Some(req) && {
            &&& req.command == command_of_code_spec(b@[0])
            &&& req.arg_uint == le32_decode(b@.subrange(1, 5))
            &&& req.arg_bytes@ == b@.skip(5)
        }),
        b@.len() < 5 ==> r is None,
{
    if b.len() < 5 {
        return None;
    }
    let command = command_of_code(b[0]);
    let arg_uint = decode_le32(slice_subrange(b, 1, 5));
    let arg_bytes = slice_to_vec(slice_subrange(b, 5, b.len()));
    proof {
        assert(b@.subrange(5, b@.len() as int) =~= b@.skip(5));
    }
    Some(Request { command, arg_bytes, arg_uint })
}

/// Decoding an encoded request yields the original field values.
pub proof fn lemma_request_round_trip(command: Command, arg_bytes: Seq<u8>, arg_uint: u32)
    ensures
        decode_request_spec(encode_request_spec(command, arg_bytes, arg_uint)) matches Some(f) && {
            &&& f.0 == command
            &&& f.1 == arg_bytes
            &&& f.2 == arg_uint
        },
{
    let e = encode_request_spec(command, arg_bytes, arg_uint);
    assert(e.len() == 5 + arg_bytes.len());
    assert(e[0] == command_code_spec(command));
    assert(e.skip(5) =~= arg_bytes);
    assert(e.subrange(1, 5) =~= le32(arg_uint));
    lemma_le32_round(arg_uint);
}

/// A response payload: status code, diagnostic length and bytes, data bytes.
pub open spec fn encode_response_spec(status: Status, error: Seq<u8>, data: Seq<u8>) -> Seq<u8> {
    seq![status_code_spec(status)] + le32(error.len() as u32) + error + data
}

/// Serialises a response.
pub fn encode_response_payload(resp: &Response) -> (out: Vec<u8>)
    requires
        resp.error@.len() < 0x1_0000_0000,
    ensures
        out@ == encode_response_spec(resp.status, resp.error@, resp.data_bytes@),
        out@.len() == 5 + resp.error@.len() + resp.data_bytes@.len(),
{
    let mut out: Vec<u8> = Vec::new();
    out.push(status_code(resp.status));
    push_le32(&mut out, resp.error.len() as u32);
    out.extend_from_slice(resp.error.as_slice());
    out.extend_from_slice(resp.data_bytes.as_slice());
    proof {
        assert(out@ =~= encode_response_spec(resp.status, resp.error@, resp.data_bytes@));
    }
    out
}

/// A frame on the control channel: the payload's length in four
/// little-endian bytes, then the payload.
pub open spec fn frame_spec(payload: Seq<u8>) -> Seq<u8> {
    le32(payload.len() as u32) + payload
}

/// Frames a payload for the stream.
pub fn encode_frame(payload: &Vec<u8>) -> (out: Vec<u8>)
    requires
        payload@.len() < 0x1_0000_0000,
    ensures
        out@ == frame_spec(payload@),
        out@.len() == 4 + payload@.len(),
{
    let mut out: Vec<u8> = Vec::new();
    push_le32(&mut out, payload.len() as u32);
    out.extend_from_slice(payload.as_slice());
    proof {
        assert(out@ =~= frame_spec(payload@));
    }
    out
}

} // verus!
