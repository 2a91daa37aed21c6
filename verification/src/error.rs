//! Errors raised by the MDB engine.

use vstd::prelude::*;

verus! {

/// The transaction phase in which a deadline was crossed.
#[derive(Debug, Clone, Copy, PartialEq, Eq, Structural)]
pub enum TimeoutPhase {
    /// The request waveform did not leave the wire in time.
    SendRequest,
    /// The acknowledging ACK waveform did not leave the wire in time.
    SendAck,
    /// The acknowledging NAK waveform did not leave the wire in time.
    SendNak,
    /// The peripheral's reply did not arrive, or stalled mid-block.
    Receive,
}

/// Every failure the engine can surface to its caller.
#[derive(Debug, PartialEq, Eq)]
pub enum MdbError {
    /// The peripheral answered the block with NAK.
    MdbNak,
    /// The terminator of an empty reply was neither ACK nor NAK; the byte is
    /// carried for diagnostics.
    MdbInvalidResponse(u8),
    /// The reply block's checksum did not match: computed value, received
    /// value, and the reply bytes for diagnostics.
    MdbChecksum(u8, u8, Vec<u8>),
    /// A deadline was crossed in the given phase.
    Timeout(TimeoutPhase),
    /// The GPIO driver reported a failure with this return code.
    Driver(i32),
    /// A caller-supplied duration does not fit the 32-bit microsecond counter.
    DurationOverflow,
}

} // verus!
