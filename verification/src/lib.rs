//! A verified model of an MDB (Multi-Drop Bus) master engine and its command
//! dispatcher.
//!
//! The engine speaks the 9-bit, 9600-baud MDB protocol over two GPIO pins
//! through a waveform-generating driver.  Every byte on the wire is carried as
//! a two-byte word: the low byte holds the data, bit 0 of the high byte holds
//! the 9th "mode" bit that separates address and terminator bytes from data
//! bytes.  The engine encodes a request block with its arithmetic checksum,
//! sends it as one waveform, busy-waits on microsecond deadlines for the
//! peripheral's reply, and answers the reply with ACK or NAK.
//!
//! The driver itself is hardware; it is modelled here by [`gpio::MockGpio`],
//! an in-memory port that scripts received bytes and records every pin write
//! and waveform, so the whole transaction engine is verified against it.  A
//! binary that owns real hardware drives the same engine logic through the
//! pure helpers of [`wire`], [`checksum`] and [`timing`].

pub mod checksum;
pub mod error;
pub mod gpio;
pub mod mdb;
pub mod proto;
pub mod server;
pub mod timing;
pub mod wire;
