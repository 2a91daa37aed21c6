//! The GPIO driver as an in-memory port.
//!
//! Real hardware cannot be reasoned about, so the driver's nine operations
//! are modelled by [`MockGpio`]: a deterministic port that scripts the bytes
//! a software-serial reader will deliver, counts the busy polls a waveform
//! send reports, and records every pin write and waveform for inspection.
//! The engine is verified against this port; a binary that owns real GPIO
//! hardware performs the same operations through its own foreign bindings.

use crate::error::MdbError;
use core::mem;
use vstd::prelude::*;
use vstd::slice::slice_to_vec;

verus! {

/// A level driven on a pin, stamped with the tick at which it was written.
#[derive(Debug, Clone, Copy, PartialEq, Eq, Structural)]
pub struct PinWrite {
    pub pin: u16,
    pub level: u8,
    pub at: u32,
}

/// A serial waveform registered with the port.  `live` is cleared when the
/// waveform is deleted; its words are kept so that what was transmitted can
/// still be stated afterwards.
#[derive(Debug, PartialEq, Eq)]
pub struct WaveSlot {
    pub pin: u16,
    pub words: Vec<u8>,
    pub live: bool,
}

/// An owned handle to a registered waveform.
#[derive(Debug, Clone, Copy, PartialEq, Eq, Structural)]
pub struct Wave {
    id: u32,
}

impl Wave {
    /// The waveform number this handle owns.
    pub closed spec fn wid(self) -> u32 {
        self.id
    }

    /// Wraps a raw waveform number handed out by the driver.
    pub fn from_id(id: u32) -> (w: Wave)
        ensures
            w.wid() == id,
    {
        Wave { id }
    }

    /// Reads the waveform number back.
    pub fn id(&self) -> (r: u32)
        ensures
            r == self.wid(),
    {
        self.id
    }
}

/// Maps a driver return code to a result, as the driver's convention is:
/// negative codes are failures, all others carry a value.
pub fn check(rc: i32) -> (r: Result<u32, MdbError>)
    ensures
        rc < 0 ==> r == Err::<u32, MdbError>(MdbError::Driver(rc)),
        rc >= 0 ==> r == Ok::<u32, MdbError>(rc as u32),
{
    if rc < 0 {
        Err(MdbError::Driver(rc))
    } else {
        Ok(rc as u32)
    }
}

/// The in-memory GPIO port.
pub struct MockGpio {
    /// Free-running microsecond tick; wraps.
    pub now: u32,
    /// Whether a software-serial reader is open.
    pub serial_open: bool,
    /// The pin the serial reader was opened on.
    pub serial_pin: u16,
    /// The baud rate the serial reader was opened at.
    pub serial_baud: u32,
    /// The bits per word the serial reader was opened with.
    pub serial_data_bits: u32,
    /// Scripted bytes the serial reader will deliver, two per 9-bit word.
    pub rx_pending: Vec<u8>,
    /// Reads that will come back empty before `rx_pending` is delivered.
    pub rx_empty_polls: u32,
    /// Busy polls reported after each waveform send.
    pub send_busy_polls: u32,
    /// Busy polls still to be reported for the waveform being sent.
    pub busy_polls_left: u32,
    /// Every waveform registered so far, by handle.
    pub waves: Vec<WaveSlot>,
    /// Handles of the waveforms sent, in order.
    pub sends: Vec<u32>,
    /// Levels driven on pins, in order.
    pub pin_writes: Vec<PinWrite>,
    /// Pin directions configured, in order.
    pub modes: Vec<(u16, u32)>,
}

impl MockGpio {
    /// A quiet port: nothing scripted, nothing recorded, tick at zero.
    pub fn new() -> (g: MockGpio)
        ensures
            g.now == 0,
            !g.serial_open,
            g.serial_pin == 0,
            g.serial_baud == 0,
            g.serial_data_bits == 0,
            g.rx_pending@ == Seq::<u8>::empty(),
            g.rx_empty_polls == 0,
            g.send_busy_polls == 0,
            g.busy_polls_left == 0,
            g.waves@ == Seq::<WaveSlot>::empty(),
            g.sends@ == Seq::<u32>::empty(),
            g.pin_writes@ == Seq::<PinWrite>::empty(),
            g.modes@ == Seq::<(u16, u32)>::empty(),
    {
        MockGpio {
            now: 0,
            serial_open: false,
            serial_pin: 0,
            serial_baud: 0,
            serial_data_bits: 0,
            rx_pending: Vec::new(),
            rx_empty_polls: 0,
            send_busy_polls: 0,
            busy_polls_left: 0,
            waves: Vec::new(),
            sends: Vec::new(),
            pin_writes: Vec::new(),
            modes: Vec::new(),
        }
    }

    /// Everything but the tick, the empty-poll counter, the pending bytes and
    /// the busy counter is as it was.
    pub open spec fn same_but_polling(self, o: MockGpio) -> bool {
        &&& self.serial_open == o.serial_open
        &&& self.serial_pin == o.serial_pin
        &&& self.serial_baud == o.serial_baud
        &&& self.serial_data_bits == o.serial_data_bits
        &&& self.send_busy_polls == o.send_busy_polls
        &&& self.waves == o.waves
        &&& self.sends == o.sends
        &&& self.pin_writes == o.pin_writes
        &&& self.modes == o.modes
    }

    /// The free-running microsecond tick.
    pub fn tick(&self) -> (r: u32)
        ensures
            r == self.now,
    {
        self.now
    }

    /// Busy-sleeps for `us` microseconds: the tick advances, wrapping.
    pub fn delay(&mut self, us: u32)
        ensures
            final(self).now == old(self).now.wrapping_add(us),
            final(self).serial_open == old(self).serial_open,
            final(self).serial_pin == old(self).serial_pin,
            final(self).serial_baud == old(self).serial_baud,
            final(self).serial_data_bits == old(self).serial_data_bits,
            final(self).rx_pending == old(self).rx_pending,
            final(self).rx_empty_polls == old(self).rx_empty_polls,
            final(self).send_busy_polls == old(self).send_busy_polls,
            final(self).busy_polls_left == old(self).busy_polls_left,
            final(self).waves == old(self).waves,
            final(self).sends == old(self).sends,
            final(self).pin_writes == old(self).pin_writes,
            final(self).modes == old(self).modes,
    {
        self.now = self.now.wrapping_add(us);
    }

    /// Configures a pin's direction.
    pub fn set_mode(&mut self, pin: u16, mode: u32)
        ensures
            final(self).modes@ == old(self).modes@.push((pin, mode)),
            final(self).now == old(self).now,
            final(self).serial_open == old(self).serial_open,
            final(self).serial_pin == old(self).serial_pin,
            final(self).serial_baud == old(self).serial_baud,
            final(self).serial_data_bits == old(self).serial_data_bits,
            final(self).rx_pending == old(self).rx_pending,
            final(self).rx_empty_polls == old(self).rx_empty_polls,
            final(self).send_busy_polls == old(self).send_busy_polls,
            final(self).busy_polls_left == old(self).busy_polls_left,
            final(self).waves == old(self).waves,
            final(self).sends == old(self).sends,
            final(self).pin_writes == old(self).pin_writes,
    {
        self.modes.push((pin, mode));
    }

    /// Drives a level on a pin; the write is recorded with the current tick.
    pub fn write_pin(&mut self, pin: u16, level: u8)
        ensures
            final(self).pin_writes@ == old(self).pin_writes@.push(
                PinWrite { pin, level, at: old(self).now },
            ),
            final(self).now == old(self).now,
            final(self).serial_open == old(self).serial_open,
            final(self).serial_pin == old(self).serial_pin,
            final(self).serial_baud == old(self).serial_baud,
            final(self).serial_data_bits == old(self).serial_data_bits,
            final(self).rx_pending == old(self).rx_pending,
            final(self).rx_empty_polls == old(self).rx_empty_polls,
            final(self).send_busy_polls == old(self).send_busy_polls,
            final(self).busy_polls_left == old(self).busy_polls_left,
            final(self).waves == old(self).waves,
            final(self).sends == old(self).sends,
            final(self).modes == old(self).modes,
    {
        let at = self.now;
        self.pin_writes.push(PinWrite { pin, level, at });
    }

    /// Opens the software-serial reader on a pin; a second open without a
    /// close is a driver failure, as the real driver refuses it.
    pub fn serial_read_open(&mut self, pin: u16, baud: u32, data_bits: u32) -> (r: Result<
        u32,
        MdbError,
    >)
        ensures
            !old(self).serial_open ==> r == Ok::<u32, MdbError>(0) && final(self).serial_open
                && final(self).serial_pin == pin && final(self).serial_baud == baud && final(self).serial_data_bits == data_bits,
            old(self).serial_open ==> r == Err::<u32, MdbError>(MdbError::Driver(-1i32)) && final(self).serial_open
                && final(self).serial_pin == old(self).serial_pin && final(self).serial_baud
                == old(self).serial_baud && final(self).serial_data_bits == old(self).serial_data_bits,
            final(self).now == old(self).now,
            final(self).rx_pending == old(self).rx_pending,
            final(self).rx_empty_polls == old(self).rx_empty_polls,
            final(self).send_busy_polls == old(self).send_busy_polls,
            final(self).busy_polls_left == old(self).busy_polls_left,
            final(self).waves == old(self).waves,
            final(self).sends == old(self).sends,
            final(self).pin_writes == old(self).pin_writes,
            final(self).modes == old(self).modes,
    {
        if self.serial_open {
            Err(MdbError::Driver(-1i32))
        } else {
            self.serial_open = true;
            self.serial_pin = pin;
            self.serial_baud = baud;
            self.serial_data_bits = data_bits;
            Ok(0)
        }
    }

    /// Closes the software-serial reader; closing an already-closed reader is
    /// a driver failure, as the real driver refuses it.
    pub fn serial_read_close(&mut self, _pin: u16) -> (r: Result<u32, MdbError>)
        ensures
            old(self).serial_open ==> r == Ok::<u32, MdbError>(0),
            !old(self).serial_open ==> r == Err::<u32, MdbError>(MdbError::Driver(-1i32)),
            !final(self).serial_open,
            final(self).serial_pin == old(self).serial_pin,
            final(self).serial_baud == old(self).serial_baud,
            final(self).serial_data_bits == old(self).serial_data_bits,
            final(self).now == old(self).now,
            final(self).rx_pending == old(self).rx_pending,
            final(self).rx_empty_polls == old(self).rx_empty_polls,
            final(self).send_busy_polls == old(self).send_busy_polls,
            final(self).busy_polls_left == old(self).busy_polls_left,
            final(self).waves == old(self).waves,
            final(self).sends == old(self).sends,
            final(self).pin_writes == old(self).pin_writes,
            final(self).modes == old(self).modes,
    {
        if self.serial_open {
            self.serial_open = false;
            Ok(0)
        } else {
            self.serial_open = false;
            Err(MdbError::Driver(-1i32))
        }
    }

    /// Reads buffered serial bytes, at most `max` of them.  The scripted
    /// empty polls come back first; then the pending bytes are delivered,
    /// always in whole two-byte words.
    pub fn serial_read(&mut self, max: usize) -> (r: Vec<u8>)
        requires
            old(self).serial_open,
            max % 2 == 0,
            old(self).rx_pending@.len() % 2 == 0,
        ensures
            old(self).rx_empty_polls > 0 ==> {
                &&& r@ == Seq::<u8>::empty()
                &&& final(self).rx_empty_polls == old(self).rx_empty_polls - 1
                &&& final(self).rx_pending == old(self).rx_pending
            },
            old(self).rx_empty_polls == 0 ==> {
                let n = if max < old(self).rx_pending@.len() {
                    max as int
                } else {
                    old(self).rx_pending@.len() as int
                };
                &&& r@ == old(self).rx_pending@.take(n)
                &&& final(self).rx_pending@ == old(self).rx_pending@.skip(n)
                &&& final(self).rx_empty_polls == 0
            },
            final(self).now == old(self).now,
            final(self).busy_polls_left == old(self).busy_polls_left,
            final(self).same_but_polling(*old(self)),
    {
        if self.rx_empty_polls > 0 {
            self.rx_empty_polls = self.rx_empty_polls - 1;
            Vec::new()
        } else {
            let n = if max < self.rx_pending.len() {
                max
            } else {
                self.rx_pending.len()
            };
            let mut rest = self.rx_pending.split_off(n);
            mem::swap(&mut self.rx_pending, &mut rest);
            rest
        }
    }

    /// Registers a serial waveform for a pin and hands out its handle.
    pub fn wave_create(&mut self, pin: u16, words: &[u8]) -> (w: Wave)
        requires
            old(self).waves@.len() < 0xffff_ffff,
        ensures
            w.wid() == old(self).waves@.len(),
            final(self).waves@.len() == old(self).waves@.len() + 1,
            final(self).waves@[w.wid() as int].pin == pin,
            final(self).waves@[w.wid() as int].words@ == words@,
            final(self).waves@[w.wid() as int].live,
            forall|j: int|
                0 <= j < old(self).waves@.len() ==> final(self).waves@[j] == old(self).waves@[j],
            final(self).now == old(self).now,
            final(self).serial_open == old(self).serial_open,
            final(self).serial_pin == old(self).serial_pin,
            final(self).serial_baud == old(self).serial_baud,
            final(self).serial_data_bits == old(self).serial_data_bits,
            final(self).rx_pending == old(self).rx_pending,
            final(self).rx_empty_polls == old(self).rx_empty_polls,
            final(self).send_busy_polls == old(self).send_busy_polls,
            final(self).busy_polls_left == old(self).busy_polls_left,
            final(self).sends == old(self).sends,
            final(self).pin_writes == old(self).pin_writes,
            final(self).modes == old(self).modes,
    {
        let id = self.waves.len() as u32;
        let slot = WaveSlot { pin, words: slice_to_vec(words), live: true };
        self.waves.push(slot);
        Wave::from_id(id)
    }

    /// Starts transmitting a registered waveform; the port will report busy
    /// for the next `send_busy_polls` polls.
    pub fn wave_send(&mut self, w: &Wave)
        requires
            w.wid() < old(self).waves@.len(),
            old(self).waves@[w.wid() as int].live,
        ensures
            final(self).sends@ == old(self).sends@.push(w.wid()),
            final(self).busy_polls_left == old(self).send_busy_polls,
            final(self).now == old(self).now,
            final(self).serial_open == old(self).serial_open,
            final(self).serial_pin == old(self).serial_pin,
            final(self).serial_baud == old(self).serial_baud,
            final(self).serial_data_bits == old(self).serial_data_bits,
            final(self).rx_pending == old(self).rx_pending,
            final(self).rx_empty_polls == old(self).rx_empty_polls,
            final(self).send_busy_polls == old(self).send_busy_polls,
            final(self).waves == old(self).waves,
            final(self).pin_writes == old(self).pin_writes,
            final(self).modes == old(self).modes,
    {
        self.sends.push(w.id());
        self.busy_polls_left = self.send_busy_polls;
    }

    /// Polls whether a waveform transmission is still under way.
    pub fn wave_tx_busy(&mut self) -> (r: bool)
        ensures
            old(self).busy_polls_left > 0 ==> r && final(self).busy_polls_left == old(self).busy_polls_left - 1,
            old(self).busy_polls_left == 0 ==> !r && final(self).busy_polls_left == 0,
            final(self).now == old(self).now,
            final(self).rx_pending == old(self).rx_pending,
            final(self).rx_empty_polls == old(self).rx_empty_polls,
            final(self).same_but_polling(*old(self)),
    {
        if self.busy_polls_left > 0 {
            self.busy_polls_left = self.busy_polls_left - 1;
            true
        } else {
            false
        }
    }

    /// Stops any waveform transmission.
    pub fn wave_tx_stop(&mut self)
        ensures
            final(self).busy_polls_left == 0,
            final(self).now == old(self).now,
            final(self).rx_pending == old(self).rx_pending,
            final(self).rx_empty_polls == old(self).rx_empty_polls,
            final(self).same_but_polling(*old(self)),
    {
        self.busy_polls_left = 0;
    }

    /// Releases a waveform handle; the slot is marked dead but its words are
    /// kept, so what was transmitted can still be stated.
    pub fn wave_delete(&mut self, w: Wave)
        requires
            w.wid() < old(self).waves@.len(),
        ensures
            final(self).waves@.len() == old(self).waves@.len(),
            final(self).waves@[w.wid() as int].pin == old(self).waves@[w.wid() as int].pin,
            final(self).waves@[w.wid() as int].words@ == old(self).waves@[w.wid() as int].words@,
            !final(self).waves@[w.wid() as int].live,
            forall|j: int|
                0 <= j < old(self).waves@.len() && j != w.wid() ==> final(self).waves@[j] == old(self).waves@[j],
            final(self).now == old(self).now,
            final(self).serial_open == old(self).serial_open,
            final(self).serial_pin == old(self).serial_pin,
            final(self).serial_baud == old(self).serial_baud,
            final(self).serial_data_bits == old(self).serial_data_bits,
            final(self).rx_pending == old(self).rx_pending,
            final(self).rx_empty_polls == old(self).rx_empty_polls,
            final(self).send_busy_polls == old(self).send_busy_polls,
            final(self).busy_polls_left == old(self).busy_polls_left,
            final(self).sends == old(self).sends,
            final(self).pin_writes == old(self).pin_writes,
            final(self).modes == old(self).modes,
    {
        let idx = w.id() as usize;
        let pin = self.waves[idx].pin;
        let words = slice_to_vec(self.waves[idx].words.as_slice());
        self.waves.set(idx, WaveSlot { pin, words, live: false });
    }
}

} // verus!
