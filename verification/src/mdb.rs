//! The MDB master engine: one transaction at a time over two GPIO pins.
//!
//! The engine is bound to a receive pin and a transmit pin at construction,
//! owns precomputed ACK, NAK and RET waveforms for the lifetime of the bus,
//! and offers a bus reset and the send/receive/acknowledge transaction
//! [`GpioMdb::tx`].  All of its timing runs on the port's wrapping
//! microsecond tick, polled in busy-wait steps of `wait_step` microseconds.

use crate::checksum::checksum;
use crate::checksum::checksum_spec;
use crate::error::MdbError;
use crate::error::TimeoutPhase;
use crate::gpio::MockGpio;
use crate::gpio::PinWrite;
use crate::gpio::Wave;
use crate::timing::Deadline;
use crate::timing::duration_as_micros32;
use crate::timing::elapsed;
use crate::timing::first_late;
use crate::timing::lemma_elapsed_advance;
use crate::timing::lemma_elapsed_trans;
use crate::timing::lemma_first_late;
use crate::wire::ScanOutcome;
use crate::wire::encode_request;
use crate::wire::lemma_scan_append;
use crate::wire::lemma_scan_append_term;
use crate::wire::scan_data;
use crate::wire::scan_term;
use crate::wire::scan_words;
use crate::wire::wire_words;
use vstd::arithmetic::div_mod::lemma_fundamental_div_mod;
use vstd::arithmetic::div_mod::lemma_mod_bound;
use vstd::arithmetic::mul::lemma_mul_inequality;
use vstd::prelude::*;
use vstd::slice::slice_to_vec;

verus! {

/// The longest MDB block: a reply holds at most this many words, data plus
/// terminator.
pub const BLOCK_MAX_LENGTH: usize = 40;

/// The bus bit rate.
pub const BAUD: u32 = 9600;

/// Bits per word on the bus: eight data bits and the mode bit.
pub const DATA_BITS: u32 = 9;

/// Stop bits per word on the bus.
pub const STOP_BITS: u32 = 2;

/// The acknowledgement byte a peripheral or the master sends for a good
/// block.
pub const RESPONSE_ACK: u8 = 0x00;

/// The negative acknowledgement byte.
pub const RESPONSE_NAK: u8 = 0xff;

/// The retransmit request byte; its waveform is built for completeness but
/// never emitted.
pub const RESPONSE_RET: u8 = 0xaa;

/// Driver bytes per 9-bit word.
pub const WORD_SIZE: usize = 2;

/// The scratch read size: enough driver bytes for the longest block.
pub const BUF_SIZE: usize = BLOCK_MAX_LENGTH * WORD_SIZE;

/// Budget for sending our own one-word acknowledgement.
pub const TIMEOUT_SMALL_US: u32 = 10_000;

/// Worst-case microseconds per word on the wire, plus inter-byte slack.
pub const TIMEOUT_CHAR_US: u32 = 1_000_000 * (DATA_BITS + 2) / BAUD + 2000;

/// Budget for the remainder of a reply once its first word has arrived;
/// the factor is `BLOCK_MAX_LENGTH`.
pub const TIMEOUT_RECEIVE_US: u32 = 40 * TIMEOUT_CHAR_US;

/// The default busy-wait granularity, in microseconds.
pub const DEFAULT_WAIT_STEP_US: u32 = 101;

/// A port script keeps the engine's busy-wait arithmetic inside the 32-bit
/// tick: neither the busy polls of a send nor the empty polls before a reply
/// outlast a tick wrap.
pub open spec fn script_fits(g: MockGpio, step: u32) -> bool {
    &&& (g.send_busy_polls + 1) * step <= 0x4000_0000
    &&& (g.rx_empty_polls + 1) * step <= 0x4000_0000
}

/// The MDB master engine.
pub struct GpioMdb {
    /// The port the engine drives; in-memory, so every transaction is
    /// verified against it.
    pub gpio: MockGpio,
    /// The receive pin, fixed at construction.
    pub rx_pin: u16,
    /// The transmit pin, fixed at construction.
    pub tx_pin: u16,
    /// The precomputed one-word ACK waveform.
    pub wave_ack: Wave,
    /// The precomputed one-word NAK waveform.
    pub wave_nak: Wave,
    /// The precomputed one-word RET waveform; reserved, never sent.
    pub wave_ret: Wave,
    /// Busy-wait granularity in microseconds.
    pub wait_step: u32,
    /// Whether the engine has been closed.
    pub closed: bool,
}

/// Registers a one-block serial waveform with the port; the engine uses it
/// for the request block and, at construction, for the acknowledgements.
pub fn mdb_wave_create(gpio: &mut MockGpio, pin: u16, s: &[u8]) -> (w: Wave)
    requires
        old(gpio).waves@.len() < 0xffff_ffff,
    ensures
        w.wid() == old(gpio).waves@.len(),
        final(gpio).waves@.len() == old(gpio).waves@.len() + 1,
        final(gpio).waves@[w.wid() as int].pin == pin,
        final(gpio).waves@[w.wid() as int].words@ == s@,
        final(gpio).waves@[w.wid() as int].live,
        forall|j: int|
            0 <= j < old(gpio).waves@.len() ==> final(gpio).waves@[j] == old(gpio).waves@[j],
        final(gpio).now == old(gpio).now,
        final(gpio).serial_open == old(gpio).serial_open,
        final(gpio).serial_pin == old(gpio).serial_pin,
        final(gpio).serial_baud == old(gpio).serial_baud,
        final(gpio).serial_data_bits == old(gpio).serial_data_bits,
        final(gpio).rx_pending == old(gpio).rx_pending,
        final(gpio).rx_empty_polls == old(gpio).rx_empty_polls,
        final(gpio).send_busy_polls == old(gpio).send_busy_polls,
        final(gpio).busy_polls_left == old(gpio).busy_polls_left,
        final(gpio).sends == old(gpio).sends,
        final(gpio).pin_writes == old(gpio).pin_writes,
        final(gpio).modes == old(gpio).modes,
{
    gpio.wave_create(pin, s)
}

/// Starts a waveform and busy-waits in `wait_step` slices until the port
/// reports it sent, then stops transmission.  If the deadline passes while
/// the port is still busy, the wait is abandoned with a timeout for the
/// given phase; the overrun is then less than one `wait_step`.
pub fn mdb_wave_send_wait(
    gpio: &mut MockGpio,
    w: &Wave,
    deadline: Deadline,
    wait_step: u32,
    phase: TimeoutPhase,
) -> (r: Result<(), MdbError>)
    requires
        w.wid() < old(gpio).waves@.len(),
        old(gpio).waves@[w.wid() as int].live,
        1 <= wait_step <= 1_000_000,
        elapsed(old(gpio).now, deadline.start) + deadline.budget_us + wait_step < 0x1_0000_0000,
        (old(gpio).send_busy_polls + 1) * wait_step <= 0x4000_0000,
    ensures
        ({
            let busy = old(gpio).send_busy_polls as int;
            let s = wait_step as int;
            let e0 = elapsed(old(gpio).now, deadline.start);
            let bud = deadline.budget_us as int;
            &&& final(gpio).sends@ == old(gpio).sends@.push(w.wid())
            &&& final(gpio).rx_pending@ == old(gpio).rx_pending@
            &&& final(gpio).rx_empty_polls == old(gpio).rx_empty_polls
            &&& final(gpio).serial_open == old(gpio).serial_open
            &&& final(gpio).send_busy_polls == old(gpio).send_busy_polls
            &&& final(gpio).waves == old(gpio).waves
            &&& final(gpio).pin_writes == old(gpio).pin_writes
            &&& final(gpio).modes == old(gpio).modes
            &&& if busy == 0 || e0 + busy * s <= bud {
                &&& r == Ok::<(), MdbError>(())
                &&& final(gpio).busy_polls_left == 0
                &&& elapsed(final(gpio).now, deadline.start) == e0 + (busy + 1) * s
            } else {
                &&& r == Err::<(), MdbError>(MdbError::Timeout(phase))
                &&& e0 <= bud ==> elapsed(final(gpio).now, deadline.start) <= bud + s
                &&& elapsed(final(gpio).now, deadline.start) > bud
            }
        }),
{
    proof {
        lemma_first_late(
            elapsed(old(gpio).now, deadline.start),
            wait_step as int,
            deadline.budget_us as int,
        );
    }
    gpio.wave_send(w);
    let ghost g0 = *gpio;
    let ghost busy = gpio.send_busy_polls as int;
    let ghost s = wait_step as int;
    let ghost e0 = elapsed(old(gpio).now, deadline.start);
    let ghost bud = deadline.budget_us as int;
    let ghost mut k: int = 0;
    loop
        invariant_except_break
            0 <= k <= busy,
            k == 0 || e0 + k * s <= bud,
            gpio.busy_polls_left == busy - k,
            elapsed(gpio.now, deadline.start) == e0 + k * s,
        invariant
            1 <= wait_step <= 1_000_000,
            s == wait_step as int,
            e0 == elapsed(g0.now, deadline.start),
            bud == deadline.budget_us as int,
            e0 + bud + s < 0x1_0000_0000,
            busy == g0.send_busy_polls as int,
            (busy + 1) * s <= 0x4000_0000,
            g0.now == old(gpio).now,
            g0.sends@ == old(gpio).sends@.push(w.wid()),
            g0.rx_pending@ == old(gpio).rx_pending@,
            g0.rx_empty_polls == old(gpio).rx_empty_polls,
            g0.serial_open == old(gpio).serial_open,
            g0.send_busy_polls == old(gpio).send_busy_polls,
            g0.waves == old(gpio).waves,
            g0.pin_writes == old(gpio).pin_writes,
            g0.modes == old(gpio).modes,
            gpio.send_busy_polls == g0.send_busy_polls,
            gpio.serial_open == g0.serial_open,
            gpio.rx_pending == g0.rx_pending,
            gpio.rx_empty_polls == g0.rx_empty_polls,
            gpio.waves == g0.waves,
            gpio.sends == g0.sends,
            gpio.pin_writes == g0.pin_writes,
            gpio.modes == g0.modes,
        ensures
            busy == 0 || e0 + busy * s <= bud,
            gpio.busy_polls_left == 0,
            elapsed(gpio.now, deadline.start) == e0 + (busy + 1) * s,
        decreases busy - k,
    {
        proof {
            assert((k + 1) * s == k * s + s) by (nonlinear_arith);
            if k >= 1 {
                lemma_mul_inequality(1, k, s);
            }
            lemma_elapsed_advance(deadline.start, gpio.now, wait_step);
        }
        gpio.delay(wait_step);
        let still_busy = gpio.wave_tx_busy();
        if !still_busy {
            proof {
                assert(k == busy);
            }
            break;
        }
        if deadline.expired(gpio.tick()) {
            proof {
                lemma_mul_inequality(k + 1, busy, s);
            }
            return Err(MdbError::Timeout(phase));
        }
        proof {
            k = k + 1;
        }
    }
    gpio.wave_tx_stop();
    Ok(())
}

/// Busy-waits in `wait_step` slices for the serial reader to deliver bytes,
/// reading up to a full block's worth per attempt.  If the deadline passes
/// before anything arrives, the wait is abandoned with a receive timeout;
/// the overrun is then less than one `wait_step`.
pub fn wait_receive(gpio: &mut MockGpio, deadline: Deadline, wait_step: u32) -> (r: Result<
    Vec<u8>,
    MdbError,
>)
    requires
        old(gpio).serial_open,
        old(gpio).rx_pending@.len() % 2 == 0,
        1 <= wait_step <= 1_000_000,
        elapsed(old(gpio).now, deadline.start) + deadline.budget_us + wait_step < 0x1_0000_0000,
        (old(gpio).rx_empty_polls + 1) * wait_step <= 0x4000_0000,
    ensures
        ({
            let empties = old(gpio).rx_empty_polls as int;
            let s = wait_step as int;
            let e0 = elapsed(old(gpio).now, deadline.start);
            let bud = deadline.budget_us as int;
            let pend = old(gpio).rx_pending@;
            let kl = first_late(e0, s, bud);
            &&& final(gpio).busy_polls_left == old(gpio).busy_polls_left
            &&& final(gpio).same_but_polling(*old(gpio))
            &&& if pend.len() > 0 && empties <= kl {
                let n = if 80 <= pend.len() {
                    80int
                } else {
                    pend.len() as int
                };
                &&& (r matches Ok(b) && b@ == pend.take(n) && b@.len() > 0 && b@.len() % 2 == 0)
                &&& final(gpio).rx_pending@ == pend.skip(n)
                &&& final(gpio).rx_empty_polls == 0
                &&& elapsed(final(gpio).now, deadline.start) == e0 + empties * s
                &&& (empties == 0 || e0 + empties * s <= bud + s)
            } else {
                &&& r == Err::<Vec<u8>, MdbError>(MdbError::Timeout(TimeoutPhase::Receive))
                &&& (pend.len() == 0 || empties >= 1)
                &&& final(gpio).rx_pending@ == old(gpio).rx_pending@
                &&& final(gpio).rx_empty_polls == (if empties <= kl + 1 {
                    0int
                } else {
                    empties - (kl + 1)
                }) as u32
                &&& elapsed(final(gpio).now, deadline.start) == e0 + kl * s
                &&& e0 <= bud ==> e0 + kl * s <= bud + s
                &&& e0 + kl * s > bud
            }
        }),
{
    proof {
        lemma_first_late(
            elapsed(old(gpio).now, deadline.start),
            wait_step as int,
            deadline.budget_us as int,
        );
    }
    let ghost g0 = *gpio;
    let ghost empties = gpio.rx_empty_polls as int;
    let ghost s = wait_step as int;
    let ghost e0 = elapsed(old(gpio).now, deadline.start);
    let ghost bud = deadline.budget_us as int;
    let ghost kl = first_late(e0, s, bud);
    let ghost mut k: int = 0;
    #[verifier::loop_isolation(false)]
    loop
        invariant
            1 <= wait_step <= 1_000_000,
            s == wait_step as int,
            e0 == elapsed(g0.now, deadline.start),
            bud == deadline.budget_us as int,
            kl == first_late(e0, s, bud),
            e0 + bud + s < 0x1_0000_0000,
            empties == g0.rx_empty_polls as int,
            (empties + 1) * s <= 0x4000_0000,
            kl >= 0,
            e0 + kl * s > bud,
            forall|i: int| 0 <= i < kl ==> e0 + #[trigger] (i * s) <= bud,
            0 <= k <= kl,
            k == 0 || e0 + (k - 1) * s <= bud,
            gpio.rx_empty_polls == (if k <= empties {
                empties - k
            } else {
                0int
            }) as u32,
            k > empties ==> g0.rx_pending@.len() == 0,
            gpio.rx_pending@ == g0.rx_pending@,
            g0.rx_pending@.len() % 2 == 0,
            elapsed(gpio.now, deadline.start) == e0 + k * s,
            gpio.busy_polls_left == g0.busy_polls_left,
            gpio.same_but_polling(g0),
            gpio.serial_open,
        decreases gpio.rx_empty_polls, bud + 2 * s - (e0 + k * s),
    {
        let ghost counter_at_read = gpio.rx_empty_polls;
        let batch = gpio.serial_read(BUF_SIZE);
        if batch.len() > 0 {
            proof {
                assert(counter_at_read == 0);
                if k > empties {
                    assert(g0.rx_pending@.len() == 0);
                    assert(batch@.len() == 0);
                }
                assert(k <= empties);
                assert(k == empties);
                if k >= 1 {
                    assert(empties * s == (empties - 1) * s + s) by (nonlinear_arith);
                }
            }
            return Ok(batch);
        }
        if deadline.expired(gpio.tick()) {
            proof {
                assert(e0 + k * s > bud);
                if k < kl {
                    assert(e0 + k * s <= bud);
                }
                assert(k == kl);
                if e0 <= bud {
                    let d = bud - e0;
                    let q = d / s;
                    lemma_fundamental_div_mod(d, s);
                    lemma_mod_bound(d, s);
                    assert((q + 1) * s == q * s + s) by (nonlinear_arith);
                    assert(kl * s <= d + s);
                }
                if g0.rx_pending@.len() > 0 {
                    assert(counter_at_read > 0);
                    assert(k < empties);
                }
            }
            return Err(MdbError::Timeout(TimeoutPhase::Receive));
        }
        proof {
            assert(e0 + k * s <= bud);
            if k + 1 > kl {
                assert(k == kl);
                assert(false);
            }
            assert((k + 1) * s == k * s + s) by (nonlinear_arith);
            lemma_elapsed_advance(deadline.start, gpio.now, wait_step);
        }
        gpio.delay(wait_step);
        proof {
            k = k + 1;
        }
    }
}

/// The two driver bytes of a one-byte acknowledgement block: the byte with
/// its mode bit clear.
fn control_words(byte: u8) -> (r: Vec<u8>)
    ensures
        r@ == seq![byte, 0u8],
{
    let mut v: Vec<u8> = Vec::new();
    v.push(byte);
    v.push(0u8);
    proof {
        assert(v@ =~= seq![byte, 0u8]);
    }
    v
}

impl GpioMdb {
    /// The named waveform is registered, alive, on the transmit pin, and
    /// carries the one-byte block `byte`.
    pub open spec fn wave_is(self, w: Wave, byte: u8) -> bool {
        &&& w.wid() < self.gpio.waves@.len()
        &&& self.gpio.waves@[w.wid() as int].live
        &&& self.gpio.waves@[w.wid() as int].pin == self.tx_pin
        &&& self.gpio.waves@[w.wid() as int].words@ == seq![byte, 0u8]
    }

    /// The engine's well-formedness: until it is closed, its serial reader
    /// is open, its three acknowledgement waveforms are alive and distinct,
    /// its busy-wait step is a sane granularity, and the port's script
    /// delivers whole words.
    pub open spec fn wf(self) -> bool {
        &&& 1 <= self.wait_step <= 1_000_000
        &&& self.closed ==> !self.gpio.serial_open
        &&& !self.closed ==> {
            &&& self.gpio.serial_open
            &&& self.wave_is(self.wave_ack, RESPONSE_ACK)
            &&& self.wave_is(self.wave_nak, RESPONSE_NAK)
            &&& self.wave_is(self.wave_ret, RESPONSE_RET)
            &&& self.wave_ack.wid() != self.wave_nak.wid()
            &&& self.gpio.rx_pending@.len() % 2 == 0
        }
    }

    /// Binds an engine to its two pins: configures their directions, opens
    /// the 9-bit serial reader, stops any residual transmission, and builds
    /// the three acknowledgement waveforms.  A port whose reader is already
    /// open is another owner's; construction fails and leaves no reader
    /// open on its behalf.
    pub fn new(gpio: MockGpio, rx_pin: u16, tx_pin: u16, wait_step: u32) -> (r: Result<
        GpioMdb,
        MdbError,
    >)
        requires
            1 <= wait_step <= 1_000_000,
            gpio.waves@.len() + 3 < 0xffff_ffff,
        ensures
            !gpio.serial_open ==> (r matches Ok(m) && {
                &&& !m.closed
                &&& m.rx_pin == rx_pin
                &&& m.tx_pin == tx_pin
                &&& m.wait_step == wait_step
                &&& m.gpio.now == gpio.now
                &&& m.gpio.rx_pending == gpio.rx_pending
                &&& m.gpio.rx_empty_polls == gpio.rx_empty_polls
                &&& m.gpio.send_busy_polls == gpio.send_busy_polls
                &&& m.gpio.busy_polls_left == 0
                &&& m.gpio.sends == gpio.sends
                &&& m.gpio.pin_writes == gpio.pin_writes
                &&& m.gpio.waves@.len() == gpio.waves@.len() + 3
                &&& m.gpio.serial_pin == rx_pin
                &&& m.gpio.serial_baud == BAUD
                &&& m.gpio.serial_data_bits == DATA_BITS
                &&& m.gpio.modes@ == gpio.modes@.push((rx_pin, 0u32)).push((tx_pin, 1u32))
                &&& gpio.rx_pending@.len() % 2 == 0 ==> m.wf()
            }),
            gpio.serial_open ==> r == Err::<GpioMdb, MdbError>(MdbError::Driver(-1i32)),
    {
        let mut g = gpio;
        g.set_mode(rx_pin, 0);
        g.set_mode(tx_pin, 1);
        match g.serial_read_open(rx_pin, BAUD, DATA_BITS) {
            Err(e) => {
                return Err(e);
            },
            Ok(_) => {},
        }
        g.wave_tx_stop();
        let ack_words = control_words(RESPONSE_ACK);
        let wave_ack = mdb_wave_create(&mut g, tx_pin, ack_words.as_slice());
        let nak_words = control_words(RESPONSE_NAK);
        let wave_nak = mdb_wave_create(&mut g, tx_pin, nak_words.as_slice());
        let ret_words = control_words(RESPONSE_RET);
        let wave_ret = mdb_wave_create(&mut g, tx_pin, ret_words.as_slice());
        Ok(
            GpioMdb {
                gpio: g,
                rx_pin,
                tx_pin,
                wave_ack,
                wave_nak,
                wave_ret,
                wait_step,
                closed: false,
            },
        )
    }

    /// Stops transmission, closes the serial reader, and releases the three
    /// acknowledgement waveforms.  Closing twice is harmless: the second
    /// call reports the driver's refusal of the closed reader and changes
    /// nothing else.
    pub fn close(&mut self) -> (r: Result<(), MdbError>)
        requires
            old(self).wf(),
        ensures
            final(self).closed,
            final(self).wf(),
            r is Ok <==> old(self).gpio.serial_open,
            !old(self).closed ==> r is Ok,
            old(self).closed ==> r == Err::<(), MdbError>(MdbError::Driver(-1i32)),
            !final(self).gpio.serial_open,
            final(self).gpio.busy_polls_left == 0,
            final(self).gpio.now == old(self).gpio.now,
            final(self).gpio.rx_pending == old(self).gpio.rx_pending,
            final(self).gpio.pin_writes == old(self).gpio.pin_writes,
            final(self).gpio.sends == old(self).gpio.sends,
            final(self).rx_pin == old(self).rx_pin,
            final(self).tx_pin == old(self).tx_pin,
            final(self).wait_step == old(self).wait_step,
            final(self).wave_ack == old(self).wave_ack,
            final(self).wave_nak == old(self).wave_nak,
            final(self).wave_ret == old(self).wave_ret,
            old(self).closed ==> final(self).gpio.waves == old(self).gpio.waves,
            !old(self).closed ==> {
                let waves0 = old(self).gpio.waves@;
                &&& final(self).gpio.waves@.len() == waves0.len()
                &&& !final(self).gpio.waves@[old(self).wave_ack.wid() as int].live
                &&& !final(self).gpio.waves@[old(self).wave_nak.wid() as int].live
                &&& !final(self).gpio.waves@[old(self).wave_ret.wid() as int].live
                &&& forall|j: int|
                    0 <= j < waves0.len() ==> final(self).gpio.waves@[j].pin == waves0[j].pin
                        && final(self).gpio.waves@[j].words@ == waves0[j].words@
                &&& forall|j: int|
                    0 <= j < waves0.len() && j != old(self).wave_ack.wid() && j != old(self).wave_nak.wid()
                        && j != old(self).wave_ret.wid() ==> final(self).gpio.waves@[j]
                        == waves0[j]
            },
    {
        self.gpio.wave_tx_stop();
        let r = self.gpio.serial_read_close(self.rx_pin);
        if !self.closed {
            self.gpio.wave_delete(self.wave_ack);
            self.gpio.wave_delete(self.wave_nak);
            self.gpio.wave_delete(self.wave_ret);
        }
        self.closed = true;
        match r {
            Ok(_) => Ok(()),
            Err(e) => Err(e),
        }
    }

    /// Drives the transmit pin high for the given number of milliseconds,
    /// then low, on the caller's clock: the value is not stretched to the
    /// bus's mandated minimum.  A duration that does not fit the 32-bit
    /// microsecond tick is refused untouched.
    pub fn bus_reset(&mut self, duration_ms: u32) -> (r: Result<(), MdbError>)
        requires
            old(self).wf(),
            !old(self).closed,
        ensures
            final(self).wf(),
            !final(self).closed,
            duration_ms * 1000 < u32::MAX ==> {
                let us = (duration_ms * 1000) as u32;
                &&& r == Ok::<(), MdbError>(())
                &&& final(self).gpio.pin_writes@ == old(self).gpio.pin_writes@.push(
                    PinWrite { pin: old(self).tx_pin, level: 1, at: old(self).gpio.now },
                ).push(
                    PinWrite {
                        pin: old(self).tx_pin,
                        level: 0,
                        at: old(self).gpio.now.wrapping_add(us),
                    },
                )
                &&& final(self).gpio.now == old(self).gpio.now.wrapping_add(us)
            },
            duration_ms * 1000 >= u32::MAX ==> r == Err::<(), MdbError>(MdbError::DurationOverflow)
                && final(self).gpio == old(self).gpio,
            final(self).gpio.rx_pending == old(self).gpio.rx_pending,
            final(self).gpio.rx_empty_polls == old(self).gpio.rx_empty_polls,
            final(self).gpio.send_busy_polls == old(self).gpio.send_busy_polls,
            final(self).gpio.sends == old(self).gpio.sends,
            final(self).gpio.waves == old(self).gpio.waves,
            final(self).rx_pin == old(self).rx_pin,
            final(self).tx_pin == old(self).tx_pin,
            final(self).wait_step == old(self).wait_step,
    {
        proof {
            lemma_fundamental_div_mod(duration_ms as int, 1000);
        }
        let duration_us: u32 = match duration_as_micros32(
            (duration_ms / 1000) as u64,
            (duration_ms % 1000) * 1000,
        ) {
            Ok(us) => us,
            Err(e) => {
                return Err(e);
            },
        };
        self.gpio.write_pin(self.tx_pin, 1);
        self.gpio.delay(duration_us);
        self.gpio.write_pin(self.tx_pin, 0);
        Ok(())
    }

    /// One MDB transaction.  The request block is framed with its mode bits
    /// and checksum, registered as a waveform and transmitted; the
    /// peripheral's reply is collected word by word until its terminator;
    /// and the reply is answered with ACK, or with NAK on a checksum
    /// mismatch.  On success `response` holds exactly the reply's data
    /// bytes; on any failure the transaction's waveform has still been
    /// released and the acknowledgement waveforms survive.
    #[verifier::rlimit(100)]
    pub fn tx(&mut self, request: &[u8], response: &mut Vec<u8>, timeout_us: u32) -> (r: Result<
        (),
        MdbError,
    >)
        requires
            old(self).wf(),
            !old(self).closed,
            1 <= request@.len() < 40,
            old(response)@.len() == 0,
            timeout_us < 1_000_000,
            old(self).gpio.waves@.len() + 1 < 0xffff_ffff,
            script_fits(old(self).gpio, old(self).wait_step),
        ensures
            final(self).wf(),
            !final(self).closed,
            final(self).rx_pin == old(self).rx_pin,
            final(self).tx_pin == old(self).tx_pin,
            final(self).wait_step == old(self).wait_step,
            final(self).wave_ack == old(self).wave_ack,
            final(self).wave_nak == old(self).wave_nak,
            final(self).wave_ret == old(self).wave_ret,
            final(self).gpio.serial_open,
            final(self).gpio.send_busy_polls == old(self).gpio.send_busy_polls,
            final(self).gpio.pin_writes == old(self).gpio.pin_writes,
            final(self).gpio.modes == old(self).gpio.modes,
            final(self).gpio.rx_pending@.len() % 2 == 0,
            final(self).gpio.rx_empty_polls <= old(self).gpio.rx_empty_polls,
            ({
                let s = old(self).wait_step as int;
                let len = request@.len() as int;
                let total = elapsed(final(self).gpio.now, old(self).gpio.now);
                &&& total <= TIMEOUT_CHAR_US * len + timeout_us + TIMEOUT_RECEIVE_US
                    + TIMEOUT_SMALL_US + 4 * s
                &&& r == Err::<(), MdbError>(MdbError::Timeout(TimeoutPhase::SendRequest))
                    ==> total <= TIMEOUT_CHAR_US * len + s
                &&& (r == Err::<(), MdbError>(MdbError::Timeout(TimeoutPhase::Receive)) && final(response)@.len()
                    == 0) ==> total <= TIMEOUT_CHAR_US * len + timeout_us + 2 * s
            }),
            ({
                let wid = old(self).gpio.waves@.len() as int;
                &&& final(self).gpio.waves@.len() == wid + 1
                &&& final(self).gpio.waves@[wid].pin == old(self).tx_pin
                &&& final(self).gpio.waves@[wid].words@ == wire_words(request@)
                &&& !final(self).gpio.waves@[wid].live
                &&& forall|j: int|
                    0 <= j < wid ==> final(self).gpio.waves@[j] == old(self).gpio.waves@[j]
            }),
            ({
                let pend = old(self).gpio.rx_pending@;
                let d = scan_data(pend);
                let t = scan_term(pend);
                let busy = old(self).gpio.send_busy_polls as int;
                let empties = old(self).gpio.rx_empty_polls as int;
                let s = old(self).wait_step as int;
                let wid = old(self).gpio.waves@.len() as u32;
                let sends0 = old(self).gpio.sends@;
                match r {
                    Ok(()) => if d.len() == 0 {
                        &&& t == Some(RESPONSE_ACK)
                        &&& final(response)@ == Seq::<u8>::empty()
                        &&& final(self).gpio.sends@ == sends0.push(wid)
                    } else {
                        &&& 1 <= d.len() <= 39
                        &&& t == Some(checksum_spec(d))
                        &&& final(response)@ == d
                        &&& final(self).gpio.sends@ == sends0.push(wid).push(
                            old(self).wave_ack.wid(),
                        )
                    },
                    Err(MdbError::MdbNak) => {
                        &&& d.len() == 0
                        &&& t == Some(RESPONSE_NAK)
                        &&& final(response)@ == Seq::<u8>::empty()
                        &&& final(self).gpio.sends@ == sends0.push(wid)
                    },
                    Err(MdbError::MdbInvalidResponse(b)) => {
                        &&& final(self).gpio.sends@ == sends0.push(wid)
                        &&& ((d.len() == 0 && t == Some(b) && b != RESPONSE_ACK && b
                            != RESPONSE_NAK && final(response)@ == Seq::<u8>::empty()) || (d.len()
                            > 39 && b == d[39]))
                    },
                    Err(MdbError::MdbChecksum(computed, received, bytes)) => {
                        &&& 1 <= d.len() <= 39
                        &&& t == Some(received)
                        &&& computed == checksum_spec(d)
                        &&& received != computed
                        &&& bytes@ == d
                        &&& final(response)@ == d
                        &&& final(self).gpio.sends@ == sends0.push(wid).push(
                            old(self).wave_nak.wid(),
                        )
                    },
                    Err(MdbError::Timeout(phase)) => match phase {
                        TimeoutPhase::SendRequest => {
                            &&& busy >= 1
                            &&& busy * s > TIMEOUT_CHAR_US * request@.len()
                            &&& final(response)@ == Seq::<u8>::empty()
                            &&& final(self).gpio.sends@ == sends0.push(wid)
                        },
                        TimeoutPhase::Receive => {
                            &&& empties >= 1 || t is None
                            &&& final(response)@.len() <= 39
                            &&& final(self).gpio.sends@ == sends0.push(wid)
                        },
                        TimeoutPhase::SendAck => {
                            &&& busy >= 1
                            &&& 1 <= d.len() <= 39
                            &&& t == Some(checksum_spec(d))
                            &&& final(response)@ == d
                            &&& final(self).gpio.sends@ == sends0.push(wid).push(
                                old(self).wave_ack.wid(),
                            )
                        },
                        TimeoutPhase::SendNak => {
                            &&& busy >= 1
                            &&& 1 <= d.len() <= 39
                            &&& (t matches Some(b) && b != checksum_spec(d))
                            &&& final(response)@ == d
                            &&& final(self).gpio.sends@ == sends0.push(wid).push(
                                old(self).wave_nak.wid(),
                            )
                        },
                    },
                    Err(_) => false,
                }
            }),
    {
        let ghost pend = old(self).gpio.rx_pending@;
        let ghost sends0 = old(self).gpio.sends@;
        let ghost waves0 = old(self).gpio.waves@;
        let wire = encode_request(request);
        let wave = mdb_wave_create(&mut self.gpio, self.tx_pin, wire.as_slice());
        let timeout_small_us = if timeout_us < TIMEOUT_SMALL_US {
            timeout_us
        } else {
            TIMEOUT_SMALL_US
        };
        let io_start = self.gpio.tick();
        proof {
            assert(TIMEOUT_CHAR_US == 3145);
        }
        let send_budget: u32 = TIMEOUT_CHAR_US * (request.len() as u32);
        let send_deadline = Deadline { start: io_start, budget_us: send_budget };
        match mdb_wave_send_wait(
            &mut self.gpio,
            &wave,
            send_deadline,
            self.wait_step,
            TimeoutPhase::SendRequest,
        ) {
            Ok(()) => {},
            Err(e) => {
                self.gpio.wave_delete(wave);
                return Err(e);
            },
        }
        let ghost s_g = self.wait_step as int;
        let ghost busy_g = old(self).gpio.send_busy_polls as int;
        proof {
            assert((busy_g + 1) * s_g == busy_g * s_g + s_g) by (nonlinear_arith);
            if busy_g == 0 {
                assert(busy_g * s_g == 0) by (nonlinear_arith)
                    requires busy_g == 0;
            }
            assert(elapsed(io_start, io_start) == 0);
            assert(busy_g == 0 || busy_g * s_g <= send_budget);
            assert(elapsed(self.gpio.now, io_start) == (busy_g + 1) * s_g);
            assert(elapsed(self.gpio.now, io_start) <= send_budget + s_g);
        }
        let ghost el1 = elapsed(self.gpio.now, io_start);
        let recv_wait_deadline = Deadline { start: io_start, budget_us: timeout_us };
        let mut batch = match wait_receive(&mut self.gpio, recv_wait_deadline, self.wait_step) {
            Ok(b) => b,
            Err(e) => {
                proof {
                    if el1 > timeout_us {
                        assert(first_late(el1, s_g, timeout_us as int) == 0);
                    }
                }
                self.gpio.wave_delete(wave);
                return Err(e);
            },
        };
        proof {
            if el1 > timeout_us {
                assert(old(self).gpio.rx_empty_polls == 0 || first_late(
                    el1,
                    s_g,
                    timeout_us as int,
                ) == 0);
            }
            assert(elapsed(self.gpio.now, io_start) <= send_budget + timeout_us + 2 * s_g);
        }
        let ghost el2 = elapsed(self.gpio.now, io_start);
        let now_after_first = self.gpio.tick();
        let recv_deadline = Deadline { start: now_after_first, budget_us: TIMEOUT_RECEIVE_US };
        let mut end_byte: u8 = 0;
        let mut fail: Option<MdbError> = None;
        let ghost mut cb: int = 0;
        proof {
            cb = pend.len() - self.gpio.rx_pending@.len() - batch@.len();
            assert(cb == 0);
            assert(pend.take(0) =~= Seq::<u8>::empty());
            assert(batch@ =~= pend.subrange(cb, cb + batch@.len()));
        }
        loop
            invariant_except_break
                0 <= cb,
                cb % 2 == 0,
                cb + batch@.len() <= pend.len(),
                batch@.len() % 2 == 0,
                batch@.len() >= 2,
                batch@ == pend.subrange(cb, cb + batch@.len()),
                self.gpio.rx_pending@ == pend.skip(cb + batch@.len()),
                response@ == scan_data(pend.take(cb)),
                scan_term(pend.take(cb)) is None,
                response@.len() <= 39,
                fail is None,
                elapsed(self.gpio.now, recv_deadline.start) == 0,
            invariant
                old(self).wf(),
                !old(self).closed,
                1 <= request@.len() < 40,
                old(response)@.len() == 0,
                timeout_us < 1_000_000,
                script_fits(old(self).gpio, old(self).wait_step),
                pend == old(self).gpio.rx_pending@,
                pend.len() % 2 == 0,
                sends0 == old(self).gpio.sends@,
                waves0 == old(self).gpio.waves@,
                waves0.len() + 1 < 0xffff_ffff,
                wave.wid() == waves0.len(),
                self.rx_pin == old(self).rx_pin,
                self.tx_pin == old(self).tx_pin,
                self.wait_step == old(self).wait_step,
                self.wave_ack == old(self).wave_ack,
                self.wave_nak == old(self).wave_nak,
                self.wave_ret == old(self).wave_ret,
                self.closed == old(self).closed,
                self.gpio.serial_open,
                self.gpio.send_busy_polls == old(self).gpio.send_busy_polls,
                self.gpio.rx_empty_polls == 0,
                self.gpio.pin_writes == old(self).gpio.pin_writes,
                self.gpio.modes == old(self).gpio.modes,
                self.gpio.waves@.len() == waves0.len() + 1,
                self.gpio.waves@[waves0.len() as int].pin == old(self).tx_pin,
                self.gpio.waves@[waves0.len() as int].words@ == wire_words(request@),
                self.gpio.waves@[waves0.len() as int].live,
                forall|j: int| 0 <= j < waves0.len() ==> self.gpio.waves@[j] == waves0[j],
                self.gpio.sends@ == sends0.push(wave.wid()),
                recv_deadline.budget_us == TIMEOUT_RECEIVE_US,
                io_start == old(self).gpio.now,
                el2 == elapsed(recv_deadline.start, io_start),
                0 <= el2 <= TIMEOUT_CHAR_US * request@.len() + timeout_us + 2 * (
                old(self).wait_step as int),
            ensures
                self.gpio.rx_pending@.len() % 2 == 0,
                self.gpio.serial_open,
                self.gpio.send_busy_polls == old(self).gpio.send_busy_polls,
                self.gpio.pin_writes == old(self).gpio.pin_writes,
                self.gpio.modes == old(self).gpio.modes,
                self.gpio.waves@.len() == waves0.len() + 1,
                self.gpio.waves@[waves0.len() as int].pin == old(self).tx_pin,
                self.gpio.waves@[waves0.len() as int].words@ == wire_words(request@),
                self.gpio.waves@[waves0.len() as int].live,
                forall|j: int| 0 <= j < waves0.len() ==> self.gpio.waves@[j] == waves0[j],
                self.gpio.sends@ == sends0.push(wave.wid()),
                self.rx_pin == old(self).rx_pin,
                self.tx_pin == old(self).tx_pin,
                self.wait_step == old(self).wait_step,
                self.wave_ack == old(self).wave_ack,
                self.wave_nak == old(self).wave_nak,
                self.wave_ret == old(self).wave_ret,
                self.closed == old(self).closed,
                response@.len() <= 39,
                elapsed(self.gpio.now, recv_deadline.start) <= TIMEOUT_RECEIVE_US + (
                old(self).wait_step as int),
                !(fail matches Some(MdbError::Timeout(_))) ==> elapsed(
                    self.gpio.now,
                    recv_deadline.start,
                ) == 0,
                (fail matches Some(MdbError::Timeout(_))) ==> response@.len() >= 1,
                match fail {
                    None => {
                        &&& scan_term(pend) == Some(end_byte)
                        &&& response@ == scan_data(pend)
                        &&& scan_data(pend).len() <= 39
                    },
                    Some(MdbError::MdbInvalidResponse(b)) => scan_data(pend).len() > 39 && b
                        == scan_data(pend)[39],
                    Some(MdbError::Timeout(TimeoutPhase::Receive)) => scan_term(pend) is None
                        && response@ == scan_data(pend),
                    Some(_) => false,
                },
            decreases self.gpio.rx_pending@.len(),
        {
            let ghost resp_before = response@;
            let outcome = scan_words(batch.as_slice(), response);
            proof {
                lemma_scan_append(pend.take(cb), batch@);
                assert(pend.take(cb) + batch@ =~= pend.take(cb + batch@.len()));
            }
            match outcome {
                ScanOutcome::Terminator(b) => {
                    proof {
                        lemma_scan_append_term(pend.take(cb + batch@.len()), pend.skip(
                            cb + batch@.len(),
                        ));
                        assert(pend.take(cb + batch@.len()) + pend.skip(cb + batch@.len())
                            =~= pend);
                    }
                    end_byte = b;
                    break;
                },
                ScanOutcome::Overflow(b) => {
                    proof {
                        let ce = cb + batch@.len();
                        let dfull = scan_data(pend.take(cb)) + scan_data(batch@);
                        assert(scan_data(pend.take(ce)) == dfull);
                        assert(dfull[39] == scan_data(batch@)[39 - resp_before.len()]);
                        if scan_term(pend.take(ce)) is Some {
                            lemma_scan_append_term(pend.take(ce), pend.skip(ce));
                        } else {
                            lemma_scan_append(pend.take(ce), pend.skip(ce));
                        }
                        assert(pend.take(ce) + pend.skip(ce) =~= pend);
                        assert(scan_data(pend)[39] == dfull[39]);
                    }
                    fail = Some(MdbError::MdbInvalidResponse(b));
                    break;
                },
                ScanOutcome::NeedMore => {},
            }
            proof {
                cb = cb + batch@.len();
            }
            batch = match wait_receive(&mut self.gpio, recv_deadline, self.wait_step) {
                Ok(b) => b,
                Err(e) => {
                    proof {
                        assert(pend.skip(cb).len() == 0);
                        lemma_scan_append(pend.take(cb), pend.skip(cb));
                        assert(pend.take(cb) + pend.skip(cb) =~= pend);
                        assert(scan_data(pend) == response@);
                        assert(scan_term(pend) is None);
                        assert(pend.len() >= 2);
                        assert(pend[1] != 1);
                        assert(scan_data(pend).len() >= 1);
                    }
                    fail = Some(e);
                    break;
                },
            };
            proof {
                assert(batch@ =~= pend.subrange(cb, cb + batch@.len()));
            }
        }
        if let Some(e) = fail {
            proof {
                lemma_elapsed_trans(io_start, recv_deadline.start, self.gpio.now);
            }
            self.gpio.wave_delete(wave);
            return Err(e);
        }
        proof {
            lemma_elapsed_trans(io_start, recv_deadline.start, self.gpio.now);
        }
        if response.len() == 0 {
            self.gpio.wave_delete(wave);
            if end_byte == RESPONSE_ACK {
                return Ok(());
            }
            if end_byte == RESPONSE_NAK {
                return Err(MdbError::MdbNak);
            }
            return Err(MdbError::MdbInvalidResponse(end_byte));
        }
        let now_checked = self.gpio.tick();
        let ghost el3 = elapsed(now_checked, io_start);
        let small_deadline = Deadline { start: now_checked, budget_us: timeout_small_us };
        let computed = checksum(response.as_slice());
        if end_byte != computed {
            match mdb_wave_send_wait(
                &mut self.gpio,
                &self.wave_nak,
                small_deadline,
                self.wait_step,
                TimeoutPhase::SendNak,
            ) {
                Ok(()) => {
                    proof {
                        assert((busy_g + 1) * s_g == busy_g * s_g + s_g) by (nonlinear_arith);
                        lemma_elapsed_trans(io_start, now_checked, self.gpio.now);
                    }
                    let resp_copy = slice_to_vec(response.as_slice());
                    self.gpio.wave_delete(wave);
                    return Err(MdbError::MdbChecksum(computed, end_byte, resp_copy));
                },
                Err(e) => {
                    proof {
                        lemma_elapsed_trans(io_start, now_checked, self.gpio.now);
                    }
                    self.gpio.wave_delete(wave);
                    return Err(e);
                },
            }
        } else {
            match mdb_wave_send_wait(
                &mut self.gpio,
                &self.wave_ack,
                small_deadline,
                self.wait_step,
                TimeoutPhase::SendAck,
            ) {
                Ok(()) => {
                    proof {
                        assert((busy_g + 1) * s_g == busy_g * s_g + s_g) by (nonlinear_arith);
                        lemma_elapsed_trans(io_start, now_checked, self.gpio.now);
                    }
                    self.gpio.wave_delete(wave);
                    return Ok(());
                },
                Err(e) => {
                    proof {
                        lemma_elapsed_trans(io_start, now_checked, self.gpio.now);
                    }
                    self.gpio.wave_delete(wave);
                    return Err(e);
                },
            }
        }
    }
}

} // verus!
