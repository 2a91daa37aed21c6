use iodin::error::MdbError;
use iodin::error::TimeoutPhase;
use iodin::gpio::MockGpio;
use iodin::mdb::BLOCK_MAX_LENGTH;
use iodin::mdb::GpioMdb;

fn open_engine() -> GpioMdb {
    GpioMdb::new(MockGpio::new(), 15, 14, 101).expect("fresh port opens")
}

#[test]
fn tx_success_with_data_sends_ack() {
    let mut m = open_engine();
    // peripheral reply: data bytes 0x30 0x01, then their checksum with the
    // mode bit set
    m.gpio.rx_pending = vec![0x30, 0x00, 0x01, 0x00, 0x31, 0x01];
    let mut response = Vec::with_capacity(BLOCK_MAX_LENGTH);
    let r = m.tx(&[0x08, 0x01], &mut response, 300_000);
    assert!(r.is_ok());
    assert_eq!(response, vec![0x30, 0x01]);
    // the request waveform went out first, then the ACK waveform
    assert_eq!(m.gpio.sends.len(), 2);
    assert_eq!(m.gpio.sends[1], m.wave_ack.id());
    let request_wave = &m.gpio.waves[m.gpio.sends[0] as usize];
    assert_eq!(request_wave.words, vec![0x08, 0x01, 0x01, 0x00, 0x09, 0x00]);
    assert!(!request_wave.live);
}

#[test]
fn tx_empty_reply_ack_is_success_without_data() {
    let mut m = open_engine();
    m.gpio.rx_pending = vec![0x00, 0x01];
    let mut response = Vec::with_capacity(BLOCK_MAX_LENGTH);
    let r = m.tx(&[0x30], &mut response, 300_000);
    assert!(r.is_ok());
    assert!(response.is_empty());
    // an empty ACK reply is not acknowledged back
    assert_eq!(m.gpio.sends.len(), 1);
}

#[test]
fn tx_nak_reply_is_reported_and_nothing_more_sent() {
    let mut m = open_engine();
    m.gpio.rx_pending = vec![0xff, 0x01];
    let mut response = Vec::with_capacity(BLOCK_MAX_LENGTH);
    let r = m.tx(&[0x30, 0x01], &mut response, 300_000);
    assert_eq!(r, Err(MdbError::MdbNak));
    assert!(response.is_empty());
    assert_eq!(m.gpio.sends.len(), 1);
}

#[test]
fn tx_unknown_terminator_is_invalid_response() {
    let mut m = open_engine();
    m.gpio.rx_pending = vec![0x55, 0x01];
    let mut response = Vec::with_capacity(BLOCK_MAX_LENGTH);
    let r = m.tx(&[0x30], &mut response, 300_000);
    assert_eq!(r, Err(MdbError::MdbInvalidResponse(0x55)));
}

#[test]
fn tx_checksum_mismatch_sends_nak() {
    let mut m = open_engine();
    // data byte 0x30, but the terminator claims checksum 0x99
    m.gpio.rx_pending = vec![0x30, 0x00, 0x99, 0x01];
    let mut response = Vec::with_capacity(BLOCK_MAX_LENGTH);
    let r = m.tx(&[0x30], &mut response, 300_000);
    assert_eq!(r, Err(MdbError::MdbChecksum(0x30, 0x99, vec![0x30])));
    assert_eq!(m.gpio.sends.len(), 2);
    assert_eq!(m.gpio.sends[1], m.wave_nak.id());
}

#[test]
fn tx_with_nothing_scripted_times_out() {
    let mut m = open_engine();
    let mut response = Vec::with_capacity(BLOCK_MAX_LENGTH);
    let r = m.tx(&[0x30], &mut response, 1_000);
    assert_eq!(r, Err(MdbError::Timeout(TimeoutPhase::Receive)));
    // one send delay step plus nine poll steps crossed the 1000 us budget:
    // the overrun stays under one wait step
    assert_eq!(m.gpio.now, 1010);
}

#[test]
fn tx_reply_that_stalls_mid_block_times_out_with_partial_data() {
    let mut m = open_engine();
    // one data word arrives, then the peripheral goes quiet: no terminator
    m.gpio.rx_pending = vec![0x30, 0x00];
    let mut response = Vec::with_capacity(BLOCK_MAX_LENGTH);
    let r = m.tx(&[0x30], &mut response, 10_000);
    assert_eq!(r, Err(MdbError::Timeout(TimeoutPhase::Receive)));
    assert_eq!(response, vec![0x30]);
}

#[test]
fn tx_send_timeout_when_port_stays_busy() {
    let mut m = open_engine();
    m.gpio.send_busy_polls = 10_000;
    let mut response = Vec::with_capacity(BLOCK_MAX_LENGTH);
    let r = m.tx(&[0x30, 0x01], &mut response, 300_000);
    assert_eq!(r, Err(MdbError::Timeout(TimeoutPhase::SendRequest)));
}

#[test]
fn tx_ack_timeout_when_port_stays_busy_for_the_reply() {
    let mut m = open_engine();
    // 100 busy polls fit the long send budget of a 39-byte block but not
    // the 10 ms acknowledgement budget
    m.gpio.send_busy_polls = 100;
    m.gpio.rx_pending = vec![0x05, 0x00, 0x05, 0x01];
    let request = [1u8; 39];
    let mut response = Vec::with_capacity(BLOCK_MAX_LENGTH);
    let r = m.tx(&request, &mut response, 300_000);
    assert_eq!(r, Err(MdbError::Timeout(TimeoutPhase::SendAck)));
}

#[test]
fn tx_overlong_reply_is_invalid_response() {
    let mut m = open_engine();
    // forty data words with no terminator in sight
    let mut script = Vec::new();
    for i in 0..40u8 {
        script.push(i);
        script.push(0x00);
    }
    m.gpio.rx_pending = script;
    let mut response = Vec::with_capacity(BLOCK_MAX_LENGTH);
    let r = m.tx(&[0x30], &mut response, 300_000);
    assert_eq!(r, Err(MdbError::MdbInvalidResponse(39)));
}

#[test]
fn bus_reset_drives_high_then_low_for_the_duration() {
    let mut m = open_engine();
    let r = m.bus_reset(150);
    assert!(r.is_ok());
    let writes = &m.gpio.pin_writes;
    assert_eq!(writes.len(), 2);
    assert_eq!((writes[0].pin, writes[0].level), (14, 1));
    assert_eq!((writes[1].pin, writes[1].level), (14, 0));
    assert_eq!(writes[1].at.wrapping_sub(writes[0].at), 150_000);
}

#[test]
fn bus_reset_refuses_duration_past_the_tick() {
    let mut m = open_engine();
    let r = m.bus_reset(0xffff_ffff);
    assert_eq!(r, Err(MdbError::DurationOverflow));
    assert!(m.gpio.pin_writes.is_empty());
}

#[test]
fn close_is_idempotent() {
    let mut m = open_engine();
    assert!(m.close().is_ok());
    // the second close reports the driver's refusal and changes nothing
    let again = m.close();
    assert_eq!(again, Err(MdbError::Driver(-1)));
    assert!(!m.gpio.serial_open);
}

#[test]
fn close_releases_the_acknowledgement_waveforms() {
    let mut m = open_engine();
    let (ack, nak, ret) = (m.wave_ack.id() as usize, m.wave_nak.id() as usize, m.wave_ret.id()
        as usize);
    assert!(m.gpio.waves[ack].live && m.gpio.waves[nak].live && m.gpio.waves[ret].live);
    assert!(m.close().is_ok());
    assert!(!m.gpio.waves[ack].live && !m.gpio.waves[nak].live && !m.gpio.waves[ret].live);
    // the words are kept, so what the waveforms held can still be read
    assert_eq!(m.gpio.waves[nak].words, vec![0xff, 0x00]);
}

#[test]
fn open_on_a_busy_port_fails() {
    let mut port = MockGpio::new();
    port.serial_open = true;
    let r = GpioMdb::new(port, 15, 14, 101);
    assert!(matches!(r, Err(MdbError::Driver(-1))));
}
