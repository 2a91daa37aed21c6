use iodin::checksum::checksum;
use iodin::proto::Command;
use iodin::proto::Request;
use iodin::proto::decode_request;
use iodin::proto::encode_frame;
use iodin::proto::encode_request_payload;
use iodin::wire::encode_request;

#[test]
fn checksum_is_sum_mod_256() {
    assert_eq!(checksum(&[]), 0);
    assert_eq!(checksum(&[0x08, 0x01]), 0x09);
    assert_eq!(checksum(&[1, 2, 3]), 6);
    assert_eq!(checksum(&[0xff, 0xff, 0x03]), 0x01);
    assert_eq!(checksum(&[200, 100]), (200u32 + 100) as u8);
}

#[test]
fn checksum_concat_adds() {
    let a = [0x10u8, 0x85, 0x9a];
    let b = [0x77u8, 0xe0];
    let mut joined = Vec::new();
    joined.extend_from_slice(&a);
    joined.extend_from_slice(&b);
    let expect = ((checksum(&a) as u32 + checksum(&b) as u32) % 256) as u8;
    assert_eq!(checksum(&joined), expect);
    assert_eq!(checksum(&a), checksum(&[&a[..], &[][..]].concat()));
}

#[test]
fn wire_encoding_sets_mode_bits_and_checksum() {
    assert_eq!(encode_request(&[0x08, 0x01]), vec![0x08, 0x01, 0x01, 0x00, 0x09, 0x00]);
    assert_eq!(encode_request(&[0x30]), vec![0x30, 0x01, 0x30, 0x00]);
    let wire = encode_request(&[0x10, 0x20, 0x30]);
    assert_eq!(wire, vec![0x10, 0x01, 0x20, 0x00, 0x30, 0x00, 0x60, 0x00]);
}

#[test]
fn request_round_trip_preserves_fields() {
    let r = Request { command: Command::MDB_TX, arg_bytes: vec![1, 2, 3], arg_uint: 77 };
    let bytes = encode_request_payload(&r);
    let back = decode_request(&bytes).expect("payload decodes");
    assert_eq!(back.command, Command::MDB_TX);
    assert_eq!(back.arg_bytes, vec![1, 2, 3]);
    assert_eq!(back.arg_uint, 77);
}

#[test]
fn request_round_trip_every_command() {
    for (cmd, arg_uint) in [
        (Command::INVALID, 0u32),
        (Command::MDB_OPEN, 1),
        (Command::MDB_RESET, 0xffff_ffff),
        (Command::MDB_TX, 300),
        (Command::STOP, 0x0102_0304),
    ] {
        let r = Request { command: cmd, arg_bytes: vec![0xaa, 0x55], arg_uint };
        let back = decode_request(&encode_request_payload(&r)).expect("payload decodes");
        assert_eq!(back.command, cmd);
        assert_eq!(back.arg_bytes, vec![0xaa, 0x55]);
        assert_eq!(back.arg_uint, arg_uint);
    }
}

#[test]
fn short_payload_is_refused() {
    assert!(decode_request(&[]).is_none());
    assert!(decode_request(&[4, 0, 0, 0]).is_none());
}

#[test]
fn frame_is_length_prefixed_little_endian() {
    let payload = vec![9u8, 8, 7];
    let frame = encode_frame(&payload);
    assert_eq!(frame, vec![3, 0, 0, 0, 9, 8, 7]);
}
