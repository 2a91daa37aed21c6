use iodin::error::MdbError;
use iodin::proto::Command;
use iodin::proto::Request;
use iodin::proto::Response;
use iodin::proto::encode_frame;
use iodin::proto::encode_request_payload;
use iodin::server::Server;
use iodin::server::ServerError;

fn frame_of(request: &Request) -> Vec<u8> {
    encode_frame(&encode_request_payload(request))
}

#[test]
fn server_exec_zero_invalid_command() {
    let mut s = Server::new(true).unwrap();
    let req = Request::new();
    let mut resp = Response::new();
    let r = s.exec(&req, &mut resp);
    assert!(r.is_err());
    assert_eq!(String::from_utf8(resp.error.clone()).unwrap(), "invalid command");
}

#[test]
fn server_run_eof() {
    let rv: Vec<u8> = Vec::new();
    let mut wv: Vec<u8> = Vec::new();
    let mut s = Server::new(true).unwrap();
    let r = s.run(&rv, &mut wv);
    assert!(r.is_err());
    let err = r.err().unwrap();
    assert!(matches!(err, ServerError::UnexpectedEof));
}

#[test]
fn server_run_stop_clean() {
    let mut request = Request::new();
    request.command = Command::STOP;
    let rv = frame_of(&request);
    let mut wv: Vec<u8> = Vec::new();
    let mut s = Server::new(true).unwrap();
    let r = s.run(&rv, &mut wv);
    assert!(r.is_ok());
    // exactly one framed response, carrying the OK status code
    assert_eq!(&wv[0..4], &[5, 0, 0, 0]);
    assert_eq!(wv[4], 1);
    assert_eq!(wv.len(), 9);
}

#[test]
fn server_run_torn_frame_is_unexpected_eof() {
    // a header claiming six payload bytes, but only two follow
    let rv = vec![6u8, 0, 0, 0, 4, 0];
    let mut wv: Vec<u8> = Vec::new();
    let mut s = Server::new(true).unwrap();
    let r = s.run(&rv, &mut wv);
    assert!(matches!(r, Err(ServerError::UnexpectedEof)));
    assert!(wv.is_empty());
}

#[test]
fn open_with_bad_arg_is_an_input_error() {
    let mut s = Server::new(true).unwrap();
    let mut req = Request::new();
    req.command = Command::MDB_OPEN;
    req.arg_bytes = vec![7];
    let mut resp = Response::new();
    let r = s.exec(&req, &mut resp);
    assert_eq!(r, Err(ServerError::InvalidArgBytes));
    assert_eq!(String::from_utf8(resp.error.clone()).unwrap(), "invalid arg_bytes");
}

#[test]
fn mock_tx_echoes_its_argument() {
    let mut s = Server::new(true).unwrap();
    let mut open = Request::new();
    open.command = Command::MDB_OPEN;
    open.arg_bytes = vec![15, 14];
    let mut open_resp = Response::new();
    assert!(s.exec(&open, &mut open_resp).is_ok());

    let mut tx = Request::new();
    tx.command = Command::MDB_TX;
    tx.arg_bytes = vec![0x30, 0x01];
    let mut tx_resp = Response::new();
    let r = s.exec(&tx, &mut tx_resp);
    assert!(r.is_ok());
    assert_eq!(tx_resp.data_bytes, vec![0x30, 0x01]);
    assert!(tx_resp.error.is_empty());
}

#[test]
fn reset_before_open_is_an_input_error() {
    let mut s = Server::new(true).unwrap();
    let mut req = Request::new();
    req.command = Command::MDB_RESET;
    req.arg_uint = 150;
    let mut resp = Response::new();
    let r = s.exec(&req, &mut resp);
    assert_eq!(r, Err(ServerError::MustMdbOpen));
    assert_eq!(String::from_utf8(resp.error.clone()).unwrap(), "must mdb_open");
}

#[test]
fn reopening_leaves_a_working_engine() {
    let mut s = Server::new(false).unwrap();
    let mut open = Request::new();
    open.command = Command::MDB_OPEN;
    open.arg_bytes = vec![15, 14];
    let mut resp1 = Response::new();
    assert!(s.exec(&open, &mut resp1).is_ok());
    let mut resp2 = Response::new();
    assert!(s.exec(&open, &mut resp2).is_ok());

    let mut reset = Request::new();
    reset.command = Command::MDB_RESET;
    reset.arg_uint = 150;
    let mut resp3 = Response::new();
    let r = s.exec(&reset, &mut resp3);
    assert!(r.is_ok());
}

#[test]
fn reset_overflow_is_a_hardware_error() {
    let mut s = Server::new(false).unwrap();
    let mut open = Request::new();
    open.command = Command::MDB_OPEN;
    open.arg_bytes = vec![15, 14];
    let mut resp = Response::new();
    assert!(s.exec(&open, &mut resp).is_ok());

    let mut reset = Request::new();
    reset.command = Command::MDB_RESET;
    reset.arg_uint = 0xffff_ffff;
    let mut resp2 = Response::new();
    let r = s.exec(&reset, &mut resp2);
    assert_eq!(r, Err(ServerError::Mdb(MdbError::DurationOverflow)));
}

#[test]
fn tx_with_empty_block_is_an_input_error() {
    let mut s = Server::new(false).unwrap();
    let mut open = Request::new();
    open.command = Command::MDB_OPEN;
    open.arg_bytes = vec![15, 14];
    let mut resp = Response::new();
    assert!(s.exec(&open, &mut resp).is_ok());

    let mut tx = Request::new();
    tx.command = Command::MDB_TX;
    let mut resp2 = Response::new();
    let r = s.exec(&tx, &mut resp2);
    assert_eq!(r, Err(ServerError::InvalidArgBytes));
}

#[test]
fn run_serves_mock_open_and_tx_in_one_stream() {
    let mut open = Request::new();
    open.command = Command::MDB_OPEN;
    open.arg_bytes = vec![15, 14];
    let mut tx = Request::new();
    tx.command = Command::MDB_TX;
    tx.arg_bytes = vec![0x30, 0x01];
    let mut stop = Request::new();
    stop.command = Command::STOP;

    let mut rv = Vec::new();
    rv.extend_from_slice(&frame_of(&open));
    rv.extend_from_slice(&frame_of(&tx));
    rv.extend_from_slice(&frame_of(&stop));
    let mut wv: Vec<u8> = Vec::new();
    let mut s = Server::new(true).unwrap();
    let r = s.run(&rv, &mut wv);
    assert!(r.is_ok());
    // three framed responses; the second carries the echoed data bytes
    assert_eq!(&wv[0..4], &[5, 0, 0, 0]);
    assert_eq!(wv[4], 1);
    assert_eq!(&wv[9..13], &[7, 0, 0, 0]);
    assert_eq!(wv[13], 1);
    assert_eq!(&wv[18..20], &[0x30, 0x01]);
}
