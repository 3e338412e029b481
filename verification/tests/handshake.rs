use std::time::Duration;

use easy_usb_core::protocol::codec::{encode_op_rep_import, encode_op_req_import};
use easy_usb_core::protocol::handshake::{
    after_attempt, do_handshake, import_device, make_import_request, timeout_message, Attempt,
    HandshakeError, ImportStep, HANDSHAKE_TIMEOUT_SECS, MAX_RETRIES,
};
use easy_usb_core::protocol::wire::OpRepImport;

fn make_rep_import(status: u32, busnum: u32, devnum: u32, speed: u32) -> OpRepImport {
    OpRepImport {
        status,
        path: [0u8; 256],
        busid: {
            let mut b = [0u8; 32];
            b[..7].copy_from_slice(b"1-1.2.3");
            b
        },
        busnum,
        devnum,
        speed,
        id_vendor: 0x1234,
        id_product: 0x5678,
        bcd_device: 0x0200,
        b_device_class: 0x00,
        b_device_sub_class: 0x00,
        b_device_protocol: 0x00,
        b_configuration_value: 1,
        b_num_configurations: 1,
        b_num_interfaces: 2,
    }
}

fn reply_bytes(reply: &OpRepImport) -> Result<Vec<u8>, String> {
    Ok(encode_op_rep_import(reply).unwrap().to_vec())
}

/// Runs an import whose attempts come out as given, and tells how many were made.
fn import(busid: &str, devid: u32, outcomes: Vec<Attempt>) -> (Result<OpRepImport, HandshakeError>, u32) {
    if let Err(e) = import_device(busid, devid) {
        return (Err(e), 0);
    }
    let mut attempt: u32 = 0;
    let mut made: u32 = 0;
    for outcome in outcomes {
        made += 1;
        match after_attempt(attempt, outcome) {
            ImportStep::Retry { attempt: next } => attempt = next,
            ImportStep::Finished(result) => return (result, made),
        }
    }
    panic!("the import asks for more attempts");
}

fn ended(read: Result<Vec<u8>, String>) -> Attempt {
    Attempt::Ended(do_handshake(read))
}

#[test]
fn successful_handshake() {
    let reply = make_rep_import(0, 1, 3, 3);
    let (result, made) = import("1-1.2.3", 3, vec![ended(reply_bytes(&reply))]);
    let result = result.unwrap();

    assert_eq!(result.status, 0);
    assert_eq!(result.busnum, 1);
    assert_eq!(result.devnum, 3);
    assert_eq!(result.speed, 3);
    assert_eq!(result.id_vendor, 0x1234);
    assert_eq!(result.id_product, 0x5678);
    assert_eq!(made, 1);
}

#[test]
fn server_rejection() {
    let reply = make_rep_import(1, 1, 3, 3);
    let (result, made) = import("1-1.2.3", 3, vec![ended(reply_bytes(&reply))]);
    assert!(matches!(result, Err(HandshakeError::ServerRejected { status: 1 })));
    assert_eq!(made, 1);
}

#[test]
fn connect_timeout() {
    let outcomes = vec![Attempt::TimedOut, Attempt::TimedOut, Attempt::TimedOut];
    let (result, made) = import("1-1", 1, outcomes);
    assert!(matches!(result, Err(HandshakeError::MaxRetriesExceeded(3))));
    assert_eq!(made, 3);
    assert_eq!(HANDSHAKE_TIMEOUT_SECS, 10);
    assert_eq!(MAX_RETRIES, 3);
}

#[test]
fn handshake_timeout() {
    let outcomes = vec![Attempt::TimedOut, Attempt::TimedOut, Attempt::TimedOut];
    let (result, _) = import("1-1.2.3", 3, outcomes);
    assert!(matches!(result, Err(HandshakeError::MaxRetriesExceeded(3))));
}

#[test]
fn max_retries_exceeded() {
    let eof = || ended(Err("early eof".to_string()));
    let (result, made) = import("1-1", 1, vec![eof(), eof(), eof()]);
    assert!(matches!(result, Err(HandshakeError::MaxRetriesExceeded(3))));
    assert_eq!(made, 3);
}

#[test]
fn invalid_reply_zero_ids() {
    let reply = make_rep_import(0, 0, 0, 3);
    let (result, _) = import("1-1.2.3", 3, vec![ended(reply_bytes(&reply))]);
    assert!(matches!(result, Err(HandshakeError::InvalidReply(_))));
}

#[test]
fn connection_refused() {
    let refused = || ended(Err("connection refused".to_string()));
    let (result, _) = import("1-1", 1, vec![refused(), refused(), refused()]);
    assert!(
        matches!(&result, Err(HandshakeError::MaxRetriesExceeded(3))),
        "expected MaxRetriesExceeded(3) after 3 connection failures, got {result:?}"
    );
}

#[test]
fn handshake_error_display() {
    let timeout = HandshakeError::Timeout(Duration::from_secs(10));
    assert!(timeout.to_string().contains("10s"));

    let rejected = HandshakeError::ServerRejected { status: 5 };
    assert!(rejected.to_string().contains("5"));

    let max_retries = HandshakeError::MaxRetriesExceeded(3);
    assert!(max_retries.to_string().contains("3"));

    let invalid = HandshakeError::InvalidReply("bad data".into());
    assert!(invalid.to_string().contains("bad data"));

    let conn_failed = HandshakeError::ConnectionFailed("refused".into());
    assert!(conn_failed.to_string().contains("refused"));
}

#[test]
fn handshake_error_partial_eq() {
    let a = HandshakeError::Timeout(Duration::from_secs(10));
    let b = HandshakeError::Timeout(Duration::from_secs(10));
    assert_eq!(a, b);

    let c = HandshakeError::ServerRejected { status: 1 };
    let d = HandshakeError::ServerRejected { status: 1 };
    assert_eq!(c, d);
    assert_ne!(c, HandshakeError::ServerRejected { status: 2 });

    let e = HandshakeError::MaxRetriesExceeded(3);
    let f = HandshakeError::MaxRetriesExceeded(3);
    assert_eq!(e, f);
    assert_ne!(e, HandshakeError::MaxRetriesExceeded(2));

    let g = HandshakeError::InvalidReply("x".into());
    let h = HandshakeError::InvalidReply("x".into());
    assert_eq!(g, h);

    let i = HandshakeError::ConnectionFailed("a".into());
    let j = HandshakeError::ConnectionFailed("a".into());
    assert_eq!(i, j);
    assert_ne!(i, HandshakeError::ConnectionFailed("b".into()));
}

#[test]
fn handshake_error_messages() {
    assert_eq!(
        HandshakeError::Timeout(Duration::from_millis(1500)).to_string(),
        "operation timed out after 1.5s"
    );
    assert_eq!(timeout_message("2s"), "operation timed out after 2s");
    assert_eq!(
        HandshakeError::ServerRejected { status: 5 }.to_string(),
        "server rejected with status 5"
    );
    assert_eq!(
        HandshakeError::MaxRetriesExceeded(3).to_string(),
        "max retries exceeded (3)"
    );
    assert_eq!(
        HandshakeError::ConnectionFailed("a".into()).to_string(),
        "connection failed: a"
    );
    assert_eq!(
        HandshakeError::InvalidReply("a".into()).to_string(),
        "invalid reply: a"
    );
}

#[test]
fn import_request_is_exact() {
    let req = make_import_request("1-1.2.3", 3);
    assert_eq!(req.status, 0x0111);
    assert_eq!(&req.path[..23], b"/sys/devices/pci0000:00");
    assert!(req.path[23..].iter().all(|b| *b == 0));
    assert_eq!(&req.busid[..7], b"1-1.2.3");
    assert!(req.busid[7..].iter().all(|b| *b == 0));
    // The device number plays no part.
    assert_eq!(req, make_import_request("1-1.2.3", 4));
    assert_eq!(encode_op_req_import(&req).unwrap().len(), 292);
    // A bus id that does not fit is cut off.
    let long = "0123456789012345678901234567890123456789";
    let req = make_import_request(long, 0);
    assert_eq!(&req.busid[..], &long.as_bytes()[..32]);
}

#[test]
fn empty_busid_is_refused() {
    assert_eq!(
        import_device("", 1),
        Err(HandshakeError::InvalidReply("empty busid".into()))
    );
    assert_eq!(import_device("1-1", 1), Ok(make_import_request("1-1", 1)));
}

#[test]
fn replies_are_judged() {
    let good = make_rep_import(0, 1, 3, 3);
    assert_eq!(do_handshake(reply_bytes(&good)), Ok(good));
    assert_eq!(
        do_handshake(reply_bytes(&make_rep_import(7, 0, 0, 3))),
        Err(HandshakeError::ServerRejected { status: 7 })
    );
    assert_eq!(
        do_handshake(reply_bytes(&make_rep_import(0, 0, 12, 3))),
        Err(HandshakeError::InvalidReply("busnum=0 devnum=12".into()))
    );
    assert_eq!(
        do_handshake(reply_bytes(&make_rep_import(0, 10, 0, 3))),
        Err(HandshakeError::InvalidReply("busnum=10 devnum=0".into()))
    );
    assert_eq!(
        do_handshake(Ok(vec![0; 100])),
        Err(HandshakeError::InvalidReply(
            "incomplete buffer: need 316 bytes, have 100".into()
        ))
    );
    assert_eq!(
        do_handshake(Err("reset".to_string())),
        Err(HandshakeError::ConnectionFailed("reset".into()))
    );
}

#[test]
fn the_first_decisive_attempt_ends_the_import() {
    let good = make_rep_import(0, 1, 3, 3);
    let outcomes = vec![
        Attempt::TimedOut,
        ended(Err("early eof".to_string())),
        ended(reply_bytes(&good)),
    ];
    let (result, made) = import("1-1", 1, outcomes);
    assert_eq!(result, Ok(good));
    assert_eq!(made, 3);

    let outcomes = vec![
        ended(Err("early eof".to_string())),
        ended(reply_bytes(&make_rep_import(2, 1, 3, 3))),
        ended(reply_bytes(&good)),
    ];
    let (result, made) = import("1-1", 1, outcomes);
    assert_eq!(result, Err(HandshakeError::ServerRejected { status: 2 }));
    assert_eq!(made, 2);
}
