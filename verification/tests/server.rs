use bytes::{BufMut, BytesMut};

use easy_usb_core::protocol::codec::{
    decode_header, decode_op_rep_import, encode_header, encode_op_rep_import, encode_op_req_import,
    ProtocolError, MAX_PAYLOAD_SIZE, PAYLOAD_OFFSET,
};
use easy_usb_core::protocol::constants;
use easy_usb_core::protocol::framing::{Receiver, Role};
use easy_usb_core::protocol::handshake::make_import_request;
use easy_usb_core::protocol::server::{
    accept_device, busid_text, echo, serve_urb_echo, AcceptError, Serving,
};
use easy_usb_core::protocol::wire::{
    OpRepImport, OpReqImport, UsbipHeader, UsbipHeaderBasic, UsbipHeaderCmdSubmit,
    UsbipHeaderCmdUnlink, UsbipHeaderRetSubmit, UsbipHeaderUnion,
};

fn make_op_req_import(busid: &str) -> OpReqImport {
    let mut busid_arr = [0u8; 32];
    let bytes = busid.as_bytes();
    let len = bytes.len().min(32);
    busid_arr[..len].copy_from_slice(&bytes[..len]);
    OpReqImport {
        status: 0x0111,
        path: {
            let mut p = [0u8; 256];
            p[..23].copy_from_slice(b"/sys/devices/pci0000:00");
            p
        },
        busid: busid_arr,
    }
}

fn make_op_rep_import_ok() -> OpRepImport {
    OpRepImport {
        status: 0,
        path: [0u8; 256],
        busid: {
            let mut b = [0u8; 32];
            b[..7].copy_from_slice(b"1-1.2.3");
            b
        },
        busnum: 1,
        devnum: 3,
        speed: 3,
        id_vendor: 0x1234,
        id_product: 0x5678,
        bcd_device: 0x0200,
        b_device_class: 0x00,
        b_device_sub_class: 0x00,
        b_device_protocol: 0x00,
        b_configuration_value: 1,
        b_num_configurations: 1,
        b_num_interfaces: 2,
    }
}

fn make_cmd_submit(direction: u32, ep: u32, length: i32, flags: u32, interval: i32, seqnum: u32) -> UsbipHeader {
    UsbipHeader {
        base: UsbipHeaderBasic {
            command: constants::CMD_SUBMIT,
            seqnum,
            devid: 3,
            direction,
            ep,
        },
        u: UsbipHeaderUnion::from_cmd_submit(UsbipHeaderCmdSubmit {
            transfer_flags: flags,
            transfer_buffer_length: length,
            start_frame: 0,
            number_of_packets: 0,
            interval,
            setup: [0u8; 8],
        }),
    }
}

/// Serves the request that `input` starts with.
fn serve(input: &[u8]) -> Result<(UsbipHeader, BytesMut), ProtocolError> {
    let mut receiver = Receiver::new(Role::EchoServer);
    let mut rest = input;
    loop {
        let wanted = receiver.wanted();
        let read = if rest.len() < wanted {
            Err("early eof".to_string())
        } else {
            Ok(rest[..wanted].to_vec())
        };
        match serve_urb_echo(receiver, read) {
            Serving::More(waiting) => {
                rest = &rest[wanted..];
                receiver = waiting;
            }
            Serving::Done(result) => return result,
        }
    }
}

#[test]
fn accept_device_receives_op_req_import() {
    let req = make_op_req_import("1-1.2.3");
    let encoded = encode_op_req_import(&req).unwrap();
    let received_req = accept_device(Ok(encoded.to_vec())).unwrap();
    assert_eq!(&received_req.busid[..7], b"1-1.2.3");
    assert_eq!(received_req, req);
}

#[test]
fn accept_device_rejects_empty_busid() {
    let req = make_op_req_import("");
    let encoded = encode_op_req_import(&req).unwrap();
    let result = accept_device(Ok(encoded.to_vec()));
    assert!(matches!(result, Err(AcceptError::InvalidRequest(_))));
    assert_eq!(result, Err(AcceptError::InvalidRequest("empty busid".into())));
}

#[test]
fn accept_device_rejects_non_utf8_busid() {
    let mut req = make_op_req_import("1-1");
    req.busid[0] = 0xFF;
    let encoded = encode_op_req_import(&req).unwrap();
    let result = accept_device(Ok(encoded.to_vec()));
    assert!(matches!(result, Err(AcceptError::InvalidRequest(_))));
    assert_eq!(result, Err(AcceptError::InvalidRequest("non-UTF-8 busid".into())));
}

#[test]
fn accept_device_rejects_truncated_request() {
    let result = accept_device(Err("early eof".to_string()));
    assert!(result.is_err());
    assert_eq!(
        result,
        Err(AcceptError::AcceptFailed("read OP_REQ_IMPORT: early eof".into()))
    );
    assert_eq!(
        accept_device(Ok(b"too_short".to_vec())),
        Err(AcceptError::InvalidRequest(
            "incomplete buffer: need 292 bytes, have 9".into()
        ))
    );
}

#[test]
fn send_op_rep_import_writes_reply() {
    let rep = make_op_rep_import_ok();
    let rep_buf = encode_op_rep_import(&rep).unwrap();
    let decoded = decode_op_rep_import(&rep_buf).unwrap();
    assert_eq!(decoded.status, 0);
    assert_eq!(decoded.busnum, 1);
    assert_eq!(decoded.devnum, 3);
}

#[test]
fn serve_urb_echo_echoes_cmd_submit() {
    let payload = b"\x01\x02\x03\x04";
    let cmd = make_cmd_submit(constants::USBIP_DIR_OUT, 0x02, payload.len() as i32, 0, 0, 1);
    let encoded_cmd = encode_header(&cmd, Some(payload)).unwrap();

    let (received, answer) = serve(&encoded_cmd).unwrap();
    assert_eq!(received, cmd);
    assert_eq!(answer.len(), 48 + payload.len());

    let (ret_header, ret_payload) = decode_header(&answer).unwrap();
    assert_eq!(ret_header.base.command, constants::RET_SUBMIT);
    assert_eq!(ret_payload.as_deref(), Some(payload.as_slice()));
    assert_eq!(ret_header.base.seqnum, 1);
    assert_eq!(ret_header.base.devid, 3);
    assert_eq!(ret_header.base.direction, constants::USBIP_DIR_IN);
    assert_eq!(ret_header.base.ep, 2);
    assert_eq!(ret_header.ret_submit().unwrap().actual_length, 4);
}

#[test]
fn serve_urb_echo_handles_cmd_unlink() {
    let cmd = UsbipHeader {
        base: UsbipHeaderBasic {
            command: constants::CMD_UNLINK,
            seqnum: 5,
            devid: 3,
            direction: constants::USBIP_DIR_OUT,
            ep: 0x02,
        },
        u: UsbipHeaderUnion::from_cmd_unlink(UsbipHeaderCmdUnlink {
            seqnum: 1,
            __padding: [0u32; 6],
        }),
    };
    let encoded_cmd = encode_header(&cmd, None).unwrap();
    let result = serve(&encoded_cmd);
    assert!(result.is_ok());
    let (_, answer) = result.unwrap();

    let (ret_header, ret_payload) = decode_header(&answer).unwrap();
    assert_eq!(ret_header.base.command, constants::RET_UNLINK);
    assert_eq!(ret_header.base.seqnum, 5);
    assert_eq!(ret_header.base.direction, constants::USBIP_DIR_OUT);
    assert_eq!(ret_header.ret_unlink().unwrap().status, 0);
    assert!(ret_payload.is_none());
}

#[test]
fn serve_urb_echo_echoes_intr_in_cmd_submit() {
    let cmd = make_cmd_submit(
        constants::USBIP_DIR_IN,
        0x81,
        8,
        constants::USBIP_URB_DIR_IN,
        10,
        2,
    );
    let encoded_cmd = encode_header(&cmd, None).unwrap();
    let result = serve(&encoded_cmd);
    assert!(result.is_ok(), "serve_urb_echo failed: {:?}", result.as_ref().err());
    let (_, answer) = result.unwrap();

    let (ret_header, ret_payload) = decode_header(&answer).unwrap();
    assert_eq!(ret_header.base.command, constants::RET_SUBMIT);
    assert_eq!(ret_header.base.seqnum, 2);
    assert!(ret_payload.is_none());
}

#[test]
fn interop_server_urb_echo_with_mock_client() {
    let mut busid_arr = [0u8; 32];
    busid_arr[..3].copy_from_slice(b"1-1");
    let req = OpReqImport {
        status: constants::USBIP_VERSION as u32,
        path: {
            let mut p = [0u8; 256];
            p[..23].copy_from_slice(b"/sys/devices/pci0000:00");
            p
        },
        busid: busid_arr,
    };
    let encoded_req = encode_op_req_import(&req).expect("encode");
    accept_device(Ok(encoded_req.to_vec())).expect("should accept device");

    let rep_buf = encode_op_rep_import(&make_op_rep_import_ok()).expect("should send OP_REP_IMPORT");
    let rep = decode_op_rep_import(&rep_buf).expect("decode");
    assert_eq!(rep.status, 0, "OP_REP_IMPORT status should be 0");

    let mut cmd = make_cmd_submit(
        constants::USBIP_DIR_IN,
        0x81,
        8,
        constants::USBIP_URB_DIR_IN,
        10,
        1,
    );
    cmd.base.devid = 0;
    let encoded_cmd = encode_header(&cmd, None).expect("encode cmd");
    let (received, ret_buf) = serve(&encoded_cmd).expect("should echo URB");
    assert_eq!(
        received.base.command,
        constants::CMD_SUBMIT,
        "should receive CMD_SUBMIT"
    );

    let (ret_header, _payload) = decode_header(&ret_buf).expect("decode ret");
    assert_eq!(ret_header.base.command, constants::RET_SUBMIT, "should get RET_SUBMIT");
    assert_eq!(ret_header.base.seqnum, 1, "seqnum should match");
}

#[test]
fn serve_urb_echo_rejects_unknown_command() {
    let mut raw = BytesMut::new();
    raw.put_u32(0xDEADu32); // command
    raw.put_u32(0u32); // seqnum
    raw.put_u32(0u32); // devid
    raw.put_u32(constants::USBIP_DIR_IN); // direction
    raw.put_u32(0u32); // ep
    raw.resize(48, 0u8); // pad to full header size
    let result = serve(&raw);
    assert!(matches!(result, Err(ProtocolError::InvalidCommand { command: 0xDEAD })));
}

#[test]
fn accept_error_display() {
    let af = AcceptError::AcceptFailed("connection reset".into());
    assert!(af.to_string().contains("connection reset"));

    let ir = AcceptError::InvalidRequest("bad busid".into());
    assert!(ir.to_string().contains("bad busid"));

    let iv = AcceptError::InvalidReply("wrong size".into());
    assert!(iv.to_string().contains("wrong size"));
}

#[test]
fn accept_error_partial_eq() {
    let a = AcceptError::AcceptFailed("x".into());
    let b = AcceptError::AcceptFailed("x".into());
    assert_eq!(a, b);
    assert_ne!(a, AcceptError::AcceptFailed("y".into()));

    let c = AcceptError::InvalidRequest("z".into());
    let d = AcceptError::InvalidRequest("z".into());
    assert_eq!(c, d);
    assert_ne!(c, AcceptError::InvalidReply("z".into()));
}

#[test]
fn accept_error_messages() {
    assert_eq!(AcceptError::AcceptFailed("x".into()).to_string(), "accept failed: x");
    assert_eq!(
        AcceptError::InvalidRequest("x".into()).to_string(),
        "invalid import request: x"
    );
    assert_eq!(AcceptError::InvalidReply("x".into()).to_string(), "invalid reply: x");
}

#[test]
fn requests_of_the_asking_end_are_accepted() {
    for busid in ["1-1", "\u{e9}-2", "01234567890123456789012345678901", "a\0b"] {
        let req = make_import_request(busid, 1);
        let bytes = encode_op_req_import(&req).unwrap().to_vec();
        assert_eq!(accept_device(Ok(bytes)), Ok(req));
        assert_eq!(busid_text(&req.busid), Some(busid.to_string()));
    }
    // Cut between two characters, a long bus id is accepted in part.
    let req = make_import_request("012345678901234567890123456789012345", 1);
    let bytes = encode_op_req_import(&req).unwrap().to_vec();
    assert_eq!(accept_device(Ok(bytes)), Ok(req));
    assert_eq!(
        busid_text(&req.busid),
        Some("01234567890123456789012345678901".to_string())
    );
    // Cut within a character, it is not.
    let req = make_import_request("0123456789012345678901234567890\u{e9}", 1);
    let bytes = encode_op_req_import(&req).unwrap().to_vec();
    assert_eq!(
        accept_device(Ok(bytes)),
        Err(AcceptError::InvalidRequest("non-UTF-8 busid".into()))
    );
    assert_eq!(busid_text(&req.busid), None);
}

#[test]
fn serving_turns_requests_away() {
    assert_eq!(
        serve(&[0u8; 20]).unwrap_err(),
        ProtocolError::IoError("early eof".into())
    );

    let cmd = make_cmd_submit(constants::USBIP_DIR_OUT, 2, 4, 0, 0, 1);
    let mut encoded = encode_header(&cmd, Some(&[1, 2, 3, 4])).unwrap();
    // The payload does not arrive.
    assert_eq!(
        serve(&encoded[..50]).unwrap_err(),
        ProtocolError::IoError("early eof".into())
    );
    // Isochronous packets are read, and then turned away.
    encoded[32..36].copy_from_slice(&1i32.to_be_bytes());
    assert_eq!(serve(&encoded).unwrap_err(), ProtocolError::IsochronousNotSupported);
    // Too long a payload is turned away before it is read.
    encoded[24..28].copy_from_slice(&((MAX_PAYLOAD_SIZE + 1) as u32).to_be_bytes());
    assert_eq!(
        serve(&encoded).unwrap_err(),
        ProtocolError::BufferTooLarge {
            size: MAX_PAYLOAD_SIZE + 1,
            max: MAX_PAYLOAD_SIZE
        }
    );

    let ret = UsbipHeader {
        base: UsbipHeaderBasic {
            command: constants::RET_SUBMIT,
            seqnum: 1,
            devid: 3,
            direction: constants::USBIP_DIR_IN,
            ep: 2,
        },
        u: UsbipHeaderUnion::from_ret_submit(UsbipHeaderRetSubmit {
            status: 0,
            actual_length: 2,
            start_frame: 0,
            number_of_packets: 0,
            error_count: 0,
            setup: [0; 8],
        }),
    };
    let encoded = encode_header(&ret, Some(&[1, 2])).unwrap();
    // The payload of a reply is not read.
    assert_eq!(
        serve(&encoded).unwrap_err(),
        ProtocolError::IncompleteBuffer {
            needed: PAYLOAD_OFFSET + 2,
            available: PAYLOAD_OFFSET
        }
    );
    // Read whole, a reply is no request.
    assert_eq!(
        echo(&encoded).unwrap_err(),
        ProtocolError::InvalidCommand {
            command: constants::RET_SUBMIT
        }
    );
}
