use bytes::{BufMut, BytesMut};

use easy_usb_core::protocol::codec::{
    decode_header, decode_op_rep_import, decode_op_req_import, encode_header, encode_op_rep_import,
    encode_op_req_import, ProtocolError, MAX_PAYLOAD_SIZE, PAYLOAD_OFFSET,
};
use easy_usb_core::protocol::constants;
use easy_usb_core::protocol::wire::{
    OpRepImport, OpReqImport, UsbipHeader, UsbipHeaderBasic, UsbipHeaderCmdSubmit,
    UsbipHeaderCmdUnlink, UsbipHeaderRetSubmit, UsbipHeaderRetUnlink, UsbipHeaderUnion,
};

fn make_control_cmd_submit() -> UsbipHeader {
    UsbipHeader {
        base: UsbipHeaderBasic {
            command: constants::CMD_SUBMIT,
            seqnum: 1,
            devid: 0,
            direction: constants::USBIP_DIR_OUT,
            ep: 0,
        },
        u: UsbipHeaderUnion::from_cmd_submit(UsbipHeaderCmdSubmit {
            transfer_flags: 0,
            transfer_buffer_length: 8,
            start_frame: 0,
            number_of_packets: 0,
            interval: 0,
            setup: [0x80, 0x06, 0x00, 0x01, 0x00, 0x00, 0x12, 0x00],
        }),
    }
}

fn make_intr_cmd_submit() -> UsbipHeader {
    UsbipHeader {
        base: UsbipHeaderBasic {
            command: constants::CMD_SUBMIT,
            seqnum: 2,
            devid: 1,
            direction: constants::USBIP_DIR_IN,
            ep: 0x81,
        },
        u: UsbipHeaderUnion::from_cmd_submit(UsbipHeaderCmdSubmit {
            transfer_flags: constants::USBIP_URB_DIR_IN,
            transfer_buffer_length: 8,
            start_frame: 0,
            number_of_packets: 0,
            interval: 10,
            setup: [0u8; 8],
        }),
    }
}

fn make_bulk_cmd_submit() -> UsbipHeader {
    UsbipHeader {
        base: UsbipHeaderBasic {
            command: constants::CMD_SUBMIT,
            seqnum: 3,
            devid: 2,
            direction: constants::USBIP_DIR_OUT,
            ep: 0x02,
        },
        u: UsbipHeaderUnion::from_cmd_submit(UsbipHeaderCmdSubmit {
            transfer_flags: 0,
            transfer_buffer_length: 512,
            start_frame: 0,
            number_of_packets: 0,
            interval: 0,
            setup: [0u8; 8],
        }),
    }
}

fn make_ret_submit() -> UsbipHeader {
    UsbipHeader {
        base: UsbipHeaderBasic {
            command: constants::RET_SUBMIT,
            seqnum: 3,
            devid: 2,
            direction: constants::USBIP_DIR_IN,
            ep: 0x02,
        },
        u: UsbipHeaderUnion::from_ret_submit(UsbipHeaderRetSubmit {
            status: 0,
            actual_length: 512,
            start_frame: 0,
            number_of_packets: 0,
            error_count: 0,
            setup: [0u8; 8],
        }),
    }
}

fn make_op_rep_import() -> OpRepImport {
    OpRepImport {
        status: 0,
        path: {
            let mut p = [0u8; 256];
            p[..23].copy_from_slice(b"/sys/devices/pci0000:00");
            p
        },
        busid: {
            let mut b = [0u8; 32];
            b[..7].copy_from_slice(b"1-1.2.3");
            b
        },
        busnum: 1,
        devnum: 3,
        speed: 3,
        id_vendor: 0x1234,
        id_product: 0x5678,
        bcd_device: 0x0200,
        b_device_class: 0x00,
        b_device_sub_class: 0x00,
        b_device_protocol: 0x00,
        b_configuration_value: 1,
        b_num_configurations: 1,
        b_num_interfaces: 2,
    }
}

#[test]
fn roundtrip_control_transfer() {
    let header = make_control_cmd_submit();
    let payload = b"\x12\x01\x00\x02\x00\x00\x00\x40";
    let encoded = encode_header(&header, Some(payload)).expect("encode should succeed");
    assert_eq!(encoded.len(), PAYLOAD_OFFSET + 8);

    let (decoded, decoded_payload) = decode_header(&encoded).expect("decode should succeed");
    let cmd_specific = decoded.cmd_submit().unwrap();
    assert_eq!(decoded.base.command, constants::CMD_SUBMIT);
    assert_eq!(decoded.base.seqnum, 1);
    assert_eq!(cmd_specific.transfer_buffer_length, 8);
    assert_eq!(cmd_specific.setup, [0x80, 0x06, 0x00, 0x01, 0x00, 0x00, 0x12, 0x00]);
    assert_eq!(decoded_payload.as_deref(), Some(payload.as_slice()));
}

#[test]
fn roundtrip_interrupt_transfer() {
    let header = make_intr_cmd_submit();
    let encoded = encode_header(&header, None).expect("encode should succeed");

    let (decoded, decoded_payload) = decode_header(&encoded).expect("decode should succeed");
    let cmd_specific = decoded.cmd_submit().unwrap();
    assert_eq!(decoded.base.command, constants::CMD_SUBMIT);
    assert_eq!(decoded.base.direction, constants::USBIP_DIR_IN);
    assert_eq!(cmd_specific.transfer_flags, constants::USBIP_URB_DIR_IN);
    assert_eq!(cmd_specific.interval, 10);
    assert_eq!(cmd_specific.transfer_buffer_length, 8);
    assert!(decoded_payload.is_none(), "DIR_IN CMD_SUBMIT should have no payload");
}

#[test]
fn roundtrip_bulk_transfer() {
    let header = make_bulk_cmd_submit();
    let payload = vec![0xAAu8; 512];
    let encoded = encode_header(&header, Some(&payload)).expect("encode should succeed");
    assert_eq!(encoded.len(), PAYLOAD_OFFSET + 512);

    let (decoded, decoded_payload) = decode_header(&encoded).expect("decode should succeed");
    let cmd_specific = decoded.cmd_submit().unwrap();
    assert_eq!(decoded.base.command, constants::CMD_SUBMIT);
    assert_eq!(decoded.base.ep, 2);
    assert_eq!(cmd_specific.transfer_buffer_length, 512);
    assert_eq!(decoded_payload.as_deref(), Some(payload.as_slice()));
}

#[test]
fn roundtrip_ret_submit() {
    let header = make_ret_submit();
    let payload = vec![0xBBu8; 512];
    let encoded = encode_header(&header, Some(&payload)).expect("encode should succeed");

    let (decoded, decoded_payload) = decode_header(&encoded).expect("decode should succeed");
    let ret_specific = decoded.ret_submit().unwrap();
    assert_eq!(ret_specific.status, 0);
    assert_eq!(ret_specific.actual_length, 512);
    assert_eq!(decoded_payload.as_deref(), Some(payload.as_slice()));
}

#[test]
fn truncated_buffer_error() {
    let truncated = vec![0u8; 10];
    let result = decode_header(&truncated);
    assert!(matches!(result, Err(ProtocolError::IncompleteBuffer { .. })));
}

#[test]
fn invalid_command_error() {
    let mut buf = BytesMut::new();
    buf.put_u32(0xDEADu32);
    buf.put_u32(0u32);
    buf.put_u32(0u32);
    buf.put_u32(0u32);
    buf.put_u32(0u32);
    buf.resize(PAYLOAD_OFFSET, 0);
    let result = decode_header(&buf);
    assert!(matches!(result, Err(ProtocolError::InvalidCommand { command: 0xDEAD })));
}

#[test]
fn roundtrip_op_rep_import() {
    let rep = make_op_rep_import();

    let encoded = encode_op_rep_import(&rep).expect("encode should succeed");
    let decoded = decode_op_rep_import(&encoded).expect("decode should succeed");

    assert_eq!(decoded.status, rep.status);
    assert_eq!(&decoded.path[..23], b"/sys/devices/pci0000:00");
    assert_eq!(&decoded.busid[..7], b"1-1.2.3");
    assert_eq!(decoded.busnum, rep.busnum);
    assert_eq!(decoded.devnum, rep.devnum);
    assert_eq!(decoded.speed, rep.speed);
    assert_eq!(decoded.id_vendor, rep.id_vendor);
    assert_eq!(decoded.id_product, rep.id_product);
    assert_eq!(decoded.bcd_device, rep.bcd_device);
    assert_eq!(decoded.b_device_class, rep.b_device_class);
    assert_eq!(decoded.b_device_sub_class, rep.b_device_sub_class);
    assert_eq!(decoded.b_device_protocol, rep.b_device_protocol);
    assert_eq!(decoded.b_configuration_value, rep.b_configuration_value);
    assert_eq!(decoded.b_num_configurations, rep.b_num_configurations);
    assert_eq!(decoded.b_num_interfaces, rep.b_num_interfaces);
}

#[test]
fn roundtrip_op_req_import() {
    let req = OpReqImport {
        status: 0,
        path: {
            let mut p = [0u8; 256];
            p[..23].copy_from_slice(b"/sys/devices/pci0000:00");
            p
        },
        busid: {
            let mut b = [0u8; 32];
            b[..7].copy_from_slice(b"1-1.2.3");
            b
        },
    };

    let encoded = encode_op_req_import(&req).expect("encode should succeed");
    let decoded = decode_op_req_import(&encoded).expect("decode should succeed");

    assert_eq!(decoded.status, req.status);
    assert_eq!(&decoded.path[..23], b"/sys/devices/pci0000:00");
    assert_eq!(&decoded.busid[..7], b"1-1.2.3");
}

#[test]
fn zero_transfer_buffer_length_no_payload() {
    let header = UsbipHeader {
        base: UsbipHeaderBasic {
            command: constants::CMD_SUBMIT,
            seqnum: 4,
            devid: 0,
            direction: constants::USBIP_DIR_OUT,
            ep: 0,
        },
        u: UsbipHeaderUnion::from_cmd_submit(UsbipHeaderCmdSubmit {
            transfer_flags: 0,
            transfer_buffer_length: 0,
            start_frame: 0,
            number_of_packets: 0,
            interval: 0,
            setup: [0u8; 8],
        }),
    };

    let encoded = encode_header(&header, None).expect("encode should succeed");
    assert_eq!(encoded.len(), PAYLOAD_OFFSET);

    let (_decoded, payload) = decode_header(&encoded).expect("decode should succeed");
    assert!(payload.is_none());
}

#[test]
fn buffer_too_large_error() {
    let header = make_bulk_cmd_submit();
    let payload = vec![0u8; MAX_PAYLOAD_SIZE + 1];
    let result = encode_header(&header, Some(&payload));
    assert!(matches!(result, Err(ProtocolError::BufferTooLarge { .. })));
}

#[test]
fn invalid_direction_error() {
    let mut buf = BytesMut::new();
    buf.put_u32(constants::CMD_SUBMIT);
    buf.put_u32(0);
    buf.put_u32(0);
    buf.put_u32(0xDEADu32); // invalid direction
    buf.put_u32(0);
    buf.resize(PAYLOAD_OFFSET, 0);
    let result = decode_header(&buf);
    assert!(matches!(result, Err(ProtocolError::EncodingError(_))));
}

#[test]
fn isochronous_rejection_error() {
    let header = UsbipHeader {
        base: UsbipHeaderBasic {
            command: constants::CMD_SUBMIT,
            seqnum: 5,
            devid: 0,
            direction: constants::USBIP_DIR_OUT,
            ep: 0,
        },
        u: UsbipHeaderUnion::from_cmd_submit(UsbipHeaderCmdSubmit {
            transfer_flags: 0,
            transfer_buffer_length: 0,
            start_frame: 0,
            number_of_packets: 1, // isochronous — should be rejected
            interval: 0,
            setup: [0u8; 8],
        }),
    };

    let result = encode_header(&header, None);
    assert!(matches!(result, Err(ProtocolError::IsochronousNotSupported)));
}

#[test]
fn io_error_partial_eq_and_display() {
    let err = ProtocolError::IoError("connection reset".into());
    assert_eq!(err.to_string(), "I/O error: connection reset");
    assert_eq!(err, ProtocolError::IoError("connection reset".into()));
    assert_ne!(err, ProtocolError::EncodingError("different".into()));
    assert_ne!(err, ProtocolError::IsochronousNotSupported);
}

#[test]
fn protocol_error_messages() {
    assert_eq!(
        ProtocolError::IncompleteBuffer {
            needed: 48,
            available: 10
        }
        .to_string(),
        "incomplete buffer: need 48 bytes, have 10"
    );
    assert_eq!(
        ProtocolError::InvalidCommand { command: 0xDEAD }.to_string(),
        "invalid command: 0x0000dead"
    );
    assert_eq!(
        ProtocolError::InvalidCommand { command: u32::MAX }.to_string(),
        "invalid command: 0xffffffff"
    );
    assert_eq!(
        ProtocolError::InvalidDeviceSpeed { value: 0 }.to_string(),
        "invalid device speed: 0"
    );
    assert_eq!(
        ProtocolError::BufferTooLarge {
            size: 1_048_577,
            max: MAX_PAYLOAD_SIZE
        }
        .to_string(),
        "buffer too large: 1048577 bytes exceeds maximum 1048576"
    );
    assert_eq!(
        ProtocolError::IsochronousNotSupported.to_string(),
        "isochronous transfers not supported in v1"
    );
    assert_eq!(
        ProtocolError::EncodingError("x".into()).to_string(),
        "encoding error: x"
    );
}

#[test]
fn header_bytes_are_exact() {
    let header = UsbipHeader {
        base: UsbipHeaderBasic {
            command: constants::RET_SUBMIT,
            seqnum: 0x0102_0304,
            devid: 0x0506_0708,
            direction: constants::USBIP_DIR_IN,
            ep: 0x81,
        },
        u: UsbipHeaderUnion::from_ret_submit(UsbipHeaderRetSubmit {
            status: -32,
            actual_length: 2,
            start_frame: 0x1122_3344,
            number_of_packets: 0,
            error_count: -1,
            setup: [9, 8, 7, 6, 5, 4, 3, 2],
        }),
    };
    let encoded = encode_header(&header, Some(&[0xAA, 0xBB])).unwrap();
    let expected: Vec<u8> = vec![
        0, 0, 0, 3, 1, 2, 3, 4, 5, 6, 7, 8, 0, 0, 0, 1, 0, 0, 0, 0x81, // basic
        0xFF, 0xFF, 0xFF, 0xE0, 0, 0, 0, 2, 0x11, 0x22, 0x33, 0x44, 0, 0, 0, 0, // specific
        0xFF, 0xFF, 0xFF, 0xFF, 9, 8, 7, 6, 5, 4, 3, 2, // specific
        0xAA, 0xBB,
    ];
    assert_eq!(&encoded[..], &expected[..]);
}

#[test]
fn unlink_headers_round_trip() {
    let cmd = UsbipHeaderCmdUnlink {
        seqnum: 41,
        __padding: [1, 2, 3, 4, 5, u32::MAX],
    };
    let header = UsbipHeader {
        base: UsbipHeaderBasic {
            command: constants::CMD_UNLINK,
            seqnum: 42,
            devid: 1,
            direction: constants::USBIP_DIR_OUT,
            ep: 0,
        },
        u: UsbipHeaderUnion::from_cmd_unlink(cmd),
    };
    // A payload that is not announced is left out.
    let encoded = encode_header(&header, Some(&[1, 2, 3])).unwrap();
    assert_eq!(encoded.len(), PAYLOAD_OFFSET);
    let (decoded, payload) = decode_header(&encoded).unwrap();
    assert_eq!(decoded.base, header.base);
    assert_eq!(decoded.cmd_unlink(), Some(cmd));
    assert_eq!(payload, None);

    let ret = UsbipHeaderRetUnlink {
        status: -104,
        __padding: [0, 0, 0, 0, 0, 7],
    };
    let header = UsbipHeader {
        base: UsbipHeaderBasic {
            command: constants::RET_UNLINK,
            ..header.base
        },
        u: UsbipHeaderUnion::from_ret_unlink(ret),
    };
    let encoded = encode_header(&header, None).unwrap();
    let (decoded, _) = decode_header(&encoded).unwrap();
    assert_eq!(decoded.ret_unlink(), Some(ret));
}

#[test]
fn what_was_read_is_written_back() {
    let header = make_ret_submit();
    let payload = vec![0x5Au8; 512];
    let mut stream = encode_header(&header, Some(&payload)).unwrap();
    let written = stream.clone();
    stream.put_slice(b"the next message");
    let (decoded, decoded_payload) = decode_header(&stream).unwrap();
    let again = encode_header(&decoded, decoded_payload.as_deref()).unwrap();
    assert_eq!(again, written);
}

#[test]
fn missing_payload_errors() {
    assert_eq!(
        encode_header(&make_bulk_cmd_submit(), None),
        Err(ProtocolError::EncodingError(
            "CMD_SUBMIT with transfer_buffer_length > 0 requires payload".into()
        ))
    );
    assert_eq!(
        encode_header(&make_ret_submit(), None),
        Err(ProtocolError::EncodingError(
            "RET_SUBMIT with actual_length > 0 requires payload".into()
        ))
    );
}

#[test]
fn encode_rejects_before_it_looks_further() {
    let mut header = make_ret_submit();
    header.base.direction = 2;
    header.base.command = 77;
    assert_eq!(
        encode_header(&header, None),
        Err(ProtocolError::EncodingError("invalid direction value: 2".into()))
    );
    header.base.direction = constants::USBIP_DIR_IN;
    assert_eq!(
        encode_header(&header, None),
        Err(ProtocolError::InvalidCommand { command: 77 })
    );
    let payload = vec![0u8; MAX_PAYLOAD_SIZE + 1];
    assert_eq!(
        encode_header(&make_ret_submit(), Some(&payload)),
        Err(ProtocolError::BufferTooLarge {
            size: MAX_PAYLOAD_SIZE + 1,
            max: MAX_PAYLOAD_SIZE
        })
    );
}

#[test]
fn decode_reports_what_is_missing() {
    let payload = vec![0xBBu8; 512];
    let encoded = encode_header(&make_ret_submit(), Some(&payload)).unwrap();
    assert_eq!(
        decode_header(&encoded[..19]),
        Err(ProtocolError::IncompleteBuffer {
            needed: 20,
            available: 19
        })
    );
    assert_eq!(
        decode_header(&encoded[..47]),
        Err(ProtocolError::IncompleteBuffer {
            needed: 48,
            available: 47
        })
    );
    assert_eq!(
        decode_header(&encoded[..559]),
        Err(ProtocolError::IncompleteBuffer {
            needed: 560,
            available: 559
        })
    );
    assert_eq!(
        decode_op_req_import(&encoded[..100]),
        Err(ProtocolError::IncompleteBuffer {
            needed: 292,
            available: 100
        })
    );
    assert_eq!(
        decode_op_rep_import(&encoded[..100]),
        Err(ProtocolError::IncompleteBuffer {
            needed: 316,
            available: 100
        })
    );
}

#[test]
fn decode_rejects_a_payload_that_is_too_long() {
    let mut header = make_ret_submit();
    let mut ret = header.ret_submit().unwrap();
    ret.actual_length = 3;
    header.u = UsbipHeaderUnion::from_ret_submit(ret);
    let mut encoded = encode_header(&header, Some(&[1, 2, 3])).unwrap();
    let announced = (MAX_PAYLOAD_SIZE + 1) as u32;
    encoded[24..28].copy_from_slice(&announced.to_be_bytes());
    // As long as bytes are missing, that is what is reported.
    assert_eq!(
        decode_header(&encoded),
        Err(ProtocolError::IncompleteBuffer {
            needed: PAYLOAD_OFFSET + MAX_PAYLOAD_SIZE + 1,
            available: 51
        })
    );
    encoded.resize(PAYLOAD_OFFSET + MAX_PAYLOAD_SIZE + 1, 0);
    assert_eq!(
        decode_header(&encoded),
        Err(ProtocolError::BufferTooLarge {
            size: MAX_PAYLOAD_SIZE + 1,
            max: MAX_PAYLOAD_SIZE
        })
    );
}

#[test]
fn decode_takes_isochronous_headers_and_negative_lengths() {
    let mut encoded = encode_header(&make_intr_cmd_submit(), None).unwrap();
    encoded[32..36].copy_from_slice(&5i32.to_be_bytes());
    let (decoded, payload) = decode_header(&encoded).unwrap();
    assert_eq!(decoded.cmd_submit().unwrap().number_of_packets, 5);
    assert_eq!(payload, None);

    let mut encoded = encode_header(&make_control_cmd_submit(), Some(&[0; 8])).unwrap();
    encoded[24..28].copy_from_slice(&(-1i32).to_be_bytes());
    let (decoded, payload) = decode_header(&encoded).unwrap();
    assert_eq!(decoded.cmd_submit().unwrap().transfer_buffer_length, -1);
    assert_eq!(payload, None);
}

#[test]
fn op_import_bytes_are_exact() {
    let rep = make_op_rep_import();
    let encoded = encode_op_rep_import(&rep).unwrap();
    assert_eq!(encoded.len(), 316);
    assert_eq!(&encoded[4..27], b"/sys/devices/pci0000:00");
    assert_eq!(&encoded[260..267], b"1-1.2.3");
    let tail: Vec<u8> = vec![
        0, 0, 0, 1, 0, 0, 0, 3, 0, 0, 0, 3, 0x12, 0x34, 0x56, 0x78, 0x02, 0x00, 0, 0, 0, 1, 1, 2,
    ];
    assert_eq!(&encoded[292..], &tail[..]);
    let mut longer = encoded.clone();
    longer.put_u8(9);
    assert_eq!(decode_op_rep_import(&longer), Ok(rep));

    let req = OpReqImport {
        status: 0x0111,
        path: [7; 256],
        busid: [8; 32],
    };
    let encoded = encode_op_req_import(&req).unwrap();
    assert_eq!(encoded.len(), 292);
    assert_eq!(&encoded[..4], &[0, 0, 1, 0x11]);
    assert_eq!(decode_op_req_import(&encoded), Ok(req));
}
