use core::mem::size_of;

use easy_usb_core::protocol::constants;
use easy_usb_core::protocol::wire::{
    header_command, CommandSpecific, OpRepImport, OpReqImport, UsbipHeader, UsbipHeaderBasic,
    UsbipHeaderCmdSubmit, UsbipHeaderCmdUnlink, UsbipHeaderRetSubmit, UsbipHeaderRetUnlink,
    UsbipHeaderUnion,
};

fn basic(command: u32) -> UsbipHeaderBasic {
    UsbipHeaderBasic {
        command,
        seqnum: 7,
        devid: 3,
        direction: constants::USBIP_DIR_OUT,
        ep: 2,
    }
}

#[test]
fn size_assertions() {
    assert_eq!(size_of::<UsbipHeaderBasic>(), 20, "UsbipHeaderBasic size mismatch");
    assert_eq!(
        size_of::<UsbipHeaderCmdSubmit>(),
        28,
        "UsbipHeaderCmdSubmit size mismatch"
    );
    assert_eq!(
        size_of::<UsbipHeaderRetSubmit>(),
        28,
        "UsbipHeaderRetSubmit size mismatch"
    );
    assert_eq!(
        size_of::<UsbipHeaderCmdUnlink>(),
        28,
        "UsbipHeaderCmdUnlink size mismatch"
    );
    assert_eq!(
        size_of::<UsbipHeaderRetUnlink>(),
        28,
        "UsbipHeaderRetUnlink size mismatch"
    );
    assert_eq!(size_of::<UsbipHeader>(), 48, "UsbipHeader size mismatch");
    assert_eq!(size_of::<OpReqImport>(), 292, "OpReqImport size mismatch");
    assert_eq!(size_of::<OpRepImport>(), 316, "OpRepImport size mismatch");
}

#[test]
fn constants_match_opcodes() {
    assert_eq!(constants::USBIP_VERSION, 0x0111);
    assert_eq!(constants::OP_REQ_IMPORT, 0x8003u32);
    assert_eq!(constants::OP_REP_IMPORT, 0x0003u32);
    assert_eq!(constants::CMD_SUBMIT, 0x0001u32);
    assert_eq!(constants::CMD_UNLINK, 0x0002u32);
    assert_eq!(constants::RET_SUBMIT, 0x0003u32);
    assert_eq!(constants::RET_UNLINK, 0x0004u32);
}

#[test]
fn struct_sizes_match_reference() {
    assert_eq!(size_of::<OpRepImport>(), 316, "OpRepImport must be 316 bytes");
}

#[test]
fn accessors_follow_the_command() {
    let ret = UsbipHeaderRetSubmit {
        status: -32,
        actual_length: 5,
        start_frame: 1,
        number_of_packets: 0,
        error_count: 2,
        setup: [1, 2, 3, 4, 5, 6, 7, 8],
    };
    let header = UsbipHeader {
        base: basic(constants::RET_SUBMIT),
        u: UsbipHeaderUnion::from_ret_submit(ret),
    };
    assert_eq!(header.ret_submit(), Some(ret));
    assert_eq!(header.cmd_submit(), None);
    assert_eq!(header.cmd_unlink(), None);
    assert_eq!(header.ret_unlink(), None);

    let unlink = UsbipHeaderCmdUnlink {
        seqnum: 9,
        __padding: [1, 2, 3, 4, 5, 6],
    };
    let header = UsbipHeader {
        base: basic(constants::CMD_UNLINK),
        u: UsbipHeaderUnion::from_cmd_unlink(unlink),
    };
    assert_eq!(header.cmd_unlink(), Some(unlink));
    assert_eq!(header.ret_submit(), None);
}

#[test]
fn union_can_be_read_as_another_part() {
    let unlink = UsbipHeaderRetUnlink {
        status: -1,
        __padding: [16, 0, 0, 10, 0x0403_0201, 0x0807_0605],
    };
    let u = UsbipHeaderUnion::from_ret_unlink(unlink);
    let cmd = u.to_cmd_submit();
    assert_eq!(cmd.transfer_flags, u32::MAX);
    assert_eq!(cmd.transfer_buffer_length, 16);
    assert_eq!(cmd.interval, 10);
    assert_eq!(cmd.setup, [1, 2, 3, 4, 5, 6, 7, 8]);
    assert_eq!(u.to_ret_unlink(), unlink);
}

#[test]
fn headers_compare_by_their_basic_part() {
    let a = UsbipHeader {
        base: basic(constants::CMD_UNLINK),
        u: UsbipHeaderUnion { words: [0; 7] },
    };
    let b = UsbipHeader {
        base: basic(constants::CMD_UNLINK),
        u: UsbipHeaderUnion { words: [1; 7] },
    };
    let c = UsbipHeader {
        base: basic(constants::RET_UNLINK),
        u: UsbipHeaderUnion { words: [0; 7] },
    };
    assert_eq!(a, b);
    assert_eq!(a.u, b.u);
    assert_ne!(a, c);
}

#[test]
fn blank_parts_by_command() {
    assert_eq!(
        CommandSpecific::from_command(constants::RET_UNLINK),
        Some(CommandSpecific::RetUnlink(UsbipHeaderRetUnlink {
            status: 0,
            __padding: [0; 6],
        }))
    );
    assert_eq!(
        CommandSpecific::from_command(constants::CMD_SUBMIT),
        Some(CommandSpecific::CmdSubmit(UsbipHeaderCmdSubmit {
            transfer_flags: 0,
            transfer_buffer_length: 0,
            start_frame: 0,
            number_of_packets: 0,
            interval: 0,
            setup: [0; 8],
        }))
    );
    assert!(matches!(
        CommandSpecific::from_command(constants::RET_SUBMIT),
        Some(CommandSpecific::RetSubmit(_))
    ));
    assert!(matches!(
        CommandSpecific::from_command(constants::CMD_UNLINK),
        Some(CommandSpecific::CmdUnlink(_))
    ));
    assert_eq!(CommandSpecific::from_command(5), None);
    assert_eq!(header_command(&basic(0x1234)), 0x1234);
}

#[test]
fn direction_follows_the_transfer_flags() {
    let mut cmd = UsbipHeaderCmdSubmit {
        transfer_flags: constants::USBIP_URB_DIR_IN | constants::USBIP_URB_NO_INTERRUPT,
        transfer_buffer_length: 0,
        start_frame: 0,
        number_of_packets: 0,
        interval: 0,
        setup: [0; 8],
    };
    assert_eq!(cmd.direction(), constants::USBIP_DIR_IN);
    cmd.transfer_flags = constants::USBIP_URB_DIR_OUT;
    assert_eq!(cmd.direction(), constants::USBIP_DIR_OUT);
}

#[test]
fn headers_show_their_basic_part_only() {
    let header = UsbipHeader {
        base: basic(constants::CMD_UNLINK),
        u: UsbipHeaderUnion { words: [9; 7] },
    };
    assert_eq!(format!("{:?}", header.u), "UsbipHeaderUnion { .. }");
    assert_eq!(
        format!("{:?}", header),
        "UsbipHeader { base: UsbipHeaderBasic { command: 2, seqnum: 7, devid: 3, direction: 0, \
         ep: 2 }, u: UsbipHeaderUnion { .. } }"
    );
    assert_eq!(format!("{:#?}", header.u), "UsbipHeaderUnion { .. }");
}
