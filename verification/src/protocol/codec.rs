//! How messages are written as bytes and read back.

use bytes::BytesMut;
use vstd::prelude::*;
use vstd::slice::slice_to_vec;

use crate::protocol::buffer::{
    contents, copy_bytes, new_buffer, new_buffer_for, put_i32, put_slice, put_u16, put_u32, put_u8,
    take_i32, take_u16, take_u32, MAX_BUFFER_LEN,
};
use crate::protocol::constants;
use crate::protocol::octets::{be16, be32, be_i32, i32_at, u16_at, u32_at};
use crate::protocol::wire::{
    CommandSpecific, OpRepImport, OpReqImport, UsbipHeader, UsbipHeaderBasic, UsbipHeaderCmdSubmit,
    UsbipHeaderCmdUnlink, UsbipHeaderRetSubmit, UsbipHeaderRetUnlink, UsbipHeaderUnion,
};
use crate::text::{append_decimal, append_hexadecimal, decimal, hexadecimal};

verus! {

/// What can go wrong with a message.
#[derive(Debug, PartialEq, Eq)]
pub enum ProtocolError {
    IncompleteBuffer { needed: usize, available: usize },
    InvalidCommand { command: u32 },
    InvalidDeviceSpeed { value: u32 },
    BufferTooLarge { size: usize, max: usize },
    IsochronousNotSupported,
    EncodingError(String),
    IoError(String),
}

/// A [`ProtocolError`], with its text as a sequence of characters.
pub enum ProtocolErrorView {
    IncompleteBuffer { needed: int, available: int },
    InvalidCommand { command: u32 },
    InvalidDeviceSpeed { value: u32 },
    BufferTooLarge { size: int, max: int },
    IsochronousNotSupported,
    EncodingError(Seq<char>),
    IoError(Seq<char>),
}

impl View for ProtocolError {
    type V = ProtocolErrorView;

    open spec fn view(&self) -> ProtocolErrorView {
        match *self {
            ProtocolError::IncompleteBuffer { needed, available } => {
                ProtocolErrorView::IncompleteBuffer {
                    needed: needed as int,
                    available: available as int,
                }
            },
            ProtocolError::InvalidCommand { command } => {
                ProtocolErrorView::InvalidCommand { command }
            },
            ProtocolError::InvalidDeviceSpeed { value } => {
                ProtocolErrorView::InvalidDeviceSpeed { value }
            },
            ProtocolError::BufferTooLarge { size, max } => {
                ProtocolErrorView::BufferTooLarge { size: size as int, max: max as int }
            },
            ProtocolError::IsochronousNotSupported => ProtocolErrorView::IsochronousNotSupported,
            ProtocolError::EncodingError(text) => ProtocolErrorView::EncodingError(text@),
            ProtocolError::IoError(text) => ProtocolErrorView::IoError(text@),
        }
    }
}

impl ProtocolErrorView {
    /// The message that is shown for the error.
    pub open spec fn message(self) -> Seq<char> {
        match self {
            ProtocolErrorView::IncompleteBuffer { needed, available } => {
                "incomplete buffer: need "@ + decimal(needed as nat) + " bytes, have "@ + decimal(
                    available as nat,
                )
            },
            ProtocolErrorView::InvalidCommand { command } => {
                "invalid command: 0x"@ + hexadecimal(command as nat, 8)
            },
            ProtocolErrorView::InvalidDeviceSpeed { value } => {
                "invalid device speed: "@ + decimal(value as nat)
            },
            ProtocolErrorView::BufferTooLarge { size, max } => {
                "buffer too large: "@ + decimal(size as nat) + " bytes exceeds maximum "@ + decimal(
                    max as nat,
                )
            },
            ProtocolErrorView::IsochronousNotSupported => {
                "isochronous transfers not supported in v1"@
            },
            ProtocolErrorView::EncodingError(text) => "encoding error: "@ + text,
            ProtocolErrorView::IoError(text) => "I/O error: "@ + text,
        }
    }
}

impl ProtocolError {
    /// The message that is shown for the error.
    pub fn to_string(&self) -> (message: String)
        ensures
            message@ == self@.message(),
    {
        match self {
            ProtocolError::IncompleteBuffer { needed, available } => {
                let mut message = "incomplete buffer: need ".to_string();
                append_decimal(&mut message, *needed as u64);
                message.append(" bytes, have ");
                append_decimal(&mut message, *available as u64);
                message
            },
            ProtocolError::InvalidCommand { command } => {
                let mut message = "invalid command: 0x".to_string();
                append_hexadecimal(&mut message, *command as u64, 8);
                message
            },
            ProtocolError::InvalidDeviceSpeed { value } => {
                let mut message = "invalid device speed: ".to_string();
                append_decimal(&mut message, *value as u64);
                message
            },
            ProtocolError::BufferTooLarge { size, max } => {
                let mut message = "buffer too large: ".to_string();
                append_decimal(&mut message, *size as u64);
                message.append(" bytes exceeds maximum ");
                append_decimal(&mut message, *max as u64);
                message
            },
            ProtocolError::IsochronousNotSupported => {
                "isochronous transfers not supported in v1".to_string()
            },
            ProtocolError::EncodingError(text) => "encoding error: ".to_string().concat(
                text.as_str(),
            ),
            ProtocolError::IoError(text) => "I/O error: ".to_string().concat(text.as_str()),
        }
    }
}

/// The longest payload of a message.
pub const MAX_PAYLOAD_SIZE: usize = 1_048_576;

/// The length of the basic header.
pub const BASIC_HEADER_SIZE: usize = 20;

/// The length of the command-specific part of a header.
pub const CMD_HEADER_SIZE: usize = 28;

/// Where the payload starts.
pub const PAYLOAD_OFFSET: usize = 48;

/// The length of a request to import a device.
pub const OP_REQ_IMPORT_SIZE: usize = 292;

/// The length of a reply to such a request.
pub const OP_REP_IMPORT_SIZE: usize = 316;

/// Whether `direction` is one that the protocol knows.
pub open spec fn valid_direction(direction: u32) -> bool {
    direction == constants::USBIP_DIR_OUT || direction == constants::USBIP_DIR_IN
}

/// The error for a direction that the protocol does not know.
pub open spec fn bad_direction(direction: u32) -> ProtocolErrorView {
    ProtocolErrorView::EncodingError("invalid direction value: "@ + decimal(direction as nat))
}

/// The bytes of a basic header.
pub open spec fn basic_bytes(basic: UsbipHeaderBasic) -> Seq<u8> {
    be32(basic.command) + be32(basic.seqnum) + be32(basic.devid) + be32(basic.direction) + be32(
        basic.ep,
    )
}

/// The bytes of the specific part of a submit request.
pub open spec fn cmd_submit_bytes(cmd: UsbipHeaderCmdSubmit) -> Seq<u8> {
    be32(cmd.transfer_flags) + be_i32(cmd.transfer_buffer_length) + be_i32(cmd.start_frame)
        + be_i32(cmd.number_of_packets) + be_i32(cmd.interval) + cmd.setup@
}

/// The bytes of the specific part of a submit reply.
pub open spec fn ret_submit_bytes(ret: UsbipHeaderRetSubmit) -> Seq<u8> {
    be_i32(ret.status) + be_i32(ret.actual_length) + be_i32(ret.start_frame) + be_i32(
        ret.number_of_packets,
    ) + be_i32(ret.error_count) + ret.setup@
}

/// The bytes of the first `n` of a sequence of words.
pub open spec fn words_bytes(words: Seq<u32>, n: int) -> Seq<u8>
    decreases n,
{
    if n <= 0 {
        Seq::empty()
    } else {
        words_bytes(words, n - 1) + be32(words[n - 1])
    }
}

/// The bytes of the specific part of an unlink request.
pub open spec fn cmd_unlink_bytes(cmd: UsbipHeaderCmdUnlink) -> Seq<u8> {
    be32(cmd.seqnum) + words_bytes(cmd.__padding@, 6)
}

/// The bytes of the specific part of an unlink reply.
pub open spec fn ret_unlink_bytes(ret: UsbipHeaderRetUnlink) -> Seq<u8> {
    be_i32(ret.status) + words_bytes(ret.__padding@, 6)
}

/// The bytes of a command-specific part.
pub open spec fn part_bytes(part: CommandSpecific) -> Seq<u8> {
    match part {
        CommandSpecific::CmdSubmit(cmd) => cmd_submit_bytes(cmd),
        CommandSpecific::RetSubmit(ret) => ret_submit_bytes(ret),
        CommandSpecific::CmdUnlink(cmd) => cmd_unlink_bytes(cmd),
        CommandSpecific::RetUnlink(ret) => ret_unlink_bytes(ret),
    }
}

impl UsbipHeader {
    /// The command-specific part, as the command selects it; nothing for an unknown command.
    pub open spec fn part(self) -> Option<CommandSpecific> {
        if self.base.command == constants::CMD_SUBMIT {
            Some(CommandSpecific::CmdSubmit(self.u.cmd_submit()))
        } else if self.base.command == constants::RET_SUBMIT {
            Some(CommandSpecific::RetSubmit(self.u.ret_submit()))
        } else if self.base.command == constants::CMD_UNLINK {
            Some(CommandSpecific::CmdUnlink(self.u.cmd_unlink()))
        } else if self.base.command == constants::RET_UNLINK {
            Some(CommandSpecific::RetUnlink(self.u.ret_unlink()))
        } else {
            None
        }
    }
}

/// How many payload bytes a header announces: those of an outgoing submit request or of a
/// submit reply, where the announced length is positive.
pub open spec fn announced_payload(base: UsbipHeaderBasic, part: CommandSpecific) -> int {
    match part {
        CommandSpecific::CmdSubmit(cmd) => {
            if base.direction == constants::USBIP_DIR_OUT && cmd.transfer_buffer_length > 0 {
                cmd.transfer_buffer_length as int
            } else {
                0
            }
        },
        CommandSpecific::RetSubmit(ret) => {
            if ret.actual_length > 0 {
                ret.actual_length as int
            } else {
                0
            }
        },
        _ => 0,
    }
}

/// How many isochronous packets a part announces.
pub open spec fn packets_of(part: CommandSpecific) -> int {
    match part {
        CommandSpecific::CmdSubmit(cmd) => cmd.number_of_packets as int,
        CommandSpecific::RetSubmit(ret) => ret.number_of_packets as int,
        _ => 0,
    }
}

/// The message for a payload that is announced and not given.
pub open spec fn missing_payload(part: CommandSpecific) -> Seq<char> {
    match part {
        CommandSpecific::CmdSubmit(_) => {
            "CMD_SUBMIT with transfer_buffer_length > 0 requires payload"@
        },
        _ => "RET_SUBMIT with actual_length > 0 requires payload"@,
    }
}

/// The error for a payload of `size` bytes that is too long.
pub open spec fn payload_too_large(size: int) -> ProtocolErrorView {
    ProtocolErrorView::BufferTooLarge { size, max: MAX_PAYLOAD_SIZE as int }
}

/// What writing a header with a payload gives. Where the header announces no payload, a
/// given one is left out.
pub open spec fn encoded_header(header: UsbipHeader, payload: Option<Seq<u8>>) -> Result<
    Seq<u8>,
    ProtocolErrorView,
> {
    if !valid_direction(header.base.direction) {
        Err(bad_direction(header.base.direction))
    } else {
        match header.part() {
            None => Err(ProtocolErrorView::InvalidCommand { command: header.base.command }),
            Some(part) => {
                let bytes = basic_bytes(header.base) + part_bytes(part);
                if packets_of(part) != 0 {
                    Err(ProtocolErrorView::IsochronousNotSupported)
                } else if announced_payload(header.base, part) == 0 {
                    Ok(bytes)
                } else {
                    match payload {
                        None => Err(ProtocolErrorView::EncodingError(missing_payload(part))),
                        Some(payload) => if payload.len() > MAX_PAYLOAD_SIZE {
                            Err(payload_too_large(payload.len() as int))
                        } else {
                            Ok(bytes + payload)
                        },
                    }
                }
            },
        }
    }
}

/// The bytes of an optional payload.
pub open spec fn payload_bytes(payload: Option<&[u8]>) -> Option<Seq<u8>> {
    match payload {
        Some(bytes) => Some(bytes@),
        None => None,
    }
}

/// The bytes of an optional payload that is owned.
pub open spec fn owned_payload_bytes(payload: Option<Vec<u8>>) -> Option<Seq<u8>> {
    match payload {
        Some(bytes) => Some(bytes@),
        None => None,
    }
}

/// The basic header that `s` starts with.
pub open spec fn basic_at(s: Seq<u8>) -> UsbipHeaderBasic {
    UsbipHeaderBasic {
        command: u32_at(s, 0),
        seqnum: u32_at(s, 4),
        devid: u32_at(s, 8),
        direction: u32_at(s, 12),
        ep: u32_at(s, 16),
    }
}

/// The submit request that `s` starts with.
pub open spec fn cmd_submit_at(s: Seq<u8>) -> UsbipHeaderCmdSubmit {
    UsbipHeaderCmdSubmit {
        transfer_flags: u32_at(s, 0),
        transfer_buffer_length: i32_at(s, 4),
        start_frame: i32_at(s, 8),
        number_of_packets: i32_at(s, 12),
        interval: i32_at(s, 16),
        setup: [s[20], s[21], s[22], s[23], s[24], s[25], s[26], s[27]],
    }
}

/// The submit reply that `s` starts with.
pub open spec fn ret_submit_at(s: Seq<u8>) -> UsbipHeaderRetSubmit {
    UsbipHeaderRetSubmit {
        status: i32_at(s, 0),
        actual_length: i32_at(s, 4),
        start_frame: i32_at(s, 8),
        number_of_packets: i32_at(s, 12),
        error_count: i32_at(s, 16),
        setup: [s[20], s[21], s[22], s[23], s[24], s[25], s[26], s[27]],
    }
}

/// The unlink request that `s` starts with.
pub open spec fn cmd_unlink_at(s: Seq<u8>) -> UsbipHeaderCmdUnlink {
    UsbipHeaderCmdUnlink {
        seqnum: u32_at(s, 0),
        __padding: [
            u32_at(s, 4),
            u32_at(s, 8),
            u32_at(s, 12),
            u32_at(s, 16),
            u32_at(s, 20),
            u32_at(s, 24),
        ],
    }
}

/// The unlink reply that `s` starts with.
pub open spec fn ret_unlink_at(s: Seq<u8>) -> UsbipHeaderRetUnlink {
    UsbipHeaderRetUnlink {
        status: i32_at(s, 0),
        __padding: [
            u32_at(s, 4),
            u32_at(s, 8),
            u32_at(s, 12),
            u32_at(s, 16),
            u32_at(s, 20),
            u32_at(s, 24),
        ],
    }
}

/// The specific part of `command` that `s` starts with; nothing for an unknown command.
pub open spec fn part_at(command: u32, s: Seq<u8>) -> Option<CommandSpecific> {
    if command == constants::CMD_SUBMIT {
        Some(CommandSpecific::CmdSubmit(cmd_submit_at(s)))
    } else if command == constants::RET_SUBMIT {
        Some(CommandSpecific::RetSubmit(ret_submit_at(s)))
    } else if command == constants::CMD_UNLINK {
        Some(CommandSpecific::CmdUnlink(cmd_unlink_at(s)))
    } else if command == constants::RET_UNLINK {
        Some(CommandSpecific::RetUnlink(ret_unlink_at(s)))
    } else {
        None
    }
}

/// The error for a buffer that ends too early.
pub open spec fn incomplete(needed: int, available: nat) -> ProtocolErrorView {
    ProtocolErrorView::IncompleteBuffer { needed, available: available as int }
}

/// What reading a header off `s` gives: its basic part, its specific part and its payload.
/// Bytes after the announced payload are left out.
pub open spec fn decoded_header(s: Seq<u8>) -> Result<
    (UsbipHeaderBasic, CommandSpecific, Option<Seq<u8>>),
    ProtocolErrorView,
> {
    let base = basic_at(s);
    if s.len() < BASIC_HEADER_SIZE {
        Err(incomplete(BASIC_HEADER_SIZE as int, s.len()))
    } else if !valid_direction(base.direction) {
        Err(bad_direction(base.direction))
    } else if s.len() < PAYLOAD_OFFSET {
        Err(incomplete(PAYLOAD_OFFSET as int, s.len()))
    } else {
        match part_at(base.command, s.skip(BASIC_HEADER_SIZE as int)) {
            None => Err(ProtocolErrorView::InvalidCommand { command: base.command }),
            Some(part) => {
                let length = announced_payload(base, part);
                if length == 0 {
                    Ok((base, part, None))
                } else if s.len() < PAYLOAD_OFFSET + length {
                    Err(incomplete(PAYLOAD_OFFSET + length, s.len()))
                } else if length > MAX_PAYLOAD_SIZE {
                    Err(payload_too_large(length))
                } else {
                    Ok(
                        (
                            base,
                            part,
                            Some(s.subrange(PAYLOAD_OFFSET as int, PAYLOAD_OFFSET + length)),
                        ),
                    )
                }
            },
        }
    }
}

/// Whether `result` is the outcome `expected` of reading a header.
pub open spec fn is_decoded(
    result: Result<(UsbipHeader, Option<Vec<u8>>), ProtocolError>,
    expected: Result<(UsbipHeaderBasic, CommandSpecific, Option<Seq<u8>>), ProtocolErrorView>,
) -> bool {
    match expected {
        Ok((base, part, payload)) => {
            &&& result matches Ok((header, bytes))
            &&& header.base == base
            &&& header.part() == Some(part)
            &&& owned_payload_bytes(bytes) == payload
        },
        Err(error) => result matches Err(e) && e@ == error,
    }
}

/// Writes a header, and the payload where the header announces one.
pub fn encode_header(header: &UsbipHeader, payload: Option<&[u8]>) -> (result: Result<
    BytesMut,
    ProtocolError,
>)
    ensures
        match encoded_header(*header, payload_bytes(payload)) {
            Ok(bytes) => result matches Ok(buf) && contents(buf) == bytes,
            Err(error) => result matches Err(e) && e@ == error,
        },
{
    let mut buf = new_buffer();
    encode_basic(header.base, &mut buf)?;
    match header.base.command {
        constants::CMD_SUBMIT => {
            let cmd = header.u.to_cmd_submit();
            encode_cmd_submit(&cmd, &mut buf)?;
            if header.base.direction == constants::USBIP_DIR_OUT && cmd.transfer_buffer_length > 0 {
                let payload = match payload {
                    Some(payload) => payload,
                    None => return Err(
                        ProtocolError::EncodingError(
                            "CMD_SUBMIT with transfer_buffer_length > 0 requires payload".to_string(),
                        ),
                    ),
                };
                if payload.len() > MAX_PAYLOAD_SIZE {
                    return Err(
                        ProtocolError::BufferTooLarge {
                            size: payload.len(),
                            max: MAX_PAYLOAD_SIZE,
                        },
                    );
                }
                put_slice(&mut buf, payload);
            }
        },
        constants::RET_SUBMIT => {
            let ret = header.u.to_ret_submit();
            encode_ret_submit(&ret, &mut buf)?;
            if ret.actual_length > 0 {
                let payload = match payload {
                    Some(payload) => payload,
                    None => return Err(
                        ProtocolError::EncodingError(
                            "RET_SUBMIT with actual_length > 0 requires payload".to_string(),
                        ),
                    ),
                };
                if payload.len() > MAX_PAYLOAD_SIZE {
                    return Err(
                        ProtocolError::BufferTooLarge {
                            size: payload.len(),
                            max: MAX_PAYLOAD_SIZE,
                        },
                    );
                }
                put_slice(&mut buf, payload);
            }
        },
        constants::CMD_UNLINK => {
            let cmd = header.u.to_cmd_unlink();
            encode_cmd_unlink(&cmd, &mut buf);
        },
        constants::RET_UNLINK => {
            let ret = header.u.to_ret_unlink();
            encode_ret_unlink(&ret, &mut buf);
        },
        _ => {
            return Err(ProtocolError::InvalidCommand { command: header.base.command });
        },
    }
    Ok(buf)
}

/// Reads a header and the payload that it announces.
pub fn decode_header(buf: &[u8]) -> (result: Result<(UsbipHeader, Option<Vec<u8>>), ProtocolError>)
    ensures
        is_decoded(result, decoded_header(buf@)),
{
    let basic = decode_basic(buf)?;
    if buf.len() < PAYLOAD_OFFSET {
        return Err(
            ProtocolError::IncompleteBuffer { needed: PAYLOAD_OFFSET, available: buf.len() },
        );
    }
    let part = &buf[BASIC_HEADER_SIZE..PAYLOAD_OFFSET];
    proof {
        lemma_part_window(buf@);
    }
    let mut payload: Option<Vec<u8>> = None;
    let header: UsbipHeader;
    match basic.command {
        constants::CMD_SUBMIT => {
            let cmd = decode_cmd_submit(part)?;
            if cmd.transfer_buffer_length > 0 && basic.direction == constants::USBIP_DIR_OUT {
                payload = Some(decode_payload(buf, cmd.transfer_buffer_length as usize)?);
            }
            header = UsbipHeader { base: basic, u: UsbipHeaderUnion::from_cmd_submit(cmd) };
        },
        constants::RET_SUBMIT => {
            let ret = decode_ret_submit(part)?;
            if ret.actual_length > 0 {
                payload = Some(decode_payload(buf, ret.actual_length as usize)?);
            }
            header = UsbipHeader { base: basic, u: UsbipHeaderUnion::from_ret_submit(ret) };
        },
        constants::CMD_UNLINK => {
            let cmd = decode_cmd_unlink(part)?;
            header = UsbipHeader { base: basic, u: UsbipHeaderUnion::from_cmd_unlink(cmd) };
        },
        constants::RET_UNLINK => {
            let ret = decode_ret_unlink(part)?;
            header = UsbipHeader { base: basic, u: UsbipHeaderUnion::from_ret_unlink(ret) };
        },
        _ => {
            return Err(ProtocolError::InvalidCommand { command: basic.command });
        },
    }
    Ok((header, payload))
}

/// What is read of a specific part lies within its own bytes.
proof fn lemma_part_window(s: Seq<u8>)
    requires
        s.len() >= PAYLOAD_OFFSET,
    ensures
        forall|command: u32|
            part_at(command, s.subrange(BASIC_HEADER_SIZE as int, PAYLOAD_OFFSET as int))
                == #[trigger] part_at(command, s.skip(BASIC_HEADER_SIZE as int)),
{
    let window = s.subrange(BASIC_HEADER_SIZE as int, PAYLOAD_OFFSET as int);
    let rest = s.skip(BASIC_HEADER_SIZE as int);
    assert forall|i: int| 0 <= i < CMD_HEADER_SIZE implies #[trigger] window[i] == rest[i] by {}
}

/// Copies the `length` payload bytes out of a message.
fn decode_payload(buf: &[u8], length: usize) -> (result: Result<Vec<u8>, ProtocolError>)
    requires
        length <= i32::MAX,
        buf@.len() >= PAYLOAD_OFFSET,
    ensures
        if buf@.len() < PAYLOAD_OFFSET + length {
            result matches Err(e) && e@ == incomplete(PAYLOAD_OFFSET + length, buf@.len())
        } else if length > MAX_PAYLOAD_SIZE {
            result matches Err(e) && e@ == payload_too_large(length as int)
        } else {
            result matches Ok(bytes) && bytes@ == buf@.subrange(
                PAYLOAD_OFFSET as int,
                PAYLOAD_OFFSET + length,
            )
        },
{
    if buf.len() < PAYLOAD_OFFSET + length {
        return Err(
            ProtocolError::IncompleteBuffer {
                needed: PAYLOAD_OFFSET + length,
                available: buf.len(),
            },
        );
    }
    if length > MAX_PAYLOAD_SIZE {
        return Err(ProtocolError::BufferTooLarge { size: length, max: MAX_PAYLOAD_SIZE });
    }
    Ok(slice_to_vec(&buf[PAYLOAD_OFFSET..PAYLOAD_OFFSET + length]))
}

/// Appends a basic header.
fn encode_basic(basic: UsbipHeaderBasic, buf: &mut BytesMut) -> (result: Result<(), ProtocolError>)
    requires
        contents(*old(buf)).len() + BASIC_HEADER_SIZE <= MAX_BUFFER_LEN,
    ensures
        if valid_direction(basic.direction) {
            &&& result is Ok
            &&& contents(*final(buf)) == contents(*old(buf)) + basic_bytes(basic)
        } else {
            &&& result matches Err(e)
            &&& e@ == bad_direction(basic.direction)
            &&& contents(*final(buf)) == contents(*old(buf))
        },
{
    if basic.direction != constants::USBIP_DIR_OUT && basic.direction != constants::USBIP_DIR_IN {
        return Err(bad_direction_error(basic.direction));
    }
    put_u32(buf, basic.command);
    put_u32(buf, basic.seqnum);
    put_u32(buf, basic.devid);
    put_u32(buf, basic.direction);
    put_u32(buf, basic.ep);
    Ok(())
}

fn bad_direction_error(direction: u32) -> (error: ProtocolError)
    ensures
        error@ == bad_direction(direction),
{
    let mut text = "invalid direction value: ".to_string();
    append_decimal(&mut text, direction as u64);
    ProtocolError::EncodingError(text)
}

/// Reads a basic header.
fn decode_basic(buf: &[u8]) -> (result: Result<UsbipHeaderBasic, ProtocolError>)
    ensures
        if buf@.len() < BASIC_HEADER_SIZE {
            result matches Err(e) && e@ == incomplete(BASIC_HEADER_SIZE as int, buf@.len())
        } else if !valid_direction(basic_at(buf@).direction) {
            result matches Err(e) && e@ == bad_direction(basic_at(buf@).direction)
        } else {
            result matches Ok(basic) && basic == basic_at(buf@)
        },
{
    if buf.len() < BASIC_HEADER_SIZE {
        return Err(
            ProtocolError::IncompleteBuffer { needed: BASIC_HEADER_SIZE, available: buf.len() },
        );
    }
    let mut reader = &buf[0..BASIC_HEADER_SIZE];
    let command = take_u32(&mut reader);
    let seqnum = take_u32(&mut reader);
    let devid = take_u32(&mut reader);
    let direction = take_u32(&mut reader);
    let ep = take_u32(&mut reader);
    if direction != constants::USBIP_DIR_OUT && direction != constants::USBIP_DIR_IN {
        return Err(bad_direction_error(direction));
    }
    Ok(UsbipHeaderBasic { command, seqnum, devid, direction, ep })
}

/// Appends the specific part of a submit request.
fn encode_cmd_submit(cmd: &UsbipHeaderCmdSubmit, buf: &mut BytesMut) -> (result: Result<
    (),
    ProtocolError,
>)
    requires
        contents(*old(buf)).len() + CMD_HEADER_SIZE <= MAX_BUFFER_LEN,
    ensures
        if cmd.number_of_packets == 0 {
            &&& result is Ok
            &&& contents(*final(buf)) == contents(*old(buf)) + cmd_submit_bytes(*cmd)
        } else {
            &&& result matches Err(e)
            &&& e@ == ProtocolErrorView::IsochronousNotSupported
            &&& contents(*final(buf)) == contents(*old(buf))
        },
{
    if cmd.number_of_packets != 0 {
        return Err(ProtocolError::IsochronousNotSupported);
    }
    put_u32(buf, cmd.transfer_flags);
    put_i32(buf, cmd.transfer_buffer_length);
    put_i32(buf, cmd.start_frame);
    put_i32(buf, cmd.number_of_packets);
    put_i32(buf, cmd.interval);
    put_slice(buf, &cmd.setup);
    Ok(())
}

/// Reads the eight bytes that a reader starts with.
fn take_setup(reader: &[u8]) -> (setup: [u8; 8])
    requires
        reader@.len() >= 8,
    ensures
        setup@ == reader@.take(8),
{
    let mut setup: [u8; 8] = [0u8; 8];
    copy_bytes(&mut setup, &reader[0..8]);
    setup
}

/// Reads the specific part of a submit request.
fn decode_cmd_submit(buf: &[u8]) -> (result: Result<UsbipHeaderCmdSubmit, ProtocolError>)
    ensures
        if buf@.len() < CMD_HEADER_SIZE {
            result matches Err(e) && e@ == incomplete(CMD_HEADER_SIZE as int, buf@.len())
        } else {
            result matches Ok(cmd) && cmd == cmd_submit_at(buf@)
        },
{
    if buf.len() < CMD_HEADER_SIZE {
        return Err(
            ProtocolError::IncompleteBuffer { needed: CMD_HEADER_SIZE, available: buf.len() },
        );
    }
    let mut reader = &buf[0..CMD_HEADER_SIZE];
    let transfer_flags = take_u32(&mut reader);
    let transfer_buffer_length = take_i32(&mut reader);
    let start_frame = take_i32(&mut reader);
    let number_of_packets = take_i32(&mut reader);
    let interval = take_i32(&mut reader);
    let setup = take_setup(reader);
    assert(setup =~= cmd_submit_at(buf@).setup);
    Ok(
        UsbipHeaderCmdSubmit {
            transfer_flags,
            transfer_buffer_length,
            start_frame,
            number_of_packets,
            interval,
            setup,
        },
    )
}

/// Appends the specific part of a submit reply.
fn encode_ret_submit(ret: &UsbipHeaderRetSubmit, buf: &mut BytesMut) -> (result: Result<
    (),
    ProtocolError,
>)
    requires
        contents(*old(buf)).len() + CMD_HEADER_SIZE <= MAX_BUFFER_LEN,
    ensures
        if ret.number_of_packets == 0 {
            &&& result is Ok
            &&& contents(*final(buf)) == contents(*old(buf)) + ret_submit_bytes(*ret)
        } else {
            &&& result matches Err(e)
            &&& e@ == ProtocolErrorView::IsochronousNotSupported
            &&& contents(*final(buf)) == contents(*old(buf))
        },
{
    if ret.number_of_packets != 0 {
        return Err(ProtocolError::IsochronousNotSupported);
    }
    put_i32(buf, ret.status);
    put_i32(buf, ret.actual_length);
    put_i32(buf, ret.start_frame);
    put_i32(buf, ret.number_of_packets);
    put_i32(buf, ret.error_count);
    put_slice(buf, &ret.setup);
    Ok(())
}

/// Reads the specific part of a submit reply.
fn decode_ret_submit(buf: &[u8]) -> (result: Result<UsbipHeaderRetSubmit, ProtocolError>)
    ensures
        if buf@.len() < CMD_HEADER_SIZE {
            result matches Err(e) && e@ == incomplete(CMD_HEADER_SIZE as int, buf@.len())
        } else {
            result matches Ok(ret) && ret == ret_submit_at(buf@)
        },
{
    if buf.len() < CMD_HEADER_SIZE {
        return Err(
            ProtocolError::IncompleteBuffer { needed: CMD_HEADER_SIZE, available: buf.len() },
        );
    }
    let mut reader = &buf[0..CMD_HEADER_SIZE];
    let status = take_i32(&mut reader);
    let actual_length = take_i32(&mut reader);
    let start_frame = take_i32(&mut reader);
    let number_of_packets = take_i32(&mut reader);
    let error_count = take_i32(&mut reader);
    let setup = take_setup(reader);
    assert(setup =~= ret_submit_at(buf@).setup);
    Ok(
        UsbipHeaderRetSubmit {
            status,
            actual_length,
            start_frame,
            number_of_packets,
            error_count,
            setup,
        },
    )
}

/// Appends six words.
fn put_words(words: &[u32; 6], buf: &mut BytesMut)
    requires
        contents(*old(buf)).len() + 24 <= MAX_BUFFER_LEN,
    ensures
        contents(*final(buf)) == contents(*old(buf)) + words_bytes(words@, 6),
{
    let ghost before = contents(*buf);
    let mut i: usize = 0;
    while i < 6
        invariant
            i <= 6,
            before.len() + 24 <= MAX_BUFFER_LEN,
            contents(*buf) == before + words_bytes(words@, i as int),
            words_bytes(words@, i as int).len() == 4 * i,
        decreases 6 - i,
    {
        put_u32(buf, words[i]);
        i = i + 1;
    }
}

/// Takes six words off a reader.
fn take_words(reader: &mut &[u8]) -> (words: [u32; 6])
    requires
        old(reader)@.len() >= 24,
    ensures
        forall|i: int| 0 <= i < 6 ==> #[trigger] words@[i] == u32_at(old(reader)@, 4 * i),
{
    let mut words: [u32; 6] = [0u32; 6];
    let ghost before = reader@;
    let mut i: usize = 0;
    while i < 6
        invariant
            i <= 6,
            before.len() >= 24,
            reader@ == before.skip(4 * i),
            forall|j: int| 0 <= j < i ==> #[trigger] words@[j] == u32_at(before, 4 * j),
        decreases 6 - i,
    {
        words[i] = take_u32(reader);
        i = i + 1;
    }
    words
}

/// Appends the specific part of an unlink request.
fn encode_cmd_unlink(cmd: &UsbipHeaderCmdUnlink, buf: &mut BytesMut)
    requires
        contents(*old(buf)).len() + CMD_HEADER_SIZE <= MAX_BUFFER_LEN,
    ensures
        contents(*final(buf)) == contents(*old(buf)) + cmd_unlink_bytes(*cmd),
{
    put_u32(buf, cmd.seqnum);
    put_words(&cmd.__padding, buf);
}

/// Reads the specific part of an unlink request.
fn decode_cmd_unlink(buf: &[u8]) -> (result: Result<UsbipHeaderCmdUnlink, ProtocolError>)
    ensures
        if buf@.len() < CMD_HEADER_SIZE {
            result matches Err(e) && e@ == incomplete(CMD_HEADER_SIZE as int, buf@.len())
        } else {
            result matches Ok(cmd) && cmd == cmd_unlink_at(buf@)
        },
{
    if buf.len() < CMD_HEADER_SIZE {
        return Err(
            ProtocolError::IncompleteBuffer { needed: CMD_HEADER_SIZE, available: buf.len() },
        );
    }
    let mut reader = &buf[0..CMD_HEADER_SIZE];
    let seqnum = take_u32(&mut reader);
    let padding = take_words(&mut reader);
    assert(padding =~= cmd_unlink_at(buf@).__padding);
    Ok(UsbipHeaderCmdUnlink { seqnum, __padding: padding })
}

/// Appends the specific part of an unlink reply.
fn encode_ret_unlink(ret: &UsbipHeaderRetUnlink, buf: &mut BytesMut)
    requires
        contents(*old(buf)).len() + CMD_HEADER_SIZE <= MAX_BUFFER_LEN,
    ensures
        contents(*final(buf)) == contents(*old(buf)) + ret_unlink_bytes(*ret),
{
    put_i32(buf, ret.status);
    put_words(&ret.__padding, buf);
}

/// Reads the specific part of an unlink reply.
fn decode_ret_unlink(buf: &[u8]) -> (result: Result<UsbipHeaderRetUnlink, ProtocolError>)
    ensures
        if buf@.len() < CMD_HEADER_SIZE {
            result matches Err(e) && e@ == incomplete(CMD_HEADER_SIZE as int, buf@.len())
        } else {
            result matches Ok(ret) && ret == ret_unlink_at(buf@)
        },
{
    if buf.len() < CMD_HEADER_SIZE {
        return Err(
            ProtocolError::IncompleteBuffer { needed: CMD_HEADER_SIZE, available: buf.len() },
        );
    }
    let mut reader = &buf[0..CMD_HEADER_SIZE];
    let status = take_i32(&mut reader);
    let padding = take_words(&mut reader);
    assert(padding =~= ret_unlink_at(buf@).__padding);
    Ok(UsbipHeaderRetUnlink { status, __padding: padding })
}

/// The bytes of a request to import a device.
pub open spec fn op_req_import_bytes(req: OpReqImport) -> Seq<u8> {
    be32(req.status) + req.path@ + req.busid@
}

/// Whether `req` is the import request that `s` starts with.
pub open spec fn is_op_req_import_at(s: Seq<u8>, req: OpReqImport) -> bool {
    &&& req.status == u32_at(s, 0)
    &&& req.path@ == s.subrange(4, 260)
    &&& req.busid@ == s.subrange(260, 292)
}

/// The bytes of a reply to an import request.
pub open spec fn op_rep_import_bytes(rep: OpRepImport) -> Seq<u8> {
    be32(rep.status) + rep.path@ + rep.busid@ + be32(rep.busnum) + be32(rep.devnum) + be32(
        rep.speed,
    ) + be16(rep.id_vendor) + be16(rep.id_product) + be16(rep.bcd_device) + seq![
        rep.b_device_class,
        rep.b_device_sub_class,
        rep.b_device_protocol,
        rep.b_configuration_value,
        rep.b_num_configurations,
        rep.b_num_interfaces,
    ]
}

/// Whether `rep` is the import reply that `s` starts with.
pub open spec fn is_op_rep_import_at(s: Seq<u8>, rep: OpRepImport) -> bool {
    &&& rep.status == u32_at(s, 0)
    &&& rep.path@ == s.subrange(4, 260)
    &&& rep.busid@ == s.subrange(260, 292)
    &&& rep.busnum == u32_at(s, 292)
    &&& rep.devnum == u32_at(s, 296)
    &&& rep.speed == u32_at(s, 300)
    &&& rep.id_vendor == u16_at(s, 304)
    &&& rep.id_product == u16_at(s, 306)
    &&& rep.bcd_device == u16_at(s, 308)
    &&& rep.b_device_class == s[310]
    &&& rep.b_device_sub_class == s[311]
    &&& rep.b_device_protocol == s[312]
    &&& rep.b_configuration_value == s[313]
    &&& rep.b_num_configurations == s[314]
    &&& rep.b_num_interfaces == s[315]
}

/// Writes a request to import a device.
pub fn encode_op_req_import(req: &OpReqImport) -> (result: Result<BytesMut, ProtocolError>)
    ensures
        result matches Ok(buf) && contents(buf) == op_req_import_bytes(*req),
{
    let mut buf = new_buffer_for(OP_REQ_IMPORT_SIZE);
    put_u32(&mut buf, req.status);
    put_slice(&mut buf, &req.path);
    put_slice(&mut buf, &req.busid);
    Ok(buf)
}

/// Reads a request to import a device.
pub fn decode_op_req_import(buf: &[u8]) -> (result: Result<OpReqImport, ProtocolError>)
    ensures
        if buf@.len() < OP_REQ_IMPORT_SIZE {
            result matches Err(e) && e@ == incomplete(OP_REQ_IMPORT_SIZE as int, buf@.len())
        } else {
            result matches Ok(req) && is_op_req_import_at(buf@, req)
        },
{
    if buf.len() < OP_REQ_IMPORT_SIZE {
        return Err(
            ProtocolError::IncompleteBuffer { needed: OP_REQ_IMPORT_SIZE, available: buf.len() },
        );
    }
    let mut reader = &buf[0..4];
    let status = take_u32(&mut reader);
    let mut path: [u8; 256] = [0u8; 256];
    copy_bytes(&mut path, &buf[4..260]);
    let mut busid: [u8; 32] = [0u8; 32];
    copy_bytes(&mut busid, &buf[260..292]);
    Ok(OpReqImport { status, path, busid })
}

/// Writes a reply to an import request.
pub fn encode_op_rep_import(rep: &OpRepImport) -> (result: Result<BytesMut, ProtocolError>)
    ensures
        result matches Ok(buf) && contents(buf) == op_rep_import_bytes(*rep),
{
    let mut buf = new_buffer_for(OP_REP_IMPORT_SIZE);
    put_u32(&mut buf, rep.status);
    put_slice(&mut buf, &rep.path);
    put_slice(&mut buf, &rep.busid);
    put_u32(&mut buf, rep.busnum);
    put_u32(&mut buf, rep.devnum);
    put_u32(&mut buf, rep.speed);
    put_u16(&mut buf, rep.id_vendor);
    put_u16(&mut buf, rep.id_product);
    put_u16(&mut buf, rep.bcd_device);
    put_u8(&mut buf, rep.b_device_class);
    put_u8(&mut buf, rep.b_device_sub_class);
    put_u8(&mut buf, rep.b_device_protocol);
    put_u8(&mut buf, rep.b_configuration_value);
    put_u8(&mut buf, rep.b_num_configurations);
    put_u8(&mut buf, rep.b_num_interfaces);
    assert(contents(buf) =~= op_rep_import_bytes(*rep));
    Ok(buf)
}

/// Reads a reply to an import request.
pub fn decode_op_rep_import(buf: &[u8]) -> (result: Result<OpRepImport, ProtocolError>)
    ensures
        if buf@.len() < OP_REP_IMPORT_SIZE {
            result matches Err(e) && e@ == incomplete(OP_REP_IMPORT_SIZE as int, buf@.len())
        } else {
            result matches Ok(rep) && is_op_rep_import_at(buf@, rep)
        },
{
    if buf.len() < OP_REP_IMPORT_SIZE {
        return Err(
            ProtocolError::IncompleteBuffer { needed: OP_REP_IMPORT_SIZE, available: buf.len() },
        );
    }
    let mut reader = &buf[0..4];
    let status = take_u32(&mut reader);
    let mut path: [u8; 256] = [0u8; 256];
    copy_bytes(&mut path, &buf[4..260]);
    let mut busid: [u8; 32] = [0u8; 32];
    copy_bytes(&mut busid, &buf[260..292]);
    let mut reader = &buf[292..310];
    let busnum = take_u32(&mut reader);
    let devnum = take_u32(&mut reader);
    let speed = take_u32(&mut reader);
    let id_vendor = take_u16(&mut reader);
    let id_product = take_u16(&mut reader);
    let bcd_device = take_u16(&mut reader);
    Ok(
        OpRepImport {
            status,
            path,
            busid,
            busnum,
            devnum,
            speed,
            id_vendor,
            id_product,
            bcd_device,
            b_device_class: buf[310],
            b_device_sub_class: buf[311],
            b_device_protocol: buf[312],
            b_configuration_value: buf[313],
            b_num_configurations: buf[314],
            b_num_interfaces: buf[315],
        },
    )
}

impl UsbipHeaderCmdSubmit {
    /// The direction that the transfer flags call for.
    pub fn direction(&self) -> (direction: u32)
        ensures
            direction == if self.transfer_flags & constants::USBIP_URB_DIR_IN != 0 {
                constants::USBIP_DIR_IN
            } else {
                constants::USBIP_DIR_OUT
            },
    {
        if self.transfer_flags & constants::USBIP_URB_DIR_IN != 0 {
            constants::USBIP_DIR_IN
        } else {
            constants::USBIP_DIR_OUT
        }
    }
}

/// What is said of each error: the words for its kind, and what the error holds, in order.
pub proof fn law_protocol_messages(needed: usize, available: usize, n: u32, text: String)
    ensures
        (ProtocolError::IncompleteBuffer { needed, available })@.message()
            == "incomplete buffer: need "@ + decimal(needed as nat) + " bytes, have "@ + decimal(
            available as nat,
        ),
        (ProtocolError::InvalidCommand { command: n })@.message() == "invalid command: 0x"@
            + hexadecimal(n as nat, 8),
        (ProtocolError::InvalidDeviceSpeed { value: n })@.message() == "invalid device speed: "@
            + decimal(n as nat),
        (ProtocolError::BufferTooLarge { size: needed, max: available })@.message()
            == "buffer too large: "@ + decimal(needed as nat) + " bytes exceeds maximum "@
            + decimal(available as nat),
        ProtocolError::IsochronousNotSupported@.message()
            == "isochronous transfers not supported in v1"@,
        ProtocolError::EncodingError(text)@.message() == "encoding error: "@ + text@,
        ProtocolError::IoError(text)@.message() == "I/O error: "@ + text@,
{
}

/// Errors that look the same hold the same: the kind, the numbers and the characters.
pub proof fn law_protocol_errors_are_told_apart(a: ProtocolError, b: ProtocolError)
    ensures
        a@ == b@ <==> match (a, b) {
            (
                ProtocolError::IncompleteBuffer { needed: n, available: m },
                ProtocolError::IncompleteBuffer { needed, available },
            ) => n == needed && m == available,
            (
                ProtocolError::InvalidCommand { command: n },
                ProtocolError::InvalidCommand { command },
            ) => n == command,
            (
                ProtocolError::InvalidDeviceSpeed { value: n },
                ProtocolError::InvalidDeviceSpeed { value },
            ) => n == value,
            (
                ProtocolError::BufferTooLarge { size: n, max: m },
                ProtocolError::BufferTooLarge { size, max },
            ) => n == size && m == max,
            (
                ProtocolError::IsochronousNotSupported,
                ProtocolError::IsochronousNotSupported,
            ) => true,
            (ProtocolError::EncodingError(s), ProtocolError::EncodingError(t)) => s@ == t@,
            (ProtocolError::IoError(s), ProtocolError::IoError(t)) => s@ == t@,
            _ => false,
        },
{
}

} // verus!
