//! The serving end: taking in a request to import a device, and echoing transfers.

use bytes::BytesMut;
use vstd::prelude::*;
use vstd::utf8::{decode_utf8, valid_utf8};

use crate::protocol::buffer::contents;
use crate::protocol::codec::{
    basic_bytes, decode_header, decode_op_req_import, decoded_header, encode_header, incomplete,
    is_op_req_import_at, part_bytes, ProtocolError, ProtocolErrorView, OP_REQ_IMPORT_SIZE,
};
use crate::protocol::constants;
use crate::protocol::framing::{first_frame, length_after_head, Progress, Receiver};
use crate::protocol::wire::{
    CommandSpecific, OpReqImport, UsbipHeader, UsbipHeaderBasic, UsbipHeaderRetSubmit,
    UsbipHeaderRetUnlink, UsbipHeaderUnion,
};
use crate::text::{trim_trailing_nuls, without_trailing_nuls};

verus! {

/// `std::str::Utf8Error`, which says where bytes stop being UTF-8.
#[verifier::external_type_specification]
#[verifier::external_body]
pub struct ExUtf8Error(std::str::Utf8Error);

/// `std::str::from_utf8` gives the text that the bytes encode where they are UTF-8, and fails
/// otherwise.
pub assume_specification[ std::str::from_utf8 ](v: &[u8]) -> (text: Result<
    &str,
    std::str::Utf8Error,
>)
    ensures
        match text {
            Ok(t) => valid_utf8(v@) && t@ == decode_utf8(v@),
            Err(_) => !valid_utf8(v@),
        },
;

/// Why a request to import a device was not taken in.
#[derive(Debug, PartialEq, Eq)]
pub enum AcceptError {
    AcceptFailed(String),
    InvalidRequest(String),
    InvalidReply(String),
}

/// An [`AcceptError`], with its text as a sequence of characters.
pub enum AcceptErrorView {
    AcceptFailed(Seq<char>),
    InvalidRequest(Seq<char>),
    InvalidReply(Seq<char>),
}

impl View for AcceptError {
    type V = AcceptErrorView;

    open spec fn view(&self) -> AcceptErrorView {
        match *self {
            AcceptError::AcceptFailed(text) => AcceptErrorView::AcceptFailed(text@),
            AcceptError::InvalidRequest(text) => AcceptErrorView::InvalidRequest(text@),
            AcceptError::InvalidReply(text) => AcceptErrorView::InvalidReply(text@),
        }
    }
}

impl AcceptErrorView {
    /// The message that is shown for the error.
    pub open spec fn message(self) -> Seq<char> {
        match self {
            AcceptErrorView::AcceptFailed(text) => "accept failed: "@ + text,
            AcceptErrorView::InvalidRequest(text) => "invalid import request: "@ + text,
            AcceptErrorView::InvalidReply(text) => "invalid reply: "@ + text,
        }
    }
}

impl AcceptError {
    /// The message that is shown for the error.
    pub fn to_string(&self) -> (message: String)
        ensures
            message@ == self@.message(),
    {
        match self {
            AcceptError::AcceptFailed(text) => "accept failed: ".to_string().concat(text.as_str()),
            AcceptError::InvalidRequest(text) => "invalid import request: ".to_string().concat(
                text.as_str(),
            ),
            AcceptError::InvalidReply(text) => "invalid reply: ".to_string().concat(text.as_str()),
        }
    }
}

/// Whether all bytes are zero.
pub open spec fn all_zero(bytes: Seq<u8>) -> bool {
    forall|i: int| 0 <= i < bytes.len() ==> bytes[i] == 0
}

/// Why a request for the bus id `busid` is turned away, if it is.
pub open spec fn refusal(busid: Seq<u8>) -> Option<AcceptErrorView> {
    if all_zero(busid) {
        Some(AcceptErrorView::InvalidRequest("empty busid"@))
    } else if !valid_utf8(busid) {
        Some(AcceptErrorView::InvalidRequest("non-UTF-8 busid"@))
    } else {
        None
    }
}

fn is_all_zero(bytes: &[u8]) -> (zero: bool)
    ensures
        zero == all_zero(bytes@),
{
    let mut i: usize = 0;
    while i < bytes.len()
        invariant
            i <= bytes@.len(),
            forall|j: int| 0 <= j < i ==> bytes@[j] == 0,
        decreases bytes@.len() - i,
    {
        if bytes[i] != 0 {
            return false;
        }
        i = i + 1;
    }
    true
}

/// The text of a bus id, which ends where only zero bytes follow; nothing where the bytes are
/// not UTF-8.
pub fn busid_text(busid: &[u8; 32]) -> (text: Option<String>)
    ensures
        if valid_utf8(busid@) {
            text matches Some(t) && t@ == without_trailing_nuls(decode_utf8(busid@))
        } else {
            text is None
        },
{
    match std::str::from_utf8(busid.as_slice()) {
        Ok(text) => Some(trim_trailing_nuls(text)),
        Err(_) => None,
    }
}

/// Whether `result` is the outcome of taking in a request from `read`.
pub open spec fn is_accepted(
    result: Result<OpReqImport, AcceptError>,
    read: Result<Vec<u8>, String>,
) -> bool {
    match read {
        Err(text) => {
            &&& result matches Err(e)
            &&& e@ == AcceptErrorView::AcceptFailed("read OP_REQ_IMPORT: "@ + text@)
        },
        Ok(bytes) => if bytes@.len() < OP_REQ_IMPORT_SIZE {
            &&& result matches Err(e)
            &&& e@ == AcceptErrorView::InvalidRequest(
                incomplete(OP_REQ_IMPORT_SIZE as int, bytes@.len()).message(),
            )
        } else {
            match refusal(bytes@.subrange(260, 292)) {
                Some(error) => result matches Err(e) && e@ == error,
                None => result matches Ok(req) && is_op_req_import_at(bytes@, req),
            }
        },
    }
}

/// Takes in an import request, from what came of reading its bytes off a new connection: the
/// bytes, or the text of the error.
pub fn accept_device(read: Result<Vec<u8>, String>) -> (result: Result<OpReqImport, AcceptError>)
    ensures
        is_accepted(result, read),
{
    let bytes = match read {
        Ok(bytes) => bytes,
        Err(text) => return Err(
            AcceptError::AcceptFailed("read OP_REQ_IMPORT: ".to_string().concat(text.as_str())),
        ),
    };
    let req = match decode_op_req_import(bytes.as_slice()) {
        Ok(req) => req,
        Err(e) => return Err(AcceptError::InvalidRequest(e.to_string())),
    };
    if is_all_zero(req.busid.as_slice()) {
        return Err(AcceptError::InvalidRequest("empty busid".to_string()));
    }
    match busid_text(&req.busid) {
        Some(_) => Ok(req),
        None => Err(AcceptError::InvalidRequest("non-UTF-8 busid".to_string())),
    }
}

/// How many bytes an optional payload has.
pub open spec fn payload_size(payload: Option<Seq<u8>>) -> int {
    match payload {
        Some(bytes) => bytes.len() as int,
        None => 0,
    }
}

/// The header that a request is answered with: a submit request without isochronous packets
/// gets its payload back, and an unlink request is acknowledged.
pub open spec fn echo_of(
    base: UsbipHeaderBasic,
    part: CommandSpecific,
    payload: Option<Seq<u8>>,
) -> Result<(UsbipHeaderBasic, CommandSpecific), ProtocolErrorView> {
    match part {
        CommandSpecific::CmdSubmit(cmd) => if cmd.number_of_packets != 0 {
            Err(ProtocolErrorView::IsochronousNotSupported)
        } else {
            Ok(
                (
                    UsbipHeaderBasic {
                        command: constants::RET_SUBMIT,
                        direction: constants::USBIP_DIR_IN,
                        ..base
                    },
                    CommandSpecific::RetSubmit(
                        UsbipHeaderRetSubmit {
                            status: 0,
                            actual_length: payload_size(payload) as i32,
                            start_frame: 0,
                            number_of_packets: 0,
                            error_count: 0,
                            setup: cmd.setup,
                        },
                    ),
                ),
            )
        },
        CommandSpecific::CmdUnlink(_) => Ok(
            (
                UsbipHeaderBasic { command: constants::RET_UNLINK, ..base },
                CommandSpecific::RetUnlink(
                    UsbipHeaderRetUnlink {
                        status: 0,
                        __padding: [0u32, 0u32, 0u32, 0u32, 0u32, 0u32],
                    },
                ),
            ),
        ),
        _ => Err(ProtocolErrorView::InvalidCommand { command: base.command }),
    }
}

/// The bytes of an answer: its header, and the payload where there is one.
pub open spec fn answer_bytes(
    answer: (UsbipHeaderBasic, CommandSpecific),
    payload: Option<Seq<u8>>,
) -> Seq<u8> {
    match payload {
        Some(bytes) => basic_bytes(answer.0) + part_bytes(answer.1) + bytes,
        None => basic_bytes(answer.0) + part_bytes(answer.1),
    }
}

/// Whether `result` is the outcome of answering `message`: the header that was received, and
/// the bytes to send back.
pub open spec fn is_echoed(
    result: Result<(UsbipHeader, BytesMut), ProtocolError>,
    message: Seq<u8>,
) -> bool {
    match decoded_header(message) {
        Err(error) => result matches Err(e) && e@ == error,
        Ok((base, part, payload)) => match echo_of(base, part, payload) {
            Err(error) => result matches Err(e) && e@ == error,
            Ok(answer) => {
                &&& result matches Ok((header, bytes))
                &&& header.base == base
                &&& header.part() == Some(part)
                &&& contents(bytes) == answer_bytes(answer, payload)
            },
        },
    }
}

/// Reads a request and makes the answer to it.
pub fn echo(message: &[u8]) -> (result: Result<(UsbipHeader, BytesMut), ProtocolError>)
    ensures
        is_echoed(result, message@),
{
    let (header, payload) = match decode_header(message) {
        Ok(decoded) => decoded,
        Err(error) => return Err(error),
    };
    let reply: UsbipHeader;
    let echo_payload: Option<&[u8]> = match &payload {
        Some(bytes) => Some(bytes.as_slice()),
        None => None,
    };
    match header.base.command {
        constants::CMD_SUBMIT => {
            let cmd = header.u.to_cmd_submit();
            if cmd.number_of_packets != 0 {
                return Err(ProtocolError::IsochronousNotSupported);
            }
            let echo_len: i32 = match echo_payload {
                Some(bytes) => bytes.len() as i32,
                None => 0,
            };
            reply = UsbipHeader {
                base: UsbipHeaderBasic {
                    command: constants::RET_SUBMIT,
                    seqnum: header.base.seqnum,
                    devid: header.base.devid,
                    direction: constants::USBIP_DIR_IN,
                    ep: header.base.ep,
                },
                u: UsbipHeaderUnion::from_ret_submit(
                    UsbipHeaderRetSubmit {
                        status: 0,
                        actual_length: echo_len,
                        start_frame: 0,
                        number_of_packets: 0,
                        error_count: 0,
                        setup: cmd.setup,
                    },
                ),
            };
        },
        constants::CMD_UNLINK => {
            let padding: [u32; 6] = [0u32; 6];
            assert(padding =~= [0u32, 0u32, 0u32, 0u32, 0u32, 0u32]);
            reply = UsbipHeader {
                base: UsbipHeaderBasic {
                    command: constants::RET_UNLINK,
                    seqnum: header.base.seqnum,
                    devid: header.base.devid,
                    direction: header.base.direction,
                    ep: header.base.ep,
                },
                u: UsbipHeaderUnion::from_ret_unlink(
                    UsbipHeaderRetUnlink { status: 0, __padding: padding },
                ),
            };
        },
        _ => {
            return Err(ProtocolError::InvalidCommand { command: header.base.command });
        },
    }
    match encode_header(&reply, echo_payload) {
        Ok(bytes) => Ok((header, bytes)),
        Err(error) => Err(error),
    }
}

/// Where a request stands that is being served.
pub enum Serving {
    /// More bytes are wanted.
    More(Receiver),
    /// The request was received and is to be answered with the bytes, or was turned away.
    Done(Result<(UsbipHeader, BytesMut), ProtocolError>),
}

/// Goes on serving a request with what came of reading the bytes that the receiver wanted.
pub fn serve_urb_echo(receiver: Receiver, read: Result<Vec<u8>, String>) -> (next: Serving)
    requires
        read matches Ok(bytes) ==> bytes@.len() == receiver.wanted_bytes(),
    ensures
        match read {
            Err(text) => {
                &&& next matches Serving::Done(Err(e))
                &&& e@ == ProtocolErrorView::IoError(text@)
            },
            Ok(bytes) => match first_frame(receiver.role(), receiver.received() + bytes@) {
                None => {
                    &&& next matches Serving::More(waiting)
                    &&& waiting.role() == receiver.role()
                    &&& waiting.received() == receiver.received() + bytes@
                    &&& length_after_head(receiver.role(), waiting.received()) == Ok::<
                        int,
                        ProtocolErrorView,
                    >(waiting.wanted_bytes())
                },
                Some(Ok(frame)) => {
                    &&& next matches Serving::Done(result)
                    &&& is_echoed(result, frame)
                },
                Some(Err(error)) => {
                    &&& next matches Serving::Done(Err(e))
                    &&& e@ == error
                },
            },
        },
{
    match receiver.receive(read) {
        Progress::More(waiting) => Serving::More(waiting),
        Progress::Complete(message) => Serving::Done(echo(message.as_slice())),
        Progress::Failed(error) => Serving::Done(Err(error)),
    }
}

/// What is said of each error: the words for its kind, and the text that it holds.
pub proof fn law_accept_messages(text: String)
    ensures
        AcceptError::AcceptFailed(text)@.message() == "accept failed: "@ + text@,
        AcceptError::InvalidRequest(text)@.message() == "invalid import request: "@ + text@,
        AcceptError::InvalidReply(text)@.message() == "invalid reply: "@ + text@,
{
}

/// Errors that look the same hold the same: the kind and the characters.
pub proof fn law_accept_errors_are_told_apart(a: AcceptError, b: AcceptError)
    ensures
        a@ == b@ <==> match (a, b) {
            (AcceptError::AcceptFailed(s), AcceptError::AcceptFailed(t)) => s@ == t@,
            (AcceptError::InvalidRequest(s), AcceptError::InvalidRequest(t)) => s@ == t@,
            (AcceptError::InvalidReply(s), AcceptError::InvalidReply(t)) => s@ == t@,
            _ => false,
        },
{
}

} // verus!
