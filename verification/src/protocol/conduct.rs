//! What the two ends of a connection do, in terms of the bytes that they exchange.

use bytes::BytesMut;
use vstd::prelude::*;
use vstd::utf8::{encode_utf8, valid_utf8};

use crate::protocol::buffer::contents;
use crate::protocol::bytewise::{
    law_read_header, law_read_import_reply, law_read_import_request, law_unread_header,
    law_written_header,
};
use crate::protocol::codec::{
    basic_at, basic_bytes, cmd_submit_at, decoded_header, encoded_header, is_decoded, part_at, part_bytes,
    ret_submit_at, ret_unlink_at, ProtocolError, ProtocolErrorView,
};
use crate::protocol::constants;
use crate::protocol::framing::{first_frame, length_after_head, Role};
use crate::protocol::handshake::{
    is_import_request, is_judged, step_after, Attempt, HandshakeError, ImportStep,
};
use crate::protocol::laws::{lemma_basic_round_trip, lemma_part_round_trip};
use crate::protocol::octets::{be32, from_bits, i32_at, u32_at};
use crate::protocol::server::{
    answer_bytes, echo_of, is_accepted, is_echoed, refusal, AcceptError, AcceptErrorView,
};
use crate::protocol::session::renumbered;
use crate::protocol::wire::{
    CommandSpecific, OpRepImport, OpReqImport, UsbipHeader, UsbipHeaderBasic,
};
use crate::text::decimal;

verus! {

/// How many bytes are read after the first 48 of a message. In a session that is the length
/// field of a submit reply, whatever its direction, or of a submit request that goes out; the
/// echoing end reads it of submit requests only. A length that is not positive counts as none.
pub proof fn law_bytes_to_read(role: Role, head: Seq<u8>)
    requires
        head.len() == 48,
    ensures
        ({
            let command = u32_at(head, 0);
            let n = i32_at(head, 24);
            let carries = n > 0 && ((command == constants::CMD_SUBMIT && u32_at(head, 12) == 0) || (
            command == constants::RET_SUBMIT && role == Role::Session));
            if role == Role::Session && u32_at(head, 32) != 0 {
                length_after_head(role, head) == Err::<int, _>(
                    ProtocolErrorView::IsochronousNotSupported,
                )
            } else if carries && n > 1_048_576 {
                length_after_head(role, head) == Err::<int, _>(
                    ProtocolErrorView::BufferTooLarge { size: n as int, max: 1_048_576 },
                )
            } else if carries {
                length_after_head(role, head) == Ok::<_, ProtocolErrorView>(n as int)
            } else {
                length_after_head(role, head) == Ok::<_, ProtocolErrorView>(0int)
            }
        }),
{
    let t = head.skip(20);
    assert forall|k: int| 0 <= k < 28 implies #[trigger] t[k] == head[20 + k] by {}
    assert(i32_at(t, 4) == i32_at(head, 24));
    lemma_zero_pattern(u32_at(head, 32));
}

/// Only the pattern 0 stands for 0.
proof fn lemma_zero_pattern(bits: u32)
    ensures
        from_bits(bits) == 0 <==> bits == 0,
{
}

/// What is cut off a stream: nothing before 48 bytes are there; then the message of 48 bytes
/// and as many as are to be read after them, as soon as they are there; and from then on always
/// the same, whatever else comes.
pub proof fn law_cutting(role: Role, input: Seq<u8>, more: Seq<u8>)
    ensures
        input.len() < 48 ==> first_frame(role, input) is None,
        input.len() >= 48 ==> match length_after_head(role, input.take(48)) {
            Err(error) => first_frame(role, input) == Some(Err::<Seq<u8>, _>(error)),
            Ok(n) => {
                &&& n >= 0
                &&& input.len() < 48 + n ==> first_frame(role, input) is None
                &&& input.len() >= 48 + n ==> first_frame(role, input) == Some(
                    Ok::<_, ProtocolErrorView>(input.take(48 + n)),
                )
            },
        },
        first_frame(role, input) is Some ==> first_frame(role, input + more) == first_frame(
            role,
            input,
        ),
{
    if input.len() >= 48 {
        law_bytes_to_read(role, input.take(48));
        assert((input + more).take(48) =~= input.take(48));
        if let Ok(n) = length_after_head(role, input.take(48)) {
            if input.len() >= 48 + n {
                assert((input + more).take(48 + n) =~= input.take(48 + n));
            }
        }
    }
}

/// Two messages that one end sends after another are received as two: what is behind the first
/// frame is the second message, untouched.
pub proof fn law_frames_follow_each_other(role: Role, first: Seq<u8>, second: Seq<u8>)
    requires
        first_frame(role, first) == Some(Ok::<_, ProtocolErrorView>(first)),
    ensures
        first_frame(role, first + second) == Some(Ok::<_, ProtocolErrorView>(first)),
        (first + second).skip(first.len() as int) == second,
{
    law_cutting(role, first, second);
    assert((first + second).skip(first.len() as int) =~= second);
}

/// What a session receives of a stream that starts with a whole submit reply: the payload of the
/// length that the reply names, whatever its direction, and not a byte more.
pub proof fn law_reply_is_received(
    input: Seq<u8>,
    result: Result<(UsbipHeader, Option<Vec<u8>>), ProtocolError>,
)
    requires
        input.len() >= 48,
        u32_at(input, 0) == constants::RET_SUBMIT,
        u32_at(input, 12) <= 1,
        u32_at(input, 32) == 0,
        0 < i32_at(input, 24) <= 1_048_576,
        input.len() >= 48 + i32_at(input, 24),
        first_frame(Role::Session, input) matches Some(Ok(frame)) ==> is_decoded(
            result,
            decoded_header(frame),
        ),
    ensures
        ({
            let n = i32_at(input, 24);
            &&& first_frame(Role::Session, input) == Some(
                Ok::<_, ProtocolErrorView>(input.take(48 + n)),
            )
            &&& result matches Ok((header, Some(bytes)))
            &&& header.base.seqnum == u32_at(input, 4)
            &&& bytes@ == input.subrange(48, 48 + n)
        }),
{
    let n = i32_at(input, 24);
    let frame = input.take(48 + n);
    let head = input.take(48);
    assert forall|k: int| 0 <= k < 48 implies #[trigger] head[k] == input[k] by {}
    assert forall|k: int| 0 <= k < 48 implies #[trigger] frame[k] == input[k] by {}
    assert(u32_at(head, 0) == u32_at(input, 0) && u32_at(head, 12) == u32_at(input, 12));
    assert(u32_at(head, 32) == u32_at(input, 32) && u32_at(head, 24) == u32_at(input, 24));
    law_bytes_to_read(Role::Session, head);
    law_cutting(Role::Session, input, Seq::empty());
    assert(u32_at(frame, 0) == u32_at(input, 0) && u32_at(frame, 12) == u32_at(input, 12));
    assert(u32_at(frame, 24) == u32_at(input, 24) && u32_at(frame, 4) == u32_at(input, 4));
    law_read_header(frame, result);
    assert(frame.subrange(48, 48 + n) =~= input.subrange(48, 48 + n));
}

/// Sending puts nothing but the sequence number into a message: whether a header can be written,
/// what is said when it cannot, and every byte but those of the sequence number are as for the
/// header that was passed in.
pub proof fn law_only_the_number_is_set(
    header: UsbipHeader,
    seqnum: u32,
    payload: Option<Seq<u8>>,
)
    ensures
        match encoded_header(header, payload) {
            Err(error) => encoded_header(renumbered(header, seqnum), payload) == Err::<Seq<u8>, _>(
                error,
            ),
            Ok(bytes) => encoded_header(renumbered(header, seqnum), payload) == Ok::<
                _,
                ProtocolErrorView,
            >(bytes.take(4) + be32(seqnum) + bytes.skip(8)),
        },
{
    let numbered = renumbered(header, seqnum);
    assert(numbered.u == header.u);
    assert(numbered.part() == header.part());
    if encoded_header(header, payload) is Ok {
        let a = encoded_header(header, payload)->Ok_0;
        let b = encoded_header(numbered, payload)->Ok_0;
        let old_head = basic_bytes(header.base);
        let new_head = basic_bytes(numbered.base);
        let tail = a.skip(20);
        assert(new_head =~= old_head.take(4) + be32(seqnum) + old_head.skip(8));
        lemma_basic_round_trip(header.base, Seq::empty());
        assert(a =~= old_head + tail);
        assert(b =~= new_head + tail);
        assert(b =~= a.take(4) + be32(seqnum) + a.skip(8));
    }
}

/// What is sent in a session, field by field: the number is the session's, and everything else
/// is the header's that was passed in.
pub proof fn law_sent_fields(header: UsbipHeader, seqnum: u32, payload: Option<Seq<u8>>)
    requires
        encoded_header(renumbered(header, seqnum), payload) is Ok,
    ensures
        ({
            let b = encoded_header(renumbered(header, seqnum), payload)->Ok_0;
            let w = header.u.words;
            &&& u32_at(b, 0) == header.base.command
            &&& u32_at(b, 4) == seqnum
            &&& u32_at(b, 8) == header.base.devid
            &&& u32_at(b, 12) == header.base.direction
            &&& u32_at(b, 16) == header.base.ep
            &&& u32_at(b, 20) == w[0]
            &&& u32_at(b, 24) == w[1]
            &&& u32_at(b, 28) == w[2]
            &&& u32_at(b, 32) == w[3]
            &&& u32_at(b, 36) == w[4]
        }),
{
    law_written_header(renumbered(header, seqnum), payload);
}

/// The header of an answer, field by field. A submit request without isochronous packets has
/// succeeded: its answer reports status 0, no errors and as many bytes as came with it. An unlink
/// request has succeeded too. The number, the device and the endpoint are the request's.
pub proof fn law_answer_header(
    base: UsbipHeaderBasic,
    part: CommandSpecific,
    payload: Option<Seq<u8>>,
)
    requires
        payload matches Some(bytes) ==> bytes.len() <= 1_048_576,
    ensures
        match part {
            CommandSpecific::CmdSubmit(cmd) => if cmd.number_of_packets == 0 {
                &&& echo_of(base, part, payload) matches Ok((b, CommandSpecific::RetSubmit(ret)))
                &&& b.command == constants::RET_SUBMIT
                &&& b.seqnum == base.seqnum
                &&& b.devid == base.devid
                &&& b.direction == constants::USBIP_DIR_IN
                &&& b.ep == base.ep
                &&& ret.status == 0
                &&& ret.start_frame == 0
                &&& ret.number_of_packets == 0
                &&& ret.error_count == 0
                &&& ret.setup == cmd.setup
                &&& match payload {
                    Some(bytes) => ret.actual_length == bytes.len(),
                    None => ret.actual_length == 0,
                }
            } else {
                echo_of(base, part, payload) matches Err(
                    ProtocolErrorView::IsochronousNotSupported,
                )
            },
            CommandSpecific::CmdUnlink(_) => {
                &&& echo_of(base, part, payload) matches Ok((b, CommandSpecific::RetUnlink(ret)))
                &&& b.command == constants::RET_UNLINK
                &&& b.seqnum == base.seqnum
                &&& b.devid == base.devid
                &&& b.direction == base.direction
                &&& b.ep == base.ep
                &&& ret.status == 0
                &&& forall|k: int| 0 <= k < 6 ==> #[trigger] ret.__padding[k] == 0
            },
            _ => echo_of(base, part, payload) matches Err(
                ProtocolErrorView::InvalidCommand { command },
            ) && command == base.command,
        },
{
}

/// A submit request without isochronous packets is answered by a submit reply that says that the
/// transfer succeeded: status, start frame, packets and errors are 0, the number, device and
/// endpoint are the request's, the direction is in, the setup bytes are the request's, and the
/// payload and its length are the request's.
#[verifier::spinoff_prover]
pub proof fn law_answer_to_submit(
    message: Seq<u8>,
    result: Result<(UsbipHeader, BytesMut), ProtocolError>,
)
    requires
        is_echoed(result, message),
        message.len() >= 48,
        u32_at(message, 0) == constants::CMD_SUBMIT,
        u32_at(message, 12) <= 1,
        u32_at(message, 32) == 0,
        u32_at(message, 12) == 0 ==> i32_at(message, 24) <= 1_048_576 && message.len() >= 48
            + i32_at(message, 24),
    ensures
        result matches Ok((header, answer)) && {
            let b = contents(answer);
            let n = if u32_at(message, 12) == 0 && i32_at(message, 24) > 0 {
                i32_at(message, 24) as int
            } else {
                0int
            };
            &&& header.base.command == constants::CMD_SUBMIT
            &&& header.base.seqnum == u32_at(message, 4)
            &&& b.len() == 48 + n
            &&& u32_at(b, 0) == constants::RET_SUBMIT
            &&& u32_at(b, 4) == u32_at(message, 4)
            &&& u32_at(b, 8) == u32_at(message, 8)
            &&& u32_at(b, 12) == constants::USBIP_DIR_IN
            &&& u32_at(b, 16) == u32_at(message, 16)
            &&& i32_at(b, 20) == 0
            &&& i32_at(b, 24) == n
            &&& i32_at(b, 28) == 0
            &&& i32_at(b, 32) == 0
            &&& i32_at(b, 36) == 0
            &&& b.subrange(40, 48) == message.subrange(40, 48)
            &&& b.skip(48) == message.subrange(48, 48 + n)
        },
{
    lemma_submit_read(message);
    let (base, part, payload) = decoded_header(message)->Ok_0;
    let reply = echo_of(base, part, payload)->Ok_0;
    lemma_answer_fields(reply.0, reply.1, payload);
    let b = answer_bytes(reply, payload);
    lemma_same_setup(part->CmdSubmit_0.setup, b, message);
    assert(b.skip(48) =~= message.subrange(48, b.len() as int));
}

/// What is read of a submit request.
proof fn lemma_submit_read(message: Seq<u8>)
    requires
        message.len() >= 48,
        u32_at(message, 0) == constants::CMD_SUBMIT,
        u32_at(message, 12) <= 1,
        u32_at(message, 12) == 0 ==> i32_at(message, 24) <= 1_048_576 && message.len() >= 48
            + i32_at(message, 24),
    ensures
        decoded_header(message) matches Ok((base, CommandSpecific::CmdSubmit(cmd), payload)) && {
            &&& base == basic_at(message)
            &&& cmd.number_of_packets == i32_at(message, 32)
            &&& forall|k: int| 0 <= k < 8 ==> #[trigger] cmd.setup@[k] == message[40 + k]
            &&& if u32_at(message, 12) == 0 && i32_at(message, 24) > 0 {
                payload == Some(message.subrange(48, 48 + i32_at(message, 24)))
            } else {
                payload is None
            }
        },
{
    let t = message.skip(20);
    assert forall|k: int| 0 <= k < 28 implies #[trigger] t[k] == message[20 + k] by {}
    assert(i32_at(t, 4) == i32_at(message, 24));
    assert(i32_at(t, 12) == i32_at(message, 32));
    let cmd = cmd_submit_at(t);
    assert(part_at(u32_at(message, 0), t) == Some(CommandSpecific::CmdSubmit(cmd)));
    assert forall|k: int| 0 <= k < 8 implies #[trigger] cmd.setup@[k] == message[40 + k] by {
        assert(cmd.setup@[k] == t[20 + k]);
    }
}

/// Messages with the same setup bytes agree where those stand.
proof fn lemma_same_setup(setup: [u8; 8], a: Seq<u8>, b: Seq<u8>)
    requires
        a.len() >= 48,
        b.len() >= 48,
        forall|k: int| 0 <= k < 8 ==> #[trigger] setup@[k] == a[40 + k],
        forall|k: int| 0 <= k < 8 ==> #[trigger] setup@[k] == b[40 + k],
    ensures
        a.subrange(40, 48) == b.subrange(40, 48),
{
    assert forall|k: int| 0 <= k < 8 implies #[trigger] a.subrange(40, 48)[k] == b.subrange(
        40,
        48,
    )[k] by {
        assert(setup@[k] == a[40 + k]);
    }
    assert(a.subrange(40, 48) =~= b.subrange(40, 48));
}

/// Where the fields of an answer stand.
proof fn lemma_answer_fields(
    base: UsbipHeaderBasic,
    part: CommandSpecific,
    payload: Option<Seq<u8>>,
)
    ensures
        ({
            let b = answer_bytes((base, part), payload);
            let tail = match payload {
                Some(bytes) => bytes,
                None => Seq::empty(),
            };
            &&& b.len() == 48 + tail.len()
            &&& b.skip(48) == tail
            &&& u32_at(b, 0) == base.command
            &&& u32_at(b, 4) == base.seqnum
            &&& u32_at(b, 8) == base.devid
            &&& u32_at(b, 12) == base.direction
            &&& u32_at(b, 16) == base.ep
            &&& part matches CommandSpecific::RetSubmit(ret) ==> {
                &&& i32_at(b, 20) == ret.status
                &&& i32_at(b, 24) == ret.actual_length
                &&& i32_at(b, 28) == ret.start_frame
                &&& i32_at(b, 32) == ret.number_of_packets
                &&& i32_at(b, 36) == ret.error_count
                &&& forall|k: int| 0 <= k < 8 ==> #[trigger] ret.setup@[k] == b[40 + k]
            }
            &&& part matches CommandSpecific::RetUnlink(ret) ==> {
                &&& i32_at(b, 20) == ret.status
                &&& u32_at(b, 24) == ret.__padding[0]
                &&& u32_at(b, 28) == ret.__padding[1]
                &&& u32_at(b, 32) == ret.__padding[2]
                &&& u32_at(b, 36) == ret.__padding[3]
                &&& u32_at(b, 40) == ret.__padding[4]
                &&& u32_at(b, 44) == ret.__padding[5]
            }
        }),
{
    let tail = match payload {
        Some(bytes) => bytes,
        None => Seq::empty(),
    };
    let head = basic_bytes(base);
    let mid = part_bytes(part);
    let b = answer_bytes((base, part), payload);
    lemma_basic_round_trip(base, mid + tail);
    lemma_part_round_trip(part, tail);
    assert(b =~= head + (mid + tail));
    let t = b.skip(20);
    assert(t =~= mid + tail);
    assert(b.skip(48) =~= tail);
    assert forall|k: int| 0 <= k < 28 implies #[trigger] t[k] == b[20 + k] by {}
    assert(u32_at(t, 0) == u32_at(b, 20) && u32_at(t, 4) == u32_at(b, 24));
    assert(u32_at(t, 8) == u32_at(b, 28) && u32_at(t, 12) == u32_at(b, 32));
    assert(u32_at(t, 16) == u32_at(b, 36) && u32_at(t, 20) == u32_at(b, 40));
    assert(u32_at(t, 24) == u32_at(b, 44));
    match part {
        CommandSpecific::RetSubmit(ret) => {
            let read = ret_submit_at(t);
            assert(read == ret);
            assert forall|k: int| 0 <= k < 8 implies #[trigger] ret.setup@[k] == b[40 + k] by {
                assert(read.setup@[k] == t[20 + k]);
            }
        },
        CommandSpecific::RetUnlink(ret) => {
            let read = ret_unlink_at(t);
            assert(read == ret);
        },
        _ => {},
    }
}

/// An unlink request is answered by an unlink reply with nothing but zeros in its specific part,
/// and the request's number, device, direction and endpoint.
pub proof fn law_answer_to_unlink(
    message: Seq<u8>,
    result: Result<(UsbipHeader, BytesMut), ProtocolError>,
)
    requires
        is_echoed(result, message),
        message.len() >= 48,
        u32_at(message, 0) == constants::CMD_UNLINK,
        u32_at(message, 12) <= 1,
    ensures
        result matches Ok((header, answer)) && {
            let b = contents(answer);
            &&& header.base.command == constants::CMD_UNLINK
            &&& header.base.seqnum == u32_at(message, 4)
            &&& b.len() == 48
            &&& u32_at(b, 0) == constants::RET_UNLINK
            &&& u32_at(b, 4) == u32_at(message, 4)
            &&& u32_at(b, 8) == u32_at(message, 8)
            &&& u32_at(b, 12) == u32_at(message, 12)
            &&& u32_at(b, 16) == u32_at(message, 16)
            &&& i32_at(b, 20) == 0
            &&& u32_at(b, 24) == 0
            &&& u32_at(b, 28) == 0
            &&& u32_at(b, 32) == 0
            &&& u32_at(b, 36) == 0
            &&& u32_at(b, 40) == 0
            &&& u32_at(b, 44) == 0
        },
{
    let (base, part, payload) = decoded_header(message)->Ok_0;
    assert(base == basic_at(message));
    let reply = echo_of(base, part, payload)->Ok_0;
    lemma_answer_fields(reply.0, reply.1, payload);
}

/// Whatever is answered, the header that is given back is the one that the message holds.
pub proof fn law_echoed_header(
    message: Seq<u8>,
    result: Result<(UsbipHeader, BytesMut), ProtocolError>,
    read: Result<(UsbipHeader, Option<Vec<u8>>), ProtocolError>,
)
    requires
        is_echoed(result, message),
        is_decoded(read, decoded_header(message)),
        result is Ok,
    ensures
        read is Ok,
        result->Ok_0.0.base == read->Ok_0.0.base,
        result->Ok_0.0.part() == read->Ok_0.0.part(),
{
}

/// What is not answered: a message that cannot be read, with what is said of it; isochronous
/// packets; and a reply, which is no request.
pub proof fn law_unanswered(
    message: Seq<u8>,
    result: Result<(UsbipHeader, BytesMut), ProtocolError>,
    read: Result<(UsbipHeader, Option<Vec<u8>>), ProtocolError>,
)
    requires
        is_echoed(result, message),
        is_decoded(read, decoded_header(message)),
    ensures
        read matches Err(said) ==> (result matches Err(e) && e@ == said@),
        read is Ok && u32_at(message, 0) == constants::CMD_SUBMIT && u32_at(message, 32) != 0 ==> (
        result matches Err(ProtocolError::IsochronousNotSupported)),
        read is Ok && (u32_at(message, 0) == constants::RET_SUBMIT || u32_at(message, 0)
            == constants::RET_UNLINK) ==> (result matches Err(
            ProtocolError::InvalidCommand { command },
        ) && command == u32_at(message, 0)),
        result is Err ==> read is Err || u32_at(message, 0) == constants::RET_SUBMIT || u32_at(
            message,
            0,
        ) == constants::RET_UNLINK || (u32_at(message, 0) == constants::CMD_SUBMIT && u32_at(
            message,
            32,
        ) != 0),
{
    if message.len() >= 48 {
        let t = message.skip(20);
        assert forall|k: int| 0 <= k < 28 implies #[trigger] t[k] == message[20 + k] by {}
        assert(u32_at(t, 12) == u32_at(message, 32));
        lemma_zero_pattern(u32_at(message, 32));
    }
    law_unread_header(message, read);
}

/// A request for a device is turned away for its bus id in two cases only: there is nothing in it
/// but zeros, or, otherwise, it is not UTF-8.
pub proof fn law_refusals(busid: Seq<u8>)
    ensures
        refusal(busid) is None <==> valid_utf8(busid) && exists|i: int|
            0 <= i < busid.len() && busid[i] != 0,
        (forall|i: int| 0 <= i < busid.len() ==> busid[i] == 0) ==> refusal(busid) == Some(
            AcceptErrorView::InvalidRequest("empty busid"@),
        ),
        (exists|i: int| 0 <= i < busid.len() && busid[i] != 0) && !valid_utf8(busid) ==> refusal(
            busid,
        ) == Some(AcceptErrorView::InvalidRequest("non-UTF-8 busid"@)),
{
}

/// A request that is all there and asks for a bus id that is UTF-8 and more than zeros is taken
/// in as its bytes spell it; nothing else in it counts against it. Otherwise the error tells what
/// is wrong, and where the request could not be read, why not.
pub proof fn law_acceptance(
    read: Result<Vec<u8>, String>,
    result: Result<OpReqImport, AcceptError>,
)
    requires
        is_accepted(result, read),
    ensures
        match read {
            Err(text) => result matches Err(AcceptError::AcceptFailed(t)) && t@
                == "read OP_REQ_IMPORT: "@ + text@,
            Ok(bytes) => {
                let s = bytes@;
                let asked = s.subrange(260, 292);
                if s.len() < 292 {
                    result matches Err(AcceptError::InvalidRequest(t)) && t@
                        == "incomplete buffer: need "@ + decimal(292) + " bytes, have "@ + decimal(
                        s.len(),
                    )
                } else if forall|i: int| 260 <= i < 292 ==> s[i] == 0 {
                    result matches Err(AcceptError::InvalidRequest(t)) && t@ == "empty busid"@
                } else if !valid_utf8(asked) {
                    result matches Err(AcceptError::InvalidRequest(t)) && t@ == "non-UTF-8 busid"@
                } else {
                    &&& result matches Ok(req)
                    &&& req.status == u32_at(s, 0)
                    &&& forall|i: int| 0 <= i < 256 ==> #[trigger] req.path[i] == s[4 + i]
                    &&& forall|i: int| 0 <= i < 32 ==> #[trigger] req.busid[i] == s[260 + i]
                }
            },
        },
{
    if let Ok(bytes) = read {
        let s = bytes@;
        if s.len() >= 292 {
            let asked = s.subrange(260, 292);
            law_refusals(asked);
            if forall|i: int| 260 <= i < 292 ==> s[i] == 0 {
                assert forall|i: int| 0 <= i < asked.len() implies asked[i] == 0 by {
                    assert(asked[i] == s[260 + i]);
                }
            } else {
                let i = choose|i: int| 260 <= i < 292 && s[i] != 0;
                assert(asked[i - 260] == s[i]);
            }
            if let Ok(req) = result {
                law_read_import_request(s, req);
            }
        }
    }
}

/// What a request for a device says: the version, the path, and the bytes of the bus id as far as
/// they fit, with zeros behind them.
pub proof fn law_import_request(req: OpReqImport, busid: Seq<char>)
    requires
        is_import_request(req, busid),
    ensures
        req.status == 0x0111,
        forall|i: int|
            0 <= i < 256 ==> #[trigger] req.path[i] == if i < encode_utf8(
                "/sys/devices/pci0000:00"@,
            ).len() {
                encode_utf8("/sys/devices/pci0000:00"@)[i]
            } else {
                0u8
            },
        forall|i: int|
            0 <= i < 32 ==> #[trigger] req.busid[i] == if i < encode_utf8(busid).len() {
                encode_utf8(busid)[i]
            } else {
                0u8
            },
{
    assert forall|i: int| 0 <= i < 256 implies req.path@[i] == #[trigger] req.path[i] by {}
    assert forall|i: int| 0 <= i < 32 implies req.busid@[i] == #[trigger] req.busid[i] by {}
}

/// A reply that is all there, reports no failure and names a bus and a device is accepted, and
/// taken as its bytes spell it: nothing else in it counts against it.
pub proof fn law_good_reply_is_accepted(
    bytes: Vec<u8>,
    result: Result<OpRepImport, HandshakeError>,
)
    requires
        is_judged(result, Ok(bytes)),
        bytes@.len() >= 316,
        u32_at(bytes@, 0) == 0,
        u32_at(bytes@, 292) != 0,
        u32_at(bytes@, 296) != 0,
    ensures
        result matches Ok(reply) && {
            &&& reply.status == 0
            &&& reply.busnum == u32_at(bytes@, 292)
            &&& reply.devnum == u32_at(bytes@, 296)
            &&& reply.speed == u32_at(bytes@, 300)
            &&& reply.id_vendor == bytes@[304] * 0x100 + bytes@[305]
            &&& reply.id_product == bytes@[306] * 0x100 + bytes@[307]
            &&& reply.bcd_device == bytes@[308] * 0x100 + bytes@[309]
            &&& reply.b_device_class == bytes@[310]
            &&& reply.b_device_sub_class == bytes@[311]
            &&& reply.b_device_protocol == bytes@[312]
            &&& reply.b_configuration_value == bytes@[313]
            &&& reply.b_num_configurations == bytes@[314]
            &&& reply.b_num_interfaces == bytes@[315]
            &&& forall|i: int| 0 <= i < 256 ==> #[trigger] reply.path[i] == bytes@[4 + i]
            &&& forall|i: int| 0 <= i < 32 ==> #[trigger] reply.busid[i] == bytes@[260 + i]
        },
{
    let reply = result->Ok_0;
    law_read_import_reply(bytes@, reply);
}

/// What is said of an attempt that gave no good reply: the error it met, or that the reply is
/// too short, or the status that the server reports, or the bus and the device that it names.
pub proof fn law_bad_reply_is_refused(
    read: Result<Vec<u8>, String>,
    result: Result<OpRepImport, HandshakeError>,
)
    requires
        is_judged(result, read),
    ensures
        match read {
            Err(text) => result matches Err(HandshakeError::ConnectionFailed(t)) && t@ == text@,
            Ok(bytes) => {
                let s = bytes@;
                if s.len() < 316 {
                    result matches Err(HandshakeError::InvalidReply(t)) && t@
                        == "incomplete buffer: need "@ + decimal(316) + " bytes, have "@ + decimal(
                        s.len(),
                    )
                } else if u32_at(s, 0) != 0 {
                    result matches Err(HandshakeError::ServerRejected { status }) && status
                        == u32_at(s, 0)
                } else if u32_at(s, 292) == 0 || u32_at(s, 296) == 0 {
                    result matches Err(HandshakeError::InvalidReply(t)) && t@ == "busnum="@
                        + decimal(u32_at(s, 292) as nat) + " devnum="@ + decimal(
                        u32_at(s, 296) as nat,
                    )
                } else {
                    result is Ok
                }
            },
        },
{
}

/// What follows an attempt: success ends the import with the reply, and so do a server that
/// rejects and a reply that is invalid, each with its own error; anything else is tried again
/// until three attempts were made.
pub proof fn law_after_attempt(attempt: u32, outcome: Attempt)
    ensures
        match outcome {
            Attempt::Ended(Ok(reply)) => step_after(attempt, outcome) == ImportStep::Finished(
                Ok(reply),
            ),
            Attempt::Ended(Err(HandshakeError::ServerRejected { status })) => step_after(
                attempt,
                outcome,
            ) == ImportStep::Finished(Err(HandshakeError::ServerRejected { status })),
            Attempt::Ended(Err(HandshakeError::InvalidReply(text))) => step_after(attempt, outcome)
                == ImportStep::Finished(Err(HandshakeError::InvalidReply(text))),
            _ => if attempt < 2 {
                step_after(attempt, outcome) == (ImportStep::Retry { attempt: (attempt + 1) as u32 })
            } else {
                step_after(attempt, outcome) == ImportStep::Finished(
                    Err(HandshakeError::MaxRetriesExceeded(3)),
                )
            },
        },
{
}

} // verus!
