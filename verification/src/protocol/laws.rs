//! What holds of the codec as a whole.

use vstd::prelude::*;

use crate::protocol::codec::{
    announced_payload, basic_at, basic_bytes, cmd_submit_at, cmd_submit_bytes, cmd_unlink_at,
    cmd_unlink_bytes, decoded_header, encoded_header, is_op_rep_import_at, is_op_req_import_at,
    op_rep_import_bytes, op_req_import_bytes, packets_of, part_at, part_bytes, ret_submit_at,
    ret_submit_bytes, ret_unlink_at, ret_unlink_bytes, valid_direction, words_bytes,
    ProtocolErrorView, BASIC_HEADER_SIZE, CMD_HEADER_SIZE, MAX_PAYLOAD_SIZE, OP_REP_IMPORT_SIZE, OP_REQ_IMPORT_SIZE,
    PAYLOAD_OFFSET,
};
use crate::protocol::constants;
use crate::protocol::octets::{
    be16, be32, be_i32, bits_of, i32_at, lemma_be16_at, lemma_be32_at, lemma_bits_round_trip,
    lemma_i32_round_trip, lemma_u16_round_trip, lemma_u32_round_trip, u16_at, u32_at,
};
use crate::protocol::wire::{
    CommandSpecific, OpRepImport, OpReqImport, UsbipHeader, UsbipHeaderBasic, UsbipHeaderCmdSubmit,
    UsbipHeaderCmdUnlink, UsbipHeaderRetSubmit, UsbipHeaderRetUnlink,
};

verus! {

/// An integer is found where its bytes stand.
proof fn lemma_u32_found(s: Seq<u8>, i: int, n: u32)
    requires
        0 <= i <= s.len() - 4,
        s.subrange(i, i + 4) == be32(n),
    ensures
        u32_at(s, i) == n,
{
    lemma_u32_round_trip(n);
    let t = s.subrange(i, i + 4);
    assert(t[0] == s[i] && t[1] == s[i + 1] && t[2] == s[i + 2] && t[3] == s[i + 3]);
}

/// A signed integer is found where its bytes stand.
proof fn lemma_i32_found(s: Seq<u8>, i: int, n: i32)
    requires
        0 <= i <= s.len() - 4,
        s.subrange(i, i + 4) == be_i32(n),
    ensures
        i32_at(s, i) == n,
{
    lemma_u32_found(s, i, bits_of(n));
    lemma_i32_round_trip(n);
}

/// A 16-bit integer is found where its bytes stand.
proof fn lemma_u16_found(s: Seq<u8>, i: int, n: u16)
    requires
        0 <= i <= s.len() - 2,
        s.subrange(i, i + 2) == be16(n),
    ensures
        u16_at(s, i) == n,
{
    lemma_u16_round_trip(n);
    let t = s.subrange(i, i + 2);
    assert(t[0] == s[i] && t[1] == s[i + 1]);
}

/// A written basic header is read back.
pub(crate) proof fn lemma_basic_round_trip(basic: UsbipHeaderBasic, rest: Seq<u8>)
    ensures
        basic_bytes(basic).len() == BASIC_HEADER_SIZE,
        basic_at(basic_bytes(basic) + rest) == basic,
{
    let s = basic_bytes(basic) + rest;
    assert(s.subrange(0, 4) =~= be32(basic.command));
    assert(s.subrange(4, 8) =~= be32(basic.seqnum));
    assert(s.subrange(8, 12) =~= be32(basic.devid));
    assert(s.subrange(12, 16) =~= be32(basic.direction));
    assert(s.subrange(16, 20) =~= be32(basic.ep));
    lemma_u32_found(s, 0, basic.command);
    lemma_u32_found(s, 4, basic.seqnum);
    lemma_u32_found(s, 8, basic.devid);
    lemma_u32_found(s, 12, basic.direction);
    lemma_u32_found(s, 16, basic.ep);
}

/// A written submit request is read back.
proof fn lemma_cmd_submit_round_trip(cmd: UsbipHeaderCmdSubmit, rest: Seq<u8>)
    ensures
        cmd_submit_bytes(cmd).len() == CMD_HEADER_SIZE,
        cmd_submit_at(cmd_submit_bytes(cmd) + rest) == cmd,
{
    let s = cmd_submit_bytes(cmd) + rest;
    assert(s.subrange(0, 4) =~= be32(cmd.transfer_flags));
    assert(s.subrange(4, 8) =~= be_i32(cmd.transfer_buffer_length));
    assert(s.subrange(8, 12) =~= be_i32(cmd.start_frame));
    assert(s.subrange(12, 16) =~= be_i32(cmd.number_of_packets));
    assert(s.subrange(16, 20) =~= be_i32(cmd.interval));
    lemma_u32_found(s, 0, cmd.transfer_flags);
    lemma_i32_found(s, 4, cmd.transfer_buffer_length);
    lemma_i32_found(s, 8, cmd.start_frame);
    lemma_i32_found(s, 12, cmd.number_of_packets);
    lemma_i32_found(s, 16, cmd.interval);
    assert(cmd_submit_at(s).setup =~= cmd.setup);
}

/// A written submit reply is read back.
proof fn lemma_ret_submit_round_trip(ret: UsbipHeaderRetSubmit, rest: Seq<u8>)
    ensures
        ret_submit_bytes(ret).len() == CMD_HEADER_SIZE,
        ret_submit_at(ret_submit_bytes(ret) + rest) == ret,
{
    let s = ret_submit_bytes(ret) + rest;
    assert(s.subrange(0, 4) =~= be_i32(ret.status));
    assert(s.subrange(4, 8) =~= be_i32(ret.actual_length));
    assert(s.subrange(8, 12) =~= be_i32(ret.start_frame));
    assert(s.subrange(12, 16) =~= be_i32(ret.number_of_packets));
    assert(s.subrange(16, 20) =~= be_i32(ret.error_count));
    lemma_i32_found(s, 0, ret.status);
    lemma_i32_found(s, 4, ret.actual_length);
    lemma_i32_found(s, 8, ret.start_frame);
    lemma_i32_found(s, 12, ret.number_of_packets);
    lemma_i32_found(s, 16, ret.error_count);
    assert(ret_submit_at(s).setup =~= ret.setup);
}

/// Six words stand one after the other.
proof fn lemma_six_words(w: Seq<u32>)
    requires
        w.len() == 6,
    ensures
        words_bytes(w, 6) == be32(w[0]) + be32(w[1]) + be32(w[2]) + be32(w[3]) + be32(w[4]) + be32(
            w[5],
        ),
{
    reveal_with_fuel(words_bytes, 7);
    assert(words_bytes(w, 6) =~= be32(w[0]) + be32(w[1]) + be32(w[2]) + be32(w[3]) + be32(w[4])
        + be32(w[5]));
}

/// Six written words are read back behind a first one.
proof fn lemma_words_found(s: Seq<u8>, head: Seq<u8>, w: Seq<u32>, rest: Seq<u8>)
    requires
        head.len() == 4,
        w.len() == 6,
        s == head + words_bytes(w, 6) + rest,
    ensures
        words_bytes(w, 6).len() == 24,
        forall|i: int| 0 <= i < 6 ==> u32_at(s, 4 + 4 * i) == #[trigger] w[i],
{
    lemma_six_words(w);
    assert(s.subrange(4, 8) =~= be32(w[0]));
    assert(s.subrange(8, 12) =~= be32(w[1]));
    assert(s.subrange(12, 16) =~= be32(w[2]));
    assert(s.subrange(16, 20) =~= be32(w[3]));
    assert(s.subrange(20, 24) =~= be32(w[4]));
    assert(s.subrange(24, 28) =~= be32(w[5]));
    lemma_u32_found(s, 4, w[0]);
    lemma_u32_found(s, 8, w[1]);
    lemma_u32_found(s, 12, w[2]);
    lemma_u32_found(s, 16, w[3]);
    lemma_u32_found(s, 20, w[4]);
    lemma_u32_found(s, 24, w[5]);
}

/// A written unlink request is read back.
proof fn lemma_cmd_unlink_round_trip(cmd: UsbipHeaderCmdUnlink, rest: Seq<u8>)
    ensures
        cmd_unlink_bytes(cmd).len() == CMD_HEADER_SIZE,
        cmd_unlink_at(cmd_unlink_bytes(cmd) + rest) == cmd,
{
    let s = cmd_unlink_bytes(cmd) + rest;
    lemma_words_found(s, be32(cmd.seqnum), cmd.__padding@, rest);
    assert(s.subrange(0, 4) =~= be32(cmd.seqnum));
    lemma_u32_found(s, 0, cmd.seqnum);
    assert(cmd_unlink_at(s).__padding =~= cmd.__padding);
}

/// A written unlink reply is read back.
proof fn lemma_ret_unlink_round_trip(ret: UsbipHeaderRetUnlink, rest: Seq<u8>)
    ensures
        ret_unlink_bytes(ret).len() == CMD_HEADER_SIZE,
        ret_unlink_at(ret_unlink_bytes(ret) + rest) == ret,
{
    let s = ret_unlink_bytes(ret) + rest;
    lemma_words_found(s, be_i32(ret.status), ret.__padding@, rest);
    assert(s.subrange(0, 4) =~= be_i32(ret.status));
    lemma_i32_found(s, 0, ret.status);
    assert(ret_unlink_at(s).__padding =~= ret.__padding);
}

/// A written specific part is read back, under its own command.
pub(crate) proof fn lemma_part_round_trip(part: CommandSpecific, rest: Seq<u8>)
    ensures
        part_bytes(part).len() == CMD_HEADER_SIZE,
        part_at(command_of(part), part_bytes(part) + rest) == Some(part),
{
    match part {
        CommandSpecific::CmdSubmit(cmd) => lemma_cmd_submit_round_trip(cmd, rest),
        CommandSpecific::RetSubmit(ret) => lemma_ret_submit_round_trip(ret, rest),
        CommandSpecific::CmdUnlink(cmd) => lemma_cmd_unlink_round_trip(cmd, rest),
        CommandSpecific::RetUnlink(ret) => lemma_ret_unlink_round_trip(ret, rest),
    }
}

/// The command that a specific part belongs to.
pub open spec fn command_of(part: CommandSpecific) -> u32 {
    match part {
        CommandSpecific::CmdSubmit(_) => constants::CMD_SUBMIT,
        CommandSpecific::RetSubmit(_) => constants::RET_SUBMIT,
        CommandSpecific::CmdUnlink(_) => constants::CMD_UNLINK,
        CommandSpecific::RetUnlink(_) => constants::RET_UNLINK,
    }
}

/// The payload that is left of a given one: nothing where the header announces none.
pub open spec fn payload_sent(
    base: UsbipHeaderBasic,
    part: CommandSpecific,
    payload: Option<Seq<u8>>,
) -> Option<Seq<u8>> {
    if announced_payload(base, part) == 0 {
        None
    } else {
        payload
    }
}

/// Whether a payload has the length that the header announces, where it announces one.
pub open spec fn payload_fits(
    base: UsbipHeaderBasic,
    part: CommandSpecific,
    payload: Option<Seq<u8>>,
) -> bool {
    announced_payload(base, part) != 0 ==> (payload matches Some(bytes) ==> bytes.len()
        == announced_payload(base, part))
}

/// Where the pieces of a message stand.
proof fn lemma_pieces(head: Seq<u8>, part: Seq<u8>, payload: Seq<u8>, rest: Seq<u8>)
    requires
        head.len() == BASIC_HEADER_SIZE,
        part.len() == CMD_HEADER_SIZE,
    ensures
        ({
            let s = head + part + payload + rest;
            &&& s == head + (part + payload + rest)
            &&& s.skip(BASIC_HEADER_SIZE as int) == part + (payload + rest)
            &&& s.subrange(PAYLOAD_OFFSET as int, PAYLOAD_OFFSET + payload.len()) == payload
        }),
        head + part + Seq::<u8>::empty() == head + part,
{
    let s = head + part + payload + rest;
    assert(s =~= head + (part + payload + rest));
    assert(s.skip(BASIC_HEADER_SIZE as int) =~= part + (payload + rest));
    assert(s.subrange(PAYLOAD_OFFSET as int, PAYLOAD_OFFSET + payload.len()) =~= payload);
    assert(head + part + Seq::<u8>::empty() =~= head + part);
}

/// Reading the bytes of a basic header, of its specific part and of its payload.
pub(crate) proof fn lemma_decode_pieces(
    base: UsbipHeaderBasic,
    part: CommandSpecific,
    payload: Seq<u8>,
    rest: Seq<u8>,
)
    requires
        valid_direction(base.direction),
        base.command == command_of(part),
        payload.len() == announced_payload(base, part),
        payload.len() <= MAX_PAYLOAD_SIZE,
    ensures
        decoded_header(basic_bytes(base) + part_bytes(part) + payload + rest) == Ok::<
            _,
            ProtocolErrorView,
        >(
            (
                base,
                part,
                if payload.len() == 0 {
                    None
                } else {
                    Some(payload)
                },
            ),
        ),
{
    lemma_basic_round_trip(base, part_bytes(part) + payload + rest);
    lemma_part_round_trip(part, payload + rest);
    lemma_pieces(basic_bytes(base), part_bytes(part), payload, rest);
}

/// What was written is read back: where a header is written with a payload of the length that
/// it announces, reading the bytes, whatever follows them, gives the same header and the
/// payload.
pub proof fn law_decode_encoded(header: UsbipHeader, payload: Option<Seq<u8>>, rest: Seq<u8>)
    requires
        encoded_header(header, payload) is Ok,
        payload_fits(header.base, header.part()->0, payload),
    ensures
        decoded_header(encoded_header(header, payload)->Ok_0 + rest) == Ok::<
            _,
            ProtocolErrorView,
        >(
            (
                header.base,
                header.part()->0,
                payload_sent(header.base, header.part()->0, payload),
            ),
        ),
{
    let part = header.part()->0;
    let sent = if announced_payload(header.base, part) == 0 {
        Seq::empty()
    } else {
        payload->0
    };
    lemma_decode_pieces(header.base, part, sent, rest);
    lemma_basic_round_trip(header.base, Seq::empty());
    lemma_part_round_trip(part, Seq::empty());
    lemma_pieces(basic_bytes(header.base), part_bytes(part), sent, rest);
}

/// Reading gives the bytes of a basic header back.
proof fn lemma_basic_read(s: Seq<u8>)
    requires
        s.len() >= BASIC_HEADER_SIZE,
    ensures
        basic_bytes(basic_at(s)) == s.take(BASIC_HEADER_SIZE as int),
{
    lemma_be32_at(s, 0);
    lemma_be32_at(s, 4);
    lemma_be32_at(s, 8);
    lemma_be32_at(s, 12);
    lemma_be32_at(s, 16);
    assert(basic_bytes(basic_at(s)) =~= s.take(BASIC_HEADER_SIZE as int));
}

/// Any four bytes are the bytes of the signed integer that they spell.
proof fn lemma_be_i32_at(s: Seq<u8>, i: int)
    requires
        0 <= i <= s.len() - 4,
    ensures
        be_i32(i32_at(s, i)) == s.subrange(i, i + 4),
{
    lemma_bits_round_trip(u32_at(s, i));
    lemma_be32_at(s, i);
}

/// Reading gives the bytes of six words back.
proof fn lemma_words_read(s: Seq<u8>, w: Seq<u32>)
    requires
        s.len() >= CMD_HEADER_SIZE,
        w.len() == 6,
        forall|i: int| 0 <= i < 6 ==> #[trigger] w[i] == u32_at(s, 4 + 4 * i),
    ensures
        words_bytes(w, 6) == s.subrange(4, CMD_HEADER_SIZE as int),
{
    lemma_six_words(w);
    lemma_be32_at(s, 4);
    lemma_be32_at(s, 8);
    lemma_be32_at(s, 12);
    lemma_be32_at(s, 16);
    lemma_be32_at(s, 20);
    lemma_be32_at(s, 24);
    assert(w[0] == u32_at(s, 4) && w[1] == u32_at(s, 8) && w[2] == u32_at(s, 12));
    assert(w[3] == u32_at(s, 16) && w[4] == u32_at(s, 20) && w[5] == u32_at(s, 24));
    assert(words_bytes(w, 6) =~= s.subrange(4, CMD_HEADER_SIZE as int));
}

/// Reading gives the bytes of a specific part back.
proof fn lemma_part_read(command: u32, s: Seq<u8>)
    requires
        s.len() >= CMD_HEADER_SIZE,
        part_at(command, s) is Some,
    ensures
        part_bytes(part_at(command, s)->0) == s.take(CMD_HEADER_SIZE as int),
        command_of(part_at(command, s)->0) == command,
{
    lemma_be32_at(s, 0);
    lemma_be_i32_at(s, 0);
    lemma_be_i32_at(s, 4);
    lemma_be_i32_at(s, 8);
    lemma_be_i32_at(s, 12);
    lemma_be_i32_at(s, 16);
    match part_at(command, s)->0 {
        CommandSpecific::CmdSubmit(cmd) => {
            assert(cmd_submit_bytes(cmd) =~= s.take(CMD_HEADER_SIZE as int));
        },
        CommandSpecific::RetSubmit(ret) => {
            assert(ret_submit_bytes(ret) =~= s.take(CMD_HEADER_SIZE as int));
        },
        CommandSpecific::CmdUnlink(cmd) => {
            lemma_words_read(s, cmd.__padding@);
            assert(cmd_unlink_bytes(cmd) =~= s.take(CMD_HEADER_SIZE as int));
        },
        CommandSpecific::RetUnlink(ret) => {
            lemma_words_read(s, ret.__padding@);
            assert(ret_unlink_bytes(ret) =~= s.take(CMD_HEADER_SIZE as int));
        },
    }
}

/// What was read is written back: a header that was read off a buffer and that announces no
/// isochronous packets is written, with its payload, as the very bytes it was read from.
pub proof fn law_encode_decoded(s: Seq<u8>, header: UsbipHeader)
    requires
        decoded_header(s) is Ok,
        header.base == decoded_header(s)->Ok_0.0,
        header.part() == Some(decoded_header(s)->Ok_0.1),
        packets_of(header.part()->0) == 0,
    ensures
        encoded_header(header, decoded_header(s)->Ok_0.2) == Ok::<_, ProtocolErrorView>(
            s.take(PAYLOAD_OFFSET + announced_payload(header.base, header.part()->0)),
        ),
{
    let part = header.part()->0;
    let rest = s.skip(BASIC_HEADER_SIZE as int);
    let length = announced_payload(header.base, part);
    lemma_basic_read(s);
    lemma_part_read(header.base.command, rest);
    let head = s.take(BASIC_HEADER_SIZE as int);
    let middle = rest.take(CMD_HEADER_SIZE as int);
    assert(head + middle =~= s.take(PAYLOAD_OFFSET as int));
    if length != 0 {
        let payload = s.subrange(PAYLOAD_OFFSET as int, PAYLOAD_OFFSET + length);
        assert(s.take(PAYLOAD_OFFSET as int) + payload =~= s.take(PAYLOAD_OFFSET + length));
    }
}

/// Only the four commands of the protocol are ever written or read.
pub proof fn law_known_commands_only(header: UsbipHeader, payload: Option<Seq<u8>>, s: Seq<u8>)
    ensures
        encoded_header(header, payload) is Ok ==> is_known_command(header.base.command),
        decoded_header(s) matches Ok((base, _, _)) ==> is_known_command(base.command),
{
}

/// Whether `command` is one that the protocol knows.
pub open spec fn is_known_command(command: u32) -> bool {
    ||| command == constants::CMD_SUBMIT
    ||| command == constants::RET_SUBMIT
    ||| command == constants::CMD_UNLINK
    ||| command == constants::RET_UNLINK
}

/// A written header has 48 bytes, and the bytes of the payload that it carries.
pub proof fn law_encoded_length(header: UsbipHeader, payload: Option<Seq<u8>>)
    requires
        encoded_header(header, payload) is Ok,
    ensures
        encoded_header(header, payload)->Ok_0.len() == PAYLOAD_OFFSET + match payload_sent(
            header.base,
            header.part()->0,
            payload,
        ) {
            Some(bytes) => bytes.len(),
            None => 0,
        },
{
    lemma_basic_round_trip(header.base, Seq::empty());
    lemma_part_round_trip(header.part()->0, Seq::empty());
}

/// A written import request has 292 bytes, and reading them, whatever follows, gives the
/// request again and no other.
pub proof fn law_op_req_import_round_trip(req: OpReqImport, read: OpReqImport, rest: Seq<u8>)
    ensures
        op_req_import_bytes(req).len() == OP_REQ_IMPORT_SIZE,
        is_op_req_import_at(op_req_import_bytes(req) + rest, read) <==> read == req,
{
    let s = op_req_import_bytes(req) + rest;
    assert(s.subrange(0, 4) =~= be32(req.status));
    lemma_u32_found(s, 0, req.status);
    assert(s.subrange(4, 260) =~= req.path@);
    assert(s.subrange(260, 292) =~= req.busid@);
    if is_op_req_import_at(s, read) {
        assert(read.path =~= req.path);
        assert(read.busid =~= req.busid);
    }
}

/// An import request that was read is written as the bytes it was read from.
pub proof fn law_op_req_import_rewritten(s: Seq<u8>, req: OpReqImport)
    requires
        s.len() >= OP_REQ_IMPORT_SIZE,
        is_op_req_import_at(s, req),
    ensures
        op_req_import_bytes(req) == s.take(OP_REQ_IMPORT_SIZE as int),
{
    lemma_be32_at(s, 0);
    assert(op_req_import_bytes(req) =~= s.take(OP_REQ_IMPORT_SIZE as int));
}

/// Where the fields of an import reply stand.
#[verifier::spinoff_prover]
proof fn lemma_op_rep_import_fields(rep: OpRepImport, rest: Seq<u8>)
    ensures
        ({
            let s = op_rep_import_bytes(rep) + rest;
            &&& op_rep_import_bytes(rep).len() == OP_REP_IMPORT_SIZE
            &&& s.subrange(0, 4) == be32(rep.status)
            &&& s.subrange(4, 260) == rep.path@
            &&& s.subrange(260, 292) == rep.busid@
            &&& s.subrange(292, 296) == be32(rep.busnum)
            &&& s.subrange(296, 300) == be32(rep.devnum)
            &&& s.subrange(300, 304) == be32(rep.speed)
            &&& s.subrange(304, 306) == be16(rep.id_vendor)
            &&& s.subrange(306, 308) == be16(rep.id_product)
            &&& s.subrange(308, 310) == be16(rep.bcd_device)
            &&& s.subrange(310, 316) == seq![
                rep.b_device_class,
                rep.b_device_sub_class,
                rep.b_device_protocol,
                rep.b_configuration_value,
                rep.b_num_configurations,
                rep.b_num_interfaces,
            ]
        }),
{
    let s = op_rep_import_bytes(rep) + rest;
    let front = be32(rep.status) + rep.path@ + rep.busid@;
    let numbers = be32(rep.busnum) + be32(rep.devnum) + be32(rep.speed) + be16(rep.id_vendor)
        + be16(rep.id_product) + be16(rep.bcd_device);
    let bytes = seq![
        rep.b_device_class,
        rep.b_device_sub_class,
        rep.b_device_protocol,
        rep.b_configuration_value,
        rep.b_num_configurations,
        rep.b_num_interfaces,
    ];
    assert(s =~= front + numbers + bytes + rest);
    assert(s.subrange(0, 292) =~= front);
    assert(s.subrange(292, 310) =~= numbers);
    assert(s.subrange(310, 316) =~= bytes);
    lemma_subrange_of_subrange(s, 0, 292);
    lemma_subrange_of_subrange(s, 292, 310);
    assert(front.subrange(0, 4) =~= be32(rep.status));
    assert(front.subrange(4, 260) =~= rep.path@);
    assert(front.subrange(260, 292) =~= rep.busid@);
    assert(numbers.subrange(0, 4) =~= be32(rep.busnum));
    assert(numbers.subrange(4, 8) =~= be32(rep.devnum));
    assert(numbers.subrange(8, 12) =~= be32(rep.speed));
    assert(numbers.subrange(12, 14) =~= be16(rep.id_vendor));
    assert(numbers.subrange(14, 16) =~= be16(rep.id_product));
    assert(numbers.subrange(16, 18) =~= be16(rep.bcd_device));
}

/// A range within a range.
proof fn lemma_subrange_of_subrange(s: Seq<u8>, from: int, to: int)
    requires
        0 <= from <= to <= s.len(),
    ensures
        forall|i: int, j: int|
            0 <= i <= j <= to - from ==> #[trigger] s.subrange(from, to).subrange(i, j)
                == s.subrange(from + i, from + j),
{
    assert forall|i: int, j: int| 0 <= i <= j <= to - from implies #[trigger] s.subrange(
        from,
        to,
    ).subrange(i, j) == s.subrange(from + i, from + j) by {
        assert(s.subrange(from, to).subrange(i, j) =~= s.subrange(from + i, from + j));
    }
}

/// A written import reply has 316 bytes, and reading them, whatever follows, gives the reply
/// again and no other.
pub proof fn law_op_rep_import_round_trip(rep: OpRepImport, read: OpRepImport, rest: Seq<u8>)
    ensures
        op_rep_import_bytes(rep).len() == OP_REP_IMPORT_SIZE,
        is_op_rep_import_at(op_rep_import_bytes(rep) + rest, read) <==> read == rep,
{
    let bytes = op_rep_import_bytes(rep);
    let s = bytes + rest;
    lemma_op_rep_import_fields(rep, rest);
    lemma_u32_found(s, 0, rep.status);
    lemma_u32_found(s, 292, rep.busnum);
    lemma_u32_found(s, 296, rep.devnum);
    lemma_u32_found(s, 300, rep.speed);
    lemma_u16_found(s, 304, rep.id_vendor);
    lemma_u16_found(s, 306, rep.id_product);
    lemma_u16_found(s, 308, rep.bcd_device);
    let tail = s.subrange(310, 316);
    assert(tail[0] == s[310] && tail[1] == s[311] && tail[2] == s[312]);
    assert(tail[3] == s[313] && tail[4] == s[314] && tail[5] == s[315]);
    if is_op_rep_import_at(s, read) {
        assert(read.path =~= rep.path);
        assert(read.busid =~= rep.busid);
    }
}

/// An import reply that was read is written as the bytes it was read from.
pub proof fn law_op_rep_import_rewritten(s: Seq<u8>, rep: OpRepImport)
    requires
        s.len() >= OP_REP_IMPORT_SIZE,
        is_op_rep_import_at(s, rep),
    ensures
        op_rep_import_bytes(rep) == s.take(OP_REP_IMPORT_SIZE as int),
{
    lemma_be32_at(s, 0);
    lemma_be32_at(s, 292);
    lemma_be32_at(s, 296);
    lemma_be32_at(s, 300);
    lemma_be16_at(s, 304);
    lemma_be16_at(s, 306);
    lemma_be16_at(s, 308);
    assert(op_rep_import_bytes(rep) =~= s.take(OP_REP_IMPORT_SIZE as int));
}

} // verus!
