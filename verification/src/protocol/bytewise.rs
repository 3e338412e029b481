//! What messages are, word by word and byte by byte: where each field stands, when a message can
//! be written or read, and what is said when it cannot.

use vstd::prelude::*;
use vstd::std_specs::cmp::PartialEqSpec;

use crate::protocol::codec::{
    announced_payload, basic_at, basic_bytes, cmd_submit_at, decoded_header, encoded_header,
    incomplete, is_decoded, is_op_rep_import_at, is_op_req_import_at, op_rep_import_bytes,
    op_req_import_bytes, owned_payload_bytes, part_at, part_bytes, payload_bytes, ret_submit_at,
    words_bytes, ProtocolError, ProtocolErrorView,
};
use crate::protocol::constants;
use crate::protocol::laws::{
    command_of, law_encoded_length, law_op_rep_import_round_trip, law_op_req_import_round_trip,
    lemma_basic_round_trip, lemma_part_round_trip,
};
use crate::protocol::octets::{
    be16, be32, bits_of, from_bits, i32_at, lemma_bits_round_trip, u16_at, u32_at,
};
use crate::protocol::wire::{
    blank_part, setup_of_words, CommandSpecific, OpRepImport, OpReqImport, UsbipHeader,
    UsbipHeaderUnion,
};
use crate::text::decimal;

verus! {

/// Integers are written and read with the most significant byte first, and a signed integer
/// stands for its bit pattern: the two differ by a multiple of 2 to the 32.
pub proof fn law_integers(n: u32, m: u16, i: i32, s: Seq<u8>, at: int)
    requires
        0 <= at <= s.len() - 4,
    ensures
        be32(n).len() == 4,
        n == be32(n)[0] * 0x100_0000 + be32(n)[1] * 0x1_0000 + be32(n)[2] * 0x100 + be32(n)[3],
        be16(m).len() == 2,
        m == be16(m)[0] * 0x100 + be16(m)[1],
        u32_at(s, at) == s[at] * 0x100_0000 + s[at + 1] * 0x1_0000 + s[at + 2] * 0x100 + s[at + 3],
        u16_at(s, at) == s[at] * 0x100 + s[at + 1],
        (i32_at(s, at) - u32_at(s, at)) % 0x1_0000_0000 == 0,
        (from_bits(n) - n) % 0x1_0000_0000 == 0,
        (bits_of(i) - i) % 0x1_0000_0000 == 0,
{
}

/// The four readings of the same words: each field is the word in its place, a signed one by
/// its bit pattern, and the setup bytes are the bytes of the last two words, least significant
/// first.
pub proof fn law_readings(u: UsbipHeaderUnion)
    ensures
        u.cmd_submit().transfer_flags == u.words[0],
        u.cmd_submit().transfer_buffer_length == from_bits(u.words[1]),
        u.cmd_submit().start_frame == from_bits(u.words[2]),
        u.cmd_submit().number_of_packets == from_bits(u.words[3]),
        u.cmd_submit().interval == from_bits(u.words[4]),
        u.ret_submit().status == from_bits(u.words[0]),
        u.ret_submit().actual_length == from_bits(u.words[1]),
        u.ret_submit().start_frame == from_bits(u.words[2]),
        u.ret_submit().number_of_packets == from_bits(u.words[3]),
        u.ret_submit().error_count == from_bits(u.words[4]),
        u.ret_submit().setup == u.cmd_submit().setup,
        ({
            let setup = u.cmd_submit().setup;
            &&& u.words[5] == setup[0] + setup[1] * 0x100 + setup[2] * 0x1_0000 + setup[3]
                * 0x100_0000
            &&& u.words[6] == setup[4] + setup[5] * 0x100 + setup[6] * 0x1_0000 + setup[7]
                * 0x100_0000
        }),
        u.cmd_unlink().seqnum == u.words[0],
        u.ret_unlink().status == from_bits(u.words[0]),
        forall|k: int|
            0 <= k < 6 ==> #[trigger] u.cmd_unlink().__padding[k] == u.words[k + 1],
        u.ret_unlink().__padding == u.cmd_unlink().__padding,
{
    lemma_four_bytes(u.words[5]);
    lemma_four_bytes(u.words[6]);
}

/// A word is made of its four bytes.
proof fn lemma_four_bytes(w: u32)
    ensures
        w == w % 0x100 + (w / 0x100 % 0x100) * 0x100 + (w / 0x1_0000 % 0x100) * 0x1_0000 + (w
            / 0x100_0000) * 0x100_0000,
        w / 0x100_0000 < 0x100,
{
    assert(w / 0x1_0000 == w / 0x1_0000 % 0x100 + (w / 0x100_0000) * 0x100);
    assert(w / 0x100 == w / 0x100 % 0x100 + (w / 0x1_0000) * 0x100);
}

/// The command says which reading of the words is the specific part of a header.
pub proof fn law_part_by_command(header: UsbipHeader)
    ensures
        header.base.command == constants::CMD_SUBMIT ==> header.part() == Some(
            CommandSpecific::CmdSubmit(header.u.cmd_submit()),
        ),
        header.base.command == constants::RET_SUBMIT ==> header.part() == Some(
            CommandSpecific::RetSubmit(header.u.ret_submit()),
        ),
        header.base.command == constants::CMD_UNLINK ==> header.part() == Some(
            CommandSpecific::CmdUnlink(header.u.cmd_unlink()),
        ),
        header.base.command == constants::RET_UNLINK ==> header.part() == Some(
            CommandSpecific::RetUnlink(header.u.ret_unlink()),
        ),
        header.part() is Some <==> 1 <= header.base.command <= 4,
{
}

/// The blank part of a command belongs to the command, and is written as zeros alone.
pub proof fn law_blank_part(command: u32)
    ensures
        blank_part(command) is Some <==> 1 <= command <= 4,
        blank_part(command) matches Some(part) ==> {
            &&& command_of(part) == command
            &&& part_bytes(part).len() == 28
            &&& forall|i: int| 0 <= i < 28 ==> #[trigger] part_bytes(part)[i] == 0
        },
{
    if let Some(part) = blank_part(command) {
        let b = part_bytes(part);
        lemma_part_round_trip(part, Seq::empty());
        assert(b + Seq::<u8>::empty() =~= b);
        reveal_with_fuel(words_bytes, 7);
        assert forall|i: int| 0 <= i < 28 implies #[trigger] b[i] == 0 by {}
    }
}

/// A word of a specific part stands 20 bytes further on in the message.
proof fn lemma_word_after_basic(s: Seq<u8>)
    requires
        s.len() >= 48,
    ensures
        forall|k: int|
            0 <= k <= 24 ==> #[trigger] u32_at(s.skip(20), k) == u32_at(s, 20 + k),
        forall|k: int| 0 <= k < 28 ==> #[trigger] s.skip(20)[k] == s[20 + k],
{
    let t = s.skip(20);
    assert forall|k: int| 0 <= k <= 24 implies #[trigger] u32_at(t, k) == u32_at(s, 20 + k) by {
        assert(t[k] == s[20 + k] && t[k + 1] == s[20 + k + 1]);
        assert(t[k + 2] == s[20 + k + 2] && t[k + 3] == s[20 + k + 3]);
    }
}

/// The words of a header are the words of the bytes that its specific part is read from.
proof fn lemma_words_of_part(header: UsbipHeader, s: Seq<u8>)
    requires
        s.len() >= 48,
        header.part() is Some,
        part_at(header.base.command, s.skip(20)) == header.part(),
    ensures
        ({
            let w = header.u.words;
            &&& u32_at(s, 20) == w[0]
            &&& u32_at(s, 24) == w[1]
            &&& u32_at(s, 28) == w[2]
            &&& u32_at(s, 32) == w[3]
            &&& u32_at(s, 36) == w[4]
            &&& if header.base.command == constants::CMD_UNLINK || header.base.command
                == constants::RET_UNLINK {
                u32_at(s, 40) == w[5] && u32_at(s, 44) == w[6]
            } else {
                &&& w[5] == s[40] + s[41] * 0x100 + s[42] * 0x1_0000 + s[43] * 0x100_0000
                &&& w[6] == s[44] + s[45] * 0x100 + s[46] * 0x1_0000 + s[47] * 0x100_0000
            }
        }),
{
    let w = header.u.words;
    let t = s.skip(20);
    lemma_word_after_basic(s);
    lemma_bits_round_trip(w[0]);
    lemma_bits_round_trip(w[1]);
    lemma_bits_round_trip(w[2]);
    lemma_bits_round_trip(w[3]);
    lemma_bits_round_trip(w[4]);
    lemma_bits_round_trip(u32_at(t, 0));
    lemma_bits_round_trip(u32_at(t, 4));
    lemma_bits_round_trip(u32_at(t, 8));
    lemma_bits_round_trip(u32_at(t, 12));
    lemma_bits_round_trip(u32_at(t, 16));
    match header.part()->0 {
        CommandSpecific::CmdSubmit(cmd) => {
            lemma_setup_bytes(header.u, t);
            assert(cmd.setup == cmd_submit_at(t).setup);
        },
        CommandSpecific::RetSubmit(ret) => {
            lemma_setup_bytes(header.u, t);
            assert(ret.setup == ret_submit_at(t).setup);
        },
        CommandSpecific::CmdUnlink(cmd) => {
            lemma_padding_words(header.u.words, cmd.__padding, t);
        },
        CommandSpecific::RetUnlink(ret) => {
            lemma_padding_words(header.u.words, ret.__padding, t);
        },
    }
}

/// The padding words, one by one.
proof fn lemma_padding_words(w: [u32; 7], padding: [u32; 6], t: Seq<u8>)
    requires
        padding == [w[1], w[2], w[3], w[4], w[5], w[6]],
        padding == [
            u32_at(t, 4),
            u32_at(t, 8),
            u32_at(t, 12),
            u32_at(t, 16),
            u32_at(t, 20),
            u32_at(t, 24),
        ],
    ensures
        u32_at(t, 4) == w[1],
        u32_at(t, 8) == w[2],
        u32_at(t, 12) == w[3],
        u32_at(t, 16) == w[4],
        u32_at(t, 20) == w[5],
        u32_at(t, 24) == w[6],
{
    assert(padding[0] == w[1] && padding[0] == u32_at(t, 4));
    assert(padding[1] == w[2] && padding[1] == u32_at(t, 8));
    assert(padding[2] == w[3] && padding[2] == u32_at(t, 12));
    assert(padding[3] == w[4] && padding[3] == u32_at(t, 16));
    assert(padding[4] == w[5] && padding[4] == u32_at(t, 20));
    assert(padding[5] == w[6] && padding[5] == u32_at(t, 24));
}

/// The last two words are made of the setup bytes.
proof fn lemma_setup_bytes(u: UsbipHeaderUnion, t: Seq<u8>)
    ensures
        setup_of_words(u.words[5], u.words[6]) == [
            t[20],
            t[21],
            t[22],
            t[23],
            t[24],
            t[25],
            t[26],
            t[27],
        ] ==> {
            &&& u.words[5] == t[20] + t[21] * 0x100 + t[22] * 0x1_0000 + t[23] * 0x100_0000
            &&& u.words[6] == t[24] + t[25] * 0x100 + t[26] * 0x1_0000 + t[27] * 0x100_0000
        },
{
    let setup = setup_of_words(u.words[5], u.words[6]);
    let bytes = [t[20], t[21], t[22], t[23], t[24], t[25], t[26], t[27]];
    law_readings(u);
    if setup == bytes {
        assert(setup[0] == bytes[0] && setup[1] == bytes[1] && setup[2] == bytes[2]);
        assert(setup[3] == bytes[3] && setup[4] == bytes[4] && setup[5] == bytes[5]);
        assert(setup[6] == bytes[6] && setup[7] == bytes[7]);
    }
}

/// Where the fields of a written header stand, and that its payload is what ends the message:
/// a submit reply whose length field is positive carries it, whatever its direction, and so does
/// a submit request that goes out with a positive length; nothing else does.
pub proof fn law_written_header(header: UsbipHeader, payload: Option<Seq<u8>>)
    requires
        encoded_header(header, payload) is Ok,
    ensures
        ({
            let b = encoded_header(header, payload)->Ok_0;
            let w = header.u.words;
            &&& b.len() >= 48
            &&& u32_at(b, 0) == header.base.command
            &&& u32_at(b, 4) == header.base.seqnum
            &&& u32_at(b, 8) == header.base.devid
            &&& u32_at(b, 12) == header.base.direction
            &&& u32_at(b, 16) == header.base.ep
            &&& u32_at(b, 20) == w[0]
            &&& u32_at(b, 24) == w[1]
            &&& u32_at(b, 28) == w[2]
            &&& u32_at(b, 32) == w[3]
            &&& u32_at(b, 36) == w[4]
            &&& if header.base.command == constants::CMD_UNLINK || header.base.command
                == constants::RET_UNLINK {
                u32_at(b, 40) == w[5] && u32_at(b, 44) == w[6]
            } else {
                &&& w[5] == b[40] + b[41] * 0x100 + b[42] * 0x1_0000 + b[43] * 0x100_0000
                &&& w[6] == b[44] + b[45] * 0x100 + b[46] * 0x1_0000 + b[47] * 0x100_0000
            }
            &&& if 0 < w[1] < 0x8000_0000 && (header.base.command == constants::RET_SUBMIT || (
            header.base.command == constants::CMD_SUBMIT && header.base.direction == 0)) {
                payload matches Some(p) && b.skip(48) == p
            } else {
                b.len() == 48
            }
        }),
{
    let b = encoded_header(header, payload)->Ok_0;
    let part = header.part()->0;
    let head = basic_bytes(header.base);
    let mid = part_bytes(part);
    law_encoded_length(header, payload);
    let tail = b.skip(48);
    lemma_basic_round_trip(header.base, mid + tail);
    lemma_part_round_trip(part, tail);
    assert(head.len() == 20 && mid.len() == 28);
    assert(b =~= head + (mid + tail));
    assert(b.skip(20) =~= mid + tail);
    assert(basic_at(b) == header.base);
    lemma_words_of_part(header, b);
    if let Some(p) = payload {
        if announced_payload(header.base, part) != 0 {
            assert(tail =~= p);
        }
    }
}

/// When a header can be written, and what is said when it cannot. The first thing wrong counts:
/// the direction, the command, isochronous packets, a payload that is missing, one that is too
/// long.
pub proof fn law_when_a_header_is_written(header: UsbipHeader, payload: Option<Seq<u8>>)
    ensures
        ({
            let outcome = encoded_header(header, payload);
            let command = header.base.command;
            let w = header.u.words;
            let carries = 0 < w[1] < 0x8000_0000 && (command == constants::RET_SUBMIT || (command
                == constants::CMD_SUBMIT && header.base.direction == 0));
            if header.base.direction > 1 {
                outcome == Err::<Seq<u8>, _>(
                    ProtocolErrorView::EncodingError(
                        "invalid direction value: "@ + decimal(header.base.direction as nat),
                    ),
                )
            } else if command == 0 || command > 4 {
                outcome == Err::<Seq<u8>, _>(ProtocolErrorView::InvalidCommand { command })
            } else if (command == constants::CMD_SUBMIT || command == constants::RET_SUBMIT) && w[3]
                != 0 {
                outcome == Err::<Seq<u8>, _>(ProtocolErrorView::IsochronousNotSupported)
            } else if carries && payload is None && command == constants::CMD_SUBMIT {
                outcome == Err::<Seq<u8>, _>(
                    ProtocolErrorView::EncodingError(
                        "CMD_SUBMIT with transfer_buffer_length > 0 requires payload"@,
                    ),
                )
            } else if carries && payload is None {
                outcome == Err::<Seq<u8>, _>(
                    ProtocolErrorView::EncodingError(
                        "RET_SUBMIT with actual_length > 0 requires payload"@,
                    ),
                )
            } else if carries && payload->0.len() > 1_048_576 {
                outcome == Err::<Seq<u8>, _>(
                    ProtocolErrorView::BufferTooLarge {
                        size: payload->0.len() as int,
                        max: 1_048_576,
                    },
                )
            } else {
                outcome is Ok
            }
        }),
{
}

/// What is read of a buffer that holds a whole message: every field from its place, and the
/// payload right behind the first 48 bytes. A submit reply with a positive length has one,
/// whatever its direction, and so has a submit request that goes out with a positive length;
/// nothing else has.
pub proof fn law_read_header(
    s: Seq<u8>,
    result: Result<(UsbipHeader, Option<Vec<u8>>), ProtocolError>,
)
    requires
        is_decoded(result, decoded_header(s)),
        s.len() >= 48,
        u32_at(s, 12) <= 1,
        1 <= u32_at(s, 0) <= 4,
        (u32_at(s, 0) == constants::RET_SUBMIT || (u32_at(s, 0) == constants::CMD_SUBMIT && u32_at(
            s,
            12,
        ) == 0)) ==> i32_at(s, 24) <= 1_048_576 && s.len() >= 48 + i32_at(s, 24),
    ensures
        result matches Ok((header, payload)) && {
            let command = u32_at(s, 0);
            let n = i32_at(s, 24);
            let w = header.u.words;
            &&& header.base.command == command
            &&& header.base.seqnum == u32_at(s, 4)
            &&& header.base.devid == u32_at(s, 8)
            &&& header.base.direction == u32_at(s, 12)
            &&& header.base.ep == u32_at(s, 16)
            &&& w[0] == u32_at(s, 20)
            &&& w[1] == u32_at(s, 24)
            &&& w[2] == u32_at(s, 28)
            &&& w[3] == u32_at(s, 32)
            &&& w[4] == u32_at(s, 36)
            &&& if command == constants::CMD_UNLINK || command == constants::RET_UNLINK {
                w[5] == u32_at(s, 40) && w[6] == u32_at(s, 44)
            } else {
                &&& w[5] == s[40] + s[41] * 0x100 + s[42] * 0x1_0000 + s[43] * 0x100_0000
                &&& w[6] == s[44] + s[45] * 0x100 + s[46] * 0x1_0000 + s[47] * 0x100_0000
            }
            &&& if n > 0 && (command == constants::RET_SUBMIT || (command == constants::CMD_SUBMIT
                && u32_at(s, 12) == 0)) {
                payload matches Some(bytes) && bytes@ == s.subrange(48, 48 + n)
            } else {
                payload is None
            }
        },
{
    assert(result is Ok);
    let header = result->Ok_0.0;
    assert(header.base == basic_at(s));
    lemma_word_after_basic(s);
    let n = i32_at(s, 24);
    assert(i32_at(s.skip(20), 4) == n);
    lemma_words_of_part(header, s);
}

/// What is said of a buffer that does not hold a message that can be read. The first thing
/// wrong counts: fewer than 20 bytes, the direction, fewer than 48 bytes, the command, a payload
/// that is not all there, one that is too long.
pub proof fn law_unread_header(
    s: Seq<u8>,
    result: Result<(UsbipHeader, Option<Vec<u8>>), ProtocolError>,
)
    requires
        is_decoded(result, decoded_header(s)),
    ensures
        ({
            let command = u32_at(s, 0);
            let direction = u32_at(s, 12);
            let n = i32_at(s, 24);
            let carries = n > 0 && (command == constants::RET_SUBMIT || (command
                == constants::CMD_SUBMIT && direction == 0));
            if s.len() < 20 {
                result matches Err(ProtocolError::IncompleteBuffer { needed, available }) && needed
                    == 20 && available == s.len()
            } else if direction > 1 {
                result matches Err(ProtocolError::EncodingError(text)) && text@
                    == "invalid direction value: "@ + decimal(direction as nat)
            } else if s.len() < 48 {
                result matches Err(ProtocolError::IncompleteBuffer { needed, available }) && needed
                    == 48 && available == s.len()
            } else if command == 0 || command > 4 {
                result matches Err(ProtocolError::InvalidCommand { command: c }) && c == command
            } else if carries && s.len() < 48 + n {
                result matches Err(ProtocolError::IncompleteBuffer { needed, available }) && needed
                    == 48 + n && available == s.len()
            } else if carries && n > 1_048_576 {
                result matches Err(ProtocolError::BufferTooLarge { size, max }) && size == n && max
                    == 1_048_576
            } else {
                result is Ok
            }
        }),
{
    if s.len() >= 48 {
        lemma_word_after_basic(s);
        assert(i32_at(s.skip(20), 4) == i32_at(s, 24));
    }
}

/// Reading looks at the message alone: bytes behind a message that can be read change nothing.
pub proof fn law_what_follows_is_not_read(s: Seq<u8>, rest: Seq<u8>)
    requires
        decoded_header(s) is Ok,
    ensures
        decoded_header(s + rest) == decoded_header(s),
{
    let t = s + rest;
    let a = s.skip(20);
    let b = t.skip(20);
    assert forall|i: int| 0 <= i < 28 implies #[trigger] a[i] == b[i] by {}
    assert(basic_at(t) == basic_at(s));
    assert(part_at(basic_at(t).command, b) == part_at(basic_at(s).command, a));
    let (base, part, _) = decoded_header(s)->Ok_0;
    let n = announced_payload(base, part);
    assert(s.len() >= 48 + n);
    assert(t.subrange(48, 48 + n) =~= s.subrange(48, 48 + n));
}

/// Where the fields of an import request stand in the bytes it is written as.
pub proof fn law_written_import_request(req: OpReqImport)
    ensures
        ({
            let b = op_req_import_bytes(req);
            &&& b.len() == 292
            &&& u32_at(b, 0) == req.status
            &&& forall|i: int| 0 <= i < 256 ==> #[trigger] req.path[i] == b[4 + i]
            &&& forall|i: int| 0 <= i < 32 ==> #[trigger] req.busid[i] == b[260 + i]
        }),
{
    let b = op_req_import_bytes(req);
    law_op_req_import_round_trip(req, req, Seq::empty());
    assert(b + Seq::<u8>::empty() =~= b);
    law_read_import_request(b, req);
}

/// Where the fields of an import request are read from.
pub proof fn law_read_import_request(s: Seq<u8>, req: OpReqImport)
    requires
        s.len() >= 292,
        is_op_req_import_at(s, req),
    ensures
        req.status == u32_at(s, 0),
        forall|i: int| 0 <= i < 256 ==> #[trigger] req.path[i] == s[4 + i],
        forall|i: int| 0 <= i < 32 ==> #[trigger] req.busid[i] == s[260 + i],
{
    assert forall|i: int| 0 <= i < 256 implies #[trigger] req.path[i] == s[4 + i] by {
        assert(req.path@[i] == s.subrange(4, 260)[i]);
    }
    assert forall|i: int| 0 <= i < 32 implies #[trigger] req.busid[i] == s[260 + i] by {
        assert(req.busid@[i] == s.subrange(260, 292)[i]);
    }
}

/// Where the fields of an import reply stand in the bytes it is written as.
pub proof fn law_written_import_reply(rep: OpRepImport)
    ensures
        ({
            let b = op_rep_import_bytes(rep);
            &&& b.len() == 316
            &&& u32_at(b, 0) == rep.status
            &&& forall|i: int| 0 <= i < 256 ==> #[trigger] rep.path[i] == b[4 + i]
            &&& forall|i: int| 0 <= i < 32 ==> #[trigger] rep.busid[i] == b[260 + i]
            &&& u32_at(b, 292) == rep.busnum
            &&& u32_at(b, 296) == rep.devnum
            &&& u32_at(b, 300) == rep.speed
            &&& u16_at(b, 304) == rep.id_vendor
            &&& u16_at(b, 306) == rep.id_product
            &&& u16_at(b, 308) == rep.bcd_device
            &&& b[310] == rep.b_device_class
            &&& b[311] == rep.b_device_sub_class
            &&& b[312] == rep.b_device_protocol
            &&& b[313] == rep.b_configuration_value
            &&& b[314] == rep.b_num_configurations
            &&& b[315] == rep.b_num_interfaces
        }),
{
    let b = op_rep_import_bytes(rep);
    law_op_rep_import_round_trip(rep, rep, Seq::empty());
    assert(b + Seq::<u8>::empty() =~= b);
    law_read_import_reply(b, rep);
}

/// Where the fields of an import reply are read from.
pub proof fn law_read_import_reply(s: Seq<u8>, rep: OpRepImport)
    requires
        s.len() >= 316,
        is_op_rep_import_at(s, rep),
    ensures
        rep.status == u32_at(s, 0),
        forall|i: int| 0 <= i < 256 ==> #[trigger] rep.path[i] == s[4 + i],
        forall|i: int| 0 <= i < 32 ==> #[trigger] rep.busid[i] == s[260 + i],
        rep.busnum == u32_at(s, 292),
        rep.devnum == u32_at(s, 296),
        rep.speed == u32_at(s, 300),
        rep.id_vendor == u16_at(s, 304),
        rep.id_product == u16_at(s, 306),
        rep.bcd_device == u16_at(s, 308),
        rep.b_device_class == s[310],
        rep.b_device_sub_class == s[311],
        rep.b_device_protocol == s[312],
        rep.b_configuration_value == s[313],
        rep.b_num_configurations == s[314],
        rep.b_num_interfaces == s[315],
{
    assert forall|i: int| 0 <= i < 256 implies #[trigger] rep.path[i] == s[4 + i] by {
        assert(rep.path@[i] == s.subrange(4, 260)[i]);
    }
    assert forall|i: int| 0 <= i < 32 implies #[trigger] rep.busid[i] == s[260 + i] by {
        assert(rep.busid@[i] == s.subrange(260, 292)[i]);
    }
}

/// What is said of a buffer that is too short: how many bytes are needed, and how many there are.
pub proof fn law_too_short(needed: int, available: nat)
    ensures
        incomplete(needed, available) == (ProtocolErrorView::IncompleteBuffer {
            needed,
            available: available as int,
        }),
{
}

/// A payload that is given is given whole.
pub proof fn law_given_payload(borrowed: &[u8], owned: Vec<u8>)
    ensures
        payload_bytes(Some(borrowed)) == Some(borrowed@),
        payload_bytes(None) is None,
        owned_payload_bytes(Some(owned)) == Some(owned@),
        owned_payload_bytes(None) is None,
{
}

/// Headers are compared by their basic parts, field by field, and words by nothing.
pub proof fn law_equal_headers(a: UsbipHeader, b: UsbipHeader)
    ensures
        a.eq_spec(&b) <==> {
            &&& a.base.command == b.base.command
            &&& a.base.seqnum == b.base.seqnum
            &&& a.base.devid == b.base.devid
            &&& a.base.direction == b.base.direction
            &&& a.base.ep == b.base.ep
        },
        a.u.eq_spec(&b.u),
{
}

/// The numbers that the protocol assigns.
pub proof fn law_assigned_numbers()
    ensures
        constants::USBIP_VERSION == 0x0111,
        constants::OP_REQ_DEVLIST == 0x8005,
        constants::OP_REP_DEVLIST == 0x0005,
        constants::OP_REQ_IMPORT == 0x8003,
        constants::OP_REP_IMPORT == 0x0003,
        constants::OP_REQ_EXPORT == 0x8006,
        constants::OP_REP_EXPORT == 0x0006,
        constants::CMD_SUBMIT == 1,
        constants::CMD_UNLINK == 2,
        constants::RET_SUBMIT == 3,
        constants::RET_UNLINK == 4,
        constants::USBIP_DIR_OUT == 0,
        constants::USBIP_DIR_IN == 1,
        constants::USBIP_URB_SHORT_NOT_OK == 0x01,
        constants::USBIP_URB_ISO_ASAP == 0x02,
        constants::USBIP_URB_NO_TRANSFER_DMA_MAP == 0x04,
        constants::USBIP_URB_ZERO_PACKET == 0x08,
        constants::USBIP_URB_NO_INTERRUPT == 0x10,
        constants::USBIP_URB_FREE_BUFFER == 0x20,
        constants::USBIP_URB_DIR_IN == 0x40,
        constants::USBIP_URB_DIR_OUT == 0x80,
{
}

} // verus!
