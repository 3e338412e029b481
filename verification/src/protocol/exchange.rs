//! What holds between the two ends of a connection.

use vstd::prelude::*;
use vstd::utf8::{
    decode_utf8, encode_scalar, encode_utf8, encode_utf8_decode_utf8, encode_utf8_valid_utf8,
    leading_byte_width_1,
};

use crate::protocol::codec::{
    announced_payload, basic_at, basic_bytes, decoded_header, encoded_header, part_at, part_bytes,
    ProtocolErrorView, BASIC_HEADER_SIZE, CMD_HEADER_SIZE, PAYLOAD_OFFSET,
};
use crate::protocol::framing::{first_frame, Role, NUM_PACKETS_OFFSET};
use crate::protocol::handshake::is_import_request;
use crate::protocol::laws::{
    law_decode_encoded, law_encoded_length, lemma_basic_round_trip, lemma_decode_pieces,
    lemma_part_round_trip, payload_fits, payload_sent,
};
use crate::protocol::octets::{i32_at, u32_at};
use crate::protocol::server::{all_zero, answer_bytes, echo_of, payload_size, refusal};
use crate::protocol::session::seqnum_after;
use crate::protocol::wire::{CommandSpecific, OpReqImport, UsbipHeader};
use crate::text::without_trailing_nuls;

verus! {

/// What a message starts with decides how it is read: the first 48 bytes hold the header.
proof fn lemma_head(s: Seq<u8>)
    requires
        s.len() >= PAYLOAD_OFFSET,
    ensures
        ({
            let head = s.take(PAYLOAD_OFFSET as int);
            &&& basic_at(head) == basic_at(s)
            &&& forall|command: u32| #[trigger]
                part_at(command, head.skip(BASIC_HEADER_SIZE as int)) == part_at(
                    command,
                    s.skip(BASIC_HEADER_SIZE as int),
                )
            &&& i32_at(head, NUM_PACKETS_OFFSET as int) == i32_at(s, NUM_PACKETS_OFFSET as int)
        }),
{
    let head = s.take(PAYLOAD_OFFSET as int);
    let inner = head.skip(BASIC_HEADER_SIZE as int);
    let outer = s.skip(BASIC_HEADER_SIZE as int);
    assert forall|i: int| 0 <= i < CMD_HEADER_SIZE implies #[trigger] inner[i] == outer[i] by {}
}

/// A message that a session cuts out of a stream is neither too short nor too long to be read:
/// reading it fails only for its direction or its command, and otherwise the payload is all
/// that follows the first 48 bytes. Reading the stream itself would give the same.
pub proof fn law_session_frame(input: Seq<u8>)
    requires
        first_frame(Role::Session, input) matches Some(Ok(_)),
    ensures
        ({
            let frame = first_frame(Role::Session, input)->0->Ok_0;
            &&& decoded_header(frame) == decoded_header(input)
            &&& match decoded_header(frame) {
                Ok((_, _, payload)) => PAYLOAD_OFFSET + payload_size(payload) == frame.len(),
                Err(error) => error is EncodingError || error is InvalidCommand,
            }
        }),
{
    let frame = first_frame(Role::Session, input)->0->Ok_0;
    lemma_head(input);
    lemma_head(frame);
    assert(frame.take(PAYLOAD_OFFSET as int) =~= input.take(PAYLOAD_OFFSET as int));
    let length = frame.len() - PAYLOAD_OFFSET;
    assert(frame.subrange(PAYLOAD_OFFSET as int, PAYLOAD_OFFSET + length) =~= input.subrange(
        PAYLOAD_OFFSET as int,
        PAYLOAD_OFFSET + length,
    ));
}

/// What one end sends, the other end of a session receives: where a header is written with a
/// payload of the length that it announces, the receiver cuts exactly the written bytes out of
/// the stream, whatever follows, and reads the same header and the payload. In an unlink request
/// or reply the third word of the padding, which stands where a submit counts its packets, has
/// to be zero.
pub proof fn law_sent_is_received(header: UsbipHeader, payload: Option<Seq<u8>>, rest: Seq<u8>)
    requires
        encoded_header(header, payload) is Ok,
        payload_fits(header.base, header.part()->0, payload),
        header.part()->0 matches CommandSpecific::CmdUnlink(cmd) ==> cmd.__padding[2] == 0,
        header.part()->0 matches CommandSpecific::RetUnlink(ret) ==> ret.__padding[2] == 0,
    ensures
        ({
            let bytes = encoded_header(header, payload)->Ok_0;
            &&& first_frame(Role::Session, bytes + rest) == Some(
                Ok::<Seq<u8>, ProtocolErrorView>(bytes),
            )
            &&& decoded_header(bytes) == Ok::<_, ProtocolErrorView>(
                (
                    header.base,
                    header.part()->0,
                    payload_sent(header.base, header.part()->0, payload),
                ),
            )
        }),
{
    let bytes = encoded_header(header, payload)->Ok_0;
    law_decode_encoded(header, payload, Seq::empty());
    assert(bytes + Seq::<u8>::empty() =~= bytes);
    law_encoded_length(header, payload);
    let s = bytes + rest;
    lemma_head(s);
    lemma_head(bytes);
    lemma_packet_word(bytes);
    assert(s.take(PAYLOAD_OFFSET as int) =~= bytes.take(PAYLOAD_OFFSET as int));
    let length = announced_payload(header.base, header.part()->0);
    assert(s.take(PAYLOAD_OFFSET + length) =~= bytes);
}

/// The sequence number after `n` messages were sent.
pub open spec fn seqnum_after_sends(start: u32, n: nat) -> u32
    decreases n,
{
    if n == 0 {
        start
    } else {
        seqnum_after(seqnum_after_sends(start, (n - 1) as nat))
    }
}

/// Sequence numbers count the messages sent, and start again at 0 after the largest.
pub proof fn law_sequence_numbers(start: u32, n: nat)
    ensures
        seqnum_after_sends(start, n) == (start + n) % 0x1_0000_0000,
    decreases n,
{
    if n > 0 {
        law_sequence_numbers(start, (n - 1) as nat);
    }
}

/// The answer to a request carries the request's number, device and endpoint, and the
/// payload that came with it; the requesting end of the session receives exactly that.
pub proof fn law_echo_is_received(message: Seq<u8>, rest: Seq<u8>)
    requires
        decoded_header(message) matches Ok((base, part, payload)) && echo_of(
            base,
            part,
            payload,
        ) is Ok,
    ensures
        ({
            let (base, part, payload) = decoded_header(message)->Ok_0;
            let answer = echo_of(base, part, payload)->Ok_0;
            let bytes = answer_bytes(answer, payload);
            &&& answer.0.seqnum == base.seqnum
            &&& answer.0.devid == base.devid
            &&& answer.0.ep == base.ep
            &&& first_frame(Role::Session, bytes + rest) == Some(
                Ok::<Seq<u8>, ProtocolErrorView>(bytes),
            )
            &&& decoded_header(bytes) == Ok::<_, ProtocolErrorView>((answer.0, answer.1, payload))
        }),
{
    let (base, part, payload) = decoded_header(message)->Ok_0;
    let answer = echo_of(base, part, payload)->Ok_0;
    let bytes = answer_bytes(answer, payload);
    let sent = match payload {
        Some(p) => p,
        None => Seq::empty(),
    };
    let head = basic_bytes(answer.0) + part_bytes(answer.1);
    assert(bytes =~= head + sent);
    lemma_basic_round_trip(answer.0, Seq::empty());
    lemma_part_round_trip(answer.1, Seq::empty());
    lemma_decode_pieces(answer.0, answer.1, sent, Seq::empty());
    assert(head + sent + Seq::<u8>::empty() =~= bytes);
    let s = bytes + rest;
    lemma_head(s);
    lemma_head(bytes);
    lemma_packet_word(bytes);
    assert(s.take(PAYLOAD_OFFSET as int) =~= bytes.take(PAYLOAD_OFFSET as int));
    assert(s.take(PAYLOAD_OFFSET + sent.len()) =~= bytes);
}

/// A request comes back answered: where a submit or unlink request is written with a payload of
/// the length that it announces, the serving end cuts exactly the written bytes out of the
/// stream, whatever follows, and answers them; the requesting end of the session receives the
/// answer, which carries the request's number and the payload that was sent.
pub proof fn law_request_is_answered(
    header: UsbipHeader,
    payload: Option<Seq<u8>>,
    rest: Seq<u8>,
    reply_rest: Seq<u8>,
)
    requires
        encoded_header(header, payload) is Ok,
        payload_fits(header.base, header.part()->0, payload),
        header.part()->0 is CmdSubmit || header.part()->0 is CmdUnlink,
    ensures
        ({
            let part = header.part()->0;
            let bytes = encoded_header(header, payload)->Ok_0;
            let sent = payload_sent(header.base, part, payload);
            &&& first_frame(Role::EchoServer, bytes + rest) == Some(
                Ok::<Seq<u8>, ProtocolErrorView>(bytes),
            )
            &&& decoded_header(bytes) == Ok::<_, ProtocolErrorView>((header.base, part, sent))
            &&& echo_of(header.base, part, sent) matches Ok(answer)
            &&& answer.0.seqnum == header.base.seqnum
            &&& first_frame(Role::Session, answer_bytes(answer, sent) + reply_rest) == Some(
                Ok::<Seq<u8>, ProtocolErrorView>(answer_bytes(answer, sent)),
            )
            &&& decoded_header(answer_bytes(answer, sent)) == Ok::<_, ProtocolErrorView>(
                (answer.0, answer.1, sent),
            )
        }),
{
    let part = header.part()->0;
    let bytes = encoded_header(header, payload)->Ok_0;
    law_decode_encoded(header, payload, Seq::empty());
    assert(bytes + Seq::<u8>::empty() =~= bytes);
    law_encoded_length(header, payload);
    let s = bytes + rest;
    lemma_head(s);
    lemma_head(bytes);
    assert(s.take(PAYLOAD_OFFSET as int) =~= bytes.take(PAYLOAD_OFFSET as int));
    assert(s.take(PAYLOAD_OFFSET + announced_payload(header.base, part)) =~= bytes);
    law_echo_is_received(bytes, reply_rest);
}

/// The word that counts packets is the fourth of the specific part.
proof fn lemma_packet_word(s: Seq<u8>)
    requires
        s.len() >= PAYLOAD_OFFSET,
    ensures
        i32_at(s.skip(BASIC_HEADER_SIZE as int), 12) == i32_at(s, NUM_PACKETS_OFFSET as int),
        u32_at(s.skip(BASIC_HEADER_SIZE as int), 12) == u32_at(s, NUM_PACKETS_OFFSET as int),
{
    let rest = s.skip(BASIC_HEADER_SIZE as int);
    assert(rest[12] == s[32] && rest[13] == s[33] && rest[14] == s[34] && rest[15] == s[35]);
}

/// `n` NUL characters.
pub open spec fn nuls(n: nat) -> Seq<char> {
    Seq::new(n, |i: int| '\0')
}

/// Text is encoded piece by piece.
proof fn lemma_encode_concat(a: Seq<char>, b: Seq<char>)
    ensures
        encode_utf8(a + b) == encode_utf8(a) + encode_utf8(b),
    decreases a.len(),
{
    if a.len() == 0 {
        assert(a + b =~= b);
        assert(encode_utf8(a) + encode_utf8(b) =~= encode_utf8(b));
    } else {
        lemma_encode_concat(a.drop_first(), b);
        assert((a + b).drop_first() =~= a.drop_first() + b);
        assert(encode_utf8(a + b) =~= encode_utf8(a) + encode_utf8(b));
    }
}

/// NUL characters are encoded as zeros.
proof fn lemma_encode_nuls(n: nat)
    ensures
        encode_utf8(nuls(n)) == Seq::new(n, |i: int| 0u8),
    decreases n,
{
    if n > 0 {
        lemma_encode_nuls((n - 1) as nat);
        assert(nuls(n).drop_first() =~= nuls((n - 1) as nat));
        assert(leading_byte_width_1(0) == 0) by (bit_vector);
        assert(encode_scalar(0) =~= seq![0u8]);
    }
    assert(encode_utf8(nuls(n)) =~= Seq::new(n, |i: int| 0u8));
}

/// NUL characters at the end make no difference to the text before them.
proof fn lemma_trailing_nuls(text: Seq<char>, n: nat)
    ensures
        without_trailing_nuls(text + nuls(n)) == without_trailing_nuls(text),
    decreases n,
{
    if n == 0 {
        assert(text + nuls(n) =~= text);
    } else {
        lemma_trailing_nuls(text, (n - 1) as nat);
        assert((text + nuls(n)).drop_last() =~= text + nuls((n - 1) as nat));
    }
}

/// The serving end takes in the request that the asking end makes, and finds the bus id in it:
/// where the bytes of the bus id that fit into a request are the text `kept`, and `kept` is
/// more than NUL characters, the request is not turned away and its bus id reads as `kept`,
/// without NUL characters at the end. For a bus id of at most 32 bytes `kept` is the bus id.
pub proof fn law_request_is_accepted(busid: Seq<char>, kept: Seq<char>, req: OpReqImport)
    requires
        is_import_request(req, busid),
        encode_utf8(kept) == if encode_utf8(busid).len() <= 32 {
            encode_utf8(busid)
        } else {
            encode_utf8(busid).take(32)
        },
        exists|i: int| 0 <= i < kept.len() && kept[i] != '\0',
    ensures
        refusal(req.busid@) is None,
        without_trailing_nuls(decode_utf8(req.busid@)) == without_trailing_nuls(kept),
{
    let bytes = encode_utf8(kept);
    let n = (32 - bytes.len()) as nat;
    let text = kept + nuls(n);
    lemma_encode_concat(kept, nuls(n));
    lemma_encode_nuls(n);
    assert(req.busid@ =~= encode_utf8(text));
    encode_utf8_valid_utf8(text);
    encode_utf8_decode_utf8(text);
    lemma_trailing_nuls(kept, n);
    if all_zero(req.busid@) {
        lemma_encode_nuls(32);
        encode_utf8_decode_utf8(nuls(32));
        assert(req.busid@ =~= encode_utf8(nuls(32)));
        let i = choose|i: int| 0 <= i < kept.len() && kept[i] != '\0';
        assert(text[i] == kept[i]);
        assert(nuls(32)[i] == '\0');
    }
}

} // verus!
