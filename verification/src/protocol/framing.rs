//! Cutting messages out of a stream of bytes. The first 48 bytes of a message say how many
//! payload bytes follow, so a receiver reads those first and then the payload.

use vstd::prelude::*;

use crate::protocol::codec::{
    announced_payload, basic_at, part_at, payload_too_large, ProtocolError, ProtocolErrorView,
    BASIC_HEADER_SIZE, MAX_PAYLOAD_SIZE, PAYLOAD_OFFSET,
};
use crate::protocol::constants;
use crate::protocol::octets::{get_i32, get_u32, i32_at};
use crate::protocol::wire::CommandSpecific;

verus! {

/// Where the direction stands in a header.
pub const DIRECTION_OFFSET: usize = 12;

/// Where a submit request or reply has its payload length.
pub const LENGTH_OFFSET: usize = 24;

/// Where a submit request or reply has its number of packets.
pub const NUM_PACKETS_OFFSET: usize = 32;

/// Who receives.
#[derive(Debug, Clone, Copy, PartialEq, Eq, Structural)]
pub enum Role {
    /// The end of a session that sends requests. It reads the payload of any message, and
    /// turns isochronous packets away before it reads any.
    Session,
    /// The end that echoes requests. It reads the payload of submit requests only.
    EchoServer,
}

/// How many payload bytes follow a header, for a receiver that reads them.
pub open spec fn bytes_after_head(role: Role, head: Seq<u8>) -> int {
    match part_at(basic_at(head).command, head.skip(BASIC_HEADER_SIZE as int)) {
        None => 0,
        Some(part) => match (role, part) {
            (Role::EchoServer, CommandSpecific::RetSubmit(_)) => 0,
            _ => announced_payload(basic_at(head), part),
        },
    }
}

/// How many bytes a receiver reads after the first 48, or why it turns the message away.
/// In a session the word that counts packets in a submit request is looked at in every
/// message.
pub open spec fn length_after_head(role: Role, head: Seq<u8>) -> Result<int, ProtocolErrorView> {
    if role == Role::Session && i32_at(head, NUM_PACKETS_OFFSET as int) != 0 {
        Err(ProtocolErrorView::IsochronousNotSupported)
    } else if bytes_after_head(role, head) > MAX_PAYLOAD_SIZE {
        Err(payload_too_large(bytes_after_head(role, head)))
    } else {
        Ok(bytes_after_head(role, head))
    }
}

/// What a stream that starts with `input` holds first: a whole message, or one that is turned
/// away, or not enough bytes to tell.
pub open spec fn first_frame(role: Role, input: Seq<u8>) -> Option<
    Result<Seq<u8>, ProtocolErrorView>,
> {
    if input.len() < PAYLOAD_OFFSET {
        None
    } else {
        match length_after_head(role, input.take(PAYLOAD_OFFSET as int)) {
            Err(error) => Some(Err(error)),
            Ok(length) => if input.len() < PAYLOAD_OFFSET + length {
                None
            } else {
                Some(Ok(input.take(PAYLOAD_OFFSET + length)))
            },
        }
    }
}

/// How many bytes are to be read after the first 48.
pub fn payload_length(role: Role, head: &[u8]) -> (result: Result<usize, ProtocolError>)
    requires
        head@.len() == PAYLOAD_OFFSET,
    ensures
        match length_after_head(role, head@) {
            Ok(length) => result matches Ok(n) && n == length,
            Err(error) => result matches Err(e) && e@ == error,
        },
{
    let command = get_u32(head, 0);
    let direction = get_u32(head, DIRECTION_OFFSET);
    let announced = get_i32(head, LENGTH_OFFSET);
    let packets = get_i32(head, NUM_PACKETS_OFFSET);
    proof {
        let rest = head@.skip(BASIC_HEADER_SIZE as int);
        assert forall|i: int| 0 <= i < 28 implies #[trigger] rest[i] == head@[i + 20] by {}
        assert(i32_at(rest, 4) == i32_at(head@, LENGTH_OFFSET as int));
    }
    if role == Role::Session && packets != 0 {
        return Err(ProtocolError::IsochronousNotSupported);
    }
    let length: usize = match command {
        constants::CMD_SUBMIT => if announced > 0 && direction == constants::USBIP_DIR_OUT {
            announced as usize
        } else {
            0
        },
        constants::RET_SUBMIT => if role == Role::Session && announced > 0 {
            announced as usize
        } else {
            0
        },
        _ => 0,
    };
    if length > MAX_PAYLOAD_SIZE {
        return Err(ProtocolError::BufferTooLarge { size: length, max: MAX_PAYLOAD_SIZE });
    }
    Ok(length)
}

/// A message on its way in.
pub struct Receiver {
    role: Role,
    received: Vec<u8>,
    wanted: usize,
}

/// Where a receiver stands after it was given bytes.
pub enum Progress {
    /// More bytes are wanted.
    More(Receiver),
    /// The message is complete.
    Complete(Vec<u8>),
    /// The message is turned away, or could not be read.
    Failed(ProtocolError),
}

impl Receiver {
    #[verifier::type_invariant]
    spec fn consistent(self) -> bool {
        ||| self.received@.len() == 0 && self.wanted == PAYLOAD_OFFSET
        ||| {
            &&& self.received@.len() == PAYLOAD_OFFSET
            &&& length_after_head(self.role, self.received@) == Ok::<int, ProtocolErrorView>(
                self.wanted as int,
            )
            &&& self.wanted > 0
        }
    }

    /// Who receives.
    pub closed spec fn role(self) -> Role {
        self.role
    }

    /// The bytes received so far.
    pub closed spec fn received(self) -> Seq<u8> {
        self.received@
    }

    /// How many bytes are to be read next.
    pub closed spec fn wanted_bytes(self) -> int {
        self.wanted as int
    }

    /// Waits for a new message.
    pub fn new(role: Role) -> (receiver: Self)
        ensures
            receiver.role() == role,
            receiver.received() == Seq::<u8>::empty(),
            receiver.wanted_bytes() == PAYLOAD_OFFSET,
    {
        Receiver { role, received: Vec::new(), wanted: PAYLOAD_OFFSET }
    }

    /// How many bytes are to be read next.
    pub fn wanted(&self) -> (wanted: usize)
        ensures
            wanted == self.wanted_bytes(),
            0 < wanted <= MAX_PAYLOAD_SIZE,
    {
        proof {
            use_type_invariant(self);
        }
        self.wanted
    }

    /// Goes on with what came of reading the wanted bytes: the bytes, or the text of the error.
    /// Together with what was received before, the bytes are the start of the stream: if the
    /// first frame is not decided yet, exactly the bytes that decide it are asked for.
    pub fn receive(self, read: Result<Vec<u8>, String>) -> (progress: Progress)
        requires
            read matches Ok(bytes) ==> bytes@.len() == self.wanted_bytes(),
        ensures
            match read {
                Err(text) => progress matches Progress::Failed(e) && e@
                    == ProtocolErrorView::IoError(text@),
                Ok(bytes) => match first_frame(self.role(), self.received() + bytes@) {
                    None => {
                        &&& progress matches Progress::More(next)
                        &&& next.role() == self.role()
                        &&& next.received() == self.received() + bytes@
                        &&& length_after_head(self.role(), next.received()) == Ok::<
                            int,
                            ProtocolErrorView,
                        >(next.wanted_bytes())
                    },
                    Some(Ok(frame)) => {
                        &&& progress matches Progress::Complete(message)
                        &&& message@ == frame
                        &&& message@ == self.received() + bytes@
                    },
                    Some(Err(error)) => progress matches Progress::Failed(e) && e@ == error,
                },
            },
    {
        proof {
            use_type_invariant(&self);
        }
        let bytes = match read {
            Ok(bytes) => bytes,
            Err(text) => return Progress::Failed(ProtocolError::IoError(text)),
        };
        let ghost whole = self.received@ + bytes@;
        if self.received.len() == 0 {
            assert(whole =~= bytes@);
            assert(whole.take(PAYLOAD_OFFSET as int) =~= whole);
            match payload_length(self.role, bytes.as_slice()) {
                Err(error) => Progress::Failed(error),
                Ok(0) => Progress::Complete(bytes),
                Ok(length) => Progress::More(
                    Receiver { role: self.role, received: bytes, wanted: length },
                ),
            }
        } else {
            assert(whole.take(PAYLOAD_OFFSET as int) =~= self.received@);
            assert(whole.take(PAYLOAD_OFFSET + self.wanted) =~= whole);
            let mut message = self.received;
            message.extend_from_slice(bytes.as_slice());
            assert(message@ =~= whole);
            Progress::Complete(message)
        }
    }
}

} // verus!
