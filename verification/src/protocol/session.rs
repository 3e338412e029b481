//! An open session with a server that has handed over a device.

use bytes::BytesMut;
use vstd::prelude::*;

use crate::protocol::buffer::contents;
use crate::protocol::codec::{
    decode_header, decoded_header, encode_header, encoded_header, is_decoded, payload_bytes,
    ProtocolError, ProtocolErrorView, PAYLOAD_OFFSET,
};
use crate::protocol::conduct::law_only_the_number_is_set;
use crate::protocol::framing::{first_frame, length_after_head, Progress, Receiver, Role};
use crate::protocol::octets::be32;
use crate::protocol::wire::{OpRepImport, UsbipHeader, UsbipHeaderBasic};

verus! {

/// The state of a session. The connection itself belongs to whoever drives the session: it
/// writes the bytes that [`TcpSession::send_header`] gives, and reads the bytes that a
/// [`Receiver`] asks for.
pub struct TcpSession {
    pub next_seqnum: u32,
    pub devid: u32,
    pub busid: String,
    pub reply: OpRepImport,
    pub closed: bool,
}

/// `header` under another sequence number.
pub open spec fn renumbered(header: UsbipHeader, seqnum: u32) -> UsbipHeader {
    UsbipHeader { base: UsbipHeaderBasic { seqnum, ..header.base }, u: header.u }
}

/// The sequence number after `seqnum`: past the largest one the count starts again.
pub open spec fn seqnum_after(seqnum: u32) -> u32 {
    if seqnum == u32::MAX {
        0
    } else {
        (seqnum + 1) as u32
    }
}

/// The error for using a session that was closed.
pub open spec fn session_closed() -> ProtocolErrorView {
    ProtocolErrorView::IoError("session closed"@)
}

/// Where a message stands that is being received in a session.
pub enum Receiving {
    /// More bytes are wanted.
    More(Receiver),
    /// The message was read, or turned away.
    Done(Result<(UsbipHeader, Option<Vec<u8>>), ProtocolError>),
}

impl TcpSession {
    /// A session for a device that was just imported.
    pub fn new(busid: &str, devid: u32, reply: OpRepImport) -> (session: Self)
        ensures
            session.next_seqnum == 0,
            session.devid == devid,
            session.busid@ == busid@,
            session.reply == reply,
            !session.closed,
    {
        TcpSession { next_seqnum: 0, devid, busid: busid.to_string(), reply, closed: false }
    }

    /// The device that the session is for.
    pub fn devid(&self) -> (devid: u32)
        ensures
            devid == self.devid,
    {
        self.devid
    }

    /// The bus id of the device.
    pub fn busid(&self) -> (busid: &str)
        ensures
            busid@ == self.busid@,
    {
        self.busid.as_str()
    }

    /// The reply that the device was imported with.
    pub fn reply(&self) -> (reply: &OpRepImport)
        ensures
            *reply == self.reply,
    {
        &self.reply
    }

    /// Gives the bytes to write for a message. The header gets the next sequence number, which
    /// is used up even where the message cannot be written.
    pub fn send_header(&mut self, header: &UsbipHeader, payload: Option<&[u8]>) -> (result: Result<
        BytesMut,
        ProtocolError,
    >)
        ensures
            if old(self).closed {
                &&& result matches Err(e)
                &&& e@ == session_closed()
                &&& *final(self) == *old(self)
            } else {
                &&& match encoded_header(
                    renumbered(*header, old(self).next_seqnum),
                    payload_bytes(payload),
                ) {
                    Ok(bytes) => result matches Ok(buf) && contents(buf) == bytes,
                    Err(error) => result matches Err(e) && e@ == error,
                }
                &&& match encoded_header(*header, payload_bytes(payload)) {
                    Ok(bytes) => result matches Ok(buf) && contents(buf) == bytes.take(4) + be32(
                        old(self).next_seqnum,
                    ) + bytes.skip(8),
                    Err(error) => result matches Err(e) && e@ == error,
                }
                &&& *final(self) == (TcpSession {
                    next_seqnum: seqnum_after(old(self).next_seqnum),
                    ..*old(self)
                })
            },
    {
        if self.closed {
            return Err(ProtocolError::IoError("session closed".to_string()));
        }
        let mut numbered = *header;
        numbered.base.seqnum = self.next_seqnum;
        self.next_seqnum = self.next_seqnum.wrapping_add(1);
        assert(numbered == renumbered(*header, old(self).next_seqnum));
        proof {
            law_only_the_number_is_set(*header, old(self).next_seqnum, payload_bytes(payload));
        }
        encode_header(&numbered, payload)
    }

    /// Starts to receive a message, unless the session was closed.
    pub fn recv_header(&self) -> (result: Result<Receiver, ProtocolError>)
        ensures
            if self.closed {
                result matches Err(e) && e@ == session_closed()
            } else {
                &&& result matches Ok(receiver)
                &&& receiver.role() == Role::Session
                &&& receiver.received() == Seq::<u8>::empty()
                &&& receiver.wanted_bytes() == PAYLOAD_OFFSET
            },
    {
        if self.closed {
            return Err(ProtocolError::IoError("session closed".to_string()));
        }
        Ok(Receiver::new(Role::Session))
    }

    /// Takes note of how receiving a message ended: a failure closes the session, and the
    /// connection is to be shut down. A session that was closed before may receive in this way
    /// too.
    pub fn recv_header_or_close(
        &mut self,
        received: Result<(UsbipHeader, Option<Vec<u8>>), ProtocolError>,
    ) -> (result: Result<(UsbipHeader, Option<Vec<u8>>), ProtocolError>)
        ensures
            result == received,
            *final(self) == (TcpSession {
                closed: old(self).closed || received is Err,
                ..*old(self)
            }),
    {
        match received {
            Ok(message) => Ok(message),
            Err(error) => {
                self.closed = true;
                Err(error)
            },
        }
    }
}

/// Goes on receiving with what came of reading the bytes that the receiver wanted.
pub fn recv_header_step(receiver: Receiver, read: Result<Vec<u8>, String>) -> (next: Receiving)
    requires
        read matches Ok(bytes) ==> bytes@.len() == receiver.wanted_bytes(),
    ensures
        match read {
            Err(text) => {
                &&& next matches Receiving::Done(Err(e))
                &&& e@ == ProtocolErrorView::IoError(text@)
            },
            Ok(bytes) => match first_frame(receiver.role(), receiver.received() + bytes@) {
                None => {
                    &&& next matches Receiving::More(waiting)
                    &&& waiting.role() == receiver.role()
                    &&& waiting.received() == receiver.received() + bytes@
                    &&& length_after_head(receiver.role(), waiting.received()) == Ok::<
                        int,
                        ProtocolErrorView,
                    >(waiting.wanted_bytes())
                },
                Some(Ok(frame)) => {
                    &&& next matches Receiving::Done(result)
                    &&& is_decoded(result, decoded_header(frame))
                },
                Some(Err(error)) => {
                    &&& next matches Receiving::Done(Err(e))
                    &&& e@ == error
                },
            },
        },
{
    match receiver.receive(read) {
        Progress::More(waiting) => Receiving::More(waiting),
        Progress::Complete(message) => Receiving::Done(decode_header(message.as_slice())),
        Progress::Failed(error) => Receiving::Done(Err(error)),
    }
}

} // verus!
