//! Asking a server for a device.

use std::time::Duration;
use vstd::prelude::*;
use vstd::utf8::encode_utf8;

use crate::protocol::codec::{
    decode_op_rep_import, incomplete, is_op_rep_import_at, OP_REP_IMPORT_SIZE,
};
use crate::protocol::constants::USBIP_VERSION;
use crate::protocol::octets::u32_at;
use crate::protocol::wire::{OpRepImport, OpReqImport};
use crate::text::{append_decimal, decimal};

verus! {

/// How many seconds an attempt may take.
pub const HANDSHAKE_TIMEOUT_SECS: u64 = 10;

/// How many attempts are made.
pub const MAX_RETRIES: u32 = 3;

/// Why a device could not be had.
#[derive(Debug, PartialEq, Eq)]
pub enum HandshakeError {
    Timeout(Duration),
    ConnectionFailed(String),
    ServerRejected { status: u32 },
    MaxRetriesExceeded(u32),
    InvalidReply(String),
}

/// A [`HandshakeError`], with its text as a sequence of characters.
pub enum HandshakeErrorView {
    Timeout(Duration),
    ConnectionFailed(Seq<char>),
    ServerRejected { status: u32 },
    MaxRetriesExceeded(u32),
    InvalidReply(Seq<char>),
}

impl View for HandshakeError {
    type V = HandshakeErrorView;

    open spec fn view(&self) -> HandshakeErrorView {
        match *self {
            HandshakeError::Timeout(after) => HandshakeErrorView::Timeout(after),
            HandshakeError::ConnectionFailed(text) => HandshakeErrorView::ConnectionFailed(text@),
            HandshakeError::ServerRejected { status } => {
                HandshakeErrorView::ServerRejected { status }
            },
            HandshakeError::MaxRetriesExceeded(attempts) => {
                HandshakeErrorView::MaxRetriesExceeded(attempts)
            },
            HandshakeError::InvalidReply(text) => HandshakeErrorView::InvalidReply(text@),
        }
    }
}

/// The text that `{:?}` gives for a duration.
pub uninterp spec fn duration_text(duration: Duration) -> Seq<char>;

/// Formats a duration with `{:?}`, by the `Debug` impl of `std::time::Duration`. The text
/// depends on the duration alone; how it spells the duration is not stated.
#[verifier::external_body]
fn show_duration(duration: Duration) -> (text: String)
    ensures
        text@ == duration_text(duration),
{
    format!("{:?}", duration)
}

impl HandshakeErrorView {
    /// The message that is shown for the error.
    pub open spec fn message(self) -> Seq<char> {
        match self {
            HandshakeErrorView::Timeout(after) => "operation timed out after "@ + duration_text(
                after,
            ),
            HandshakeErrorView::ConnectionFailed(text) => "connection failed: "@ + text,
            HandshakeErrorView::ServerRejected { status } => "server rejected with status "@
                + decimal(status as nat),
            HandshakeErrorView::MaxRetriesExceeded(attempts) => "max retries exceeded ("@ + decimal(
                attempts as nat,
            ) + ")"@,
            HandshakeErrorView::InvalidReply(text) => "invalid reply: "@ + text,
        }
    }
}

/// The message for an operation that took longer than the time in `after`.
pub fn timeout_message(after: &str) -> (message: String)
    ensures
        message@ == "operation timed out after "@ + after@,
{
    "operation timed out after ".to_string().concat(after)
}

impl HandshakeError {
    /// The message that is shown for the error.
    pub fn to_string(&self) -> (message: String)
        ensures
            message@ == self@.message(),
    {
        match self {
            HandshakeError::Timeout(after) => timeout_message(show_duration(*after).as_str()),
            HandshakeError::ConnectionFailed(text) => "connection failed: ".to_string().concat(
                text.as_str(),
            ),
            HandshakeError::ServerRejected { status } => {
                let mut message = "server rejected with status ".to_string();
                append_decimal(&mut message, *status as u64);
                message
            },
            HandshakeError::MaxRetriesExceeded(attempts) => {
                let mut message = "max retries exceeded (".to_string();
                append_decimal(&mut message, *attempts as u64);
                message.append(")");
                message
            },
            HandshakeError::InvalidReply(text) => "invalid reply: ".to_string().concat(
                text.as_str(),
            ),
        }
    }
}

/// The first `width` of `bytes`, filled up with zeros where there are fewer.
pub open spec fn padded(bytes: Seq<u8>, width: nat) -> Seq<u8> {
    Seq::new(
        width,
        |i: int|
            if i < bytes.len() {
                bytes[i]
            } else {
                0u8
            },
    )
}

fn fill<const N: usize>(bytes: &[u8]) -> (filled: [u8; N])
    ensures
        filled@ == padded(bytes@, N as nat),
{
    let mut filled: [u8; N] = [0u8; N];
    let mut i: usize = 0;
    while i < N && i < bytes.len()
        invariant
            i <= N,
            i <= bytes@.len(),
            forall|j: int| 0 <= j < i ==> filled@[j] == bytes@[j],
            forall|j: int| i <= j < N ==> filled@[j] == 0,
        decreases N - i,
    {
        filled[i] = bytes[i];
        i = i + 1;
    }
    assert(filled@ =~= padded(bytes@, N as nat));
    filled
}

/// The path that a request names.
pub open spec fn import_path() -> Seq<u8> {
    encode_utf8("/sys/devices/pci0000:00"@)
}

/// Whether `req` is the request for `busid`. Only the first 32 bytes of the bus id fit in.
pub open spec fn is_import_request(req: OpReqImport, busid: Seq<char>) -> bool {
    &&& req.status == USBIP_VERSION
    &&& req.path@ == padded(import_path(), 256)
    &&& req.busid@ == padded(encode_utf8(busid), 32)
}

/// Makes the request for a device. The device number plays no part in it.
pub fn make_import_request(busid: &str, _devid: u32) -> (req: OpReqImport)
    ensures
        is_import_request(req, busid@),
{
    OpReqImport {
        status: USBIP_VERSION as u32,
        path: fill("/sys/devices/pci0000:00".as_bytes()),
        busid: fill(busid.as_bytes()),
    }
}

/// Starts to import a device: gives the request that every attempt sends.
pub fn import_device(busid: &str, devid: u32) -> (result: Result<OpReqImport, HandshakeError>)
    ensures
        if busid@.len() == 0 {
            result matches Err(e) && e@ == HandshakeErrorView::InvalidReply("empty busid"@)
        } else {
            result matches Ok(req) && is_import_request(req, busid@)
        },
{
    if busid.is_empty() {
        return Err(HandshakeError::InvalidReply("empty busid".to_string()));
    }
    Ok(make_import_request(busid, devid))
}

/// Why the bytes of a reply are not accepted, if they are not.
pub open spec fn reply_refusal(bytes: Seq<u8>) -> Option<HandshakeErrorView> {
    let status = u32_at(bytes, 0);
    let busnum = u32_at(bytes, 292);
    let devnum = u32_at(bytes, 296);
    if bytes.len() < OP_REP_IMPORT_SIZE {
        Some(
            HandshakeErrorView::InvalidReply(
                incomplete(OP_REP_IMPORT_SIZE as int, bytes.len()).message(),
            ),
        )
    } else if status != 0 {
        Some(HandshakeErrorView::ServerRejected { status })
    } else if busnum == 0 || devnum == 0 {
        Some(
            HandshakeErrorView::InvalidReply(
                "busnum="@ + decimal(busnum as nat) + " devnum="@ + decimal(devnum as nat),
            ),
        )
    } else {
        None
    }
}

/// Whether `result` is the outcome of an attempt that read `read`.
pub open spec fn is_judged(
    result: Result<OpRepImport, HandshakeError>,
    read: Result<Vec<u8>, String>,
) -> bool {
    match read {
        Err(text) => result matches Err(e) && e@ == HandshakeErrorView::ConnectionFailed(text@),
        Ok(bytes) => match reply_refusal(bytes@) {
            Some(error) => result matches Err(e) && e@ == error,
            None => result matches Ok(reply) && is_op_rep_import_at(bytes@, reply),
        },
    }
}

/// Judges one attempt, from what came of connecting, sending the request and reading the reply:
/// the bytes of the reply, or the text of the first error.
pub fn do_handshake(read: Result<Vec<u8>, String>) -> (result: Result<OpRepImport, HandshakeError>)
    ensures
        is_judged(result, read),
{
    let bytes = match read {
        Ok(bytes) => bytes,
        Err(text) => return Err(HandshakeError::ConnectionFailed(text)),
    };
    let reply = match decode_op_rep_import(bytes.as_slice()) {
        Ok(reply) => reply,
        Err(e) => return Err(HandshakeError::InvalidReply(e.to_string())),
    };
    if reply.status != 0 {
        return Err(HandshakeError::ServerRejected { status: reply.status });
    }
    if reply.busnum == 0 || reply.devnum == 0 {
        let mut text = "busnum=".to_string();
        append_decimal(&mut text, reply.busnum as u64);
        text.append(" devnum=");
        append_decimal(&mut text, reply.devnum as u64);
        return Err(HandshakeError::InvalidReply(text));
    }
    Ok(reply)
}

/// What became of one attempt.
pub enum Attempt {
    /// It took too long.
    TimedOut,
    /// It ended in time.
    Ended(Result<OpRepImport, HandshakeError>),
}

/// What to do after an attempt.
pub enum ImportStep {
    /// Try once more, as attempt number `attempt`, counted from 0.
    Retry { attempt: u32 },
    /// The import is over.
    Finished(Result<OpRepImport, HandshakeError>),
}

/// Whether an attempt decides the import: it succeeded, or the server's answer is final.
pub open spec fn is_decisive(outcome: Attempt) -> bool {
    match outcome {
        Attempt::Ended(Ok(_)) => true,
        Attempt::Ended(Err(HandshakeError::ServerRejected { .. })) => true,
        Attempt::Ended(Err(HandshakeError::InvalidReply(_))) => true,
        _ => false,
    }
}

/// What to do after attempt number `attempt`, counted from 0, came out as `outcome`.
pub open spec fn step_after(attempt: u32, outcome: Attempt) -> ImportStep {
    if is_decisive(outcome) {
        ImportStep::Finished(outcome->Ended_0)
    } else if attempt + 1 < MAX_RETRIES {
        ImportStep::Retry { attempt: (attempt + 1) as u32 }
    } else {
        ImportStep::Finished(Err(HandshakeError::MaxRetriesExceeded(MAX_RETRIES)))
    }
}

/// Decides what to do after an attempt.
pub fn after_attempt(attempt: u32, outcome: Attempt) -> (step: ImportStep)
    ensures
        step == step_after(attempt, outcome),
{
    match outcome {
        Attempt::Ended(Ok(reply)) => return ImportStep::Finished(Ok(reply)),
        Attempt::Ended(Err(HandshakeError::ServerRejected { status })) => {
            return ImportStep::Finished(Err(HandshakeError::ServerRejected { status }));
        },
        Attempt::Ended(Err(HandshakeError::InvalidReply(text))) => {
            return ImportStep::Finished(Err(HandshakeError::InvalidReply(text)));
        },
        _ => {},
    }
    if attempt < MAX_RETRIES - 1 {
        ImportStep::Retry { attempt: attempt + 1 }
    } else {
        ImportStep::Finished(Err(HandshakeError::MaxRetriesExceeded(MAX_RETRIES)))
    }
}

/// How an import ends whose attempts come out as `outcomes`, one after the other, starting with
/// attempt number `attempt`; and after how many of them. Nothing, if they run out first.
pub open spec fn import_outcome(attempt: u32, outcomes: Seq<Attempt>) -> Option<
    (Result<OpRepImport, HandshakeError>, nat),
>
    decreases outcomes.len(),
{
    if outcomes.len() == 0 {
        None
    } else {
        match step_after(attempt, outcomes[0]) {
            ImportStep::Finished(result) => Some((result, 1)),
            ImportStep::Retry { attempt: next } => match import_outcome(next, outcomes.skip(1)) {
                Some((result, used)) => Some((result, used + 1)),
                None => None,
            },
        }
    }
}

/// The first decisive one of the first three attempts ends the import with its own outcome, and
/// no further attempt is made. Where none of three is decisive, the import fails for good after
/// the third; where fewer were made and none was decisive, it is not over.
pub proof fn law_import_attempts(outcomes: Seq<Attempt>)
    ensures
        import_outcome(0, outcomes) == if outcomes.len() >= 1 && is_decisive(outcomes[0]) {
            Some((outcomes[0]->Ended_0, 1nat))
        } else if outcomes.len() >= 2 && is_decisive(outcomes[1]) {
            Some((outcomes[1]->Ended_0, 2nat))
        } else if outcomes.len() >= 3 && is_decisive(outcomes[2]) {
            Some((outcomes[2]->Ended_0, 3nat))
        } else if outcomes.len() >= MAX_RETRIES {
            Some((Err(HandshakeError::MaxRetriesExceeded(MAX_RETRIES)), 3nat))
        } else {
            None
        },
{
    reveal_with_fuel(import_outcome, 4);
}

/// A reply that is accepted has status 0 and names a bus and a device.
pub proof fn law_accepted_reply(reply: OpRepImport, read: Result<Vec<u8>, String>)
    requires
        is_judged(Ok(reply), read),
    ensures
        reply.status == 0,
        reply.busnum > 0,
        reply.devnum > 0,
{
}

/// What is said of each error: the words for its kind, and what the error holds.
pub proof fn law_handshake_messages(after: Duration, text: String, n: u32)
    ensures
        HandshakeError::Timeout(after)@.message() == "operation timed out after "@ + duration_text(
            after,
        ),
        HandshakeError::ConnectionFailed(text)@.message() == "connection failed: "@ + text@,
        (HandshakeError::ServerRejected { status: n })@.message() == "server rejected with status "@
            + decimal(n as nat),
        HandshakeError::MaxRetriesExceeded(n)@.message() == "max retries exceeded ("@ + decimal(
            n as nat,
        ) + ")"@,
        HandshakeError::InvalidReply(text)@.message() == "invalid reply: "@ + text@,
{
}

/// Errors that look the same hold the same: the kind, the numbers and the characters.
pub proof fn law_handshake_errors_are_told_apart(a: HandshakeError, b: HandshakeError)
    ensures
        a@ == b@ <==> match (a, b) {
            (HandshakeError::Timeout(d), HandshakeError::Timeout(e)) => d == e,
            (HandshakeError::ConnectionFailed(s), HandshakeError::ConnectionFailed(t)) => s@ == t@,
            (
                HandshakeError::ServerRejected { status: n },
                HandshakeError::ServerRejected { status },
            ) => n == status,
            (HandshakeError::MaxRetriesExceeded(n), HandshakeError::MaxRetriesExceeded(m)) => n
                == m,
            (HandshakeError::InvalidReply(s), HandshakeError::InvalidReply(t)) => s@ == t@,
            _ => false,
        },
{
}

} // verus!
