//! The one remote operation of a migration, `replace_blocks`: what is sent for
//! a chunk, and how what comes back is judged.
//!
//! The service speaks Candid. Encoding and decoding are done by the `candid`
//! crate; this module names what that crate returns and builds the rules of a
//! transmission on those names.

use crate::error::MigrationError;
use vstd::prelude::*;

verus! {

/// `candid::Error`, carried from the codec to the place where it is mapped.
#[verifier::external_type_specification]
#[verifier::external_body]
pub struct ExCandidError(candid::Error);

/// `ic_agent::export::PrincipalError`, carried from the parser to the place
/// where it is mapped.
#[verifier::external_type_specification]
#[verifier::external_body]
pub struct ExPrincipalError(ic_agent::export::PrincipalError);

/// The Candid message that `candid::encode_one` builds for one argument of
/// type `vec vec nat8` holding `blocks`, or `None` where it reports an error.
pub uninterp spec fn candid_message(blocks: Seq<Seq<u8>>) -> Option<Seq<u8>>;

/// Whether `candid::decode_one` reads `reply` as a message whose one expected
/// value is the unit: the empty success marker of the service.
pub uninterp spec fn candid_unit_reply(reply: Seq<u8>) -> bool;

/// The bytes of the principal that `ic_agent::export::Principal::from_text`
/// reads from `text`, or `None` where it reports an error.
pub uninterp spec fn principal_bytes(text: Seq<char>) -> Option<Seq<u8>>;

/// Calls `candid::encode_one` on the chunk. The encoder looks at nothing but
/// its argument, so equal chunks give equal results: the contract says that
/// much and leaves the bytes themselves to the encoder.
#[verifier::external_body]
fn candid_encode(chunk: &[Vec<u8>]) -> (res: Result<Vec<u8>, candid::Error>)
    ensures
        match res {
            Ok(message) => candid_message(chunk.deep_view()) == Some(message@),
            Err(_) => candid_message(chunk.deep_view()) is None,
        },
{
    candid::encode_one(chunk)
}

/// Longest reply that is handed to the decoder. The empty success marker
/// takes six bytes. The decoder reads an unbounded number with a 32-bit shift
/// counter that advances by seven for each byte, and its work on such a number
/// grows with the square of the length: the bound keeps the counter in range
/// and the work small.
pub const MAX_REPLY_LEN: usize = 0xffff;

/// Whether a reply is one that the decoder is asked about: at most
/// `MAX_REPLY_LEN` bytes, of which the fifth, the length of the type table
/// that follows the four bytes of the magic number, is zero. The values of
/// such a message are all of primitive types, so the decoder reads each of
/// them without descending into it and without counting elements that take
/// no bytes. The empty success marker is of this form.
pub open spec fn plain_reply(reply: Seq<u8>) -> bool {
    5 <= reply.len() <= MAX_REPLY_LEN && reply[4] == 0
}

/// Calls `candid::decode_one` for the unit type on the reply. Only a
/// `plain_reply` is admitted: on a reply with a type table this version of
/// the decoder may exhaust the stack or count without end while it skips
/// values, and on a very long one its shift counter overflows. The decoder
/// looks at nothing but the bytes, so equal replies are judged alike: the
/// contract says that much and leaves the judgement to the decoder.
#[verifier::external_body]
fn candid_decode_unit(reply: &[u8]) -> (res: Result<(), candid::Error>)
    requires
        plain_reply(reply@),
    ensures
        res is Ok <==> candid_unit_reply(reply@),
{
    candid::decode_one::<()>(reply)
}

/// Calls `ic_agent::export::Principal::from_text` and hands out the
/// principal's bytes. The parser looks at nothing but the text, so equal
/// texts give equal results.
#[verifier::external_body]
fn principal_from_text(text: &str) -> (res: Result<Vec<u8>, ic_agent::export::PrincipalError>)
    ensures
        match res {
            Ok(bytes) => principal_bytes(text@) == Some(bytes@),
            Err(_) => principal_bytes(text@) is None,
        },
{
    ic_agent::export::Principal::from_text(text).map(|principal| principal.as_slice().to_vec())
}

/// Name of the service's method that takes the blocks: an authenticated,
/// state-changing call with one argument, the ordered list of raw blocks.
pub const REPLACE_BLOCKS: &'static str = "replace_blocks";

/// What became of one call to the service.
#[derive(Debug)]
pub enum CallStatus {
    /// The call resolved with this reply.
    Replied(Vec<u8>),
    /// The wait for the call ran out before it resolved.
    TimedOut,
    /// The call resolved without a reply: the service or the channel refused it.
    Refused,
}

/// The result of transmitting one chunk. A chunk succeeds or fails as a unit.
#[derive(Clone, Copy, Debug, PartialEq, Eq, Structural)]
pub enum Outcome {
    /// The service took the chunk.
    Accepted,
    /// The call did not resolve in time.
    TimedOut,
    /// The call resolved, but not with the empty success marker.
    Rejected,
}

impl Outcome {
    /// The failure that an outcome stands for; none for `Accepted`.
    pub open spec fn failure(self) -> Option<MigrationError> {
        match self {
            Outcome::Accepted => None,
            Outcome::TimedOut => Some(MigrationError::TransmissionTimeout),
            Outcome::Rejected => Some(MigrationError::TransmissionRejected),
        }
    }

    /// The failure that this outcome stands for; none for `Accepted`.
    pub fn error(&self) -> (res: Option<MigrationError>)
        ensures
            res == self.failure(),
    {
        match self {
            Outcome::Accepted => None,
            Outcome::TimedOut => Some(MigrationError::TransmissionTimeout),
            Outcome::Rejected => Some(MigrationError::TransmissionRejected),
        }
    }
}

/// The outcome of a call, given whether its reply (if it has one) is the
/// empty success marker. A timeout is never mistaken for a rejection.
pub open spec fn judged(status: CallStatus, reply_is_unit: bool) -> Outcome {
    match status {
        CallStatus::Replied(_) => if reply_is_unit {
            Outcome::Accepted
        } else {
            Outcome::Rejected
        },
        CallStatus::TimedOut => Outcome::TimedOut,
        CallStatus::Refused => Outcome::Rejected,
    }
}

/// Whether a reply is the empty success marker: a `plain_reply` that the
/// decoder reads as the unit.
pub open spec fn accepting_reply(reply: Seq<u8>) -> bool {
    plain_reply(reply) && candid_unit_reply(reply)
}

/// The outcome of a call, as a function of the call's status alone.
pub open spec fn outcome_of(status: CallStatus) -> Outcome {
    match status {
        CallStatus::Replied(reply) => judged(status, accepting_reply(reply@)),
        _ => judged(status, false),
    }
}

/// A timeout and a rejection are different failures, and neither is taken for
/// the other: a call whose wait ran out is a `TransmissionTimeout` whatever
/// else is known of it, and a call that resolved with anything but the empty
/// success marker is a `TransmissionRejected`.
pub proof fn lemma_timeout_differs_from_rejection(reply: Vec<u8>)
    ensures
        outcome_of(CallStatus::TimedOut).failure() == Some(MigrationError::TransmissionTimeout),
        !accepting_reply(reply@) ==> outcome_of(CallStatus::Replied(reply)).failure() == Some(
            MigrationError::TransmissionRejected,
        ),
        accepting_reply(reply@) ==> outcome_of(CallStatus::Replied(reply)).failure() is None,
        outcome_of(CallStatus::Refused).failure() == Some(MigrationError::TransmissionRejected),
        outcome_of(CallStatus::TimedOut) != outcome_of(CallStatus::Replied(reply)),
{
}

/// The argument of `replace_blocks` for a chunk: the Candid message for the
/// ordered list of the chunk's blocks. `None` where the encoder fails.
pub fn encode_chunk(chunk: &[Vec<u8>]) -> (res: Option<Vec<u8>>)
    ensures
        match res {
            Some(message) => candid_message(chunk.deep_view()) == Some(message@),
            None => candid_message(chunk.deep_view()) is None,
        },
{
    match candid_encode(chunk) {
        Ok(message) => Some(message),
        Err(_) => None,
    }
}

/// Whether a reply is the empty success marker. A reply that is longer than
/// `MAX_REPLY_LEN` or carries a type table is none, and is not decoded.
pub fn is_acceptance(reply: &[u8]) -> (res: bool)
    ensures
        res == accepting_reply(reply@),
{
    if reply.len() < 5 || reply.len() > MAX_REPLY_LEN || reply[4] != 0 {
        return false;
    }
    candid_decode_unit(reply).is_ok()
}

/// Judges a call whose reply, if it has one, has been decoded already:
/// `reply_is_unit` says whether it is the empty success marker.
pub fn judge(status: &CallStatus, reply_is_unit: bool) -> (res: Outcome)
    ensures
        res == judged(*status, reply_is_unit),
        res is TimedOut <==> *status is TimedOut,
        res is Accepted <==> *status is Replied && reply_is_unit,
{
    match status {
        CallStatus::Replied(_) => {
            if reply_is_unit {
                Outcome::Accepted
            } else {
                Outcome::Rejected
            }
        },
        CallStatus::TimedOut => Outcome::TimedOut,
        CallStatus::Refused => Outcome::Rejected,
    }
}

/// Judges a call: decodes the reply, if there is one, and tells acceptance,
/// timeout and rejection apart.
pub fn transmission_outcome(status: &CallStatus) -> (res: Outcome)
    ensures
        res == outcome_of(*status),
        res is TimedOut <==> *status is TimedOut,
{
    match status {
        CallStatus::Replied(reply) => {
            let unit: bool = is_acceptance(reply.as_slice());
            judge(status, unit)
        },
        _ => judge(status, false),
    }
}

/// The bytes of the service's principal, read from its textual form. A text
/// that is no principal is a client setup failure.
pub fn service_address(text: &str) -> (res: Result<Vec<u8>, MigrationError>)
    ensures
        match res {
            Ok(bytes) => principal_bytes(text@) == Some(bytes@),
            Err(e) => principal_bytes(text@) is None && e == MigrationError::ClientSetup,
        },
{
    match principal_from_text(text) {
        Ok(bytes) => Ok(bytes),
        Err(_) => Err(MigrationError::ClientSetup),
    }
}

} // verus!
