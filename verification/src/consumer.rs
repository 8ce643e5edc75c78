//! What the consumer does next.

use crate::score::Decision;
use crate::types::{FraudSignal, RawTransaction};
use vstd::prelude::*;

verus! {

/// What waiting for a message came to.
#[derive(Debug, Clone, Copy, PartialEq, Eq, Structural)]
pub enum Received {
    /// The broker reported an error.
    Failed,
    /// A message arrived.
    Message,
}

/// What to do about it.
#[derive(Debug, Clone, Copy, PartialEq, Eq, Structural)]
pub enum Step {
    /// Wait so long, and try again.
    BackOff { millis: u64 },
    /// Evaluate the message in a task of its own, and commit its offset without waiting for the
    /// outcome.
    DispatchAndCommit,
}

/// The consumer backs off for 100 milliseconds after an error, and dispatches every message.
pub fn next_step(received: Received) -> (step: Step)
    ensures
        received == Received::Failed ==> step == (Step::BackOff { millis: 100 }),
        received == Received::Message ==> step == Step::DispatchAndCommit,
{
    match received {
        Received::Failed => Step::BackOff { millis: 100 },
        Received::Message => Step::DispatchAndCommit,
    }
}

/// What the payload of a message turned out to be.
#[derive(Debug)]
pub enum Payload {
    /// There is none.
    Missing,
    /// It is not a transaction.
    Malformed,
    /// It is this transaction.
    Decoded(RawTransaction),
}

/// Why a message is skipped.
#[derive(Debug, Clone, Copy, PartialEq, Eq, Structural)]
pub enum MessageError {
    /// There is no payload.
    EmptyPayload,
    /// The payload is not a transaction.
    Undecodable,
    /// The account's spend does not fit in 64 bits, or the clock shows no date.
    Unevaluable,
}

impl MessageError {
    /// The error in words.
    pub open spec fn text(self) -> Seq<char> {
        match self {
            MessageError::EmptyPayload => "Empty message payload"@,
            MessageError::Undecodable => "Failed to deserialize transaction"@,
            MessageError::Unevaluable => "Transaction cannot be evaluated"@,
        }
    }

    /// The error in words.
    pub fn message(&self) -> (message: &'static str)
        ensures
            message@ == self.text(),
            *self == MessageError::EmptyPayload ==> message@ == "Empty message payload"@,
            *self == MessageError::Undecodable ==> message@ == "Failed to deserialize transaction"@,
            *self == MessageError::Unevaluable ==> message@ == "Transaction cannot be evaluated"@,
    {
        match self {
            MessageError::EmptyPayload => "Empty message payload",
            MessageError::Undecodable => "Failed to deserialize transaction",
            MessageError::Unevaluable => "Transaction cannot be evaluated",
        }
    }
}

/// The transaction of a message, if it has one.
pub fn accept(payload: Payload) -> (accepted: Result<RawTransaction, MessageError>)
    ensures
        payload is Missing <==> accepted == Err::<RawTransaction, _>(MessageError::EmptyPayload),
        payload is Malformed <==> accepted == Err::<RawTransaction, _>(MessageError::Undecodable),
        payload matches Payload::Decoded(txn) ==> accepted == Ok::<_, MessageError>(txn),
{
    match payload {
        Payload::Missing => Err(MessageError::EmptyPayload),
        Payload::Malformed => Err(MessageError::Undecodable),
        Payload::Decoded(txn) => Ok(txn),
    }
}

/// Whether a signal is worth a warning: every blocked transaction is.
pub fn needs_warning(signal: &FraudSignal) -> (yes: bool)
    ensures
        yes == (signal.decision == Decision::Block),
{
    signal.decision == Decision::Block
}

} // verus!
