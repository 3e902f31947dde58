//! One submission attempt: fetch a fresh anchor, sign, broadcast, await
//! confirmation. The attempt moves forward only, never back, and is never
//! repeated.

use crate::signing::{OrderView, SignedTransfer, TransferOrder};
use vstd::prelude::*;

verus! {

/// The stages of an attempt at which it can end in failure.
#[derive(Clone, Copy, Debug, PartialEq, Eq, Structural)]
pub enum Stage {
    FetchAnchor,
    /// Listed for completeness: with a loaded identity signing does not fail.
    Sign,
    Broadcast,
    Confirm,
}

/// How much agreement the ledger node must report before a transaction counts
/// as accepted.
#[derive(Clone, Copy, Debug, PartialEq, Eq, Structural)]
pub enum Commitment {
    Processed,
    Confirmed,
    Finalized,
}

/// Why a stage failed.
#[derive(Debug)]
pub enum Cause {
    /// The ledger node or the transport reported this error.
    Reported(String),
    /// What came in was not the answer to the outstanding request.
    Unanswered,
}

/// How an attempt ended.
#[derive(Debug)]
pub enum Outcome {
    Success { signature: String },
    Failed { stage: Stage, cause: Cause },
}

/// What the ledger node is asked to do next.
#[derive(Debug)]
pub enum LedgerRequest {
    FetchAnchor,
    Broadcast(SignedTransfer),
    Confirm { identifier: String, level: Commitment },
}

/// A request over byte sequences.
pub enum RequestView {
    FetchAnchor,
    Broadcast { signature: Seq<u8>, message: Seq<u8> },
    Confirm { identifier: String, level: Commitment },
}

impl View for LedgerRequest {
    type V = RequestView;

    open spec fn view(&self) -> RequestView {
        match *self {
            LedgerRequest::FetchAnchor => RequestView::FetchAnchor,
            LedgerRequest::Broadcast(transfer) => RequestView::Broadcast {
                signature: transfer@.0,
                message: transfer@.1,
            },
            LedgerRequest::Confirm { identifier, level } => RequestView::Confirm { identifier, level },
        }
    }
}

/// What the ledger node answered.
#[derive(Debug)]
pub enum LedgerReply {
    /// The current validity anchor, or why none could be had.
    Anchor(Result<[u8; 32], String>),
    /// The identifier of the transaction that was accepted for broadcast.
    Broadcast(Result<String, String>),
    /// The transaction reached the confirmation level, or did not.
    Confirmed(Result<(), String>),
}

/// An attempt in flight, named by the answer that it waits for.
#[derive(Debug)]
pub enum Attempt {
    FetchAnchor,
    Broadcast,
    Confirm { signature: String },
}

/// An attempt after an answer: it goes on with a request, or it has ended.
#[derive(Debug)]
pub enum Progress {
    Next { attempt: Attempt, request: LedgerRequest },
    Done(Outcome),
}

/// Progress over byte sequences.
pub enum ProgressView {
    Next { attempt: Attempt, request: RequestView },
    Done(Outcome),
}

impl View for Progress {
    type V = ProgressView;

    open spec fn view(&self) -> ProgressView {
        match *self {
            Progress::Next { attempt, request } => ProgressView::Next { attempt, request: request@ },
            Progress::Done(outcome) => ProgressView::Done(outcome),
        }
    }
}

/// The confirmation level that every attempt waits for.
pub open spec fn required_level() -> Commitment {
    Commitment::Confirmed
}

impl Attempt {
    /// The stage that the attempt is in.
    pub open spec fn stage(self) -> Stage {
        match self {
            Attempt::FetchAnchor => Stage::FetchAnchor,
            Attempt::Broadcast => Stage::Broadcast,
            Attempt::Confirm { .. } => Stage::Confirm,
        }
    }

    /// What an answer makes of an attempt.
    ///
    /// An error ends the attempt at its stage. The anchor is signed over at
    /// once and the signed transfer goes out for broadcast; the identifier
    /// that the broadcast returns is awaited; its confirmation is success.
    /// An answer to another request than the outstanding one ends the
    /// attempt at its stage too.
    pub open spec fn after(self, order: OrderView, reply: LedgerReply) -> ProgressView {
        match (self, reply) {
            (Attempt::FetchAnchor, LedgerReply::Anchor(Ok(anchor))) => ProgressView::Next {
                attempt: Attempt::Broadcast,
                request: RequestView::Broadcast {
                    signature: order.signed_over(anchor@).0,
                    message: order.signed_over(anchor@).1,
                },
            },
            (Attempt::Broadcast, LedgerReply::Broadcast(Ok(signature))) => ProgressView::Next {
                attempt: Attempt::Confirm { signature },
                request: RequestView::Confirm { identifier: signature, level: required_level() },
            },
            (Attempt::Confirm { signature }, LedgerReply::Confirmed(Ok(_))) => ProgressView::Done(
                Outcome::Success { signature },
            ),
            (Attempt::FetchAnchor, LedgerReply::Anchor(Err(reason)))
            | (Attempt::Broadcast, LedgerReply::Broadcast(Err(reason)))
            | (Attempt::Confirm { .. }, LedgerReply::Confirmed(Err(reason))) => ProgressView::Done(
                Outcome::Failed { stage: self.stage(), cause: Cause::Reported(reason) },
            ),
            _ => ProgressView::Done(Outcome::Failed { stage: self.stage(), cause: Cause::Unanswered }),
        }
    }

    /// Starts an attempt: the first thing asked of the ledger node is a fresh
    /// validity anchor.
    pub fn begin() -> (started: (Attempt, LedgerRequest))
        ensures
            started.0 == Attempt::FetchAnchor,
            started.1@ == RequestView::FetchAnchor,
    {
        (Attempt::FetchAnchor, LedgerRequest::FetchAnchor)
    }

    /// Ends the attempt at the stage it is in.
    pub fn abandon(self, cause: Cause) -> (outcome: Outcome)
        ensures
            outcome == (Outcome::Failed { stage: self.stage(), cause }),
    {
        let stage = match self {
            Attempt::FetchAnchor => Stage::FetchAnchor,
            Attempt::Broadcast => Stage::Broadcast,
            Attempt::Confirm { .. } => Stage::Confirm,
        };
        Outcome::Failed { stage, cause }
    }

    /// Takes the ledger node's answer and says how the attempt goes on.
    pub fn advance(self, order: &TransferOrder, reply: LedgerReply) -> (progress: Progress)
        ensures
            progress@ == self.after(order@, reply),
    {
        match (self, reply) {
            (Attempt::FetchAnchor, LedgerReply::Anchor(Ok(anchor))) => {
                let transfer = order.sign(&anchor);
                Progress::Next { attempt: Attempt::Broadcast, request: LedgerRequest::Broadcast(transfer) }
            },
            (Attempt::FetchAnchor, LedgerReply::Anchor(Err(reason))) => Progress::Done(
                Outcome::Failed { stage: Stage::FetchAnchor, cause: Cause::Reported(reason) },
            ),
            (Attempt::Broadcast, LedgerReply::Broadcast(Ok(signature))) => {
                let awaited = signature.clone();
                Progress::Next {
                    attempt: Attempt::Confirm { signature },
                    request: LedgerRequest::Confirm { identifier: awaited, level: Commitment::Confirmed },
                }
            },
            (Attempt::Broadcast, LedgerReply::Broadcast(Err(reason))) => Progress::Done(
                Outcome::Failed { stage: Stage::Broadcast, cause: Cause::Reported(reason) },
            ),
            (Attempt::Confirm { signature }, LedgerReply::Confirmed(Ok(_))) => Progress::Done(
                Outcome::Success { signature },
            ),
            (Attempt::Confirm { signature }, LedgerReply::Confirmed(Err(reason))) => Progress::Done(
                Outcome::Failed { stage: Stage::Confirm, cause: Cause::Reported(reason) },
            ),
            (attempt, _) => Progress::Done(attempt.abandon(Cause::Unanswered)),
        }
    }
}

/// Signing is no point of failure: no answer ends an attempt at that stage.
pub proof fn lemma_signing_never_fails(attempt: Attempt, order: OrderView, reply: LedgerReply)
    ensures
        attempt.after(order, reply) matches ProgressView::Done(Outcome::Failed { stage, .. })
            ==> stage != Stage::Sign,
{
}

/// An attempt moves forward only: from the anchor to the broadcast, from the
/// broadcast to the confirmation, and from there nowhere but to its end.
pub proof fn lemma_attempt_moves_forward(attempt: Attempt, order: OrderView, reply: LedgerReply)
    ensures
        attempt.after(order, reply) matches ProgressView::Next { attempt: next, request } ==> {
            ||| attempt == Attempt::FetchAnchor && next == Attempt::Broadcast
                    && request is Broadcast
            ||| attempt == Attempt::Broadcast && next is Confirm && request is Confirm
        },
{
}

/// A failed broadcast ends the attempt there: no confirmation is asked for.
pub proof fn lemma_failed_broadcast_ends_attempt(order: OrderView, reason: String)
    ensures
        Attempt::Broadcast.after(order, LedgerReply::Broadcast(Err(reason)))
            == ProgressView::Done(
            Outcome::Failed { stage: Stage::Broadcast, cause: Cause::Reported(reason) },
        ),
{
}

} // verus!
