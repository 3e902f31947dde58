//! The dispatch loop as a state machine. Whoever drives it does what the
//! last action says and hands in what came of it; the machine decides what
//! is reported and what is done next.
//!
//! One notification is taken at a time, and a new one is asked for only when
//! no submission is in flight, so submissions never overlap.

use crate::signing::{OrderView, TransferOrder};
use crate::submitter::{
    Attempt, Cause, LedgerReply, LedgerRequest, Outcome, Progress, ProgressView, RequestView, Stage,
};
use vstd::prelude::*;

verus! {

/// Where the loop stands.
#[derive(Debug)]
pub enum DispatchState {
    /// Waiting for the next item of the subscription.
    Listening,
    /// A submission is in flight.
    Submitting(Attempt),
    /// The subscription has ended, and the loop with it.
    Stopped,
}

/// What the driver hands in.
#[derive(Debug)]
pub enum Input {
    /// The next item of the subscription: a block was seen, or the item is an
    /// error. What a notification carries is not looked at.
    Notification(Result<(), String>),
    /// The subscription has no further item.
    StreamEnded,
    /// The ledger node's answer to the last request.
    Ledger(LedgerReply),
}

/// What the driver is to do next.
#[derive(Debug)]
pub enum Action {
    /// Wait for the next item of the subscription.
    Poll,
    /// Put the request to the ledger node and hand in its answer.
    Ledger(LedgerRequest),
    /// Leave the loop.
    Stop,
}

/// An action over byte sequences.
pub enum ActionView {
    Poll,
    Ledger(RequestView),
    Stop,
}

impl View for Action {
    type V = ActionView;

    open spec fn view(&self) -> ActionView {
        match *self {
            Action::Poll => ActionView::Poll,
            Action::Ledger(request) => ActionView::Ledger(request@),
            Action::Stop => ActionView::Stop,
        }
    }
}

/// What the operator is told.
#[derive(Debug)]
pub enum Report {
    /// A new block was seen; a transfer is on its way.
    BlockObserved,
    /// An item of the subscription was an error. The loop goes on.
    NotificationFailed(String),
    /// The transfer was confirmed under this identifier.
    Submitted { signature: String },
    /// The transfer failed at this stage. The loop goes on.
    SubmissionFailed { stage: Stage, cause: Cause },
}

/// One turn of the loop: the new state, what to report and what to do.
#[derive(Debug)]
pub struct Step {
    pub state: DispatchState,
    pub report: Option<Report>,
    pub action: Action,
}

/// The report that the end of an attempt gives.
pub open spec fn report_of(outcome: Outcome) -> Report {
    match outcome {
        Outcome::Success { signature } => Report::Submitted { signature },
        Outcome::Failed { stage, cause } => Report::SubmissionFailed { stage, cause },
    }
}

/// What an attempt in flight makes of an input: only the ledger node's
/// answer moves it on; anything else ends it unanswered.
pub open spec fn attempt_after(attempt: Attempt, order: OrderView, input: Input) -> ProgressView {
    match input {
        Input::Ledger(reply) => attempt.after(order, reply),
        _ => ProgressView::Done(Outcome::Failed { stage: attempt.stage(), cause: Cause::Unanswered }),
    }
}

/// The state after an input.
pub open spec fn next_state(order: OrderView, state: DispatchState, input: Input) -> DispatchState {
    match state {
        DispatchState::Listening => match input {
            Input::Notification(Ok(_)) => DispatchState::Submitting(Attempt::FetchAnchor),
            Input::Notification(Err(_)) => DispatchState::Listening,
            Input::StreamEnded => DispatchState::Stopped,
            Input::Ledger(_) => DispatchState::Listening,
        },
        DispatchState::Submitting(attempt) => match attempt_after(attempt, order, input) {
            ProgressView::Next { attempt: next, .. } => DispatchState::Submitting(next),
            ProgressView::Done(_) => DispatchState::Listening,
        },
        DispatchState::Stopped => DispatchState::Stopped,
    }
}

/// What an input gives to report.
pub open spec fn next_report(order: OrderView, state: DispatchState, input: Input) -> Option<Report> {
    match state {
        DispatchState::Listening => match input {
            Input::Notification(Ok(_)) => Some(Report::BlockObserved),
            Input::Notification(Err(reason)) => Some(Report::NotificationFailed(reason)),
            _ => None,
        },
        DispatchState::Submitting(attempt) => match attempt_after(attempt, order, input) {
            ProgressView::Next { .. } => None,
            ProgressView::Done(outcome) => Some(report_of(outcome)),
        },
        DispatchState::Stopped => None,
    }
}

/// What is to be done after an input.
pub open spec fn next_action(order: OrderView, state: DispatchState, input: Input) -> ActionView {
    match state {
        DispatchState::Listening => match input {
            Input::Notification(Ok(_)) => ActionView::Ledger(RequestView::FetchAnchor),
            Input::StreamEnded => ActionView::Stop,
            _ => ActionView::Poll,
        },
        DispatchState::Submitting(attempt) => match attempt_after(attempt, order, input) {
            ProgressView::Next { request, .. } => ActionView::Ledger(request),
            ProgressView::Done(_) => ActionView::Poll,
        },
        DispatchState::Stopped => ActionView::Stop,
    }
}

/// What the subscription yielded, as an input: an item, or its end.
pub fn input_of(item: Option<Result<(), String>>) -> (input: Input)
    ensures
        input == match item {
            Some(notification) => Input::Notification(notification),
            None => Input::StreamEnded,
        },
{
    match item {
        Some(notification) => Input::Notification(notification),
        None => Input::StreamEnded,
    }
}

/// The loop as it starts: listening, with the first item asked for.
pub fn start() -> (step: Step)
    ensures
        step.state == DispatchState::Listening,
        step.report is None,
        step.action@ == ActionView::Poll,
{
    Step { state: DispatchState::Listening, report: None, action: Action::Poll }
}

/// Takes one input and decides.
///
/// While listening: a block starts a submission with a request for a fresh
/// anchor; an erroneous item is reported and the next item is asked for; the
/// end of the subscription stops the loop. While a submission is in flight,
/// the ledger node's answer moves it on, and its end, good or bad, is
/// reported and followed by the request for the next item.
pub fn step(order: &TransferOrder, state: DispatchState, input: Input) -> (step: Step)
    ensures
        step.state == next_state(order@, state, input),
        step.report == next_report(order@, state, input),
        step.action@ == next_action(order@, state, input),
{
    match state {
        DispatchState::Listening => match input {
            Input::Notification(Ok(_)) => {
                let (attempt, request) = Attempt::begin();
                Step {
                    state: DispatchState::Submitting(attempt),
                    report: Some(Report::BlockObserved),
                    action: Action::Ledger(request),
                }
            },
            Input::Notification(Err(reason)) => Step {
                state: DispatchState::Listening,
                report: Some(Report::NotificationFailed(reason)),
                action: Action::Poll,
            },
            Input::StreamEnded => Step {
                state: DispatchState::Stopped,
                report: None,
                action: Action::Stop,
            },
            Input::Ledger(_) => Step {
                state: DispatchState::Listening,
                report: None,
                action: Action::Poll,
            },
        },
        DispatchState::Submitting(attempt) => {
            let progress = match input {
                Input::Ledger(reply) => attempt.advance(order, reply),
                _ => Progress::Done(attempt.abandon(Cause::Unanswered)),
            };
            match progress {
                Progress::Next { attempt, request } => Step {
                    state: DispatchState::Submitting(attempt),
                    report: None,
                    action: Action::Ledger(request),
                },
                Progress::Done(outcome) => Step {
                    state: DispatchState::Listening,
                    report: Some(conclude(outcome)),
                    action: Action::Poll,
                },
            }
        },
        DispatchState::Stopped => Step {
            state: DispatchState::Stopped,
            report: None,
            action: Action::Stop,
        },
    }
}

/// Turns the end of an attempt into what the operator is told.
pub fn conclude(outcome: Outcome) -> (report: Report)
    ensures
        report == report_of(outcome),
{
    match outcome {
        Outcome::Success { signature } => Report::Submitted { signature },
        Outcome::Failed { stage, cause } => Report::SubmissionFailed { stage, cause },
    }
}

/// The input is what the state waits for: an item of the subscription (or
/// its end) while listening, the ledger node's answer while submitting,
/// nothing once stopped.
pub open spec fn awaited(state: DispatchState, input: Input) -> bool {
    match state {
        DispatchState::Listening => !(input is Ledger),
        DispatchState::Submitting(_) => input is Ledger,
        DispatchState::Stopped => false,
    }
}

/// The state after a run of inputs, from `start`.
pub open spec fn state_after(order: OrderView, start: DispatchState, inputs: Seq<Input>) -> DispatchState
    decreases inputs.len(),
{
    if inputs.len() == 0 {
        start
    } else {
        next_state(order, state_after(order, start, inputs.drop_last()), inputs.last())
    }
}

/// The state in which input `i` of a run is taken.
pub open spec fn state_at(order: OrderView, inputs: Seq<Input>, i: int) -> DispatchState {
    state_after(order, DispatchState::Listening, inputs.take(i))
}

/// The action that input `i` of a run leads to.
pub open spec fn action_at(order: OrderView, inputs: Seq<Input>, i: int) -> ActionView {
    next_action(order, state_at(order, inputs, i), inputs[i])
}

/// The report that input `i` of a run leads to.
pub open spec fn report_at(order: OrderView, inputs: Seq<Input>, i: int) -> Option<Report> {
    next_report(order, state_at(order, inputs, i), inputs[i])
}

/// The run is one that a driver produces who does what the actions say:
/// every input is the one that the machine waits for. A driver who only
/// sees the actions has this from `lemma_answered_run_is_driven`.
pub open spec fn driven(order: OrderView, inputs: Seq<Input>) -> bool {
    forall|i: int| 0 <= i < inputs.len() ==> awaited(#[trigger] state_at(order, inputs, i), inputs[i])
}

/// The input is what a driver hands in who has done what the action says:
/// an item of the subscription, or its end, after polling; the ledger
/// node's answer after a request; nothing after the loop was left.
pub open spec fn answers(action: ActionView, input: Input) -> bool {
    match action {
        ActionView::Poll => !(input is Ledger),
        ActionView::Ledger(_) => input is Ledger,
        ActionView::Stop => false,
    }
}

/// The action that stands when input `i` of a run is handed in: the one the
/// loop started with, or the one that the input before led to.
pub open spec fn action_before(order: OrderView, inputs: Seq<Input>, i: int) -> ActionView {
    if i == 0 {
        ActionView::Poll
    } else {
        action_at(order, inputs, i - 1)
    }
}

/// Every input of the run answers the action that stands when it comes.
/// This speaks of what the driver sees only: the actions and its own inputs.
pub open spec fn answered(order: OrderView, inputs: Seq<Input>) -> bool {
    forall|i: int|
        0 <= i < inputs.len() ==> answers(#[trigger] action_before(order, inputs, i), inputs[i])
}

/// The input reports a block.
pub open spec fn is_block(input: Input) -> bool {
    input matches Input::Notification(Ok(_))
}

/// How many inputs of a run report a block.
pub open spec fn blocks(inputs: Seq<Input>) -> nat
    decreases inputs.len(),
{
    if inputs.len() == 0 {
        0
    } else {
        blocks(inputs.drop_last()) + if is_block(inputs.last()) {
            1nat
        } else {
            0nat
        }
    }
}

/// How many submissions a run starts: the requests for a fresh anchor.
pub open spec fn attempts(order: OrderView, inputs: Seq<Input>) -> nat
    decreases inputs.len(),
{
    if inputs.len() == 0 {
        0
    } else {
        attempts(order, inputs.drop_last()) + if action_at(order, inputs, inputs.len() - 1)
            == ActionView::Ledger(RequestView::FetchAnchor) {
            1nat
        } else {
            0nat
        }
    }
}

/// A submission starts on a block that arrives while the machine listens,
/// and on nothing else; so no submission starts while another is in flight.
pub proof fn lemma_attempt_starts_on_block(order: OrderView, state: DispatchState, input: Input)
    ensures
        next_action(order, state, input) == ActionView::Ledger(RequestView::FetchAnchor) <==> state
            == DispatchState::Listening && is_block(input),
        next_action(order, state, input) == ActionView::Ledger(RequestView::FetchAnchor)
            ==> next_state(order, state, input) == DispatchState::Submitting(Attempt::FetchAnchor),
{
}

/// An erroneous item starts nothing: it is reported and the next item is
/// asked for.
pub proof fn lemma_error_item_is_skipped(order: OrderView, reason: String)
    ensures
        next_state(order, DispatchState::Listening, Input::Notification(Err(reason)))
            == DispatchState::Listening,
        next_action(order, DispatchState::Listening, Input::Notification(Err(reason)))
            == ActionView::Poll,
        next_report(order, DispatchState::Listening, Input::Notification(Err(reason))) == Some(
            Report::NotificationFailed(reason),
        ),
{
}

/// The action says where the machine stands: it polls exactly when it
/// listens, puts a request exactly when a submission is in flight, and
/// leaves exactly when it has stopped.
pub proof fn lemma_action_tells_state(order: OrderView, state: DispatchState, input: Input)
    ensures
        next_action(order, state, input) is Poll <==> next_state(order, state, input) is Listening,
        next_action(order, state, input) is Ledger <==> next_state(order, state, input)
            is Submitting,
        next_action(order, state, input) is Stop <==> next_state(order, state, input) is Stopped,
{
}

/// A run in which every input answers the action before it is driven: the
/// driver need not know the states to keep in step with the machine.
pub proof fn lemma_answered_run_is_driven(order: OrderView, inputs: Seq<Input>)
    requires
        answered(order, inputs),
    ensures
        driven(order, inputs),
{
    assert forall|i: int| 0 <= i < inputs.len() implies awaited(
        #[trigger] state_at(order, inputs, i),
        inputs[i],
    ) by {
        assert(answers(action_before(order, inputs, i), inputs[i]));
        if i == 0 {
            assert(inputs.take(0).len() == 0);
        } else {
            lemma_state_follows(order, inputs, i - 1);
            lemma_action_tells_state(order, state_at(order, inputs, i - 1), inputs[i - 1]);
        }
    }
}

/// A prefix of a driven run is driven, and the states along it are the same.
proof fn lemma_driven_prefix(order: OrderView, inputs: Seq<Input>)
    requires
        inputs.len() > 0,
    ensures
        forall|i: int|
            0 <= i < inputs.len() - 1 ==> #[trigger] state_at(order, inputs.drop_last(), i)
                == state_at(order, inputs, i),
        driven(order, inputs) ==> driven(order, inputs.drop_last()),
        state_at(order, inputs, inputs.len() - 1) == state_after(
            order,
            DispatchState::Listening,
            inputs.drop_last(),
        ),
{
    let shorter = inputs.drop_last();
    assert forall|i: int| 0 <= i < inputs.len() - 1 implies #[trigger] state_at(order, shorter, i)
        == state_at(order, inputs, i) by {
        assert(shorter.take(i) =~= inputs.take(i));
    }
    assert(inputs.take(inputs.len() - 1) =~= shorter);
    if driven(order, inputs) {
        assert forall|i: int| 0 <= i < shorter.len() implies awaited(
            #[trigger] state_at(order, shorter, i),
            shorter[i],
        ) by {
            assert(state_at(order, shorter, i) == state_at(order, inputs, i));
            assert(awaited(state_at(order, inputs, i), inputs[i]));
        }
    }
}

/// In a driven run, the inputs that start a submission are exactly the
/// blocks: each block starts one, in the order of receipt, and nothing else
/// starts any.
pub proof fn lemma_one_attempt_per_block(order: OrderView, inputs: Seq<Input>, i: int)
    requires
        driven(order, inputs),
        0 <= i < inputs.len(),
    ensures
        action_at(order, inputs, i) == ActionView::Ledger(RequestView::FetchAnchor) <==> is_block(
            inputs[i],
        ),
{
    assert(awaited(state_at(order, inputs, i), inputs[i]));
    lemma_attempt_starts_on_block(order, state_at(order, inputs, i), inputs[i]);
}

/// In a driven run of `n` inputs of which `k` are blocks, exactly `k`
/// submissions are started.
pub proof fn lemma_attempts_equal_blocks(order: OrderView, inputs: Seq<Input>)
    requires
        driven(order, inputs),
    ensures
        attempts(order, inputs) == blocks(inputs),
    decreases inputs.len(),
{
    if inputs.len() > 0 {
        lemma_driven_prefix(order, inputs);
        lemma_attempts_equal_blocks(order, inputs.drop_last());
        lemma_one_attempt_per_block(order, inputs, inputs.len() - 1);
    }
}

/// Whatever ends a submission, the machine listens again afterwards and asks
/// for the next item; and that item, if it is a block, starts a fresh
/// submission with a request for a fresh anchor.
pub proof fn lemma_failure_does_not_stop(
    order: OrderView,
    attempt: Attempt,
    input: Input,
    following: Input,
)
    requires
        attempt_after(attempt, order, input) is Done,
    ensures
        next_state(order, DispatchState::Submitting(attempt), input) == DispatchState::Listening,
        next_action(order, DispatchState::Submitting(attempt), input) == ActionView::Poll,
        next_report(order, DispatchState::Submitting(attempt), input) is Some,
        is_block(following) ==> next_action(
            order,
            next_state(order, DispatchState::Submitting(attempt), input),
            following,
        ) == ActionView::Ledger(RequestView::FetchAnchor),
{
}

/// Each input of a run is taken in the state that the one before it left.
pub proof fn lemma_state_follows(order: OrderView, inputs: Seq<Input>, i: int)
    requires
        0 <= i < inputs.len(),
    ensures
        state_at(order, inputs, i + 1) == next_state(order, state_at(order, inputs, i), inputs[i]),
{
    let upto = inputs.take(i + 1);
    assert(upto.drop_last() =~= inputs.take(i));
    assert(upto.last() == inputs[i]);
}

/// In a run, the item that follows a failed submission is processed like
/// any other: a block starts the next submission, an erroneous item is
/// reported, and the end of the subscription stops the loop.
pub proof fn lemma_item_after_failure_is_processed(order: OrderView, inputs: Seq<Input>, i: int)
    requires
        0 <= i,
        i + 1 < inputs.len(),
        report_at(order, inputs, i) matches Some(Report::SubmissionFailed { .. }),
    ensures
        state_at(order, inputs, i + 1) == DispatchState::Listening,
        action_at(order, inputs, i) == ActionView::Poll,
        is_block(inputs[i + 1]) ==> action_at(order, inputs, i + 1) == ActionView::Ledger(
            RequestView::FetchAnchor,
        ),
        inputs[i + 1] matches Input::Notification(Err(reason)) ==> report_at(order, inputs, i + 1)
            == Some(Report::NotificationFailed(reason)),
        inputs[i + 1] is StreamEnded ==> action_at(order, inputs, i + 1) == ActionView::Stop,
{
    lemma_state_follows(order, inputs, i);
}

/// The loop stops on nothing but the end of the subscription.
pub proof fn lemma_stops_only_at_stream_end(order: OrderView, state: DispatchState, input: Input)
    requires
        !(state is Stopped),
    ensures
        next_state(order, state, input) is Stopped <==> state is Listening && input is StreamEnded,
{
}

/// Every broadcast is signed over the anchor that the ledger node has just
/// returned for this very submission: it follows at once on the request for
/// a fresh anchor, which opened the submission, and carries the transfer
/// signed over the anchor in the answer. No anchor is kept from one
/// submission to the next.
pub proof fn lemma_anchor_is_fresh(order: OrderView, inputs: Seq<Input>, i: int)
    requires
        0 <= i < inputs.len(),
        action_at(order, inputs, i) matches ActionView::Ledger(RequestView::Broadcast { .. }),
    ensures
        i >= 1,
        action_at(order, inputs, i - 1) == ActionView::Ledger(RequestView::FetchAnchor),
        inputs[i] matches Input::Ledger(LedgerReply::Anchor(Ok(anchor))) && action_at(
            order,
            inputs,
            i,
        ) == ActionView::Ledger(
            RequestView::Broadcast {
                signature: order.signed_over(anchor@).0,
                message: order.signed_over(anchor@).1,
            },
        ),
{
    assert(state_at(order, inputs, i) == DispatchState::Submitting(Attempt::FetchAnchor));
    if i == 0 {
        assert(inputs.take(0).len() == 0);
    } else {
        lemma_state_follows(order, inputs, i - 1);
        lemma_attempt_starts_on_block(order, state_at(order, inputs, i - 1), inputs[i - 1]);
    }
}

} // verus!
