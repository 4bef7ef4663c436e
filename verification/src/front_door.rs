//! The front door: the handling of one inbound call. The inputs of a call are
//! submitted one at a time, each only after the one before it has been
//! answered, and the first failure ends the call.
//!
//! Like the aggregator, the handler never waits by itself. It makes the
//! request for the input that is due; the caller enqueues it, awaits its
//! return path, and reports how that went.

use vstd::prelude::*;
use crate::types::{reply_view, BatchRequest, EmbedResult, Reply, ReplySlot, ReplyView, UserInput};

verus! {

/// How the submission of one input went.
#[derive(Debug)]
pub enum Submission {
    /// The queue took no request: its consumer is gone.
    QueueClosed,
    /// The queue took the request, and this is what awaiting its return path
    /// yielded: the reply, or an error if the return path was dropped unused.
    Awaited(Result<Reply, tokio::sync::oneshot::error::RecvError>),
}

/// Mathematical model of a [`Submission`].
pub enum SubmissionView {
    QueueClosed,
    /// The return path delivered a reply.
    Replied(ReplyView),
    /// The return path was dropped without a reply.
    Dropped,
}

impl View for Submission {
    type V = SubmissionView;

    open spec fn view(&self) -> SubmissionView {
        match self {
            Submission::QueueClosed => SubmissionView::QueueClosed,
            Submission::Awaited(Ok(reply)) => SubmissionView::Replied(reply_view(*reply)),
            Submission::Awaited(Err(_)) => SubmissionView::Dropped,
        }
    }
}

/// What the caller of the service gets back.
#[derive(Clone, Debug, PartialEq, Eq)]
pub enum EmbedResponse {
    /// One embedding per input, in input order.
    Embeddings(Vec<EmbedResult>),
    /// The request queue has no consumer; the service is unavailable.
    QueueClosed,
    /// The backend call of the batch failed. Carries the message that the
    /// whole batch received.
    BackendFailed(String),
    /// The aggregator let go of the return path without answering.
    WorkerAborted,
}

/// Mathematical model of an [`EmbedResponse`].
pub enum EmbedResponseView {
    Embeddings(Seq<Seq<u32>>),
    QueueClosed,
    BackendFailed(Seq<char>),
    WorkerAborted,
}

impl View for EmbedResponse {
    type V = EmbedResponseView;

    open spec fn view(&self) -> EmbedResponseView {
        match self {
            EmbedResponse::Embeddings(results) => EmbedResponseView::Embeddings(
                results.deep_view(),
            ),
            EmbedResponse::QueueClosed => EmbedResponseView::QueueClosed,
            EmbedResponse::BackendFailed(message) => EmbedResponseView::BackendFailed(message@),
            EmbedResponse::WorkerAborted => EmbedResponseView::WorkerAborted,
        }
    }
}

impl EmbedResponseView {
    /// The HTTP status that goes with the response: success, service
    /// unavailable, bad gateway, internal server error.
    pub open spec fn status_code(self) -> nat {
        match self {
            EmbedResponseView::Embeddings(_) => 200,
            EmbedResponseView::QueueClosed => 503,
            EmbedResponseView::BackendFailed(_) => 502,
            EmbedResponseView::WorkerAborted => 500,
        }
    }

    /// The text that goes with a failure; `None` for a success.
    pub open spec fn message(self) -> Option<Seq<char>> {
        match self {
            EmbedResponseView::Embeddings(_) => None,
            EmbedResponseView::QueueClosed => Some("Batch queue closed"@),
            EmbedResponseView::BackendFailed(message) => Some(message),
            EmbedResponseView::WorkerAborted => Some("Batch worker task aborted"@),
        }
    }
}

impl EmbedResponse {
    /// The HTTP status that goes with the response.
    pub fn status_code(&self) -> (code: u16)
        ensures
            code == self@.status_code(),
    {
        match self {
            EmbedResponse::Embeddings(_) => 200,
            EmbedResponse::QueueClosed => 503,
            EmbedResponse::BackendFailed(_) => 502,
            EmbedResponse::WorkerAborted => 500,
        }
    }

    /// The text that goes with a failure; `None` for a success.
    pub fn message(&self) -> (text: Option<String>)
        ensures
            text.deep_view() == self@.message(),
    {
        match self {
            EmbedResponse::Embeddings(_) => None,
            EmbedResponse::QueueClosed => Some(String::from_str("Batch queue closed")),
            EmbedResponse::BackendFailed(message) => Some(message.clone()),
            EmbedResponse::WorkerAborted => Some(String::from_str("Batch worker task aborted")),
        }
    }
}

/// Mathematical model of a call in progress: all its inputs, and the
/// embeddings received so far. The input in flight is the one right after the
/// last embedding.
pub struct EmbedCallView {
    pub inputs: Seq<Seq<char>>,
    pub results: Seq<Seq<u32>>,
}

/// Mathematical model of a [`HandlerStep`].
pub enum HandlerStepView {
    Submit { call: EmbedCallView, payload: Seq<char> },
    Respond(EmbedResponseView),
}

impl EmbedCallView {
    /// A call in progress has an input in flight.
    pub open spec fn wf(self) -> bool {
        self.results.len() < self.inputs.len()
    }

    /// The call after the input in flight met `outcome`. An embedding moves
    /// the call on to its next input, or completes it after the last one.
    /// Anything else ends the call there and then.
    pub open spec fn step(self, outcome: SubmissionView) -> HandlerStepView {
        match outcome {
            SubmissionView::QueueClosed => HandlerStepView::Respond(
                EmbedResponseView::QueueClosed,
            ),
            SubmissionView::Dropped => HandlerStepView::Respond(EmbedResponseView::WorkerAborted),
            SubmissionView::Replied(Err(message)) => HandlerStepView::Respond(
                EmbedResponseView::BackendFailed(message),
            ),
            SubmissionView::Replied(Ok(embedding)) => {
                let results = self.results.push(embedding);
                if results.len() >= self.inputs.len() {
                    HandlerStepView::Respond(EmbedResponseView::Embeddings(results))
                } else {
                    HandlerStepView::Submit {
                        call: EmbedCallView { inputs: self.inputs, results },
                        payload: self.inputs[results.len() as int],
                    }
                }
            },
        }
    }
}

/// How a call with these inputs begins: with the submission of its first
/// input, or with an empty success if it has none.
pub open spec fn begin_call(inputs: Seq<Seq<char>>) -> HandlerStepView {
    if inputs.len() == 0 {
        HandlerStepView::Respond(EmbedResponseView::Embeddings(Seq::empty()))
    } else {
        HandlerStepView::Submit {
            call: EmbedCallView { inputs, results: Seq::empty() },
            payload: inputs[0],
        }
    }
}

/// A call in progress.
#[derive(Debug)]
pub struct EmbedCall {
    inputs: Vec<String>,
    results: Vec<EmbedResult>,
}

impl View for EmbedCall {
    type V = EmbedCallView;

    closed spec fn view(&self) -> EmbedCallView {
        EmbedCallView { inputs: self.inputs.deep_view(), results: self.results.deep_view() }
    }
}

impl EmbedCall {
    #[verifier::type_invariant]
    spec fn inv(&self) -> bool {
        self@.wf()
    }

    /// Number of inputs answered so far.
    pub fn answered(&self) -> (count: usize)
        ensures
            count == self@.results.len(),
    {
        self.results.len()
    }
}

/// What the caller of the handler is to do next.
#[derive(Debug)]
pub enum HandlerStep {
    /// Put `request` into the queue, await `reply`, and report the outcome to
    /// [`embed_handler`] together with `call`. The request carries the input
    /// in flight and the sending half of a fresh channel; `reply` is the
    /// receiving half.
    Submit { call: EmbedCall, request: BatchRequest, reply: ReplySlot },
    /// The call is over; answer it with this.
    Respond(EmbedResponse),
}

impl View for HandlerStep {
    type V = HandlerStepView;

    open spec fn view(&self) -> HandlerStepView {
        match self {
            HandlerStep::Submit { call, request, .. } => HandlerStepView::Submit {
                call: call@,
                payload: request.input@,
            },
            HandlerStep::Respond(response) => HandlerStepView::Respond(response@),
        }
    }
}

/// Makes the request for one input: its text and a return path of its own.
fn submission(call: EmbedCall, input: String) -> (step: HandlerStep)
    ensures
        step@ == (HandlerStepView::Submit { call: call@, payload: input@ }),
{
    let (resp_tx, reply) = tokio::sync::oneshot::channel();
    HandlerStep::Submit { call, request: BatchRequest { input, resp_tx }, reply }
}

/// Begins the handling of one inbound call.
pub fn begin(input: UserInput) -> (step: HandlerStep)
    ensures
        step@ == begin_call(input.inputs.deep_view()),
        step@ matches HandlerStepView::Submit { call, .. } ==> call.wf(),
{
    let UserInput { inputs } = input;
    let results: Vec<EmbedResult> = Vec::new();
    assert(results.deep_view() =~= Seq::empty());
    if inputs.len() == 0 {
        HandlerStep::Respond(EmbedResponse::Embeddings(results))
    } else {
        let input = inputs[0].clone();
        submission(EmbedCall { inputs, results }, input)
    }
}

/// Continues the handling of a call once the input in flight has met its
/// outcome.
pub fn embed_handler(call: EmbedCall, outcome: Submission) -> (step: HandlerStep)
    ensures
        call@.wf(),
        step@ == call@.step(outcome@),
        step@ matches HandlerStepView::Submit { call: next, .. } ==> next.wf(),
{
    proof {
        use_type_invariant(&call);
    }
    let EmbedCall { inputs, results } = call;
    match outcome {
        Submission::QueueClosed => HandlerStep::Respond(EmbedResponse::QueueClosed),
        Submission::Awaited(Err(_)) => HandlerStep::Respond(EmbedResponse::WorkerAborted),
        Submission::Awaited(Ok(Err(message))) => HandlerStep::Respond(
            EmbedResponse::BackendFailed(message),
        ),
        Submission::Awaited(Ok(Ok(embedding))) => {
            let ghost before = results;
            let mut results = results;
            results.push(embedding);
            assert(results.deep_view() =~= before.deep_view().push(embedding@));
            if results.len() >= inputs.len() {
                HandlerStep::Respond(EmbedResponse::Embeddings(results))
            } else {
                let input = inputs[results.len()].clone();
                submission(EmbedCall { inputs, results }, input)
            }
        },
    }
}

/// Where the handling of a call stands after its submissions have met
/// `outcomes`, one after the other. Outcomes past the end of the call are of
/// submissions that were never made, and count for nothing.
pub open spec fn handle(step: HandlerStepView, outcomes: Seq<SubmissionView>) -> HandlerStepView
    decreases outcomes.len(),
{
    if outcomes.len() == 0 {
        step
    } else {
        match step {
            HandlerStepView::Submit { call, .. } => handle(
                call.step(outcomes.first()),
                outcomes.drop_first(),
            ),
            HandlerStepView::Respond(_) => step,
        }
    }
}

/// The submissions of a call whose inputs all come back with an embedding.
pub open spec fn successes(embeddings: Seq<Seq<u32>>) -> Seq<SubmissionView> {
    Seq::new(embeddings.len(), |i: int| SubmissionView::Replied(Ok(embeddings[i])))
}

/// The response with which an outcome ends the call on the spot; `None` for
/// an embedding, which does not.
pub open spec fn failure_of(outcome: SubmissionView) -> Option<EmbedResponseView> {
    match outcome {
        SubmissionView::QueueClosed => Some(EmbedResponseView::QueueClosed),
        SubmissionView::Dropped => Some(EmbedResponseView::WorkerAborted),
        SubmissionView::Replied(Err(message)) => Some(EmbedResponseView::BackendFailed(message)),
        SubmissionView::Replied(Ok(_)) => None,
    }
}

/// While every input so far has come back with an embedding and inputs
/// remain, the handler asks for the next input in order.
pub proof fn lemma_inputs_go_one_at_a_time(
    inputs: Seq<Seq<char>>,
    embeddings: Seq<Seq<u32>>,
)
    requires
        embeddings.len() < inputs.len(),
    ensures
        handle(begin_call(inputs), successes(embeddings)) == (HandlerStepView::Submit {
            call: EmbedCallView { inputs, results: embeddings },
            payload: inputs[embeddings.len() as int],
        }),
{
    lemma_handle_from(inputs, Seq::empty(), embeddings);
}

/// A call whose every input comes back with an embedding returns all of
/// them, in input order.
pub proof fn lemma_call_succeeds_when_every_input_does(
    inputs: Seq<Seq<char>>,
    embeddings: Seq<Seq<u32>>,
)
    requires
        embeddings.len() == inputs.len(),
    ensures
        handle(begin_call(inputs), successes(embeddings)) == HandlerStepView::Respond(
            EmbedResponseView::Embeddings(embeddings),
        ),
{
    if inputs.len() > 0 {
        lemma_handle_from(inputs, Seq::empty(), embeddings);
    } else {
        assert(embeddings =~= Seq::empty());
    }
}

/// The first input that does not come back with an embedding ends the call
/// with the failure it met, whatever would have become of the inputs after
/// it: they are never submitted.
pub proof fn lemma_first_failure_ends_call(
    inputs: Seq<Seq<char>>,
    embeddings: Seq<Seq<u32>>,
    failure: SubmissionView,
    rest: Seq<SubmissionView>,
)
    requires
        embeddings.len() < inputs.len(),
        failure_of(failure) is Some,
    ensures
        handle(begin_call(inputs), successes(embeddings).push(failure) + rest)
            == HandlerStepView::Respond(failure_of(failure)->0),
{
    let outcomes = successes(embeddings).push(failure) + rest;
    lemma_inputs_go_one_at_a_time(inputs, embeddings);
    lemma_handle_splits(begin_call(inputs), successes(embeddings), seq![failure] + rest);
    assert(successes(embeddings) + (seq![failure] + rest) =~= outcomes);
    let call = EmbedCallView { inputs, results: embeddings };
    lemma_response_is_final(call.step(failure), (seq![failure] + rest).drop_first());
}

/// A submission that finds the queue closed ends its call with `QueueClosed`,
/// however many inputs of the call had been answered before, and none of the
/// inputs after it is submitted.
pub proof fn lemma_closed_queue_fails_call(
    inputs: Seq<Seq<char>>,
    embeddings: Seq<Seq<u32>>,
    rest: Seq<SubmissionView>,
)
    requires
        embeddings.len() < inputs.len(),
    ensures
        handle(
            begin_call(inputs),
            successes(embeddings).push(SubmissionView::QueueClosed) + rest,
        ) == HandlerStepView::Respond(EmbedResponseView::QueueClosed),
{
    lemma_first_failure_ends_call(inputs, embeddings, SubmissionView::QueueClosed, rest);
}

/// A response is the end of a call.
proof fn lemma_response_is_final(step: HandlerStepView, outcomes: Seq<SubmissionView>)
    requires
        step is Respond,
    ensures
        handle(step, outcomes) == step,
{
}

/// Handling a sequence of outcomes is handling its first part, then the rest.
proof fn lemma_handle_splits(
    step: HandlerStepView,
    first: Seq<SubmissionView>,
    second: Seq<SubmissionView>,
)
    ensures
        handle(step, first + second) == handle(handle(step, first), second),
    decreases first.len(),
{
    if first.len() == 0 {
    } else {
        assert((first + second).drop_first() =~= first.drop_first() + second);
        match step {
            HandlerStepView::Submit { call, .. } => {
                lemma_handle_splits(call.step(first.first()), first.drop_first(), second);
            },
            HandlerStepView::Respond(_) => {
                lemma_response_is_final(step, second);
            },
        }
    }
}

/// From a call that holds `done` embeddings, `more` successes lead to the
/// call that holds both, or to the full response after the last input.
proof fn lemma_handle_from(inputs: Seq<Seq<char>>, done: Seq<Seq<u32>>, more: Seq<Seq<u32>>)
    requires
        done.len() < inputs.len(),
        done.len() + more.len() <= inputs.len(),
    ensures
        handle(
            HandlerStepView::Submit {
                call: EmbedCallView { inputs, results: done },
                payload: inputs[done.len() as int],
            },
            successes(more),
        ) == (if done.len() + more.len() == inputs.len() {
            HandlerStepView::Respond(EmbedResponseView::Embeddings(done + more))
        } else {
            HandlerStepView::Submit {
                call: EmbedCallView { inputs, results: done + more },
                payload: inputs[(done.len() + more.len()) as int],
            }
        }),
    decreases more.len(),
{
    let call = EmbedCallView { inputs, results: done };
    let step = HandlerStepView::Submit { call, payload: inputs[done.len() as int] };
    if more.len() == 0 {
    } else {
        let next = done.push(more.first());
        assert(successes(more).drop_first() =~= successes(more.drop_first()));
        assert(next + more.drop_first() =~= done + more);
        assert(handle(step, successes(more)) == handle(
            call.step(successes(more).first()),
            successes(more.drop_first()),
        ));
        if next.len() < inputs.len() {
            lemma_handle_from(inputs, next, more.drop_first());
        } else {
        }
    }
}

} // verus!
