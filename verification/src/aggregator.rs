//! The batch aggregator: the one consumer of the request queue. It gathers
//! requests into a batch, decides when the batch closes, and says what to do
//! with the backend's answer.
//!
//! The aggregator never waits by itself. Each call of [`Aggregator::step`]
//! takes the one thing that happened and returns the one thing to do next;
//! the caller does the waiting and reports back.

use vstd::prelude::*;
use crate::backend::{BackendOutcome, BackendOutcomeView};
use crate::dispatcher::{route, route_results, Routing, RoutingView};
use crate::types::{AppConfig, BatchRequest, ReturnPath};

verus! {

/// Where the aggregator stands in the life of a batch.
#[derive(Clone, Copy, Debug, PartialEq, Eq, Structural)]
pub enum Phase {
    /// No batch is open; the queue alone is watched, for as long as it takes.
    AwaitingFirst,
    /// A batch is open and not yet full; its timer is running.
    Collecting,
    /// A closed batch is with the backend.
    Dispatching,
    /// The queue has closed for good. Nothing happens after this.
    Shutdown,
}

/// Something that happened while the aggregator was waiting.
#[derive(Debug)]
pub enum Event {
    /// The queue yielded a request.
    Arrived(BatchRequest),
    /// The queue is empty and no sender is left.
    QueueClosed,
    /// The timer of the open batch ran out.
    TimerFired,
    /// The backend call for the closed batch finished.
    BackendReplied(BackendOutcome),
}

/// Mathematical model of an [`Event`].
pub enum EventView {
    Arrived { payload: Seq<char>, return_path: ReturnPath },
    QueueClosed,
    TimerFired,
    BackendReplied(BackendOutcomeView),
}

impl View for Event {
    type V = EventView;

    open spec fn view(&self) -> EventView {
        match self {
            Event::Arrived(request) => EventView::Arrived {
                payload: request.input@,
                return_path: request.resp_tx,
            },
            Event::QueueClosed => EventView::QueueClosed,
            Event::TimerFired => EventView::TimerFired,
            Event::BackendReplied(outcome) => EventView::BackendReplied(outcome@),
        }
    }
}

/// What the caller of the aggregator is to do next. Each action but
/// [`Action::Stop`] ends in an event, which goes into the next step.
#[derive(Debug)]
pub enum Action {
    /// Wait on the queue until it yields a request or closes.
    AwaitRequest,
    /// Start a single-shot timer of `wait_ms` milliseconds, counted from now,
    /// then wait for whichever comes first: the queue or that timer.
    StartTimer { wait_ms: u64 },
    /// Keep waiting for the queue or the timer already running. The timer is
    /// left as it is.
    AwaitRequestOrTimer,
    /// Wait for the running timer alone; the queue has nothing more to give.
    AwaitTimer,
    /// Send these payloads to the backend in one call, in this order, and wait
    /// for the outcome.
    Dispatch { payloads: Vec<String> },
    /// Hand out these replies and let go of the abandoned return paths, then
    /// wait on the queue as for [`Action::AwaitRequest`].
    Deliver(Routing),
    /// Leave the loop.
    Stop,
    /// The event answers no action that was pending. Nothing changed, and the
    /// event comes back untouched.
    Refused(Event),
}

/// Mathematical model of an [`Action`].
pub enum ActionView {
    AwaitRequest,
    StartTimer { wait_ms: nat },
    AwaitRequestOrTimer,
    AwaitTimer,
    Dispatch { payloads: Seq<Seq<char>> },
    Deliver(RoutingView),
    Stop,
    Refused(EventView),
}

impl View for Action {
    type V = ActionView;

    open spec fn view(&self) -> ActionView {
        match self {
            Action::AwaitRequest => ActionView::AwaitRequest,
            Action::StartTimer { wait_ms } => ActionView::StartTimer { wait_ms: *wait_ms as nat },
            Action::AwaitRequestOrTimer => ActionView::AwaitRequestOrTimer,
            Action::AwaitTimer => ActionView::AwaitTimer,
            Action::Dispatch { payloads } => ActionView::Dispatch {
                payloads: payloads.deep_view(),
            },
            Action::Deliver(routing) => ActionView::Deliver(routing@),
            Action::Stop => ActionView::Stop,
            Action::Refused(event) => ActionView::Refused(event@),
        }
    }
}

/// Mathematical model of the aggregator: its limits, its phase, and the batch
/// in the making as two parallel sequences in arrival order.
pub struct AggregatorView {
    pub max_batch_size: nat,
    pub max_wait_time_ms: nat,
    pub phase: Phase,
    /// Payloads of the open batch. Empty once the batch has been handed out.
    pub payloads: Seq<Seq<char>>,
    /// Return paths of the open or dispatched batch.
    pub return_paths: Seq<ReturnPath>,
}

impl AggregatorView {
    /// The aggregator before the first request.
    pub open spec fn initial(max_batch_size: nat, max_wait_time_ms: nat) -> AggregatorView {
        AggregatorView {
            max_batch_size,
            max_wait_time_ms,
            phase: Phase::AwaitingFirst,
            payloads: Seq::empty(),
            return_paths: Seq::empty(),
        }
    }

    /// What holds of the aggregator between any two steps.
    pub open spec fn wf(self) -> bool {
        &&& self.max_batch_size >= 1
        &&& match self.phase {
            Phase::AwaitingFirst | Phase::Shutdown => {
                &&& self.payloads.len() == 0
                &&& self.return_paths.len() == 0
            },
            Phase::Collecting => {
                &&& self.payloads.len() == self.return_paths.len()
                &&& 1 <= self.payloads.len() < self.max_batch_size
            },
            Phase::Dispatching => {
                &&& self.payloads.len() == 0
                &&& 1 <= self.return_paths.len() <= self.max_batch_size
            },
        }
    }

    /// Takes one more request into the batch. The batch closes at once if that
    /// fills it. Otherwise the first request of a batch starts the timer, and a
    /// later one leaves the timer running.
    pub open spec fn accept(self, payload: Seq<char>, return_path: ReturnPath) -> (
        AggregatorView,
        ActionView,
    ) {
        let payloads = self.payloads.push(payload);
        let return_paths = self.return_paths.push(return_path);
        if payloads.len() >= self.max_batch_size {
            (
                AggregatorView {
                    phase: Phase::Dispatching,
                    payloads: Seq::empty(),
                    return_paths,
                    ..self
                },
                ActionView::Dispatch { payloads },
            )
        } else {
            (
                AggregatorView { phase: Phase::Collecting, payloads, return_paths, ..self },
                if self.phase == Phase::AwaitingFirst {
                    ActionView::StartTimer { wait_ms: self.max_wait_time_ms }
                } else {
                    ActionView::AwaitRequestOrTimer
                },
            )
        }
    }

    /// Closes the open batch as it stands.
    pub open spec fn close(self) -> (AggregatorView, ActionView) {
        (
            AggregatorView { phase: Phase::Dispatching, payloads: Seq::empty(), ..self },
            ActionView::Dispatch { payloads: self.payloads },
        )
    }

    /// The transition function: the state after `event`, and what to do next.
    pub open spec fn step(self, event: EventView) -> (AggregatorView, ActionView) {
        match (self.phase, event) {
            (Phase::AwaitingFirst, EventView::Arrived { payload, return_path }) => self.accept(
                payload,
                return_path,
            ),
            (Phase::AwaitingFirst, EventView::QueueClosed) => (
                AggregatorView { phase: Phase::Shutdown, ..self },
                ActionView::Stop,
            ),
            (Phase::Collecting, EventView::Arrived { payload, return_path }) => self.accept(
                payload,
                return_path,
            ),
            (Phase::Collecting, EventView::QueueClosed) => (self, ActionView::AwaitTimer),
            (Phase::Collecting, EventView::TimerFired) => self.close(),
            (Phase::Dispatching, EventView::BackendReplied(outcome)) => (
                AggregatorView {
                    phase: Phase::AwaitingFirst,
                    payloads: Seq::empty(),
                    return_paths: Seq::empty(),
                    ..self
                },
                ActionView::Deliver(route(self.return_paths, outcome)),
            ),
            _ => (self, ActionView::Refused(event)),
        }
    }
}

/// The batch aggregator. It owns the batch in the making and nothing else.
#[derive(Debug)]
pub struct Aggregator {
    max_batch_size: usize,
    max_wait_time_ms: u64,
    phase: Phase,
    requests: Vec<String>,
    responders: Vec<ReturnPath>,
}

impl View for Aggregator {
    type V = AggregatorView;

    closed spec fn view(&self) -> AggregatorView {
        AggregatorView {
            max_batch_size: self.max_batch_size as nat,
            max_wait_time_ms: self.max_wait_time_ms as nat,
            phase: self.phase,
            payloads: self.requests.deep_view(),
            return_paths: self.responders@,
        }
    }
}

/// Appending a string to a vector appends its text to the vector's model.
proof fn lemma_texts_push(before: Vec<String>, after: Vec<String>, added: String)
    requires
        after@ == before@.push(added),
    ensures
        after.deep_view() == before.deep_view().push(added@),
{
}

impl Aggregator {
    #[verifier::type_invariant]
    spec fn inv(&self) -> bool {
        self@.wf()
    }

    /// An aggregator with no batch open, and the first thing to do: wait on
    /// the queue. `None` if the configuration leaves no room for a request in a
    /// batch.
    pub fn start(config: &AppConfig) -> (started: Option<(Aggregator, Action)>)
        ensures
            started is Some <==> config.wf(),
            started matches Some((aggregator, action)) ==> {
                &&& aggregator@ == AggregatorView::initial(
                    config.max_batch_size as nat,
                    config.max_wait_time_ms as nat,
                )
                &&& action@ == ActionView::AwaitRequest
            },
    {
        if config.max_batch_size == 0 {
            return None;
        }
        let requests: Vec<String> = Vec::new();
        let responders: Vec<ReturnPath> = Vec::new();
        let aggregator = Aggregator {
            max_batch_size: config.max_batch_size,
            max_wait_time_ms: config.max_wait_time_ms,
            phase: Phase::AwaitingFirst,
            requests,
            responders,
        };
        assert(aggregator@.payloads =~= Seq::empty());
        Some((aggregator, Action::AwaitRequest))
    }

    /// The phase the aggregator is in.
    pub fn phase(&self) -> (phase: Phase)
        ensures
            phase == self@.phase,
    {
        self.phase
    }

    /// Number of requests in the batch that is open or with the backend.
    pub fn batch_len(&self) -> (len: usize)
        ensures
            len == self@.return_paths.len(),
    {
        self.responders.len()
    }

    /// Feeds one event to the aggregator and returns the aggregator after it
    /// together with the action to carry out.
    pub fn step(self, event: Event) -> (next: (Aggregator, Action))
        ensures
            self@.wf(),
            next.0@.wf(),
            next.0@ == self@.step(event@).0,
            next.1@ == self@.step(event@).1,
            next.1@ matches ActionView::Dispatch { payloads } ==> 1 <= payloads.len()
                <= self@.max_batch_size,
    {
        proof {
            use_type_invariant(&self);
        }
        let Aggregator { max_batch_size, max_wait_time_ms, phase, requests, responders } = self;
        match (phase, event) {
            (Phase::AwaitingFirst, Event::Arrived(request)) | (
                Phase::Collecting,
                Event::Arrived(request),
            ) => {
                let ghost old_requests = requests;
                let mut requests = requests;
                let mut responders = responders;
                let BatchRequest { input, resp_tx } = request;
                requests.push(input);
                responders.push(resp_tx);
                proof {
                    lemma_texts_push(old_requests, requests, input);
                }
                if requests.len() >= max_batch_size {
                    let emptied: Vec<String> = Vec::new();
                    assert(emptied.deep_view() =~= Seq::empty());
                    (
                        Aggregator {
                            max_batch_size,
                            max_wait_time_ms,
                            phase: Phase::Dispatching,
                            requests: emptied,
                            responders,
                        },
                        Action::Dispatch { payloads: requests },
                    )
                } else {
                    let action = match phase {
                        Phase::AwaitingFirst => Action::StartTimer { wait_ms: max_wait_time_ms },
                        _ => Action::AwaitRequestOrTimer,
                    };
                    (
                        Aggregator {
                            max_batch_size,
                            max_wait_time_ms,
                            phase: Phase::Collecting,
                            requests,
                            responders,
                        },
                        action,
                    )
                }
            },
            (Phase::AwaitingFirst, Event::QueueClosed) => (
                Aggregator {
                    max_batch_size,
                    max_wait_time_ms,
                    phase: Phase::Shutdown,
                    requests,
                    responders,
                },
                Action::Stop,
            ),
            (Phase::Collecting, Event::QueueClosed) => (
                Aggregator { max_batch_size, max_wait_time_ms, phase, requests, responders },
                Action::AwaitTimer,
            ),
            (Phase::Collecting, Event::TimerFired) => {
                let emptied: Vec<String> = Vec::new();
                assert(emptied.deep_view() =~= Seq::empty());
                (
                    Aggregator {
                        max_batch_size,
                        max_wait_time_ms,
                        phase: Phase::Dispatching,
                        requests: emptied,
                        responders,
                    },
                    Action::Dispatch { payloads: requests },
                )
            },
            (Phase::Dispatching, Event::BackendReplied(outcome)) => {
                let routing = route_results(responders, outcome);
                let emptied: Vec<ReturnPath> = Vec::new();
                assert(requests.deep_view() =~= Seq::empty());
                (
                    Aggregator {
                        max_batch_size,
                        max_wait_time_ms,
                        phase: Phase::AwaitingFirst,
                        requests,
                        responders: emptied,
                    },
                    Action::Deliver(routing),
                )
            },
            (phase, event) => (
                Aggregator { max_batch_size, max_wait_time_ms, phase, requests, responders },
                Action::Refused(event),
            ),
        }
    }
}

} // verus!
