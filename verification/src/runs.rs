//! What holds of the aggregator at every step, over every sequence of events
//! fed to it one after the other, and through the life of one batch from its
//! first request to the replies.

use vstd::prelude::*;
use crate::aggregator::{ActionView, AggregatorView, EventView, Phase};
use crate::backend::BackendOutcomeView;
use crate::dispatcher::{shorter, DeliveryView};
use crate::types::ReturnPath;

verus! {

/// The aggregator after it has been fed `events` in order.
pub open spec fn state_after(start: AggregatorView, events: Seq<EventView>) -> AggregatorView
    decreases events.len(),
{
    if events.len() == 0 {
        start
    } else {
        state_after(start, events.drop_last()).step(events.last()).0
    }
}

/// The action with which the aggregator answers the `i`-th of `events`.
pub open spec fn action_at(start: AggregatorView, events: Seq<EventView>, i: int) -> ActionView
    recommends
        0 <= i < events.len(),
{
    state_after(start, events.take(i)).step(events[i]).1
}

/// The arrival, one after the other, of requests with these payloads and
/// return paths.
pub open spec fn arrivals(payloads: Seq<Seq<char>>, paths: Seq<ReturnPath>) -> Seq<EventView>
    recommends
        payloads.len() == paths.len(),
{
    Seq::new(
        payloads.len(),
        |i: int| EventView::Arrived { payload: payloads[i], return_path: paths[i] },
    )
}

/// The events that open and close one batch of these requests: they arrive in
/// order, and the timer fires after the last one unless the batch is full by
/// then.
pub open spec fn batch_events(
    max_batch_size: nat,
    payloads: Seq<Seq<char>>,
    paths: Seq<ReturnPath>,
) -> Seq<EventView>
    recommends
        payloads.len() == paths.len(),
        1 <= payloads.len() <= max_batch_size,
{
    if payloads.len() >= max_batch_size {
        arrivals(payloads, paths)
    } else {
        arrivals(payloads, paths).push(EventView::TimerFired)
    }
}

/// The aggregator with a closed batch on these return paths.
pub open spec fn dispatching(start: AggregatorView, paths: Seq<ReturnPath>) -> AggregatorView {
    AggregatorView {
        phase: Phase::Dispatching,
        payloads: Seq::empty(),
        return_paths: paths,
        ..start
    }
}

/// A step keeps the aggregator well formed and never touches its limits.
pub proof fn lemma_step_keeps_wf(state: AggregatorView, event: EventView)
    requires
        state.wf(),
    ensures
        state.step(event).0.wf(),
        state.step(event).0.max_batch_size == state.max_batch_size,
        state.step(event).0.max_wait_time_ms == state.max_wait_time_ms,
{
}

/// A batch leaves the aggregator whole: the payloads sent to the backend are
/// as many as the return paths kept for the answer, at least one and at most
/// `max_batch_size`.
pub proof fn lemma_dispatch_is_a_whole_batch(state: AggregatorView, event: EventView)
    requires
        state.wf(),
    ensures
        state.step(event).1 matches ActionView::Dispatch { payloads } ==> {
            &&& state.step(event).0.phase == Phase::Dispatching
            &&& payloads.len() == state.step(event).0.return_paths.len()
            &&& 1 <= payloads.len() <= state.max_batch_size
        },
{
}

/// A batch goes to the backend once. While its call is out, only the outcome
/// of that call moves the aggregator; a timer that runs out after the batch
/// has closed, or anything else, is refused and changes nothing.
pub proof fn lemma_batch_is_dispatched_once(state: AggregatorView, event: EventView)
    requires
        state.phase == Phase::Dispatching,
    ensures
        !(state.step(event).1 is Dispatch),
        !(event is BackendReplied) ==> state.step(event) == (state, ActionView::Refused(event)),
{
}

/// The timer is started by the first request of a batch and by nothing else,
/// and always with `max_wait_time_ms`.
pub proof fn lemma_only_first_request_starts_timer(state: AggregatorView, event: EventView)
    ensures
        state.step(event).1 matches ActionView::StartTimer { wait_ms } ==> {
            &&& state.phase == Phase::AwaitingFirst
            &&& event is Arrived
            &&& wait_ms == state.max_wait_time_ms
        },
{
}

/// The request that brings a batch to `max_batch_size` closes it there and
/// then, with that request last, whether or not the timer is still running.
pub proof fn lemma_filling_request_closes_batch(
    state: AggregatorView,
    payload: Seq<char>,
    return_path: ReturnPath,
)
    requires
        state.wf(),
        state.phase == Phase::AwaitingFirst || state.phase == Phase::Collecting,
        state.payloads.len() + 1 == state.max_batch_size,
    ensures
        state.step(EventView::Arrived { payload, return_path }) == (
            dispatching(state, state.return_paths.push(return_path)),
            ActionView::Dispatch { payloads: state.payloads.push(payload) },
        ),
{
}

/// When the timer fires on an open batch, the batch closes as it stands.
pub proof fn lemma_timer_closes_open_batch(state: AggregatorView)
    requires
        state.phase == Phase::Collecting,
    ensures
        state.step(EventView::TimerFired) == (
            dispatching(state, state.return_paths),
            ActionView::Dispatch { payloads: state.payloads },
        ),
{
}

/// Every run keeps the aggregator well formed and never touches its limits.
pub proof fn lemma_run_keeps_wf(start: AggregatorView, events: Seq<EventView>)
    requires
        start.wf(),
    ensures
        state_after(start, events).wf(),
        state_after(start, events).max_batch_size == start.max_batch_size,
        state_after(start, events).max_wait_time_ms == start.max_wait_time_ms,
    decreases events.len(),
{
    if events.len() > 0 {
        lemma_run_keeps_wf(start, events.drop_last());
        lemma_step_keeps_wf(state_after(start, events.drop_last()), events.last());
    }
}

/// Whatever events arrive and in whatever order, a batch that is sent to the
/// backend holds at least one request and at most `max_batch_size`.
pub proof fn lemma_dispatched_batch_is_bounded(
    start: AggregatorView,
    events: Seq<EventView>,
    i: int,
)
    requires
        start.wf(),
        0 <= i < events.len(),
    ensures
        action_at(start, events, i) matches ActionView::Dispatch { payloads } ==> 1
            <= payloads.len() <= start.max_batch_size,
{
    lemma_run_keeps_wf(start, events.take(i));
}

/// Whatever events arrive and in whatever order, the replies handed out and
/// the return paths abandoned for one batch are together as many as the
/// batch had requests: at least one and at most `max_batch_size`.
pub proof fn lemma_served_batch_is_bounded(start: AggregatorView, events: Seq<EventView>, i: int)
    requires
        start.wf(),
        0 <= i < events.len(),
    ensures
        action_at(start, events, i) matches ActionView::Deliver(routing) ==> 1
            <= routing.deliveries.len() + routing.abandoned.len() <= start.max_batch_size,
{
    lemma_run_keeps_wf(start, events.take(i));
}

/// While fewer requests than `max_batch_size` have arrived and the timer has
/// not fired, the aggregator holds exactly those requests, in arrival order.
pub proof fn lemma_collecting(
    start: AggregatorView,
    payloads: Seq<Seq<char>>,
    paths: Seq<ReturnPath>,
    k: int,
)
    requires
        start.wf(),
        start.phase == Phase::AwaitingFirst,
        payloads.len() == paths.len(),
        1 <= k <= payloads.len(),
        k < start.max_batch_size,
    ensures
        state_after(start, arrivals(payloads, paths).take(k)) == (AggregatorView {
            phase: Phase::Collecting,
            payloads: payloads.take(k),
            return_paths: paths.take(k),
            ..start
        }),
    decreases k,
{
    let events = arrivals(payloads, paths);
    assert(events.take(k).drop_last() =~= events.take(k - 1));
    assert(payloads.take(k - 1).push(payloads[k - 1]) =~= payloads.take(k));
    assert(paths.take(k - 1).push(paths[k - 1]) =~= paths.take(k));
    if k == 1 {
        assert(start.payloads =~= payloads.take(0));
        assert(start.return_paths =~= paths.take(0));
    } else {
        lemma_collecting(start, payloads, paths, k - 1);
    }
}

/// The first request of a batch starts the timer with `max_wait_time_ms`, and
/// no later request of that batch starts or restarts it.
pub proof fn lemma_timer_starts_once(
    start: AggregatorView,
    payloads: Seq<Seq<char>>,
    paths: Seq<ReturnPath>,
    i: int,
)
    requires
        start.wf(),
        start.phase == Phase::AwaitingFirst,
        payloads.len() == paths.len(),
        0 <= i < payloads.len(),
        i + 1 < start.max_batch_size,
    ensures
        action_at(start, arrivals(payloads, paths), i) == (if i == 0 {
            ActionView::StartTimer { wait_ms: start.max_wait_time_ms }
        } else {
            ActionView::AwaitRequestOrTimer
        }),
{
    if i > 0 {
        lemma_collecting(start, payloads, paths, i);
    }
}

/// When `max_batch_size` requests or more arrive one after the other, the
/// request that fills the batch closes it: the action for that very arrival
/// is the dispatch of the first `max_batch_size` payloads in arrival order,
/// and the timer plays no part.
pub proof fn lemma_full_batch_closes_at_once(
    start: AggregatorView,
    payloads: Seq<Seq<char>>,
    paths: Seq<ReturnPath>,
)
    requires
        start.wf(),
        start.phase == Phase::AwaitingFirst,
        payloads.len() == paths.len(),
        payloads.len() >= start.max_batch_size,
    ensures
        ({
            let full = start.max_batch_size as int;
            let events = arrivals(payloads, paths);
            &&& action_at(start, events, full - 1) == ActionView::Dispatch {
                payloads: payloads.take(full),
            }
            &&& state_after(start, events.take(full)) == dispatching(start, paths.take(full))
        }),
{
    let full = start.max_batch_size as int;
    let events = arrivals(payloads, paths);
    assert(events.take(full).drop_last() =~= events.take(full - 1));
    assert(payloads.take(full - 1).push(payloads[full - 1]) =~= payloads.take(full));
    assert(paths.take(full - 1).push(paths[full - 1]) =~= paths.take(full));
    if full == 1 {
        assert(start.payloads =~= payloads.take(0));
        assert(start.return_paths =~= paths.take(0));
    } else {
        lemma_collecting(start, payloads, paths, full - 1);
    }
}

/// When fewer than `max_batch_size` requests have arrived and the timer
/// fires, the batch closes with exactly those requests, in arrival order.
pub proof fn lemma_partial_batch_closes_on_timer(
    start: AggregatorView,
    payloads: Seq<Seq<char>>,
    paths: Seq<ReturnPath>,
)
    requires
        start.wf(),
        start.phase == Phase::AwaitingFirst,
        payloads.len() == paths.len(),
        1 <= payloads.len() < start.max_batch_size,
    ensures
        ({
            let events = arrivals(payloads, paths).push(EventView::TimerFired);
            &&& action_at(start, events, payloads.len() as int) == ActionView::Dispatch { payloads }
            &&& state_after(start, events) == dispatching(start, paths)
        }),
{
    let k = payloads.len() as int;
    let events = arrivals(payloads, paths).push(EventView::TimerFired);
    assert(events.take(k) =~= arrivals(payloads, paths).take(k));
    assert(payloads.take(k) =~= payloads);
    assert(paths.take(k) =~= paths);
    lemma_collecting(start, payloads, paths, k);
}

/// One batch of at most `max_batch_size` requests, from the first arrival to
/// its closing: the last event of the batch is answered with the dispatch of
/// all its payloads in arrival order, and the aggregator is left holding the
/// return paths in the same order.
pub proof fn lemma_batch_keeps_arrival_order(
    start: AggregatorView,
    payloads: Seq<Seq<char>>,
    paths: Seq<ReturnPath>,
)
    requires
        start.wf(),
        start.phase == Phase::AwaitingFirst,
        payloads.len() == paths.len(),
        1 <= payloads.len() <= start.max_batch_size,
    ensures
        ({
            let events = batch_events(start.max_batch_size, payloads, paths);
            &&& action_at(start, events, events.len() - 1) == ActionView::Dispatch { payloads }
            &&& state_after(start, events) == dispatching(start, paths)
        }),
{
    let k = payloads.len() as int;
    let events = batch_events(start.max_batch_size, payloads, paths);
    if payloads.len() >= start.max_batch_size {
        lemma_full_batch_closes_at_once(start, payloads, paths);
        assert(events.take(k) =~= events);
        assert(payloads.take(k) =~= payloads);
        assert(paths.take(k) =~= paths);
    } else {
        lemma_partial_batch_closes_on_timer(start, payloads, paths);
    }
}

/// Order preservation. When the backend answers a batch with embeddings, the
/// caller whose payload stood at position `i` of the dispatched batch is
/// handed row `i` of the answer, for every position that both have. After
/// that the aggregator is back where it started.
pub proof fn lemma_embeddings_follow_batch_order(
    start: AggregatorView,
    payloads: Seq<Seq<char>>,
    paths: Seq<ReturnPath>,
    rows: Seq<Seq<u32>>,
)
    requires
        start.wf(),
        start.phase == Phase::AwaitingFirst,
        payloads.len() == paths.len(),
        1 <= payloads.len() <= start.max_batch_size,
    ensures
        ({
            let batch = batch_events(start.max_batch_size, payloads, paths);
            let events = batch.push(
                EventView::BackendReplied(BackendOutcomeView::Embeddings(rows)),
            );
            &&& action_at(start, events, batch.len() - 1) == ActionView::Dispatch { payloads }
            &&& action_at(start, events, batch.len() as int) matches ActionView::Deliver(routing)
            &&& routing.deliveries.len() == shorter(payloads.len(), rows.len())
            &&& forall|i: int|
                0 <= i < routing.deliveries.len() ==> #[trigger] routing.deliveries[i] == (
                DeliveryView { return_path: paths[i], reply: Ok(rows[i]) })
            &&& routing.abandoned == paths.skip(routing.deliveries.len() as int)
            &&& state_after(start, events) == start
        }),
{
    let batch = batch_events(start.max_batch_size, payloads, paths);
    let events = batch.push(EventView::BackendReplied(BackendOutcomeView::Embeddings(rows)));
    lemma_batch_keeps_arrival_order(start, payloads, paths);
    assert(events.take(batch.len() as int) =~= batch);
    assert(events.take(batch.len() - 1) =~= batch.take(batch.len() - 1));
    assert(state_after(start, events).payloads =~= start.payloads);
    assert(state_after(start, events).return_paths =~= start.return_paths);
}

/// Failure atomicity. When the backend call for a batch fails, every caller
/// of that batch is handed the same failure message; no caller is handed an
/// embedding and none is left without a reply.
pub proof fn lemma_failure_reaches_every_caller(
    start: AggregatorView,
    payloads: Seq<Seq<char>>,
    paths: Seq<ReturnPath>,
    outcome: BackendOutcomeView,
)
    requires
        start.wf(),
        start.phase == Phase::AwaitingFirst,
        payloads.len() == paths.len(),
        1 <= payloads.len() <= start.max_batch_size,
        !(outcome is Embeddings),
    ensures
        ({
            let batch = batch_events(start.max_batch_size, payloads, paths);
            let events = batch.push(EventView::BackendReplied(outcome));
            &&& outcome.failure() matches Some(message)
            &&& action_at(start, events, batch.len() as int) matches ActionView::Deliver(routing)
            &&& routing.deliveries.len() == payloads.len()
            &&& forall|i: int|
                0 <= i < routing.deliveries.len() ==> #[trigger] routing.deliveries[i] == (
                DeliveryView { return_path: paths[i], reply: Err(message) })
            &&& routing.abandoned.len() == 0
            &&& state_after(start, events) == start
        }),
{
    let batch = batch_events(start.max_batch_size, payloads, paths);
    let events = batch.push(EventView::BackendReplied(outcome));
    lemma_batch_keeps_arrival_order(start, payloads, paths);
    assert(events.take(batch.len() as int) =~= batch);
    assert(state_after(start, events).payloads =~= start.payloads);
    assert(state_after(start, events).return_paths =~= start.return_paths);
}

/// Once the aggregator has seen the queue close while no batch was open, it
/// has shut down for good: it refuses every later event and never changes.
pub proof fn lemma_shutdown_is_final(start: AggregatorView, events: Seq<EventView>, i: int)
    requires
        start.phase == Phase::Shutdown,
        0 <= i < events.len(),
    ensures
        state_after(start, events) == start,
        action_at(start, events, i) == ActionView::Refused(events[i]),
{
    lemma_shutdown_absorbs(start, events);
    lemma_shutdown_absorbs(start, events.take(i));
}

proof fn lemma_shutdown_absorbs(start: AggregatorView, events: Seq<EventView>)
    requires
        start.phase == Phase::Shutdown,
    ensures
        state_after(start, events) == start,
    decreases events.len(),
{
    if events.len() > 0 {
        lemma_shutdown_absorbs(start, events.drop_last());
    }
}

} // verus!
