//! The result dispatcher: pairs the return paths of a batch with what the
//! backend produced for it, and hands each caller its reply.

use vstd::prelude::*;
use crate::backend::{
    parse_failure_message, parse_failure_text, transport_failure_message, transport_failure_text,
    BackendOutcome, BackendOutcomeView,
};
use crate::types::{reply_view, EmbedResult, Reply, ReplyView, ReturnPath};

verus! {

/// A reply on its way to one caller.
#[derive(Debug)]
pub struct Delivery {
    pub resp_tx: ReturnPath,
    pub reply: Reply,
}

/// Mathematical model of a [`Delivery`].
pub struct DeliveryView {
    pub return_path: ReturnPath,
    pub reply: ReplyView,
}

impl View for Delivery {
    type V = DeliveryView;

    open spec fn view(&self) -> DeliveryView {
        DeliveryView { return_path: self.resp_tx, reply: reply_view(self.reply) }
    }
}

impl DeepView for Delivery {
    type V = DeliveryView;

    open spec fn deep_view(&self) -> DeliveryView {
        self@
    }
}

/// How one batch's return paths are served.
#[derive(Debug)]
pub struct Routing {
    /// The replies to hand out, in batch order.
    pub deliveries: Vec<Delivery>,
    /// Return paths for which the backend sent nothing. They are dropped
    /// unanswered, which their callers observe as an aborted request.
    pub abandoned: Vec<ReturnPath>,
}

/// Mathematical model of a [`Routing`].
pub struct RoutingView {
    pub deliveries: Seq<DeliveryView>,
    pub abandoned: Seq<ReturnPath>,
}

impl View for Routing {
    type V = RoutingView;

    open spec fn view(&self) -> RoutingView {
        RoutingView { deliveries: self.deliveries.deep_view(), abandoned: self.abandoned@ }
    }
}

/// The smaller of two lengths.
pub open spec fn shorter(a: nat, b: nat) -> nat {
    if a <= b { a } else { b }
}

/// Pairing by position: return path `i` is answered with row `i` for as long
/// as both exist. Return paths beyond the last row are abandoned, and rows
/// beyond the last return path are ignored.
pub open spec fn paired(paths: Seq<ReturnPath>, rows: Seq<Seq<u32>>) -> RoutingView {
    let served = shorter(paths.len(), rows.len());
    RoutingView {
        deliveries: Seq::new(
            served,
            |i: int| DeliveryView { return_path: paths[i], reply: Ok(rows[i]) },
        ),
        abandoned: paths.skip(served as int),
    }
}

/// Broadcast: every return path is answered with the same failure message.
pub open spec fn broadcast(paths: Seq<ReturnPath>, message: Seq<char>) -> RoutingView {
    RoutingView {
        deliveries: Seq::new(
            paths.len(),
            |i: int| DeliveryView { return_path: paths[i], reply: Err(message) },
        ),
        abandoned: Seq::empty(),
    }
}

/// The routing of a batch: its embeddings paired by position, or its failure
/// broadcast to all.
pub open spec fn route(paths: Seq<ReturnPath>, outcome: BackendOutcomeView) -> RoutingView {
    match outcome {
        BackendOutcomeView::Embeddings(rows) => paired(paths, rows),
        BackendOutcomeView::TransportFailed(detail) => broadcast(
            paths,
            transport_failure_text(detail),
        ),
        BackendOutcomeView::ParseFailed(detail) => broadcast(paths, parse_failure_text(detail)),
    }
}

/// The return paths that a routing answers, in the order of its deliveries.
pub open spec fn answered_paths(routing: RoutingView) -> Seq<ReturnPath> {
    Seq::new(routing.deliveries.len(), |i: int| routing.deliveries[i].return_path)
}

/// Every return path of a batch is used exactly once: the paths answered,
/// followed by the paths abandoned, are the paths of the batch in their order.
/// A failed call abandons none of them.
pub proof fn lemma_route_uses_each_path_once(paths: Seq<ReturnPath>, outcome: BackendOutcomeView)
    ensures
        answered_paths(route(paths, outcome)) + route(paths, outcome).abandoned == paths,
        !(outcome is Embeddings) ==> route(paths, outcome).abandoned.len() == 0,
{
}

/// On success no caller is handed a failure, and on failure no caller is
/// handed an embedding and all are handed the same message.
pub proof fn lemma_route_is_all_or_nothing(
    paths: Seq<ReturnPath>,
    outcome: BackendOutcomeView,
    i: int,
)
    requires
        0 <= i < route(paths, outcome).deliveries.len(),
    ensures
        outcome is Embeddings ==> route(paths, outcome).deliveries[i].reply is Ok,
        !(outcome is Embeddings) ==> route(paths, outcome).deliveries[i].reply == Err::<
            Seq<u32>,
            Seq<char>,
        >(outcome.failure()->0),
{
}

/// The same elements, last first.
fn reversed<T>(items: Vec<T>) -> (out: Vec<T>)
    ensures
        out@ == items@.reverse(),
{
    let ghost given = items@;
    let mut items = items;
    let mut out: Vec<T> = Vec::new();
    while items.len() > 0
        invariant
            items@.len() + out@.len() == given.len(),
            items@ == given.take(items@.len() as int),
            forall|i: int| 0 <= i < out@.len() ==> out@[i] == given[given.len() - 1 - i],
        decreases items@.len(),
    {
        let item = items.pop().unwrap();
        out.push(item);
    }
    out
}

/// Answers every return path of a failed batch with the same message.
pub fn broadcast_failure(responders: Vec<ReturnPath>, message: String) -> (routing: Routing)
    ensures
        routing@ == broadcast(responders@, message@),
{
    let ghost paths = responders@;
    let mut deliveries: Vec<Delivery> = Vec::new();
    for tx in it: responders
        invariant
            it.seq() == paths,
            deliveries@.len() == it.index(),
            forall|i: int|
                0 <= i < it.index() ==> (#[trigger] deliveries@[i])@ == (DeliveryView {
                    return_path: paths[i],
                    reply: Err(message@),
                }),
    {
        deliveries.push(Delivery { resp_tx: tx, reply: Err(message.clone()) });
    }
    let routing = Routing { deliveries, abandoned: Vec::new() };
    proof {
        assert(routing@.deliveries =~= broadcast(paths, message@).deliveries);
        assert(routing@.abandoned =~= broadcast(paths, message@).abandoned);
    }
    routing
}

/// Pairs return paths with embeddings by position, in batch order.
pub fn pair_embeddings(responders: Vec<ReturnPath>, rows: Vec<EmbedResult>) -> (routing: Routing)
    ensures
        routing@ == paired(responders@, rows.deep_view()),
{
    let ghost paths = responders@;
    let ghost all_rows = rows@;
    let ghost model_rows = rows.deep_view();
    let mut stack = reversed(rows);
    let mut deliveries: Vec<Delivery> = Vec::new();
    let mut abandoned: Vec<ReturnPath> = Vec::new();
    for tx in it: responders
        invariant
            it.seq() == paths,
            deliveries@.len() == shorter(it.index() as nat, all_rows.len()),
            stack@.len() + deliveries@.len() == all_rows.len(),
            forall|j: int|
                0 <= j < stack@.len() ==> #[trigger] stack@[j] == all_rows[all_rows.len() - 1 - j],
            forall|i: int|
                0 <= i < deliveries@.len() ==> (#[trigger] deliveries@[i])@ == (DeliveryView {
                    return_path: paths[i],
                    reply: Ok(all_rows[i]@),
                }),
            abandoned@ == paths.subrange(deliveries@.len() as int, it.index()),
    {
        match stack.pop() {
            Some(row) => {
                deliveries.push(Delivery { resp_tx: tx, reply: Ok(row) });
            },
            None => {
                abandoned.push(tx);
            },
        }
    }
    let routing = Routing { deliveries, abandoned };
    proof {
        let expected = paired(paths, model_rows);
        assert(routing@.deliveries =~= expected.deliveries);
    }
    routing
}

/// Decides what each return path of a batch receives.
pub fn route_results(responders: Vec<ReturnPath>, outcome: BackendOutcome) -> (routing: Routing)
    ensures
        routing@ == route(responders@, outcome@),
{
    match outcome {
        BackendOutcome::Embeddings(rows) => pair_embeddings(responders, rows),
        BackendOutcome::TransportFailed(detail) => broadcast_failure(
            responders,
            transport_failure_message(detail.as_str()),
        ),
        BackendOutcome::ParseFailed(detail) => broadcast_failure(
            responders,
            parse_failure_message(detail.as_str()),
        ),
    }
}

/// Hands each reply to its caller, in order, and never waits. A caller that
/// has gone away costs nothing: its reply comes back in the result, at the
/// position of its delivery, and every other position holds `None`.
pub fn deliver(deliveries: Vec<Delivery>) -> (returned: Vec<Option<Reply>>)
    ensures
        returned@.len() == deliveries@.len(),
        forall|i: int|
            0 <= i < returned@.len() ==> (#[trigger] returned@[i] matches Some(reply)
                ==> reply == deliveries@[i].reply),
{
    let ghost planned = deliveries@;
    let mut returned: Vec<Option<Reply>> = Vec::new();
    for delivery in it: deliveries
        invariant
            it.seq() == planned,
            returned@.len() == it.index(),
            forall|i: int|
                0 <= i < returned@.len() ==> (#[trigger] returned@[i] matches Some(reply)
                    ==> reply == planned[i].reply),
    {
        let Delivery { resp_tx, reply } = delivery;
        match resp_tx.send(reply) {
            Ok(()) => returned.push(None),
            Err(back) => returned.push(Some(back)),
        }
    }
    returned
}

} // verus!
