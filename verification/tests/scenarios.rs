use embed_batcher::backend::parse_failure_message;
use embed_batcher::{
    begin, deliver, embed_handler, Action, Aggregator, AppConfig, BackendOutcome, BatchRequest,
    EmbedResponse, EmbedResult, Event, HandlerStep, Phase, Reply, ReplySlot, Submission,
    UserInput,
};
use tokio::sync::oneshot;
use tokio::sync::oneshot::error::TryRecvError;

fn aggregator_with(max_batch_size: usize, max_wait_time_ms: u64) -> Aggregator {
    let config = AppConfig {
        max_batch_size,
        max_wait_time_ms,
        backend_url: "http://localhost:8080/embed".to_string(),
    };
    match Aggregator::start(&config) {
        Some((aggregator, Action::AwaitRequest)) => aggregator,
        other => panic!("unexpected start: {:?}", other),
    }
}

fn submit(text: &str) -> (Event, oneshot::Receiver<Reply>) {
    let (resp_tx, resp_rx) = oneshot::channel();
    (Event::Arrived(BatchRequest { input: text.to_string(), resp_tx }), resp_rx)
}

fn floats(values: &[f32]) -> EmbedResult {
    EmbedResult { embedding: values.iter().map(|value| value.to_bits()).collect() }
}

/// What the program around the library does with a response body.
fn decoded(body: &str) -> BackendOutcome {
    match serde_json::from_str::<Vec<Vec<f32>>>(body) {
        Ok(rows) => BackendOutcome::Embeddings(rows.iter().map(|row| floats(row)).collect()),
        Err(error) => BackendOutcome::ParseFailed(error.to_string()),
    }
}

/// Carries out a delivery the way the program around the library does.
fn carry_out(action: Action) {
    match action {
        Action::Deliver(routing) => {
            deliver(routing.deliveries);
            drop(routing.abandoned);
        },
        other => panic!("unexpected action: {:?}", other),
    }
}

#[test]
fn three_requests_form_a_full_batch_and_a_timed_one() {
    let aggregator = aggregator_with(2, 50);

    // "a" and "b" arrive within the wait of the first
    let (a, mut rx_a) = submit("a");
    let (b, mut rx_b) = submit("b");
    let (aggregator, action) = aggregator.step(a);
    assert!(matches!(action, Action::StartTimer { wait_ms: 50 }));
    let (aggregator, action) = aggregator.step(b);
    match action {
        Action::Dispatch { payloads } => assert_eq!(payloads, vec!["a", "b"]),
        other => panic!("unexpected action: {:?}", other),
    }
    let (aggregator, action) = aggregator.step(Event::BackendReplied(decoded("[[1.0],[2.0]]")));
    carry_out(action);
    assert_eq!(rx_a.try_recv(), Ok(Ok(floats(&[1.0]))));
    assert_eq!(rx_b.try_recv(), Ok(Ok(floats(&[2.0]))));

    // "c" arrives alone and leaves when its timer fires
    let (c, mut rx_c) = submit("c");
    let (aggregator, action) = aggregator.step(c);
    assert!(matches!(action, Action::StartTimer { wait_ms: 50 }));
    assert_eq!(rx_c.try_recv(), Err(TryRecvError::Empty));
    let (aggregator, action) = aggregator.step(Event::TimerFired);
    match action {
        Action::Dispatch { payloads } => assert_eq!(payloads, vec!["c"]),
        other => panic!("unexpected action: {:?}", other),
    }
    let (aggregator, action) = aggregator.step(Event::BackendReplied(decoded("[[3.0]]")));
    carry_out(action);
    assert_eq!(rx_c.try_recv(), Ok(Ok(floats(&[3.0]))));
    assert_eq!(aggregator.phase(), Phase::AwaitingFirst);
}

#[test]
fn malformed_backend_json_fails_both_callers_alike() {
    let aggregator = aggregator_with(2, 50);
    let (a, mut rx_a) = submit("a");
    let (b, mut rx_b) = submit("b");
    let (aggregator, _) = aggregator.step(a);
    let (aggregator, _) = aggregator.step(b);

    let outcome = decoded("{\"embeddings\": oops");
    let detail = match &outcome {
        BackendOutcome::ParseFailed(detail) => detail.clone(),
        other => panic!("unexpected outcome: {:?}", other),
    };
    let (_, action) = aggregator.step(Event::BackendReplied(outcome));
    carry_out(action);

    let expected = format!("Failed to parse backend JSON: {}", detail);
    assert_eq!(parse_failure_message(&detail), expected);
    assert_eq!(rx_a.try_recv(), Ok(Err(expected.clone())));
    assert_eq!(rx_b.try_recv(), Ok(Err(expected)));
}

#[test]
fn well_formed_json_of_the_wrong_shape_is_a_parse_failure() {
    let aggregator = aggregator_with(1, 50);
    let (a, mut rx_a) = submit("a");
    let (aggregator, _) = aggregator.step(a);
    let (_, action) = aggregator.step(Event::BackendReplied(decoded("{\"error\":\"busy\"}")));
    carry_out(action);
    match rx_a.try_recv() {
        Ok(Err(message)) => assert!(message.starts_with("Failed to parse backend JSON: ")),
        other => panic!("unexpected reply: {:?}", other),
    }
}

#[test]
fn transport_failure_fails_the_whole_batch() {
    let aggregator = aggregator_with(3, 50);
    let (a, mut rx_a) = submit("a");
    let (b, mut rx_b) = submit("b");
    let (aggregator, _) = aggregator.step(a);
    let (aggregator, _) = aggregator.step(b);
    let (aggregator, _) = aggregator.step(Event::TimerFired);
    let outcome = BackendOutcome::TransportFailed("connection reset".to_string());
    let (_, action) = aggregator.step(Event::BackendReplied(outcome));
    carry_out(action);
    let expected = "Backend request failed: connection reset".to_string();
    assert_eq!(rx_a.try_recv(), Ok(Err(expected.clone())));
    assert_eq!(rx_b.try_recv(), Ok(Err(expected)));
}

#[test]
fn short_answer_aborts_the_callers_it_leaves_out() {
    let aggregator = aggregator_with(2, 50);
    let (a, mut rx_a) = submit("a");
    let (b, rx_b) = submit("b");
    let (aggregator, _) = aggregator.step(a);
    let (aggregator, _) = aggregator.step(b);
    let (_, action) = aggregator.step(Event::BackendReplied(decoded("[[1.0]]")));
    carry_out(action);
    assert_eq!(rx_a.try_recv(), Ok(Ok(floats(&[1.0]))));

    // the caller that was left out sees its request as aborted
    let left_out = rx_b.blocking_recv();
    assert!(left_out.is_err());
    let step = begin(UserInput { inputs: vec!["b".to_string()] });
    let response = match step {
        HandlerStep::Submit { call, .. } => embed_handler(call, Submission::Awaited(left_out)),
        other => panic!("unexpected step: {:?}", other),
    };
    match response {
        HandlerStep::Respond(response) => {
            assert_eq!(response, EmbedResponse::WorkerAborted);
            assert_eq!(response.status_code(), 500);
        },
        other => panic!("unexpected step: {:?}", other),
    }
}

/// Awaits a return path the way the front end does, once its batch is done.
fn awaited(reply: ReplySlot) -> Submission {
    Submission::Awaited(reply.blocking_recv())
}

#[test]
fn two_calls_share_a_batch_and_get_their_own_embeddings() {
    let aggregator = aggregator_with(2, 50);
    let first = begin(UserInput { inputs: vec!["left".to_string()] });
    let second = begin(UserInput { inputs: vec!["right".to_string()] });
    let (first_call, first_request, first_reply) = match first {
        HandlerStep::Submit { call, request, reply } => (call, request, reply),
        other => panic!("unexpected step: {:?}", other),
    };
    let (second_call, second_request, second_reply) = match second {
        HandlerStep::Submit { call, request, reply } => (call, request, reply),
        other => panic!("unexpected step: {:?}", other),
    };

    let (aggregator, _) = aggregator.step(Event::Arrived(first_request));
    let (aggregator, action) = aggregator.step(Event::Arrived(second_request));
    match action {
        Action::Dispatch { payloads } => assert_eq!(payloads, vec!["left", "right"]),
        other => panic!("unexpected action: {:?}", other),
    }
    let (_, action) = aggregator.step(Event::BackendReplied(decoded("[[0.25, 0.5], [0.75]]")));
    carry_out(action);

    match embed_handler(first_call, awaited(first_reply)) {
        HandlerStep::Respond(response) => {
            assert_eq!(response, EmbedResponse::Embeddings(vec![floats(&[0.25, 0.5])]))
        },
        other => panic!("unexpected step: {:?}", other),
    }
    match embed_handler(second_call, awaited(second_reply)) {
        HandlerStep::Respond(response) => {
            assert_eq!(response, EmbedResponse::Embeddings(vec![floats(&[0.75])]))
        },
        other => panic!("unexpected step: {:?}", other),
    }
}

#[test]
fn call_of_three_inputs_rides_three_batches() {
    let mut aggregator = aggregator_with(4, 20);
    let mut step = begin(UserInput {
        inputs: vec!["one".to_string(), "two".to_string(), "three".to_string()],
    });
    let mut dispatched = Vec::new();
    let response = loop {
        let (call, request, reply) = match step {
            HandlerStep::Submit { call, request, reply } => (call, request, reply),
            HandlerStep::Respond(response) => break response,
        };
        // the input waits alone until its timer fires, as no other caller is about
        let (next, action) = aggregator.step(Event::Arrived(request));
        assert!(matches!(action, Action::StartTimer { wait_ms: 20 }));
        let (next, action) = next.step(Event::TimerFired);
        match action {
            Action::Dispatch { payloads } => dispatched.push(payloads),
            other => panic!("unexpected action: {:?}", other),
        }
        let row = format!("[[{}.5]]", dispatched.len());
        let (next, action) = next.step(Event::BackendReplied(decoded(&row)));
        carry_out(action);
        aggregator = next;
        step = embed_handler(call, awaited(reply));
    };
    assert_eq!(dispatched, vec![vec!["one"], vec!["two"], vec!["three"]]);
    assert_eq!(
        response,
        EmbedResponse::Embeddings(vec![floats(&[1.5]), floats(&[2.5]), floats(&[3.5])])
    );
}

#[test]
fn failed_batch_ends_the_call_that_was_part_of_it() {
    let aggregator = aggregator_with(1, 20);
    let step = begin(UserInput { inputs: vec!["one".to_string(), "two".to_string()] });
    let (call, request, reply) = match step {
        HandlerStep::Submit { call, request, reply } => (call, request, reply),
        other => panic!("unexpected step: {:?}", other),
    };
    let (aggregator, _) = aggregator.step(Event::Arrived(request));
    let outcome = BackendOutcome::TransportFailed("no route to host".to_string());
    let (_, action) = aggregator.step(Event::BackendReplied(outcome));
    carry_out(action);
    match embed_handler(call, awaited(reply)) {
        HandlerStep::Respond(response) => {
            assert_eq!(response.status_code(), 502);
            assert_eq!(
                response.message(),
                Some("Backend request failed: no route to host".to_string())
            );
        },
        other => panic!("unexpected step: {:?}", other),
    }
}

#[test]
fn embedding_coordinates_survive_the_round_trip_bit_for_bit() {
    let aggregator = aggregator_with(1, 0);
    let (a, mut rx_a) = submit("a");
    let (aggregator, _) = aggregator.step(a);
    let (_, action) =
        aggregator.step(Event::BackendReplied(decoded("[[0.1, -0.0, 3.4028235e38, 1e-45]]")));
    carry_out(action);
    let embedding = match rx_a.try_recv() {
        Ok(Ok(result)) => result.embedding,
        other => panic!("unexpected reply: {:?}", other),
    };
    let coordinates: Vec<f32> = embedding.iter().map(|bits| f32::from_bits(*bits)).collect();
    assert_eq!(coordinates, vec![0.1_f32, -0.0, f32::MAX, 1e-45]);
    assert_eq!(embedding[1], 0x8000_0000);
}
