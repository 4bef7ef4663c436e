//! Coalesces single embedding requests that arrive concurrently into batches
//! bounded in size and in waiting time, and routes each batch's reply back to
//! the callers that contributed to it.
//!
//! The crate holds the decisions only. Waiting on the queue, on the timer and
//! on the backend is left to the caller, which feeds what happened into the
//! state machines defined here and carries out the actions they return.
//!
//! - [`aggregator`] forms the batches and decides when each one closes.
//! - [`backend`] words the request to the embedding service and its failures.
//! - [`dispatcher`] pairs the backend's answer with the waiting callers.
//! - [`front_door`] handles one inbound call, input by input.
//! - [`runs`] states what holds of every run of the aggregator.
//! - [`outside`] lists what is taken on trust from the crates called.

pub mod aggregator;
pub mod backend;
pub mod dispatcher;
pub mod front_door;
pub mod outside;
pub mod runs;
pub mod types;

pub use aggregator::{Action, Aggregator, Event, Phase};
pub use backend::BackendOutcome;
pub use dispatcher::{deliver, route_results, Delivery, Routing};
pub use front_door::{begin, embed_handler, EmbedCall, EmbedResponse, HandlerStep, Submission};
pub use types::{AppConfig, BatchRequest, EmbedResult, Reply, ReplySlot, ReturnPath, UserInput};
