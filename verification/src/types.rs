//! Plain data shared by every component: the batching limits, one caller's
//! input list, one embedding, and the record that travels through the request
//! queue.

use vstd::prelude::*;

verus! {

/// What a caller finds on its return path: its embedding, or the message of
/// the failure that hit the batch it was part of.
pub type Reply = Result<EmbedResult, String>;

/// The sending half of a caller's private single-use channel.
pub type ReturnPath = tokio::sync::oneshot::Sender<Reply>;

/// The receiving half of a caller's private single-use channel.
pub type ReplySlot = tokio::sync::oneshot::Receiver<Reply>;

/// Mathematical model of a [`Reply`].
pub type ReplyView = Result<Seq<u32>, Seq<char>>;

/// Batching limits and the backend address. Fixed for the life of the process.
#[derive(Clone, Debug)]
pub struct AppConfig {
    /// Largest number of requests sent to the backend in one call.
    pub max_batch_size: usize,
    /// Longest time, in milliseconds, that the first request of a batch waits
    /// for company before the batch is sent.
    pub max_wait_time_ms: u64,
    /// Address that every batch is posted to.
    pub backend_url: String,
}

impl AppConfig {
    /// A usable configuration admits at least one request per batch.
    pub open spec fn wf(&self) -> bool {
        self.max_batch_size >= 1
    }

    /// Run-time test of [`AppConfig::wf`].
    pub fn is_valid(&self) -> (ok: bool)
        ensures
            ok == self.wf(),
    {
        self.max_batch_size >= 1
    }
}

/// The body of one inbound call: the texts to embed, in the caller's order.
#[derive(Debug)]
pub struct UserInput {
    pub inputs: Vec<String>,
}

/// One embedding vector. Each element is the IEEE-754 single-precision bit
/// pattern of one coordinate; the batching logic never looks inside.
#[derive(Clone, Debug, PartialEq, Eq)]
pub struct EmbedResult {
    pub embedding: Vec<u32>,
}

impl View for EmbedResult {
    type V = Seq<u32>;

    open spec fn view(&self) -> Seq<u32> {
        self.embedding@
    }
}

impl DeepView for EmbedResult {
    type V = Seq<u32>;

    open spec fn deep_view(&self) -> Seq<u32> {
        self.embedding@
    }
}

/// Model of a reply: the coordinates' bit patterns, or the failure text.
pub open spec fn reply_view(reply: Reply) -> ReplyView {
    match reply {
        Ok(result) => Ok(result@),
        Err(message) => Err(message@),
    }
}

/// One unit of work in the request queue: the text to embed and the return
/// path on which its caller waits.
#[derive(Debug)]
pub struct BatchRequest {
    pub input: String,
    pub resp_tx: ReturnPath,
}

} // verus!
