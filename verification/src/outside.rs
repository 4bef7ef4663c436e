//! What this crate takes on trust from the crates it calls. Nothing here is
//! proved: each contract restates what the called code does, and every proof
//! that goes through one of these items rests on that restatement.

use vstd::prelude::*;

verus! {

/// `tokio::sync::oneshot::Sender`, the sending half of a single-use channel.
/// The type is opaque here: a sender is carried around and used once, and
/// nothing is known of what is inside it.
#[verifier::external_type_specification]
#[verifier::external_body]
#[verifier::reject_recursive_types(T)]
pub struct ExOneshotSender<T>(tokio::sync::oneshot::Sender<T>);

/// `tokio::sync::oneshot::Sender::send` returns without waiting. It reports
/// `Ok` when it left the value for the receiver, and when the receiver has
/// already gone it hands the same value back in `Err`. Whether the receiver
/// is still there is not for the sending side to know, so nothing is claimed
/// about which of the two comes out.
pub assume_specification<T>[ tokio::sync::oneshot::Sender::<T>::send ](
    tx: tokio::sync::oneshot::Sender<T>,
    t: T,
) -> (outcome: Result<(), T>)
    ensures
        outcome matches Err(back) ==> back == t,
;

/// `tokio::sync::oneshot::Receiver`, the receiving half of a single-use
/// channel. Opaque here: a receiver is handed to whoever will await it.
#[verifier::external_type_specification]
#[verifier::external_body]
#[verifier::reject_recursive_types(T)]
pub struct ExOneshotReceiver<T>(tokio::sync::oneshot::Receiver<T>);

/// `tokio::sync::oneshot::error::RecvError`, what awaiting a receiver yields
/// when its sender was dropped unused. It holds nothing to look at.
#[verifier::external_type_specification]
#[verifier::external_body]
pub struct ExOneshotRecvError(tokio::sync::oneshot::error::RecvError);

/// `tokio::sync::oneshot::channel` makes a new channel and returns its two
/// halves. Both are opaque, so nothing is claimed of them.
pub assume_specification<T>[ tokio::sync::oneshot::channel::<T> ]() -> (halves: (
    tokio::sync::oneshot::Sender<T>,
    tokio::sync::oneshot::Receiver<T>,
))
;

/// `serde_json::Error`, the error of the JSON encoder. Opaque here.
#[verifier::external_type_specification]
#[verifier::external_body]
pub struct ExJsonError(serde_json::Error);

/// What `serde_json::to_string` makes of a list of strings: the text it
/// returns, or `None` where it reports an error.
pub uninterp spec fn json_string_array(items: Seq<Seq<char>>) -> Option<Seq<char>>;

/// Calls `serde_json::to_string` on the list. The encoder reads nothing but
/// its argument, so what it returns is the same for the same list every time.
/// The contract claims that and no more: it says neither what the text looks
/// like nor that there is one.
#[verifier::external_body]
pub(crate) fn encode_string_array(items: &Vec<String>) -> (encoded: Result<
    String,
    serde_json::Error,
>)
    ensures
        match encoded {
            Ok(text) => json_string_array(items.deep_view()) == Some(text@),
            Err(_) => json_string_array(items.deep_view()) is None,
        },
{
    serde_json::to_string(items)
}

} // verus!
