//! The in-process channels that carry messages to subscribers.
use vstd::prelude::*;
use crate::messaging::Message;

verus! {

/// `flume::Sender`, the sending end of a channel.
#[verifier::external_type_specification]
#[verifier::external_body]
#[verifier::reject_recursive_types(T)]
pub struct ExSender<T>(flume::Sender<T>);

/// `flume::Receiver`, the receiving end of a channel.
#[verifier::external_type_specification]
#[verifier::external_body]
#[verifier::reject_recursive_types(T)]
pub struct ExReceiver<T>(flume::Receiver<T>);

/// The messages sent into the channel through this sending end, oldest
/// first. On an unbounded channel each of them is queued for the receiving
/// end in that order, unless the receiving end is gone.
pub uninterp spec fn sent(tx: flume::Sender<Message>) -> Seq<Message>;

/// Whether `tx` and `rx` are the two ends of one channel.
pub uninterp spec fn same_channel(tx: flume::Sender<Message>, rx: flume::Receiver<Message>) -> bool;

/// Calls `flume::unbounded`: a new channel without a capacity limit, whose
/// two ends belong together and through whose sending end nothing has been
/// sent yet.
#[verifier::external_body]
pub(crate) fn open_channel() -> (ends: (flume::Sender<Message>, flume::Receiver<Message>))
    ensures
        sent(ends.0) == Seq::<Message>::empty(),
        same_channel(ends.0, ends.1),
{
    flume::unbounded()
}

/// Calls `flume::Sender::send`, which on an unbounded channel queues the
/// item without blocking; the error it returns when every receiver is gone
/// is dropped. The item is sent through `tx`, which stays an end of the
/// same channel.
#[verifier::external_body]
pub(crate) fn deliver(tx: &mut flume::Sender<Message>, item: Message)
    ensures
        sent(*final(tx)) == sent(*old(tx)).push(item),
        forall|rx: flume::Receiver<Message>|
            same_channel(*old(tx), rx) ==> #[trigger] same_channel(*final(tx), rx),
{
    let _ = tx.send(item);
}

} // verus!
