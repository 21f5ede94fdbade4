//! The pool and the channels that carry results from worker threads to the
//! polling side.
//!
//! Everything in this file is taken on trust from the crates that provide
//! it; the doc comment of each item says what is believed of it. None of
//! the claims says what a channel delivers or when: that depends on the
//! workers' progress.

use core::future::Future;
use core::pin::Pin;
use core::task::Context;
use core::task::Poll;
use futures::channel::oneshot::Canceled;
use futures::channel::oneshot::Receiver;
use futures::channel::oneshot::Sender;
use futures::stream::BoxStream;
use futures::stream::Stream;
use vstd::prelude::*;

verus! {

/// `futures::channel::oneshot::Canceled`: the error of a receiver whose
/// sender went away without sending. Opaque.
#[verifier::external_type_specification]
#[verifier::external_body]
pub struct ExCanceled(Canceled);

/// `futures::channel::oneshot::Receiver`: the consuming half of a one-shot
/// channel. Opaque.
#[verifier::external_type_specification]
#[verifier::external_body]
#[verifier::reject_recursive_types(T)]
pub struct ExReceiver<T>(Receiver<T>);

/// `futures::channel::oneshot::Sender`: the producing half of a one-shot
/// channel. Opaque.
#[verifier::external_type_specification]
#[verifier::external_body]
#[verifier::reject_recursive_types(T)]
pub struct ExSender<T>(Sender<T>);

/// `core::task::Context`: the waker that a poll registers. Opaque.
#[verifier::external_type_specification]
#[verifier::external_body]
pub struct ExContext<'a>(Context<'a>);

/// `core::task::Poll`, with its two variants `Ready` and `Pending`.
#[verifier::external_type_specification]
#[verifier::reject_recursive_types(T)]
pub struct ExPoll<T>(Poll<T>);

/// `futures::channel::oneshot::channel` returns the two halves of a fresh
/// channel. Nothing is claimed of them.
pub assume_specification<T>[ futures::channel::oneshot::channel::<T> ]() -> (halves: (
    Sender<T>,
    Receiver<T>,
));

/// `Sender::send` hands the value over, or gives it back in `Err` when the
/// receiver is gone. Which of the two happens is not claimed; it never
/// panics.
pub assume_specification<T>[ Sender::<T>::send ](sender: Sender<T>, t: T) -> (sent: Result<(), T>);

/// `rayon::spawn` queues the job on the global pool and returns at once. The
/// job runs later on a worker thread, so it must be callable as it stands.
/// The call itself panics only where the global pool cannot be built, which
/// is a failure of the machine and not of the caller.
pub assume_specification<F: FnOnce() + Send + 'static>[ rayon::spawn::<F> ](func: F)
    requires
        call_requires(func, ()),
;

/// `Future::poll` on a one-shot receiver: `Pending`, the value that was
/// sent, or `Canceled`. Which one comes back depends on the worker's
/// progress, so nothing is claimed of the result.
#[verifier::external_body]
pub(crate) fn poll_receiver<T>(receiver: &mut Receiver<T>, cx: &mut Context<'_>) -> (delivery: Poll<
    Result<T, Canceled>,
>) {
    Pin::new(receiver).poll(cx)
}

/// `flume::Sender`: a producing handle of a multi-producer channel. Opaque.
#[verifier::external_type_specification]
#[verifier::external_body]
#[verifier::reject_recursive_types(T)]
pub struct ExItemSender<T>(flume::Sender<T>);

/// `flume::Receiver`: the consuming handle of a multi-producer channel.
/// Opaque.
#[verifier::external_type_specification]
#[verifier::external_body]
#[verifier::reject_recursive_types(T)]
pub struct ExItemReceiver<T>(flume::Receiver<T>);

/// `flume::SendError`: the message that could not be sent, given back.
/// Opaque.
#[verifier::external_type_specification]
#[verifier::external_body]
#[verifier::reject_recursive_types(T)]
pub struct ExSendError<T>(flume::SendError<T>);

/// `flume::unbounded` returns the two ends of a fresh channel without a
/// capacity limit. Nothing is claimed of them.
pub assume_specification<T>[ flume::unbounded::<T> ]() -> (ends: (
    flume::Sender<T>,
    flume::Receiver<T>,
));

/// `flume::Sender::send` queues the message, or gives it back in `Err` when
/// every receiver is gone. Which of the two happens is not claimed. On a
/// channel without a capacity limit it neither blocks nor panics.
pub assume_specification<T>[ flume::Sender::<T>::send ](
    sender: &flume::Sender<T>,
    msg: T,
) -> (sent: Result<(), flume::SendError<T>>);

/// The receiving end of a `flume` channel as a stream, as
/// `flume::Receiver::into_stream` gives it. It is held boxed, so that the
/// stream's own type stays out of the bridge's signature. Opaque.
#[verifier::external_body]
#[verifier::reject_recursive_types(T)]
pub struct ItemStream<T> {
    inner: BoxStream<'static, T>,
}

/// `flume::Receiver::into_stream` turns the receiver into a stream of the
/// messages. Nothing is claimed of the stream.
#[verifier::external_body]
pub(crate) fn into_item_stream<T: Send + 'static>(receiver: flume::Receiver<T>) -> (stream:
    ItemStream<T>) {
    ItemStream { inner: Box::pin(receiver.into_stream()) }
}

/// `Stream::poll_next` on the receiving stream: `Pending`, the next
/// message, or the end once every sender is gone and the queue is empty.
/// Which one comes back depends on the workers' progress, so nothing is
/// claimed of the result.
#[verifier::external_body]
pub(crate) fn poll_item_stream<T>(stream: &mut ItemStream<T>, cx: &mut Context<'_>) -> (polled:
    Poll<Option<T>>) {
    stream.inner.as_mut().poll_next(cx)
}

} // verus!
