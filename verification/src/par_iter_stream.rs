//! Drain a parallel source as a stream, in whatever order its items are
//! produced.
//!
//! A [`ParIterStream`] holds a driver: a closure that pushes every item of
//! a parallel source into the sender it is given, with [`push`]. Nothing
//! runs until the stream is polled. The first poll creates a channel
//! without a capacity limit and hands the driver to the pool; every poll
//! then passes on what the receiving end of the channel answers.

use crate::handoff::into_item_stream;
use crate::handoff::poll_item_stream;
use crate::handoff::ItemStream;
use core::task::Context;
use core::task::Poll;
use vstd::prelude::*;

verus! {

/// Sends `item` through `sender`. If the receiver is gone, the item is
/// dropped and nothing else happens: a worker is never disturbed by a
/// consumer that went away. The sender is left as it was, for the next item.
pub fn push<T>(sender: &mut flume::Sender<T>, item: T)
    ensures
        *final(sender) == *old(sender),
{
    let _ = sender.send(item);
}

/// The abstract state of a [`ParIterStream`]: whether the driver was
/// handed to the pool, and how often.
pub struct SourceView {
    pub started: bool,
    pub launches: nat,
}

impl SourceView {
    /// The state of a stream that was never polled.
    pub open spec fn fresh() -> SourceView {
        SourceView { started: false, launches: 0 }
    }

    /// The driver was launched exactly when the stream was started.
    pub open spec fn consistent(self) -> bool {
        self.launches == (if self.started {
            1nat
        } else {
            0nat
        })
    }

    /// The state after the driver was handed to the pool.
    pub open spec fn launched(self) -> SourceView {
        SourceView { started: true, launches: self.launches + 1 }
    }

    /// The state after one poll: a stream that was not started is started,
    /// a started one stays as it is.
    pub open spec fn polled(self) -> SourceView {
        if self.started {
            self
        } else {
            self.launched()
        }
    }
}

/// A stream of the items that a parallel source produces on the thread
/// pool.
#[verifier::reject_recursive_types(T)]
pub struct ParIterStream<D, T> {
    driver: Option<D>,
    receiver_stream: Option<ItemStream<T>>,
    launches: Ghost<nat>,
}

impl<D, T> View for ParIterStream<D, T> {
    type V = SourceView;

    closed spec fn view(&self) -> SourceView {
        SourceView { started: self.receiver_stream is Some, launches: self.launches@ }
    }
}

impl<D, T> ParIterStream<D, T> where
    D: FnOnce(flume::Sender<T>) + Send + 'static,
    T: Send + 'static,
 {
    /// The driver that still waits to be handed to the pool.
    pub closed spec fn driver(&self) -> Option<D> {
        self.driver
    }

    /// The invariant: the driver is held exactly until the stream is
    /// started, the count of launches fits the state, and a driver that
    /// waits can be called with any sender.
    pub closed spec fn wf(&self) -> bool {
        &&& self.driver is Some <==> self.receiver_stream is None
        &&& self@.consistent()
        &&& self.driver matches Some(drive) ==> forall|sender: flume::Sender<T>|
            call_requires(drive, (sender,))
    }

    /// Creates the channel and hands the driver to the pool with the
    /// sending end. The driver is called once, on a worker thread.
    pub fn start(&mut self)
        requires
            old(self).wf(),
            !old(self)@.started,
        ensures
            final(self).wf(),
            final(self)@ == old(self)@.launched(),
            final(self)@ == (SourceView { started: true, launches: 1 }),
            final(self).driver() is None,
    {
        let drive = self.driver.take().unwrap();
        let (sender, receiver) = flume::unbounded::<T>();
        let job = move ||
            {
                drive(sender);
            };
        rayon::spawn(job);
        self.receiver_stream = Some(into_item_stream(receiver));
        proof {
            self.launches@ = self.launches@ + 1;
        }
    }

    /// Polls the stream, without blocking. The first poll starts the
    /// driver; every poll asks the receiving end of the channel and passes
    /// its answer on as it is. What that answer is depends on the workers;
    /// whichever poll this is, the driver was handed to the pool once.
    pub fn poll_next(&mut self, cx: &mut Context<'_>) -> (polled: Poll<Option<T>>)
        requires
            old(self).wf(),
        ensures
            final(self).wf(),
            final(self)@ == old(self)@.polled(),
            final(self)@ == (SourceView { started: true, launches: 1 }),
            final(self).driver() is None,
    {
        if self.receiver_stream.is_none() {
            self.start();
        }
        match &mut self.receiver_stream {
            Some(stream) => poll_item_stream(stream, cx),
            None => Poll::Pending,
        }
    }
}

/// Wraps a driver as a stream. `drive` is to push every item of a
/// parallel source into the sender it is given, with [`push`]. Nothing
/// runs until the stream is polled, and the items come in no particular
/// order.
pub fn to_par_iter_stream<D, T>(drive: D) -> (stream: ParIterStream<D, T>) where
    D: FnOnce(flume::Sender<T>) + Send + 'static,
    T: Send + 'static,

    requires
        forall|sender: flume::Sender<T>| call_requires(drive, (sender,)),
    ensures
        stream.wf(),
        stream@ == SourceView::fresh(),
        stream.driver() == Some(drive),
{
    ParIterStream { driver: Some(drive), receiver_stream: None, launches: Ghost(0) }
}

} // verus!
