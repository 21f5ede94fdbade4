//! Map a stream on the thread pool, one item at a time.
//!
//! A [`RayonMap`] is either idle or busy. Idle, a poll asks the upstream
//! stream for its next item, hands that item to the pool and turns busy.
//! Busy, a poll looks into the channel of the item in flight and asks the
//! upstream for nothing. So at most one item is with the pool at any time,
//! and the results leave in the order in which the items came.

use crate::handoff::poll_receiver;
use crate::rayon_future::deliver;
use crate::rayon_future::relay;
use crate::rayon_future::relayed;
use crate::rayon_future::ToFutureError;
use core::task::Context;
use core::task::Poll;
use futures::channel::oneshot::Canceled;
use futures::channel::oneshot::Receiver;
use std::sync::Arc;
use vstd::prelude::*;

verus! {

/// The shape of what the upstream answered to a poll.
#[derive(Clone, Copy, PartialEq, Eq, Debug, Structural)]
pub enum Pulled {
    /// The upstream has nothing yet.
    NotReady,
    /// The upstream is exhausted.
    Ended,
    /// The upstream gave an item.
    Item,
}

/// The shape of an upstream answer.
pub open spec fn pulled<I>(upstream: Poll<Option<I>>) -> Pulled {
    match upstream {
        Poll::Pending => Pulled::NotReady,
        Poll::Ready(None) => Pulled::Ended,
        Poll::Ready(Some(_)) => Pulled::Item,
    }
}

/// What a poll of the channel means to the consumer of the mapped stream:
/// an answer becomes the next element, `Pending` stays `Pending`.
pub open spec fn relayed_item<T>(delivery: Poll<Result<T, Canceled>>) -> Poll<
    Option<Result<T, ToFutureError>>,
> {
    match relayed(delivery) {
        Poll::Pending => Poll::Pending,
        Poll::Ready(answer) => Poll::Ready(Some(answer)),
    }
}

/// The abstract state of a [`RayonMap`]: whether an item is with the pool,
/// how many items were handed to the pool, and how many results were given
/// to the consumer.
pub struct MapView {
    pub busy: bool,
    pub submitted: nat,
    pub yielded: nat,
}

impl MapView {
    /// The state of a combinator that was never polled.
    pub open spec fn fresh() -> MapView {
        MapView { busy: false, submitted: 0, yielded: 0 }
    }

    /// The number of items with the pool: one when busy, none when idle.
    pub open spec fn in_flight(self) -> nat {
        if self.busy {
            1
        } else {
            0
        }
    }

    /// Every item that was handed over was either answered or is the one
    /// in flight.
    pub open spec fn consistent(self) -> bool {
        self.submitted == self.yielded + self.in_flight()
    }

    /// The state after an item was handed to the pool.
    pub open spec fn submitted_one(self) -> MapView {
        MapView { busy: true, submitted: self.submitted + 1, yielded: self.yielded }
    }

    /// The state after the channel was polled while busy: a `Pending`
    /// leaves it as it is, an answer goes to the consumer and frees the
    /// slot.
    pub open spec fn settled(self, ready: bool) -> MapView {
        if ready {
            MapView { busy: false, submitted: self.submitted, yielded: self.yielded + 1 }
        } else {
            self
        }
    }

    /// The state after the upstream answered while idle: an item is
    /// handed over and its channel polled at once, anything else changes
    /// nothing.
    pub open spec fn accepted(self, pulled: Pulled, ready: bool) -> MapView {
        if pulled == Pulled::Item {
            self.submitted_one().settled(ready)
        } else {
            self
        }
    }

    /// The state after one poll. `pulled` is what the upstream answers if
    /// it is asked, `ready` whether the channel has an answer if it is
    /// looked into.
    pub open spec fn polled(self, pulled: Pulled, ready: bool) -> MapView {
        if self.busy {
            self.settled(ready)
        } else {
            self.accepted(pulled, ready)
        }
    }

    /// Whether a poll in this state asks the upstream: only when idle.
    pub open spec fn asks_upstream(self) -> bool {
        !self.busy
    }

    /// The shape of what one poll answers, with `pulled` and `ready` as in
    /// [`MapView::polled`]. Busy, it is an element once the channel has an
    /// answer. Idle, it is the upstream's own answer, except that an item
    /// only becomes an element if its channel answers at once.
    pub open spec fn answer(self, pulled: Pulled, ready: bool) -> Pulled {
        if self.busy || pulled == Pulled::Item {
            if ready {
                Pulled::Item
            } else {
                Pulled::NotReady
            }
        } else {
            pulled
        }
    }
}

/// The lower bound of a size hint with `extra` more elements: the sum, or
/// the largest `usize` where the sum does not fit.
pub open spec fn lower_hint(lower: usize, extra: nat) -> usize {
    if lower + extra <= usize::MAX {
        (lower + extra) as usize
    } else {
        usize::MAX
    }
}

/// The upper bound of a size hint with `extra` more elements: the sum, or
/// no bound where the upstream has none or the sum does not fit.
pub open spec fn upper_hint(upper: Option<usize>, extra: nat) -> Option<usize> {
    match upper {
        Some(bound) => if bound + extra <= usize::MAX {
            Some((bound + extra) as usize)
        } else {
            None
        },
        None => None,
    }
}

/// A stream whose items are mapped on the thread pool, in order and one at
/// a time.
#[verifier::reject_recursive_types(T)]
pub struct RayonMap<St, F, T> {
    stream: St,
    f: Arc<F>,
    receiver: Option<Receiver<T>>,
    submitted: Ghost<nat>,
    yielded: Ghost<nat>,
}

impl<St, F, T> View for RayonMap<St, F, T> {
    type V = MapView;

    closed spec fn view(&self) -> MapView {
        MapView {
            busy: self.receiver is Some,
            submitted: self.submitted@,
            yielded: self.yielded@,
        }
    }
}

impl<St, F, T> RayonMap<St, F, T> {
    /// The upstream stream.
    pub closed spec fn upstream(&self) -> St {
        self.stream
    }

    /// The mapping function.
    pub closed spec fn mapper(&self) -> F {
        *self.f
    }

    /// The invariant: the counts fit the state.
    pub closed spec fn wf(&self) -> bool {
        self@.consistent()
    }

    /// The upstream stream.
    pub fn get_ref(&self) -> (stream: &St)
        ensures
            *stream == self.upstream(),
    {
        &self.stream
    }

    /// Whether an item is with the pool.
    pub fn is_busy(&self) -> (busy: bool)
        ensures
            busy == self@.busy,
    {
        self.receiver.is_some()
    }

    /// Whether the mapped stream is exhausted for good: the upstream is,
    /// and no item is with the pool.
    pub fn is_terminated(&self, upstream_terminated: bool) -> (terminated: bool)
        ensures
            terminated == (upstream_terminated && !self@.busy),
    {
        upstream_terminated && self.receiver.is_none()
    }

    /// The bounds on the number of elements still to come, from those of
    /// the upstream: the item in flight counts on top of them.
    pub fn size_hint(&self, upstream: (usize, Option<usize>)) -> (hint: (usize, Option<usize>))
        ensures
            hint.0 == lower_hint(upstream.0, self@.in_flight()),
            hint.1 == upper_hint(upstream.1, self@.in_flight()),
    {
        let future_len: usize = if self.receiver.is_some() {
            1
        } else {
            0
        };
        let (lower, upper) = upstream;
        let lower = lower.saturating_add(future_len);
        let upper = match upper {
            Some(x) => x.checked_add(future_len),
            None => None,
        };
        (lower, upper)
    }

    /// Takes what a poll of the channel returned and passes it on. On
    /// `Pending` the item stays in flight; on an answer, be it a value or
    /// the loss of the sender, the answer is the next element and the
    /// combinator is idle again.
    pub fn resolve(&mut self, delivery: Poll<Result<T, Canceled>>) -> (polled: Poll<
        Option<Result<T, ToFutureError>>,
    >)
        requires
            old(self).wf(),
            old(self)@.busy,
        ensures
            final(self).wf(),
            polled == relayed_item(delivery),
            final(self)@ == old(self)@.settled(delivery is Ready),
            final(self).upstream() == old(self).upstream(),
            final(self).mapper() == old(self).mapper(),
    {
        match relay(delivery) {
            Poll::Pending => Poll::Pending,
            Poll::Ready(answer) => {
                self.receiver = None;
                proof {
                    self.yielded@ = self.yielded@ + 1;
                }
                Poll::Ready(Some(answer))
            },
        }
    }

    /// Looks into the channel of the item in flight, without blocking.
    /// Whether the answer is there depends on the worker: the result is an
    /// element exactly when the combinator is idle afterwards, and it is
    /// never the end of the stream.
    pub fn poll_pending(&mut self, cx: &mut Context<'_>) -> (polled: Poll<
        Option<Result<T, ToFutureError>>,
    >)
        requires
            old(self).wf(),
            old(self)@.busy,
        ensures
            final(self).wf(),
            final(self)@ == old(self)@.settled(polled is Ready),
            pulled(polled) == old(self)@.answer(Pulled::NotReady, polled is Ready),
            final(self).upstream() == old(self).upstream(),
            final(self).mapper() == old(self).mapper(),
    {
        let delivery = match &mut self.receiver {
            Some(receiver) => poll_receiver(receiver, cx),
            None => Poll::Pending,
        };
        self.resolve(delivery)
    }
}

impl<St, F, T> RayonMap<St, F, T> where T: Send + 'static {
    /// Whether the mapping function can be called on `item`.
    pub open spec fn accepts<I>(&self, item: I) -> bool where F: Fn(I) -> T {
        call_requires(self.mapper(), (item,))
    }

    /// Wraps `stream` and `f`, which maps the items of the stream. Nothing
    /// is asked of the stream and nothing runs until the combinator is
    /// polled.
    pub fn new<I>(stream: St, f: F) -> (map: Self) where
        F: Fn(I) -> T + Send + Sync + 'static,
        I: Send + 'static,

        ensures
            map.wf(),
            map@ == MapView::fresh(),
            map.upstream() == stream,
            map.mapper() == f,
    {
        RayonMap {
            stream,
            f: Arc::new(f),
            receiver: None,
            submitted: Ghost(0),
            yielded: Ghost(0),
        }
    }

    /// Hands `item` to the pool, with the mapping function and the sending
    /// half of a fresh channel. The worker applies the function and sends
    /// what it returns with [`deliver`].
    pub fn submit<I>(&mut self, item: I) where
        F: Fn(I) -> T + Send + Sync + 'static,
        I: Send + 'static,

        requires
            old(self).wf(),
            !old(self)@.busy,
            old(self).accepts(item),
        ensures
            final(self).wf(),
            final(self)@ == old(self)@.submitted_one(),
            final(self).upstream() == old(self).upstream(),
            final(self).mapper() == old(self).mapper(),
    {
        let (sender, receiver) = futures::channel::oneshot::channel::<T>();
        let f = self.f.clone();
        let job = move ||
            {
                deliver(sender, f(item));
            };
        rayon::spawn(job);
        self.receiver = Some(receiver);
        proof {
            self.submitted@ = self.submitted@ + 1;
        }
    }

    /// Takes what the upstream answered while the combinator is idle. No
    /// answer yet is passed on as `Pending`, the end of the upstream as the
    /// end of the stream, and neither changes the state. An item is handed
    /// to the pool and its channel is polled at once.
    pub fn accept<I>(&mut self, upstream: Poll<Option<I>>, cx: &mut Context<'_>) -> (polled: Poll<
        Option<Result<T, ToFutureError>>,
    >) where F: Fn(I) -> T + Send + Sync + 'static, I: Send + 'static
        requires
            old(self).wf(),
            !old(self)@.busy,
            upstream matches Poll::Ready(Some(item)) ==> old(self).accepts(item),
        ensures
            final(self).wf(),
            final(self)@ == old(self)@.accepted(pulled(upstream), polled is Ready),
            pulled(polled) == old(self)@.answer(pulled(upstream), polled is Ready),
            final(self).upstream() == old(self).upstream(),
            final(self).mapper() == old(self).mapper(),
    {
        match upstream {
            Poll::Pending => Poll::Pending,
            Poll::Ready(None) => Poll::Ready(None),
            Poll::Ready(Some(item)) => {
                self.submit(item);
                self.poll_pending(cx)
            },
        }
    }

    /// Polls the mapped stream, without blocking. `poll_upstream` polls the
    /// upstream stream; it is called at most once, and only when no item is
    /// with the pool.
    ///
    /// Busy, the poll looks into the channel and leaves the upstream alone.
    /// Idle, it asks the upstream, hands an item that it gets to the pool
    /// and looks into the new channel at once. What the channel answers is
    /// the worker's to decide; the state afterwards and the shape of the
    /// result are those that [`MapView::polled`] and [`MapView::answer`]
    /// give for what `poll_upstream` answered and for whether the result is
    /// ready.
    pub fn poll_next<I, P>(&mut self, cx: &mut Context<'_>, poll_upstream: P) -> (polled: Poll<
        Option<Result<T, ToFutureError>>,
    >) where
        F: Fn(I) -> T + Send + Sync + 'static,
        I: Send + 'static,
        P: FnOnce(&mut St, &mut Context<'_>) -> Poll<Option<I>>,

        requires
            old(self).wf(),
            forall|item: I| old(self).accepts(item),
            old(self)@.asks_upstream() ==> forall|stream: &mut St, waker: &mut Context<'_>|
                call_requires(poll_upstream, (stream, waker)),
        ensures
            final(self).wf(),
            !old(self)@.asks_upstream() ==> {
                &&& final(self)@ == old(self)@.polled(Pulled::NotReady, polled is Ready)
                &&& pulled(polled) == old(self)@.answer(Pulled::NotReady, polled is Ready)
                &&& final(self).upstream() == old(self).upstream()
            },
            old(self)@.asks_upstream() ==> exists|
                stream: &mut St,
                waker: &mut Context<'_>,
                answered: Poll<Option<I>>,
            |
                {
                    &&& #[trigger] call_ensures(poll_upstream, (stream, waker), answered)
                    &&& *stream == old(self).upstream()
                    &&& *final(stream) == final(self).upstream()
                    &&& final(self)@ == old(self)@.polled(pulled(answered), polled is Ready)
                    &&& pulled(polled) == old(self)@.answer(pulled(answered), polled is Ready)
                },
            final(self).mapper() == old(self).mapper(),
    {
        if self.receiver.is_some() {
            self.poll_pending(cx)
        } else {
            let upstream = poll_upstream(&mut self.stream, cx);
            assert(upstream matches Poll::Ready(Some(item)) ==> old(self).accepts(item));
            self.accept(upstream, cx)
        }
    }
}

} // verus!
