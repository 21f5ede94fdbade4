//! What holds of a mapped stream under every schedule.
//!
//! A [`Run`] follows a [`RayonMap`](super::rayon_map::RayonMap) through a
//! sequence of polls, together with what surrounds it: an upstream that
//! gives the items of a sequence in order, and a worker that computes the
//! mapping function on the item it was handed. Neither is ready at every
//! poll; a [`Tick`] says for one poll whether each would answer. The run
//! moves by the transitions that the combinator's own functions promise,
//! and the laws below hold for every sequence of ticks.

use crate::rayon_future::ToFutureError;
use crate::stream::rayon_map::pulled;
use crate::stream::rayon_map::relayed_item;
use crate::stream::rayon_map::MapView;
use core::task::Poll;
use futures::channel::oneshot::Canceled;
use vstd::prelude::*;

verus! {

/// What is ready at one poll: whether the upstream would answer if asked,
/// and whether the worker has delivered by the time the channel is looked
/// into.
pub struct Tick {
    pub upstream_ready: bool,
    pub worker_ready: bool,
}

/// A mapped stream in the middle of a run.
pub struct Run<I, O> {
    /// The state of the combinator.
    pub view: MapView,
    /// The items that the upstream has still to give, in order.
    pub upstream: Seq<I>,
    /// The item that is with the pool.
    pub in_flight: Option<I>,
    /// The elements given to the consumer so far, in order.
    pub outputs: Seq<Result<O, ToFutureError>>,
    /// Whether a poll has answered that the stream is over.
    pub ended: bool,
}

/// The elements that mapping `inputs` with `f` is to give.
pub open spec fn mapped<I, O>(f: spec_fn(I) -> O, inputs: Seq<I>) -> Seq<Result<O, ToFutureError>> {
    Seq::new(inputs.len(), |i: int| Ok(f(inputs[i])))
}

/// What the worker's channel answers for `item`: the value of `f` once the
/// worker is ready, `Pending` before.
pub open spec fn delivery<I, O>(f: spec_fn(I) -> O, item: I, ready: bool) -> Poll<
    Result<O, Canceled>,
> {
    if ready {
        Poll::Ready(Ok(f(item)))
    } else {
        Poll::Pending
    }
}

impl<I, O> Run<I, O> {
    /// A run before its first poll, over an upstream that will give
    /// `inputs`.
    pub open spec fn start(inputs: Seq<I>) -> Self {
        Run {
            view: MapView::fresh(),
            upstream: inputs,
            in_flight: None,
            outputs: Seq::empty(),
            ended: false,
        }
    }

    /// What the upstream answers to a poll: nothing while it is not ready,
    /// else its next item, or the end when none is left.
    pub open spec fn upstream_answer(self, ready: bool) -> Poll<Option<I>> {
        if !ready {
            Poll::Pending
        } else if self.upstream.len() == 0 {
            Poll::Ready(None)
        } else {
            Poll::Ready(Some(self.upstream[0]))
        }
    }

    /// The run after the upstream's next item was handed to the pool.
    pub open spec fn submit(self) -> Self {
        Run {
            view: self.view.submitted_one(),
            upstream: self.upstream.drop_first(),
            in_flight: Some(self.upstream[0]),
            outputs: self.outputs,
            ended: self.ended,
        }
    }

    /// The run after the channel of the item in flight was looked into.
    pub open spec fn look(self, f: spec_fn(I) -> O, ready: bool) -> Self {
        match self.in_flight {
            Some(item) => match relayed_item(delivery(f, item, ready)) {
                Poll::Ready(Some(element)) => Run {
                    view: self.view.settled(true),
                    upstream: self.upstream,
                    in_flight: None,
                    outputs: self.outputs.push(element),
                    ended: self.ended,
                },
                _ => self,
            },
            None => self,
        }
    }

    /// The run after one poll.
    pub open spec fn poll(self, f: spec_fn(I) -> O, tick: Tick) -> Self {
        if self.view.busy {
            self.look(f, tick.worker_ready)
        } else {
            match self.upstream_answer(tick.upstream_ready) {
                Poll::Pending => self,
                Poll::Ready(None) => Run {
                    view: self.view,
                    upstream: self.upstream,
                    in_flight: self.in_flight,
                    outputs: self.outputs,
                    ended: true,
                },
                Poll::Ready(Some(_)) => self.submit().look(f, tick.worker_ready),
            }
        }
    }

    /// The run after a sequence of polls.
    pub open spec fn polls(self, f: spec_fn(I) -> O, ticks: Seq<Tick>) -> Self
        decreases ticks.len(),
    {
        if ticks.len() == 0 {
            self
        } else {
            self.polls(f, ticks.drop_last()).poll(f, ticks.last())
        }
    }

    /// The elements still to come: that of the item in flight, then those
    /// of the items that the upstream has left.
    pub open spec fn to_come(self, f: spec_fn(I) -> O) -> Seq<Result<O, ToFutureError>> {
        match self.in_flight {
            Some(item) => seq![Ok(f(item))] + mapped(f, self.upstream),
            None => mapped(f, self.upstream),
        }
    }

    /// What every run keeps, for a stream over `inputs`:
    /// the item in flight is there exactly when the combinator is busy,
    /// the counts are those of the sequences, the stream is only over when
    /// nothing is left, and the elements given so far, followed by those
    /// still to come, are the mapped inputs in order.
    pub open spec fn inv(self, f: spec_fn(I) -> O, inputs: Seq<I>) -> bool {
        &&& self.view.consistent()
        &&& self.view.busy <==> self.in_flight is Some
        &&& self.view.yielded == self.outputs.len()
        &&& self.view.submitted + self.upstream.len() == inputs.len()
        &&& self.ended ==> self.upstream.len() == 0 && self.in_flight is None
        &&& self.outputs + self.to_come(f) == mapped(f, inputs)
    }
}

/// Mapping a sequence gives the element of its first item, then the
/// elements of the rest.
proof fn lemma_mapped_first<I, O>(f: spec_fn(I) -> O, items: Seq<I>)
    requires
        items.len() > 0,
    ensures
        mapped(f, items) == seq![Ok::<O, ToFutureError>(f(items[0]))] + mapped(
            f,
            items.drop_first(),
        ),
{
    assert(mapped(f, items) =~= seq![Ok::<O, ToFutureError>(f(items[0]))] + mapped(
        f,
        items.drop_first(),
    ));
}

/// One poll keeps the invariant of a run.
proof fn lemma_poll_keeps_inv<I, O>(run: Run<I, O>, f: spec_fn(I) -> O, inputs: Seq<I>, tick: Tick)
    requires
        run.inv(f, inputs),
    ensures
        run.poll(f, tick).inv(f, inputs),
{
    let next = run.poll(f, tick);
    if run.view.busy {
        if tick.worker_ready {
            assert(next.outputs + next.to_come(f) =~= run.outputs + run.to_come(f));
        }
    } else {
        if tick.upstream_ready && run.upstream.len() > 0 {
            lemma_mapped_first(f, run.upstream);
            let handed = run.submit();
            assert(handed.to_come(f) == run.to_come(f));
            if tick.worker_ready {
                assert(next.outputs + next.to_come(f) =~= handed.outputs + handed.to_come(f));
            }
        }
    }
}

/// Every run from the start keeps the invariant.
pub proof fn lemma_run_inv<I, O>(f: spec_fn(I) -> O, inputs: Seq<I>, ticks: Seq<Tick>)
    ensures
        Run::start(inputs).polls(f, ticks).inv(f, inputs),
    decreases ticks.len(),
{
    if ticks.len() == 0 {
        assert(Run::<I, O>::start(inputs).outputs + Run::<I, O>::start(inputs).to_come(f)
            =~= mapped(f, inputs));
    } else {
        lemma_run_inv(f, inputs, ticks.drop_last());
        lemma_poll_keeps_inv(Run::start(inputs).polls(f, ticks.drop_last()), f, inputs, ticks.last());
    }
}

/// The state of the combinator moves through a run as its own functions
/// say: by [`MapView::polled`], on the shape of the upstream's answer and
/// on whether the worker has delivered.
pub proof fn lemma_view_follows_polled<I, O>(run: Run<I, O>, f: spec_fn(I) -> O, tick: Tick)
    requires
        run.view.busy <==> run.in_flight is Some,
    ensures
        run.poll(f, tick).view == run.view.polled(
            pulled(run.upstream_answer(tick.upstream_ready)),
            tick.worker_ready,
        ),
{
}

/// Order is preserved. Whatever the schedule, the elements given to the
/// consumer are the values of the mapping function on the first items of
/// the input, in the order of the input; and once a poll has answered that
/// the stream is over, they are the values on all of the input.
pub proof fn lemma_order_preserved<I, O>(f: spec_fn(I) -> O, inputs: Seq<I>, ticks: Seq<Tick>)
    ensures
        ({
            let run = Run::start(inputs).polls(f, ticks);
            &&& run.outputs.len() <= inputs.len()
            &&& run.outputs == mapped(f, inputs.take(run.outputs.len() as int))
            &&& forall|k: int|
                0 <= k < run.outputs.len() ==> run.outputs[k] == Ok::<O, ToFutureError>(
                    f(inputs[k]),
                )
            &&& run.ended ==> run.outputs == mapped(f, inputs)
        }),
{
    lemma_run_inv(f, inputs, ticks);
    let run = Run::start(inputs).polls(f, ticks);
    let whole = run.outputs + run.to_come(f);
    assert(whole == mapped(f, inputs));
    assert(whole.len() == inputs.len());
    assert forall|k: int| 0 <= k < run.outputs.len() implies run.outputs[k] == Ok::<
        O,
        ToFutureError,
    >(f(inputs[k])) by {
        assert(whole[k] == run.outputs[k]);
    }
    assert(run.outputs =~= mapped(f, inputs.take(run.outputs.len() as int)));
    if run.ended {
        assert(run.to_come(f) =~= Seq::empty());
        assert(run.outputs =~= whole);
    }
}

/// At most one item is with the pool. Whatever the schedule, the items
/// handed to the pool are the elements given to the consumer and, while
/// the combinator is busy, one more.
pub proof fn lemma_one_in_flight<I, O>(f: spec_fn(I) -> O, inputs: Seq<I>, ticks: Seq<Tick>)
    ensures
        ({
            let run = Run::start(inputs).polls(f, ticks);
            &&& run.view.submitted == run.outputs.len() + run.view.in_flight()
            &&& run.view.in_flight() <= 1
        }),
{
    lemma_run_inv(f, inputs, ticks);
}

/// No item is handed to the pool before the one before it was given to the
/// consumer. A poll that hands an item over starts with every earlier item
/// answered, hands over exactly one item, and that item is the next one of
/// the input.
pub proof fn lemma_submission_waits<I, O>(
    f: spec_fn(I) -> O,
    inputs: Seq<I>,
    ticks: Seq<Tick>,
    tick: Tick,
)
    ensures
        ({
            let before = Run::start(inputs).polls(f, ticks);
            let after = before.poll(f, tick);
            after.view.submitted > before.view.submitted ==> {
                &&& before.view.submitted == before.outputs.len()
                &&& !before.view.busy
                &&& after.view.submitted == before.view.submitted + 1
                &&& before.view.submitted < inputs.len()
                &&& before.upstream[0] == inputs[before.view.submitted as int]
            }
        }),
{
    lemma_run_inv(f, inputs, ticks);
    let before = Run::start(inputs).polls(f, ticks);
    let after = before.poll(f, tick);
    if after.view.submitted > before.view.submitted {
        lemma_upstream_is_the_rest(f, inputs, ticks);
    }
}

/// The upstream gives the input in order: what it has left after a run is
/// the input without the items handed to the pool so far.
pub proof fn lemma_upstream_is_the_rest<I, O>(f: spec_fn(I) -> O, inputs: Seq<I>, ticks: Seq<Tick>)
    ensures
        ({
            let run = Run::start(inputs).polls(f, ticks);
            &&& run.view.submitted <= inputs.len()
            &&& run.upstream == inputs.skip(run.view.submitted as int)
        }),
    decreases ticks.len(),
{
    lemma_run_inv(f, inputs, ticks);
    if ticks.len() == 0 {
        assert(inputs.skip(0) =~= inputs);
    } else {
        let earlier = Run::start(inputs).polls(f, ticks.drop_last());
        lemma_upstream_is_the_rest(f, inputs, ticks.drop_last());
        lemma_run_inv(f, inputs, ticks.drop_last());
        let run = earlier.poll(f, ticks.last());
        assert(run.upstream =~= inputs.skip(run.view.submitted as int));
    }
}

/// The stream is only over when everything was delivered: a poll answers
/// that the stream is over exactly when it finds the combinator idle and
/// the upstream ready and exhausted.
pub proof fn lemma_ends_when_exhausted<I, O>(run: Run<I, O>, f: spec_fn(I) -> O, tick: Tick)
    requires
        !run.ended,
    ensures
        run.poll(f, tick).ended <==> !run.view.busy && tick.upstream_ready && run.upstream.len()
            == 0,
{
}

/// With everything ready at every poll, a stream over `n` items gives one
/// element at each of the first `n` polls and is over at the next.
pub proof fn lemma_ready_run_completes<I, O>(f: spec_fn(I) -> O, inputs: Seq<I>, ticks: Seq<Tick>)
    requires
        forall|i: int| 0 <= i < ticks.len() ==> ticks[i].upstream_ready && ticks[i].worker_ready,
    ensures
        ({
            let run = Run::start(inputs).polls(f, ticks);
            &&& !run.view.busy
            &&& run.outputs.len() == (if ticks.len() <= inputs.len() {
                ticks.len()
            } else {
                inputs.len()
            })
            &&& run.ended <==> ticks.len() > inputs.len()
        }),
    decreases ticks.len(),
{
    lemma_run_inv(f, inputs, ticks);
    if ticks.len() > 0 {
        let earlier = ticks.drop_last();
        assert forall|i: int| 0 <= i < earlier.len() implies earlier[i].upstream_ready
            && earlier[i].worker_ready by {
            assert(earlier[i] == ticks[i]);
        }
        lemma_ready_run_completes(f, inputs, earlier);
        lemma_run_inv(f, inputs, earlier);
    }
}

} // verus!
