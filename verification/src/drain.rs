//! What holds of a drained source under every interleaving.
//!
//! A [`Drain`] follows a
//! [`ParIterStream`](crate::par_iter_stream::ParIterStream) together with
//! what surrounds it: workers that push the items of a source into the
//! channel, each item once and in any order, and a channel that hands out
//! what was pushed and reports its end once every sender is gone. A
//! [`Move`] is one step of a worker or one poll of the consumer. The
//! stream's own state moves as its `poll_next` promises, and the laws
//! below hold for every sequence of moves.

use crate::par_iter_stream::SourceView;
use vstd::multiset::Multiset;
use vstd::prelude::*;

verus! {

/// One step of a run.
pub enum Move<T> {
    /// A worker pushes an item into the channel.
    Push(T),
    /// The driver returns and the last sender is dropped.
    Finish,
    /// The consumer polls the stream.
    Poll,
}

/// A drained source in the middle of a run.
pub struct Drain<T> {
    /// The state of the stream.
    pub view: SourceView,
    /// The items that the workers have still to push.
    pub unsent: Multiset<T>,
    /// The items in the channel, oldest first.
    pub queue: Seq<T>,
    /// Whether every sender is gone.
    pub senders_gone: bool,
    /// The items given to the consumer so far.
    pub yielded: Seq<T>,
    /// Whether a poll has answered that the stream is over.
    pub ended: bool,
}

impl<T> Drain<T> {
    /// A run before its first move, over the items of `source`.
    pub open spec fn start(source: Multiset<T>) -> Self {
        Drain {
            view: SourceView::fresh(),
            unsent: source,
            queue: Seq::empty(),
            senders_gone: false,
            yielded: Seq::empty(),
            ended: false,
        }
    }

    /// Whether a move can happen. Workers only run once the stream was
    /// started; they push what is still unsent, and the driver only
    /// returns when nothing is.
    pub open spec fn enabled(self, step: Move<T>) -> bool {
        match step {
            Move::Push(item) => self.view.started && !self.senders_gone && self.unsent.count(item)
                > 0,
            Move::Finish => self.view.started && self.unsent.len() == 0,
            Move::Poll => true,
        }
    }

    /// The run after a poll: the stream is started if it was not, and the
    /// channel's answer is passed on. The channel gives its oldest item;
    /// empty, it reports the end if every sender is gone and nothing
    /// otherwise.
    pub open spec fn poll(self) -> Self {
        if self.queue.len() > 0 {
            Drain {
                view: self.view.polled(),
                unsent: self.unsent,
                queue: self.queue.drop_first(),
                senders_gone: self.senders_gone,
                yielded: self.yielded.push(self.queue[0]),
                ended: self.ended,
            }
        } else {
            Drain {
                view: self.view.polled(),
                unsent: self.unsent,
                queue: self.queue,
                senders_gone: self.senders_gone,
                yielded: self.yielded,
                ended: self.ended || self.senders_gone,
            }
        }
    }

    /// The run after one move. A move that cannot happen changes nothing.
    pub open spec fn step(self, step: Move<T>) -> Self {
        if !self.enabled(step) {
            self
        } else {
            match step {
                Move::Push(item) => Drain {
                    view: self.view,
                    unsent: self.unsent.remove(item),
                    queue: self.queue.push(item),
                    senders_gone: self.senders_gone,
                    yielded: self.yielded,
                    ended: self.ended,
                },
                Move::Finish => Drain {
                    view: self.view,
                    unsent: self.unsent,
                    queue: self.queue,
                    senders_gone: true,
                    yielded: self.yielded,
                    ended: self.ended,
                },
                Move::Poll => self.poll(),
            }
        }
    }

    /// The run after a sequence of moves.
    pub open spec fn steps(self, moves: Seq<Move<T>>) -> Self
        decreases moves.len(),
    {
        if moves.len() == 0 {
            self
        } else {
            self.steps(moves.drop_last()).step(moves.last())
        }
    }

    /// The run after `count` polls in a row.
    pub open spec fn polls(self, count: nat) -> Self
        decreases count,
    {
        if count == 0 {
            self
        } else {
            self.polls((count - 1) as nat).poll()
        }
    }

    /// Every item of the source, wherever it is now: given to the
    /// consumer, in the channel, or still to be pushed.
    pub open spec fn all_items(self) -> Multiset<T> {
        self.yielded.to_multiset().add(self.queue.to_multiset()).add(self.unsent)
    }

    /// What every run keeps, for a stream over `source`: no item is lost
    /// and none is repeated; nothing moves before the stream is started;
    /// the senders only go when everything was pushed; and the stream is
    /// only over when the channel is empty and the senders are gone.
    pub open spec fn inv(self, source: Multiset<T>) -> bool {
        &&& self.view.consistent()
        &&& self.all_items() == source
        &&& !self.view.started ==> self == Self::start(source)
        &&& self.senders_gone ==> self.unsent.len() == 0
        &&& self.ended ==> self.senders_gone && self.queue.len() == 0
    }
}

/// One move keeps the invariant of a run.
proof fn lemma_step_keeps_inv<T>(run: Drain<T>, source: Multiset<T>, step: Move<T>)
    requires
        run.inv(source),
    ensures
        run.step(step).inv(source),
{
    broadcast use vstd::multiset::group_multiset_axioms;
    broadcast use vstd::seq_lib::group_to_multiset_ensures;

    let next = run.step(step);
    if run.enabled(step) {
        match step {
            Move::Push(item) => {
                assert(next.queue.to_multiset() =~= run.queue.to_multiset().insert(item));
                assert(next.all_items() =~= run.all_items());
            },
            Move::Finish => {},
            Move::Poll => {
                if run.queue.len() > 0 {
                    let first = run.queue[0];
                    assert(run.queue.drop_first() =~= run.queue.remove(0));
                    assert(next.queue.to_multiset() =~= run.queue.to_multiset().remove(first));
                    assert(run.queue.to_multiset().count(first) > 0) by {
                        assert(run.queue.contains(first));
                    }
                    assert(next.yielded.to_multiset() =~= run.yielded.to_multiset().insert(first));
                    assert(next.all_items() =~= run.all_items());
                } else {
                    assert(next.all_items() =~= run.all_items());
                }
            },
        }
    }
}

/// Every run from the start keeps the invariant.
pub proof fn lemma_run_inv<T>(source: Multiset<T>, moves: Seq<Move<T>>)
    ensures
        Drain::start(source).steps(moves).inv(source),
    decreases moves.len(),
{
    broadcast use vstd::multiset::group_multiset_axioms;
    broadcast use vstd::seq_lib::group_to_multiset_ensures;

    if moves.len() == 0 {
        let run = Drain::start(source);
        assert(run.yielded.to_multiset() =~= Multiset::empty());
        assert(run.queue.to_multiset() =~= Multiset::empty());
        assert(run.all_items() =~= source);
    } else {
        lemma_run_inv(source, moves.drop_last());
        lemma_step_keeps_inv(Drain::start(source).steps(moves.drop_last()), source, moves.last());
    }
}

/// Nothing is lost and nothing is repeated. Whatever the interleaving, no
/// item is given to the consumer more often than the source holds it; and
/// once a poll has answered that the stream is over, the items given to
/// the consumer are those of the source, each as often as the source
/// holds it.
pub proof fn lemma_complete<T>(source: Multiset<T>, moves: Seq<Move<T>>)
    ensures
        ({
            let run = Drain::start(source).steps(moves);
            &&& run.yielded.to_multiset().subset_of(source)
            &&& run.yielded.len() <= source.len()
            &&& run.ended ==> run.yielded.to_multiset() == source
            &&& run.ended ==> run.yielded.len() == source.len()
        }),
{
    broadcast use vstd::multiset::group_multiset_axioms;
    broadcast use vstd::seq_lib::group_to_multiset_ensures;

    lemma_run_inv(source, moves);
    let run = Drain::start(source).steps(moves);
    let given = run.yielded.to_multiset();
    let rest = run.queue.to_multiset().add(run.unsent);
    assert(given.add(rest) =~= run.all_items());
    assert(given.subset_of(source));
    assert(source.len() == given.len() + rest.len());
    if run.ended {
        assert(run.queue.to_multiset().len() == 0);
        assert(rest.len() == 0);
        assert(rest =~= Multiset::empty());
        assert(given =~= source);
    }
}

/// The source is not touched before the first poll: a run without a poll
/// is still at its start, with nothing pushed and nothing launched.
pub proof fn lemma_lazy<T>(source: Multiset<T>, moves: Seq<Move<T>>)
    requires
        forall|i: int| 0 <= i < moves.len() ==> !(moves[i] is Poll),
    ensures
        Drain::start(source).steps(moves) == Drain::start(source),
    decreases moves.len(),
{
    if moves.len() > 0 {
        let earlier = moves.drop_last();
        assert forall|i: int| 0 <= i < earlier.len() implies !(earlier[i] is Poll) by {
            assert(earlier[i] == moves[i]);
        }
        lemma_lazy(source, earlier);
        assert(!(moves[moves.len() - 1] is Poll));
    }
}

/// The driver is handed to the pool once: not before the first poll, and
/// exactly once from then on, however many polls follow.
pub proof fn lemma_launched_once<T>(source: Multiset<T>, moves: Seq<Move<T>>)
    ensures
        ({
            let run = Drain::start(source).steps(moves);
            let polled = exists|i: int| 0 <= i < moves.len() && moves[i] is Poll;
            &&& run.view.started <==> polled
            &&& run.view.launches == (if polled {
                1nat
            } else {
                0nat
            })
        }),
    decreases moves.len(),
{
    lemma_run_inv(source, moves);
    if moves.len() > 0 {
        let earlier = moves.drop_last();
        let last = moves.len() - 1;
        lemma_launched_once(source, earlier);
        lemma_run_inv(source, earlier);
        let before = Drain::start(source).steps(earlier);
        let run = before.step(moves.last());
        if run.view.started {
            if before.view.started {
                let i = choose|i: int| 0 <= i < earlier.len() && earlier[i] is Poll;
                assert(moves[i] is Poll);
            } else {
                assert(moves[last] is Poll);
            }
        }
        if exists|i: int| 0 <= i < moves.len() && moves[i] is Poll {
            let i = choose|i: int| 0 <= i < moves.len() && moves[i] is Poll;
            if i < last {
                assert(earlier[i] is Poll);
            }
        }
    }
}

/// A run of polls on a channel whose senders are gone gives the items of
/// the channel in order and nothing else.
proof fn lemma_polls_drain_queue<T>(run: Drain<T>, count: nat)
    requires
        run.senders_gone,
        !run.ended,
        count <= run.queue.len(),
    ensures
        run.polls(count).yielded == run.yielded + run.queue.take(count as int),
        run.polls(count).queue == run.queue.skip(count as int),
        run.polls(count).senders_gone,
        !run.polls(count).ended,
        run.polls(count).unsent == run.unsent,
    decreases count,
{
    if count == 0 {
        assert(run.yielded + run.queue.take(0) =~= run.yielded);
        assert(run.queue.skip(0) =~= run.queue);
    } else {
        let earlier = (count - 1) as nat;
        lemma_polls_drain_queue(run, earlier);
        let before = run.polls(earlier);
        assert(before.queue.len() > 0);
        assert(before.queue[0] == run.queue[earlier as int]);
        assert(run.polls(count).yielded =~= run.yielded + run.queue.take(count as int));
        assert(run.polls(count).queue =~= run.queue.skip(count as int));
    }
}

/// The stream terminates. Once everything was pushed and the senders are
/// gone, the polls that follow give what is left in the channel, one item
/// each, and the next poll answers that the stream is over.
pub proof fn lemma_terminates<T>(source: Multiset<T>, moves: Seq<Move<T>>)
    requires
        Drain::start(source).steps(moves).senders_gone,
        !Drain::start(source).steps(moves).ended,
    ensures
        ({
            let run = Drain::start(source).steps(moves);
            let done = run.polls(run.queue.len() + 1);
            &&& done.ended
            &&& done.yielded == run.yielded + run.queue
            &&& done.yielded.to_multiset() == source
        }),
{
    broadcast use vstd::multiset::group_multiset_axioms;
    broadcast use vstd::seq_lib::group_to_multiset_ensures;

    lemma_run_inv(source, moves);
    let run = Drain::start(source).steps(moves);
    let left = run.queue.len();
    lemma_polls_drain_queue(run, left);
    let drained = run.polls(left);
    assert(run.queue.take(left as int) =~= run.queue);
    assert(drained.queue.len() == 0);
    let done = run.polls(left + 1);
    assert(done == drained.poll());
    assert(run.unsent =~= Multiset::empty());
    vstd::seq_lib::lemma_multiset_commutative(run.yielded, run.queue);
    assert(done.yielded.to_multiset() =~= run.all_items());
}

} // verus!
