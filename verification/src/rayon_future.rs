//! Run one closure on the thread pool and await its result.
//!
//! A [`RayonFuture`] holds the closure until it is polled for the first
//! time. That poll hands the closure to the pool together with the sending
//! half of a one-shot channel; every poll from then on looks into the
//! receiving half. The closure is handed over once and never again.

use crate::handoff::poll_receiver;
use core::task::Context;
use core::task::Poll;
use futures::channel::oneshot::Canceled;
use futures::channel::oneshot::Receiver;
use futures::channel::oneshot::Sender;
use vstd::prelude::*;
use vstd::std_specs::convert::FromSpecImpl;

verus! {

/// The task went away before it delivered a value.
#[derive(Clone, Copy, PartialEq, Eq, Debug, Structural)]
pub struct ToFutureError;

impl ToFutureError {
    /// The text shown for this error.
    pub fn message(&self) -> (text: String)
        ensures
            text@ == "Rayon task canceled."@,
    {
        "Rayon task canceled.".to_string()
    }
}

impl From<Canceled> for ToFutureError {
    fn from(_canceled: Canceled) -> (error: Self) {
        ToFutureError
    }
}

impl FromSpecImpl<Canceled> for ToFutureError {
    open spec fn obeys_from_spec() -> bool {
        true
    }

    open spec fn from_spec(_canceled: Canceled) -> Self {
        ToFutureError
    }
}

/// What a poll of the channel means to the consumer: a value is passed on
/// as it is, a lost sender becomes the library's error, and `Pending` stays
/// `Pending`.
pub open spec fn relayed<T>(delivery: Poll<Result<T, Canceled>>) -> Poll<Result<T, ToFutureError>> {
    match delivery {
        Poll::Pending => Poll::Pending,
        Poll::Ready(Ok(value)) => Poll::Ready(Ok(value)),
        Poll::Ready(Err(_)) => Poll::Ready(Err(ToFutureError)),
    }
}

/// Computes [`relayed`].
pub fn relay<T>(delivery: Poll<Result<T, Canceled>>) -> (polled: Poll<Result<T, ToFutureError>>)
    ensures
        polled == relayed(delivery),
{
    match delivery {
        Poll::Pending => Poll::Pending,
        Poll::Ready(Ok(value)) => Poll::Ready(Ok(value)),
        Poll::Ready(Err(canceled)) => Poll::Ready(Err(ToFutureError::from(canceled))),
    }
}

/// Sends `value` through `sender`, as a worker does with its result. If
/// the receiver is gone, the value is dropped and nothing else happens: a
/// worker is never disturbed by a consumer that went away.
pub fn deliver<T>(sender: Sender<T>, value: T) {
    let _ = sender.send(value);
}

/// Where a task stands.
#[derive(Clone, Copy, PartialEq, Eq, Debug, Structural)]
pub enum Stage {
    /// Nothing was handed to the pool yet.
    Unstarted,
    /// The closure is with the pool and its result has not been taken.
    InFlight,
    /// The result, or the loss of the sender, was passed to the consumer.
    Resolved,
}

/// The abstract state of a [`RayonFuture`]: its stage, and how often its
/// closure was handed to the pool so far.
pub struct TaskView {
    pub stage: Stage,
    pub submissions: nat,
}

impl TaskView {
    /// The state of a task that was never polled.
    pub open spec fn fresh() -> TaskView {
        TaskView { stage: Stage::Unstarted, submissions: 0 }
    }

    /// The closure went to the pool exactly when the task left `Unstarted`.
    pub open spec fn consistent(self) -> bool {
        self.submissions == (if self.stage == Stage::Unstarted {
            0nat
        } else {
            1nat
        })
    }

    /// The state after the closure was handed to the pool.
    pub open spec fn started(self) -> TaskView {
        TaskView { stage: Stage::InFlight, submissions: self.submissions + 1 }
    }

    /// The state after the channel was polled: a `Pending` leaves it as it
    /// is, anything else resolves the task.
    pub open spec fn settled(self, ready: bool) -> TaskView {
        if ready {
            TaskView { stage: Stage::Resolved, submissions: self.submissions }
        } else {
            self
        }
    }

    /// The state after one poll, where `ready` says whether the channel had
    /// an answer: an unstarted task is started first.
    pub open spec fn polled(self, ready: bool) -> TaskView {
        if self.stage == Stage::Unstarted {
            self.started().settled(ready)
        } else {
            self.settled(ready)
        }
    }
}

/// The state of a task after a run of polls, where `readiness[i]` says
/// whether the channel had an answer at the poll `i`.
pub open spec fn after_polls(view: TaskView, readiness: Seq<bool>) -> TaskView
    decreases readiness.len(),
{
    if readiness.len() == 0 {
        view
    } else {
        after_polls(view, readiness.drop_last()).polled(readiness.last())
    }
}

/// A task is handed to the pool once. Before its first poll the closure
/// was not submitted; after any number of polls, whenever the channel
/// answers, it was submitted exactly once.
pub proof fn lemma_submitted_once(readiness: Seq<bool>)
    ensures
        after_polls(TaskView::fresh(), readiness).consistent(),
        after_polls(TaskView::fresh(), readiness).submissions == (if readiness.len() == 0 {
            0nat
        } else {
            1nat
        }),
    decreases readiness.len(),
{
    if readiness.len() > 0 {
        lemma_submitted_once(readiness.drop_last());
    }
}

/// A poll never takes a submission back and never adds a second one: from
/// a consistent state the count of submissions stays or goes from none to
/// one, and it grows only at the poll that starts the task.
pub proof fn lemma_poll_submits_at_most_once(view: TaskView, ready: bool)
    requires
        view.consistent(),
    ensures
        view.polled(ready).consistent(),
        view.polled(ready).submissions == 1,
        view.polled(ready).submissions > view.submissions <==> view.stage == Stage::Unstarted,
{
}

/// A task is resolved exactly by the first poll at which the channel
/// answers, and stays resolved.
pub proof fn lemma_resolved_by_first_answer(readiness: Seq<bool>)
    ensures
        after_polls(TaskView::fresh(), readiness).stage == Stage::Resolved <==> exists|i: int|
            0 <= i < readiness.len() && readiness[i],
        after_polls(TaskView::fresh(), readiness).stage == Stage::Unstarted <==> readiness.len()
            == 0,
    decreases readiness.len(),
{
    if readiness.len() > 0 {
        let earlier = readiness.drop_last();
        lemma_resolved_by_first_answer(earlier);
        let last = readiness.len() - 1;
        if after_polls(TaskView::fresh(), readiness).stage == Stage::Resolved {
            if readiness.last() {
                assert(readiness[last]);
            } else {
                let i = choose|i: int| 0 <= i < earlier.len() && earlier[i];
                assert(readiness[i]);
            }
        }
        if exists|i: int| 0 <= i < readiness.len() && readiness[i] {
            let i = choose|i: int| 0 <= i < readiness.len() && readiness[i];
            if i < last {
                assert(earlier[i]);
            }
        }
    }
}

/// A closure that runs on the thread pool once it is polled, and the
/// future of its result.
#[verifier::reject_recursive_types(T)]
pub struct RayonFuture<F, T> {
    task: Option<F>,
    receiver: Option<Receiver<T>>,
    submissions: Ghost<nat>,
}

impl<F, T> View for RayonFuture<F, T> {
    type V = TaskView;

    closed spec fn view(&self) -> TaskView {
        TaskView {
            stage: if self.task is Some {
                Stage::Unstarted
            } else if self.receiver is Some {
                Stage::InFlight
            } else {
                Stage::Resolved
            },
            submissions: self.submissions@,
        }
    }
}

impl<F, T> RayonFuture<F, T> where F: Fn() -> T + Send + 'static, T: Send + 'static {
    /// The closure that still waits to be handed to the pool.
    pub closed spec fn task(&self) -> Option<F> {
        self.task
    }

    /// The invariant: the closure and the receiver are never held together,
    /// the count of submissions fits the stage, and a closure that waits
    /// can be called.
    pub closed spec fn wf(&self) -> bool {
        &&& self.task is Some ==> self.receiver is None
        &&& self@.consistent()
        &&& self.task matches Some(f) ==> f.requires(())
    }

    /// Hands the closure to the pool, with the sending half of a fresh
    /// channel. The worker calls the closure and sends what it returns
    /// with [`deliver`].
    pub fn start(&mut self)
        requires
            old(self).wf(),
            old(self)@.stage == Stage::Unstarted,
        ensures
            final(self).wf(),
            final(self)@ == old(self)@.started(),
            final(self)@ == (TaskView { stage: Stage::InFlight, submissions: 1 }),
            final(self).task() is None,
    {
        let f = self.task.take().unwrap();
        let (sender, receiver) = futures::channel::oneshot::channel::<T>();
        let job = move ||
            {
                deliver(sender, f());
            };
        rayon::spawn(job);
        self.receiver = Some(receiver);
        proof {
            self.submissions@ = self.submissions@ + 1;
        }
    }

    /// Takes what a poll of the channel returned and passes it on: the
    /// task stays in flight on `Pending` and is resolved by anything else.
    pub fn resolve(&mut self, delivery: Poll<Result<T, Canceled>>) -> (polled: Poll<
        Result<T, ToFutureError>,
    >)
        requires
            old(self).wf(),
            old(self)@.stage == Stage::InFlight,
        ensures
            final(self).wf(),
            polled == relayed(delivery),
            final(self)@ == old(self)@.settled(delivery is Ready),
            final(self).task() is None,
    {
        match delivery {
            Poll::Pending => Poll::Pending,
            ready => {
                self.receiver = None;
                relay(ready)
            },
        }
    }

    /// Polls the task. The first poll starts it; every poll looks into the
    /// channel and never blocks. Whether the answer is there depends on the
    /// worker, so the result is `Ready` exactly when the task is resolved
    /// afterwards; the closure was handed to the pool once, whichever poll
    /// this is.
    pub fn poll(&mut self, cx: &mut Context<'_>) -> (polled: Poll<Result<T, ToFutureError>>)
        requires
            old(self).wf(),
            old(self)@.stage != Stage::Resolved,
        ensures
            final(self).wf(),
            final(self)@ == old(self)@.polled(polled is Ready),
            final(self)@.submissions == 1,
            final(self).task() is None,
    {
        if self.task.is_some() {
            self.start();
        }
        let delivery = match &mut self.receiver {
            Some(receiver) => poll_receiver(receiver, cx),
            None => Poll::Pending,
        };
        self.resolve(delivery)
    }
}

/// Wraps `f` as a task for the thread pool. Nothing runs until the task is
/// polled.
pub fn to_rayon_future<F, T>(f: F) -> (future: RayonFuture<F, T>) where
    F: Fn() -> T + Send + 'static,
    T: Send + 'static,

    requires
        f.requires(()),
    ensures
        future.wf(),
        future@ == TaskView::fresh(),
        future.task() == Some(f),
{
    RayonFuture { task: Some(f), receiver: None, submissions: Ghost(0) }
}

} // verus!
