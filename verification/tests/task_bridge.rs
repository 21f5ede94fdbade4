use async_rayon::rayon_future::deliver;
use async_rayon::rayon_future::relay;
use async_rayon::rayon_future::to_rayon_future;
use async_rayon::rayon_future::ToFutureError;
use futures::channel::oneshot::channel;
use futures::channel::oneshot::Canceled;
use futures::executor::block_on;
use futures::future::poll_fn;
use futures::task::noop_waker;
use std::sync::atomic::AtomicUsize;
use std::sync::atomic::Ordering;
use std::sync::Arc;
use std::task::Context;
use std::task::Poll;
use std::time::Duration;
use std::time::Instant;

fn spin_for(millis: u64) {
    let until = Instant::now() + Duration::from_millis(millis);
    while Instant::now() < until {
        std::hint::spin_loop();
    }
}

#[test]
fn task_result_is_delivered() {
    let mut task = to_rayon_future(|| 6 * 7);
    let out: Result<i32, ToFutureError> = block_on(poll_fn(|cx| task.poll(cx)));
    assert_eq!(out, Ok(42));
}

#[test]
fn task_runs_on_a_worker_thread() {
    let mut task = to_rayon_future(|| rayon::current_thread_index().is_some());
    assert_eq!(block_on(poll_fn(|cx| task.poll(cx))), Ok(true));
}

#[test]
fn task_is_not_started_before_the_first_poll() {
    let runs = Arc::new(AtomicUsize::new(0));
    let seen = runs.clone();
    let mut task = to_rayon_future(move || seen.fetch_add(1, Ordering::SeqCst));
    spin_for(50);
    assert_eq!(runs.load(Ordering::SeqCst), 0);
    assert_eq!(block_on(poll_fn(|cx| task.poll(cx))), Ok(0));
    assert_eq!(runs.load(Ordering::SeqCst), 1);
}

#[test]
fn task_runs_once_however_often_it_is_polled() {
    let runs = Arc::new(AtomicUsize::new(0));
    let seen = runs.clone();
    let mut task = to_rayon_future(move || {
        seen.fetch_add(1, Ordering::SeqCst);
        spin_for(50);
        7u8
    });
    let waker = noop_waker();
    let mut cx = Context::from_waker(&waker);
    let mut polls = 0usize;
    let out = loop {
        polls += 1;
        match task.poll(&mut cx) {
            Poll::Ready(out) => break out,
            Poll::Pending => spin_for(5),
        }
    };
    assert_eq!(out, Ok(7));
    assert!(polls > 1);
    spin_for(20);
    assert_eq!(runs.load(Ordering::SeqCst), 1);
}

#[test]
fn first_poll_of_a_slow_task_is_pending() {
    let mut task = to_rayon_future(|| {
        spin_for(100);
        1u8
    });
    let waker = noop_waker();
    let mut cx = Context::from_waker(&waker);
    assert!(task.poll(&mut cx).is_pending());
    assert_eq!(block_on(poll_fn(|cx| task.poll(cx))), Ok(1));
}

#[test]
fn lost_sender_resolves_the_task_with_an_error() {
    let mut task = to_rayon_future(|| 5u32);
    task.start();
    assert_eq!(task.resolve(Poll::Ready(Err(Canceled))), Poll::Ready(Err(ToFutureError)));
}

#[test]
fn pending_delivery_keeps_the_task_in_flight() {
    let mut task = to_rayon_future(|| 5u32);
    task.start();
    assert_eq!(task.resolve(Poll::Pending), Poll::Pending);
    assert_eq!(block_on(poll_fn(|cx| task.poll(cx))), Ok(5));
}

#[test]
fn delivered_value_resolves_the_task() {
    let mut task = to_rayon_future(|| 5u32);
    task.start();
    assert_eq!(task.resolve(Poll::Ready(Ok(9))), Poll::Ready(Ok(9)));
}

#[test]
fn relay_passes_values_and_maps_the_error() {
    assert_eq!(relay::<u8>(Poll::Pending), Poll::Pending);
    assert_eq!(relay(Poll::Ready(Ok(3u8))), Poll::Ready(Ok(3u8)));
    assert_eq!(relay::<u8>(Poll::Ready(Err(Canceled))), Poll::Ready(Err(ToFutureError)));
}

#[test]
fn error_converts_from_the_channel_error() {
    assert_eq!(ToFutureError::from(Canceled), ToFutureError);
}

#[test]
fn error_message_is_fixed() {
    assert_eq!(ToFutureError.message(), "Rayon task canceled.");
}

#[test]
fn dropping_a_task_in_flight_leaves_the_pool_usable() {
    let mut dropped = to_rayon_future(|| {
        spin_for(50);
        1u8
    });
    let waker = noop_waker();
    let mut cx = Context::from_waker(&waker);
    assert!(dropped.poll(&mut cx).is_pending());
    drop(dropped);
    spin_for(100);
    let mut next = to_rayon_future(|| 2u8);
    assert_eq!(block_on(poll_fn(|cx| next.poll(cx))), Ok(2));
}

#[test]
fn dropping_an_unstarted_task_leaves_the_pool_usable() {
    let runs = Arc::new(AtomicUsize::new(0));
    let seen = runs.clone();
    let unstarted = to_rayon_future(move || seen.fetch_add(1, Ordering::SeqCst));
    drop(unstarted);
    let mut next = to_rayon_future(|| 2u8);
    assert_eq!(block_on(poll_fn(|cx| next.poll(cx))), Ok(2));
    assert_eq!(runs.load(Ordering::SeqCst), 0);
}

#[test]
fn deliver_sends_the_value() {
    let (sender, mut receiver) = channel::<u8>();
    deliver(sender, 9);
    assert_eq!(receiver.try_recv(), Ok(Some(9)));
}

#[test]
fn deliver_without_receiver_does_nothing() {
    let (sender, receiver) = channel::<u8>();
    drop(receiver);
    deliver(sender, 9);
}

#[test]
fn tasks_do_not_wait_for_each_other() {
    let mut slow = to_rayon_future(|| {
        spin_for(60);
        1u8
    });
    let mut fast = to_rayon_future(|| 2u8);
    let waker = noop_waker();
    let mut cx = Context::from_waker(&waker);
    assert!(slow.poll(&mut cx).is_pending());
    assert_eq!(block_on(poll_fn(|cx| fast.poll(cx))), Ok(2));
    assert_eq!(block_on(poll_fn(|cx| slow.poll(cx))), Ok(1));
}
