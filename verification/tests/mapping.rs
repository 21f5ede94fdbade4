use async_rayon::rayon_future::to_rayon_future;
use async_rayon::rayon_future::ToFutureError;
use async_rayon::stream::rayon_map::RayonMap;
use futures::channel::oneshot::Canceled;
use futures::executor::block_on;
use futures::stream::iter;
use futures::stream::pending;
use futures::stream::poll_fn;
use futures::stream::Stream;
use futures::task::noop_waker;
use futures::StreamExt;
use std::pin::Pin;
use std::sync::atomic::AtomicUsize;
use std::sync::atomic::Ordering;
use std::sync::Arc;
use std::task::Context;
use std::task::Poll;
use std::time::Duration;
use std::time::Instant;

fn busy_for(millis: u64) {
    let until = Instant::now() + Duration::from_millis(millis);
    while Instant::now() < until {
        std::hint::spin_loop();
    }
}

fn poll_unpin<St: Stream + Unpin>(stream: &mut St, cx: &mut Context<'_>) -> Poll<Option<St::Item>> {
    Pin::new(stream).poll_next(cx)
}

#[test]
fn maps_in_order_and_ends() {
    let mut map = RayonMap::new(iter(1..=3), |x: i32| {
        assert!(rayon::current_thread_index().is_some());
        x + 3
    });
    let mut stream = poll_fn(|cx| map.poll_next(cx, poll_unpin));
    block_on(async {
        assert_eq!(stream.next().await, Some(Ok(4)));
        assert_eq!(stream.next().await, Some(Ok(5)));
        assert_eq!(stream.next().await, Some(Ok(6)));
        assert_eq!(stream.next().await, None);
    });
}

#[test]
fn slow_mapping_survives_a_timed_out_next() {
    let mut map = RayonMap::new(iter(1..=3), |x: i32| {
        busy_for(200);
        x + 3
    });
    let mut stream = poll_fn(|cx| map.poll_next(cx, poll_unpin));
    let runtime = tokio::runtime::Builder::new_current_thread().enable_time().build().unwrap();
    runtime.block_on(async {
        assert_eq!(stream.next().await, Some(Ok(4)));
        assert!(tokio::time::timeout(Duration::from_millis(50), stream.next()).await.is_err());
        assert_eq!(stream.next().await, Some(Ok(5)));
        assert_eq!(stream.next().await, Some(Ok(6)));
        assert_eq!(stream.next().await, None);
    });
}

#[test]
fn order_holds_when_later_items_finish_faster() {
    let inputs: Vec<u64> = vec![40, 1, 25, 0, 10];
    let mut map = RayonMap::new(iter(inputs.clone()), |millis: u64| {
        busy_for(millis);
        millis * 2
    });
    let outputs: Vec<Result<u64, ToFutureError>> =
        block_on(poll_fn(|cx| map.poll_next(cx, poll_unpin)).collect());
    assert_eq!(outputs, vec![Ok(80), Ok(2), Ok(50), Ok(0), Ok(20)]);
}

#[test]
fn empty_upstream_ends_at_once() {
    let mut map = RayonMap::new(iter(Vec::<u8>::new()), |x: u8| x);
    let waker = noop_waker();
    let mut cx = Context::from_waker(&waker);
    assert_eq!(map.poll_next(&mut cx, poll_unpin), Poll::Ready(None));
    assert!(!map.is_busy());
}

#[test]
fn upstream_that_is_not_ready_is_passed_on() {
    let mut map = RayonMap::new(pending::<u8>(), |x: u8| x);
    let waker = noop_waker();
    let mut cx = Context::from_waker(&waker);
    assert_eq!(map.poll_next(&mut cx, poll_unpin), Poll::Pending);
    assert!(!map.is_busy());
}

#[test]
fn at_most_one_call_of_the_function_at_a_time() {
    let running = Arc::new(AtomicUsize::new(0));
    let most = Arc::new(AtomicUsize::new(0));
    let (r, m) = (running.clone(), most.clone());
    let mut map = RayonMap::new(iter(0u32..8), move |x: u32| {
        let now = r.fetch_add(1, Ordering::SeqCst) + 1;
        m.fetch_max(now, Ordering::SeqCst);
        busy_for(10);
        r.fetch_sub(1, Ordering::SeqCst);
        x
    });
    let mut stream = poll_fn(|cx| map.poll_next(cx, poll_unpin));
    block_on(async {
        let mut expected = 0u32;
        while let Some(out) = stream.next().await {
            assert_eq!(out, Ok(expected));
            expected += 1;
            busy_for(5);
        }
        assert_eq!(expected, 8);
    });
    assert_eq!(most.load(Ordering::SeqCst), 1);
}

#[test]
fn upstream_is_not_asked_while_an_item_is_in_flight() {
    let pulls = Arc::new(AtomicUsize::new(0));
    let seen = pulls.clone();
    let mut map = RayonMap::new(iter(0u8..4), |x: u8| {
        busy_for(60);
        x
    });
    let waker = noop_waker();
    let mut cx = Context::from_waker(&waker);
    let counted = |stream: &mut futures::stream::Iter<std::ops::Range<u8>>,
                   cx: &mut Context<'_>| {
        seen.fetch_add(1, Ordering::SeqCst);
        poll_unpin(stream, cx)
    };
    assert_eq!(map.poll_next(&mut cx, &counted), Poll::Pending);
    assert!(map.is_busy());
    assert_eq!(pulls.load(Ordering::SeqCst), 1);
    assert_eq!(map.poll_next(&mut cx, &counted), Poll::Pending);
    assert_eq!(map.poll_next(&mut cx, &counted), Poll::Pending);
    assert_eq!(pulls.load(Ordering::SeqCst), 1);
    assert_eq!(map.get_ref().size_hint(), (3, Some(3)));
    let first = loop {
        match map.poll_next(&mut cx, &counted) {
            Poll::Ready(out) => break out,
            Poll::Pending => busy_for(5),
        }
    };
    assert_eq!(first, Some(Ok(0)));
    assert!(!map.is_busy());
    assert_eq!(pulls.load(Ordering::SeqCst), 1);
}

#[test]
fn lost_sender_yields_one_error_and_the_stream_goes_on() {
    let mut map = RayonMap::new(iter(vec![10u32, 20]), |x: u32| x + 1);
    map.submit(10u32);
    assert!(map.is_busy());
    assert_eq!(map.resolve(Poll::Ready(Err(Canceled))), Poll::Ready(Some(Err(ToFutureError))));
    assert!(!map.is_busy());
    let rest: Vec<Result<u32, ToFutureError>> =
        block_on(poll_fn(|cx| map.poll_next(cx, poll_unpin)).collect());
    assert_eq!(rest, vec![Ok(11), Ok(21)]);
}

#[test]
fn resolve_passes_a_value_on_and_keeps_pending() {
    let mut map = RayonMap::new(iter(Vec::<u32>::new()), |x: u32| x);
    map.submit(1u32);
    assert_eq!(map.resolve(Poll::Pending), Poll::Pending);
    assert!(map.is_busy());
    assert_eq!(map.resolve(Poll::Ready(Ok(77))), Poll::Ready(Some(Ok(77))));
    assert!(!map.is_busy());
}

#[test]
fn accept_passes_on_what_is_no_item() {
    let mut map = RayonMap::new(iter(Vec::<u32>::new()), |x: u32| x);
    let waker = noop_waker();
    let mut cx = Context::from_waker(&waker);
    assert_eq!(map.accept(Poll::Pending, &mut cx), Poll::Pending);
    assert!(!map.is_busy());
    assert_eq!(map.accept(Poll::Ready(None), &mut cx), Poll::Ready(None));
    assert!(!map.is_busy());
}

#[test]
fn accept_submits_an_item() {
    let mut map = RayonMap::new(iter(Vec::<u32>::new()), |x: u32| {
        busy_for(50);
        x * 3
    });
    let waker = noop_waker();
    let mut cx = Context::from_waker(&waker);
    assert_eq!(map.accept(Poll::Ready(Some(5)), &mut cx), Poll::Pending);
    assert!(map.is_busy());
    let out = loop {
        match map.poll_pending(&mut cx) {
            Poll::Ready(out) => break out,
            Poll::Pending => busy_for(5),
        }
    };
    assert_eq!(out, Some(Ok(15)));
    assert!(!map.is_busy());
}

#[test]
fn size_hint_counts_the_item_in_flight() {
    let mut map = RayonMap::new(iter(Vec::<u32>::new()), |x: u32| x);
    assert_eq!(map.size_hint((3, Some(3))), (3, Some(3)));
    assert_eq!(map.size_hint((0, None)), (0, None));
    assert_eq!(map.size_hint((usize::MAX, Some(usize::MAX))), (usize::MAX, Some(usize::MAX)));
    map.submit(1u32);
    assert_eq!(map.size_hint((3, Some(3))), (4, Some(4)));
    assert_eq!(map.size_hint((0, None)), (1, None));
    assert_eq!(map.size_hint((usize::MAX, Some(usize::MAX))), (usize::MAX, None));
    assert_eq!(map.size_hint((usize::MAX - 1, Some(usize::MAX - 1))), (usize::MAX, Some(usize::MAX)));
}

#[test]
fn terminated_only_when_upstream_is_and_nothing_is_in_flight() {
    let mut map = RayonMap::new(iter(Vec::<u32>::new()), |x: u32| x);
    assert!(map.is_terminated(true));
    assert!(!map.is_terminated(false));
    map.submit(1u32);
    assert!(!map.is_terminated(true));
    assert!(!map.is_terminated(false));
}

#[test]
fn new_keeps_the_upstream_untouched() {
    let map = RayonMap::new(iter(0u8..5), |x: u8| x);
    assert_eq!(map.get_ref().size_hint(), (5, Some(5)));
    assert!(!map.is_busy());
}

#[test]
fn dropping_the_stream_while_busy_leaves_the_pool_usable() {
    let mut map = RayonMap::new(iter(0u8..4), |x: u8| {
        busy_for(50);
        x
    });
    let waker = noop_waker();
    let mut cx = Context::from_waker(&waker);
    assert_eq!(map.poll_next(&mut cx, poll_unpin), Poll::Pending);
    drop(map);
    busy_for(100);
    let mut task = to_rayon_future(|| 3u8);
    assert_eq!(block_on(futures::future::poll_fn(|cx| task.poll(cx))), Ok(3));
    let mut again = RayonMap::new(iter(0u8..2), |x: u8| x + 1);
    let outputs: Vec<Result<u8, ToFutureError>> =
        block_on(poll_fn(|cx| again.poll_next(cx, poll_unpin)).collect());
    assert_eq!(outputs, vec![Ok(1), Ok(2)]);
}
