use continuation::sync::{SyncFuture, SyncFutureCancel, SyncSender};
use continuation::{
    continuation, continuation_cancel, DropState, Future, FutureCancel, FutureCancellation, Poll,
    Sender,
};
use std::cell::Cell;
use std::sync::atomic::{AtomicBool, AtomicUsize, Ordering};
use std::sync::mpsc;
use std::sync::{Arc, Mutex};
use std::task::{Wake, Waker};
use std::time::Duration;

/// Counts how often it is woken.
struct Count {
    wakes: AtomicUsize,
}

impl Wake for Count {
    fn wake(self: Arc<Self>) {
        self.wakes.fetch_add(1, Ordering::SeqCst);
    }
}

fn counting() -> (Arc<Count>, Waker) {
    let count = Arc::new(Count { wakes: AtomicUsize::new(0) });
    (count.clone(), Waker::from(count))
}

fn wakes(count: &Arc<Count>) -> usize {
    count.wakes.load(Ordering::SeqCst)
}

/// Counts how often it is dropped.
struct Tally {
    drops: Arc<AtomicUsize>,
}

impl Drop for Tally {
    fn drop(&mut self) {
        self.drops.fetch_add(1, Ordering::SeqCst);
    }
}

fn tally() -> (Arc<AtomicUsize>, Tally) {
    let drops = Arc::new(AtomicUsize::new(0));
    (drops.clone(), Tally { drops })
}

struct CancelHandler {
    cancelled: Arc<Mutex<usize>>,
}

impl FutureCancellation for CancelHandler {
    fn cancel(&mut self) {
        *self.cancelled.lock().unwrap() += 1;
    }
}

fn handler() -> (Arc<Mutex<usize>>, CancelHandler) {
    let cancelled = Arc::new(Mutex::new(0));
    (cancelled.clone(), CancelHandler { cancelled })
}

#[test]
fn test_continue() {
    let (c, mut f) = continuation();
    let (_, waker) = counting();
    assert!(matches!(f.poll(&waker), Poll::Pending));
    c.send(23);
    match f.poll(&waker) {
        Poll::Ready(23) => {}
        x => panic!("Unexpected result {:?}", x),
    }
}

#[test]
fn test_is_send() {
    fn is_send<T: Send>() {}
    is_send::<Future<i32>>();
    is_send::<Sender<i32>>();
}

#[test]
fn ends_follow_the_value_across_threads() {
    fn is_send<T: Send>() {}
    fn is_sync<T: Sync>() {}
    is_send::<Future<Cell<i32>>>();
    is_send::<Sender<Cell<i32>>>();
    is_send::<FutureCancel<Cell<i32>, CancelHandler>>();
    is_send::<SyncSender<Cell<i32>>>();
    is_send::<SyncFuture<Cell<i32>>>();
    is_send::<SyncFutureCancel<Cell<i32>, CancelHandler>>();
    is_sync::<Sender<i32>>();
    is_sync::<SyncSender<Cell<i32>>>();
    is_sync::<SyncFuture<Cell<i32>>>();
    is_sync::<SyncFutureCancel<Cell<i32>, CancelHandler>>();
}

#[test]
fn test_stress() {
    #[derive(Debug)]
    struct Ex {
        a: u64,
        b: u64,
    }
    let (count, waker) = counting();
    let mut senders = Vec::new();
    let mut futs = Vec::new();
    for _ in 0..1000 {
        let (s, f) = continuation();
        senders.push(s);
        futs.push(f);
    }
    let (overall_send, mut overall_fut) = continuation();
    for fut in futs.iter_mut() {
        assert!(matches!(fut.poll(&waker), Poll::Pending));
    }
    for sender in senders.drain(..) {
        sender.send(Ex { a: 0, b: 0 });
    }
    assert_eq!(wakes(&count), 1000);
    for mut fut in futs.drain(..) {
        assert!(matches!(fut.poll(&waker), Poll::Ready(Ex { a: 0, b: 0 })));
    }
    overall_send.send(());
    assert!(matches!(overall_fut.poll(&waker), Poll::Ready(())));
}

#[test]
fn sender_send_returns_on_future_hangup() {
    let (sender, future) = continuation::<()>();
    drop(future);
    let (tx, rx) = mpsc::channel();
    sender.send(());
    tx.send(()).expect("failed to send completion signal");
    rx.recv_timeout(Duration::from_secs(1)).expect("sender.send hung, bug may not be fixed");
}

#[test]
fn a_value_sent_before_the_first_poll_is_received() {
    let (sender, mut future) = continuation::<i32>();
    let (count, waker) = counting();
    sender.send(42);
    assert!(future.is_open());
    assert!(matches!(future.poll(&waker), Poll::Ready(42)));
    assert!(!future.is_open());
    assert_eq!(wakes(&count), 0);
}

#[test]
fn a_string_is_received() {
    let (sender, mut future) = continuation::<String>();
    let (_, waker) = counting();
    sender.send("Hello from another thread!".to_string());
    match future.poll(&waker) {
        Poll::Ready(result) => assert_eq!(result, "Hello from another thread!"),
        _ => panic!("the value was sent"),
    }
}

#[test]
fn several_continuations_do_not_mix() {
    let (tx1, mut rx1) = continuation::<i32>();
    let (tx2, mut rx2) = continuation::<i32>();
    let (_, waker) = counting();
    tx1.send(42);
    assert!(matches!(rx2.poll(&waker), Poll::Pending));
    tx2.send(100);
    match (rx1.poll(&waker), rx2.poll(&waker)) {
        (Poll::Ready(a), Poll::Ready(b)) => assert_eq!(a + b, 142),
        _ => panic!("both values were sent"),
    }
}

#[test]
fn a_send_wakes_the_waker_of_the_last_poll_only() {
    let (sender, mut future) = continuation::<i32>();
    let (first, first_waker) = counting();
    let (second, second_waker) = counting();
    assert!(matches!(future.poll(&first_waker), Poll::Pending));
    assert!(matches!(future.poll(&second_waker), Poll::Pending));
    sender.send(7);
    assert_eq!(wakes(&first), 0);
    assert_eq!(wakes(&second), 1);
    assert!(matches!(future.poll(&second_waker), Poll::Ready(7)));
    assert_eq!(wakes(&second), 1);
}

#[test]
fn a_send_to_a_dropped_future_wakes_nobody() {
    let (sender, mut future) = continuation::<i32>();
    let (count, waker) = counting();
    assert!(matches!(future.poll(&waker), Poll::Pending));
    drop(future);
    sender.send(7);
    assert_eq!(wakes(&count), 0);
}

#[test]
fn a_refused_value_is_dropped_once() {
    let (drops, value) = tally();
    let (sender, future) = continuation::<Tally>();
    drop(future);
    assert_eq!(drops.load(Ordering::SeqCst), 0);
    sender.send(value);
    assert_eq!(drops.load(Ordering::SeqCst), 1);
}

#[test]
fn an_unreceived_value_is_dropped_with_the_future() {
    let (drops, value) = tally();
    let (sender, future) = continuation::<Tally>();
    sender.send(value);
    assert_eq!(drops.load(Ordering::SeqCst), 0);
    drop(future);
    assert_eq!(drops.load(Ordering::SeqCst), 1);
}

#[test]
fn a_received_value_is_dropped_by_its_receiver() {
    let (drops, value) = tally();
    let (sender, mut future) = continuation::<Tally>();
    let (_, waker) = counting();
    sender.send(value);
    let received = future.poll(&waker);
    drop(future);
    assert_eq!(drops.load(Ordering::SeqCst), 0);
    drop(received);
    assert_eq!(drops.load(Ordering::SeqCst), 1);
}

#[test]
fn is_cancelled_tells_of_a_dropped_future() {
    let (sender, future) = continuation::<String>();
    assert!(!sender.is_cancelled());
    drop(future);
    assert!(sender.is_cancelled());
    sender.send("Data".to_string());
}

#[test]
fn a_sender_may_be_dropped_once_it_has_sent() {
    let (mut sender, _future) = continuation::<i32>();
    assert!(!sender.may_drop(false));
    assert!(sender.may_drop(true));
    sender.transmit(1);
    assert!(sender.may_drop(false));
    assert!(!sender.is_cancelled());
}

#[test]
fn closing_before_a_send_calls_the_handler() {
    let (cancelled, cancel) = handler();
    let (sender, mut future) = continuation_cancel::<String, _>(cancel);
    assert!(!future.is_closed());
    assert_eq!(future.close(), DropState::Cancelled);
    assert!(future.is_closed());
    assert_eq!(*cancelled.lock().unwrap(), 1);
    drop(future);
    assert_eq!(*cancelled.lock().unwrap(), 1);
    assert!(sender.is_cancelled());
    sender.send("This won't be received".to_string());
}

#[test]
fn closing_after_a_send_does_not_call_the_handler() {
    let (drops, value) = tally();
    let (cancelled, cancel) = handler();
    let (sender, mut future) = continuation_cancel::<Tally, _>(cancel);
    sender.send(value);
    assert_eq!(future.close(), DropState::NotCancelled);
    assert_eq!(*cancelled.lock().unwrap(), 0);
    assert_eq!(drops.load(Ordering::SeqCst), 1);
}

#[test]
fn closing_after_the_value_was_received_does_not_call_the_handler() {
    let (cancelled, cancel) = handler();
    let (count, waker) = counting();
    let (sender, mut future) = continuation_cancel::<i32, _>(cancel);
    assert!(matches!(future.poll(&waker), Poll::Pending));
    sender.send(5);
    assert_eq!(wakes(&count), 1);
    assert!(matches!(future.poll(&waker), Poll::Ready(5)));
    assert!(!future.is_open());
    assert_eq!(future.close(), DropState::NotCancelled);
    assert_eq!(*cancelled.lock().unwrap(), 0);
}

#[test]
fn a_handler_can_stop_a_task() {
    struct TaskCanceller {
        should_stop: Arc<AtomicBool>,
    }
    impl FutureCancellation for TaskCanceller {
        fn cancel(&mut self) {
            self.should_stop.store(true, Ordering::Relaxed);
        }
    }
    let should_stop = Arc::new(AtomicBool::new(false));
    let canceller = TaskCanceller { should_stop: should_stop.clone() };
    let (sender, mut future) = continuation_cancel::<i32, _>(canceller);
    assert!(!should_stop.load(Ordering::Relaxed));
    future.close();
    assert!(should_stop.load(Ordering::Relaxed));
    sender.send(0);
}

#[test]
fn sync_ends_behave_as_the_ends_inside() {
    let (sender, future) = continuation::<i32>();
    let mut sender = SyncSender::new(sender);
    let mut future = SyncFuture::new(future);
    let (count, waker) = counting();
    assert!(!sender.is_cancelled());
    assert!(matches!(future.poll(&waker), Poll::Pending));
    sender.send(11);
    assert_eq!(wakes(&count), 1);
    assert!(future.is_open());
    assert!(matches!(future.poll(&waker), Poll::Ready(11)));
    assert!(!future.is_open());
}

#[test]
fn a_sync_sender_learns_of_a_dropped_future() {
    let (sender, future) = continuation::<i32>();
    let mut sender = SyncSender::new(sender);
    drop(SyncFuture::new(future));
    assert!(sender.is_cancelled());
    assert!(!sender.may_drop(false));
    sender.transmit(1);
    assert!(sender.may_drop(false));
}

#[test]
fn a_sync_future_with_a_handler_closes() {
    let (cancelled, cancel) = handler();
    let (_, waker) = counting();
    let (sender, future) = continuation_cancel::<i32, _>(cancel);
    let mut future = SyncFutureCancel::new(future);
    assert!(matches!(future.poll(&waker), Poll::Pending));
    assert!(future.is_open());
    assert_eq!(future.close(), DropState::Cancelled);
    assert!(future.is_closed());
    assert_eq!(*cancelled.lock().unwrap(), 1);
    SyncSender::new(sender).send(1);
}

#[test]
fn polls_before_a_send_are_pending_and_the_poll_after_it_is_ready() {
    let (sender, mut future) = continuation::<i32>();
    let mut counts = Vec::new();
    for _ in 0..5 {
        let (count, waker) = counting();
        assert!(matches!(future.poll(&waker), Poll::Pending));
        assert!(!sender.is_cancelled());
        counts.push(count);
    }
    sender.send(9);
    let woken: Vec<usize> = counts.iter().map(wakes).collect();
    assert_eq!(woken, vec![0, 0, 0, 0, 1]);
    let (_, waker) = counting();
    assert!(matches!(future.poll(&waker), Poll::Ready(9)));
}

#[test]
fn a_sent_value_is_moved_to_the_receiver() {
    let (sender, mut future) = continuation::<Arc<i32>>();
    let (_, waker) = counting();
    let a = Arc::new(7);
    sender.send(a.clone());
    assert_eq!(Arc::strong_count(&a), 2);
    match future.poll(&waker) {
        Poll::Ready(r) => assert!(Arc::ptr_eq(&r, &a)),
        _ => panic!("the value was sent"),
    }
}

#[test]
fn the_value_is_there_when_the_wake_comes() {
    struct PollInside {
        future: Mutex<Option<Future<i32>>>,
        got: Mutex<Option<i32>>,
    }
    impl Wake for PollInside {
        fn wake(self: Arc<Self>) {
            let (_, waker) = counting();
            if let Some(mut future) = self.future.lock().unwrap().take() {
                if let Poll::Ready(data) = future.poll(&waker) {
                    *self.got.lock().unwrap() = Some(data);
                }
            }
        }
    }
    let (sender, mut future) = continuation::<i32>();
    let inside = Arc::new(PollInside { future: Mutex::new(None), got: Mutex::new(None) });
    assert!(matches!(future.poll(&Waker::from(inside.clone())), Poll::Pending));
    *inside.future.lock().unwrap() = Some(future);
    sender.send(31);
    assert_eq!(*inside.got.lock().unwrap(), Some(31));
}

#[test]
fn is_cancelled_stays_true_and_a_later_value_is_dropped() {
    let (drops, value) = tally();
    let (mut sender, mut future) = continuation::<Tally>();
    let (count, waker) = counting();
    assert!(matches!(future.poll(&waker), Poll::Pending));
    assert!(!sender.is_cancelled());
    drop(future);
    assert!(sender.is_cancelled());
    assert!(sender.is_cancelled());
    sender.transmit(value);
    assert_eq!(drops.load(Ordering::SeqCst), 1);
    assert_eq!(wakes(&count), 0);
    assert!(sender.is_cancelled());
}

#[test]
fn the_handler_that_was_passed_in_is_called() {
    struct CleanupHandler {
        resource_id: u32,
        cleaned: Arc<Mutex<Vec<u32>>>,
    }
    impl FutureCancellation for CleanupHandler {
        fn cancel(&mut self) {
            self.cleaned.lock().unwrap().push(self.resource_id);
        }
    }
    let cleaned = Arc::new(Mutex::new(Vec::new()));
    let handler = CleanupHandler { resource_id: 42, cleaned: cleaned.clone() };
    let (sender, mut future) = continuation_cancel::<String, _>(handler);
    future.close();
    drop(future);
    assert_eq!(*cleaned.lock().unwrap(), vec![42]);
    sender.send("Data".to_string());
    assert_eq!(*cleaned.lock().unwrap(), vec![42]);
}

#[test]
fn dropping_a_future_wakes_nobody() {
    let (sender, mut future) = continuation::<i32>();
    let (count, waker) = counting();
    assert!(matches!(future.poll(&waker), Poll::Pending));
    drop(future);
    assert_eq!(wakes(&count), 0);
    sender.send(1);
    assert_eq!(wakes(&count), 0);
}

#[test]
fn a_sender_that_never_sends_leaves_the_future_alone() {
    let (cancelled, cancel) = handler();
    let (count, waker) = counting();
    let (sender, mut future) = continuation_cancel::<i32, _>(cancel);
    assert!(matches!(future.poll(&waker), Poll::Pending));
    drop(sender);
    assert_eq!(wakes(&count), 0);
    assert!(matches!(future.poll(&waker), Poll::Pending));
    assert_eq!(future.close(), DropState::Cancelled);
    assert_eq!(*cancelled.lock().unwrap(), 1);
}
