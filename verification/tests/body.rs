use http::{HeaderMap, HeaderValue};
use futures_util::task::noop_waker;
use http_body_util::legacy::{DataPolled, TrailersPolled};
use http_body_util::{
    Body, BufBody, Chain, Frame, LegacyBody, Pending, Polled, TryFuture, TryFutureBody, UpgradeBody,
};
use std::sync::atomic::{AtomicUsize, Ordering};
use std::sync::Arc;
use std::task::{Context, Poll, Wake, Waker};

/// A body that relies on the defaults.
struct Plain;

impl Body for Plain {
    type Data = u8;
    type Error = ();

    fn poll_frame(&mut self, _cx: &mut Context<'_>) -> Polled<u8, ()> {
        Poll::Ready(None)
    }
}

#[test]
fn defaults_of_a_body() {
    assert!(!Plain.is_end_stream());
    assert_eq!(Plain.size_hint().lower(), 0);
    assert_eq!(Plain.size_hint().upper(), None);
}

#[test]
fn frames_give_up_what_they_hold() {
    assert!(matches!(Frame::data(7).into_data(), Ok(7)));
    assert!(matches!(Frame::data(7).into_trailers(), Err(Frame::Data(7))));

    let mut map = HeaderMap::new();
    map.insert("a", HeaderValue::from_static("1"));
    match Frame::<u8>::trailers(map.clone()).into_trailers() {
        Ok(trailers) => assert_eq!(trailers, map),
        Err(_) => panic!("should be trailers"),
    }
    assert!(matches!(
        Frame::<u8>::trailers(map).into_data(),
        Err(Frame::Trailers(_))
    ));
}

/// A waker that counts how often it is woken.
struct Counter(AtomicUsize);

impl Wake for Counter {
    fn wake(self: Arc<Self>) {
        self.0.fetch_add(1, Ordering::SeqCst);
    }
}

/// A body, and a future of one, that wakes the waker of each poll.
struct Waking;

impl Body for Waking {
    type Data = u8;
    type Error = ();

    fn poll_frame(&mut self, cx: &mut Context<'_>) -> Polled<u8, ()> {
        cx.waker().wake_by_ref();
        Poll::Ready(None)
    }
}

impl TryFuture for Waking {
    type Ok = Waking;
    type Error = ();

    fn try_poll(&mut self, cx: &mut Context<'_>) -> Poll<Result<Waking, ()>> {
        cx.waker().wake_by_ref();
        Poll::Ready(Ok(Waking))
    }
}

impl LegacyBody for Waking {
    type Data = u8;
    type Error = ();

    fn poll_data(&mut self, cx: &mut Context<'_>) -> DataPolled<u8, ()> {
        cx.waker().wake_by_ref();
        Poll::Ready(None)
    }

    fn poll_trailers(&mut self, cx: &mut Context<'_>) -> TrailersPolled<()> {
        cx.waker().wake_by_ref();
        Poll::Ready(Ok(None))
    }
}

/// How often the waker is woken in one poll of a body.
fn wakes<B: Body>(body: &mut B) -> usize {
    let counter = Arc::new(Counter(AtomicUsize::new(0)));
    let waker = Waker::from(counter.clone());
    let mut cx = Context::from_waker(&waker);
    let _ = body.poll_frame(&mut cx);
    counter.0.load(Ordering::SeqCst)
}

#[test]
fn contexts_are_handed_on() {
    // The poll in which the first body is complete polls both.
    let mut chain = Chain::new(Waking, Waking);
    assert_eq!(wakes(&mut chain), 2);
    assert_eq!(wakes(&mut chain), 0);

    // So does the poll in which the future yields its body.
    let mut body = TryFutureBody::new(Waking);
    assert_eq!(wakes(&mut body), 2);
    assert_eq!(wakes(&mut body), 1);

    let mut body = UpgradeBody::new(Waking);
    assert_eq!(wakes(&mut body), 1);
    assert_eq!(wakes(&mut body), 1);
    assert_eq!(wakes(&mut body), 0);
}

#[test]
fn pending_does_not_wake() {
    let counter = Arc::new(Counter(AtomicUsize::new(0)));
    let waker = Waker::from(counter.clone());
    let mut cx = Context::from_waker(&waker);
    let mut body = Pending::<u8, ()>::new();
    for _ in 0..3 {
        assert!(body.poll_frame(&mut cx).is_pending());
    }
    assert_eq!(counter.0.load(Ordering::SeqCst), 0);
    // The waker is not kept either: two owners are left.
    assert_eq!(Arc::strong_count(&counter), 2);
}

#[test]
fn buffering_body_hands_its_context_on() {
    let counter = Arc::new(Counter(AtomicUsize::new(0)));
    let waker = Waker::from(counter.clone());
    let mut cx = Context::from_waker(&waker);
    let mut body = BufBody::with_capacity(1, Waking);
    assert!(body.poll_frame(&mut cx).is_ready());
    assert_eq!(counter.0.load(Ordering::SeqCst), 1);
    let idle = noop_waker();
    assert!(body.poll_frame(&mut Context::from_waker(&idle)).is_ready());
    assert_eq!(counter.0.load(Ordering::SeqCst), 1);
}
