use bytes::Bytes;
use futures_util::task::noop_waker;
use http_body_util::{Body, Pending};
use std::ops::Not;
use std::task::{Context, Poll};

#[test]
fn yields_poll_pending() {
    type Error = &'static str;

    let mut body = Pending::<Bytes, Error>::new();

    assert!(
        body.is_end_stream().not(),
        "body is not finished until polled"
    );
    assert_eq!(body.size_hint().lower(), 0);
    assert_eq!(body.size_hint().upper(), None);

    let waker = noop_waker();
    let mut cx = Context::from_waker(&waker);

    match body.poll_frame(&mut cx) {
        Poll::Pending => {}
        other => panic!("unexpected poll outcome: {:?}", other),
    }

    match body.poll_frame(&mut cx) {
        Poll::Pending => {}
        other => panic!("unexpected poll outcome: {:?}", other),
    }
}

#[test]
fn default_is_pending_forever() {
    let mut body = Pending::<Bytes, u32>::default();
    let waker = noop_waker();
    let mut cx = Context::from_waker(&waker);

    for _ in 0..5 {
        assert!(body.poll_frame(&mut cx).is_pending());
        assert!(!body.is_end_stream());
    }
    assert_eq!(body.size_hint().lower(), 0);
    assert_eq!(body.size_hint().upper(), None);
}
