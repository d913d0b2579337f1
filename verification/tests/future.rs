use bytes::Bytes;
use futures_util::task::noop_waker;
use http_body_util::{Body, Frame, Polled, SizeHint, TryFuture, TryFutureBody};
use std::convert::Infallible;
use std::ops::Not;
use std::task::{Context, Poll};

/// A future that is ready from the start.
struct Ready<T, E>(Option<Result<T, E>>);

fn ready<T, E>(value: Result<T, E>) -> Ready<T, E> {
    Ready(Some(value))
}

impl<T, E> TryFuture for Ready<T, E> {
    type Ok = T;
    type Error = E;

    fn try_poll(&mut self, _cx: &mut Context<'_>) -> Poll<Result<T, E>> {
        Poll::Ready(self.0.take().expect("`Ready` polled after completion"))
    }
}

/// A body that consists of a single chunk.
struct Full {
    data: Option<Bytes>,
}

impl Full {
    fn new(data: Bytes) -> Self {
        let data = if data.is_empty() { None } else { Some(data) };
        Full { data }
    }
}

impl Body for Full {
    type Data = Bytes;
    type Error = Infallible;

    fn poll_frame(&mut self, _cx: &mut Context<'_>) -> Polled<Bytes, Infallible> {
        Poll::Ready(self.data.take().map(Frame::data).map(Ok))
    }

    fn is_end_stream(&self) -> bool {
        self.data.is_none()
    }

    fn size_hint(&self) -> SizeHint {
        match &self.data {
            Some(data) => SizeHint::with_exact(data.len() as u64),
            None => SizeHint::with_exact(0),
        }
    }
}

#[test]
fn full_ready_body() {
    let mut body = {
        let data = Bytes::from_static(b"hello");
        let body = Full::new(data);
        let fut = ready(Ok::<_, Infallible>(body));
        TryFutureBody::new(fut)
    };

    // Confirm that hints are correct before we poll the future.
    {
        assert!(
            body.is_end_stream().not(),
            "stream is not over before future resolves"
        );
        let hint = body.size_hint();
        assert_eq!(
            hint.lower(),
            0,
            "size hint has lower bound of 0 before future resolves"
        );
        assert_eq!(
            hint.upper(),
            None,
            "size hint has no upper bound before future resolves"
        );
    }

    let waker = noop_waker();
    let mut cx = Context::from_waker(&waker);

    // Now poll the body. The future will resolve, and the underlying body will yield "hello".
    {
        let Poll::Ready(Some(Ok(frame))) = body.poll_frame(&mut cx) else {
            panic!("body should yield a frame when polled");
        };
        let data = frame.into_data().expect("frame should contain data");
        assert_eq!(data, "hello", "underlying body frames are returned");
    }

    // The body will yield None after the inner body has finished.
    {
        let Poll::Ready(None) = body.poll_frame(&mut cx) else {
            panic!("body should `Ready(None)` when polled");
        };
    }

    // Finally, show that the body properly reports that the stream is finished.
    {
        assert!(
            body.is_end_stream(),
            "stream is over after body is finished"
        );
        let hint = body.size_hint();
        assert_eq!(
            hint.upper(),
            Some(0),
            "size hint is upper bound of 0 after body is finished"
        );
    }
}

/// A [`Body`] that returns an `E`-typed error when polled.
struct ErrorBody<E = String> {
    error: Option<E>,
}

impl<E> ErrorBody<E> {
    fn new(error: E) -> Self {
        Self { error: Some(error) }
    }
}

impl<E> Body for ErrorBody<E> {
    type Data = Bytes;
    type Error = E;

    fn poll_frame(&mut self, _cx: &mut Context<'_>) -> Polled<Bytes, E> {
        let error = self.error.take().map(Err);
        Poll::Ready(error)
    }

    fn is_end_stream(&self) -> bool {
        self.error.is_none()
    }

    fn size_hint(&self) -> SizeHint {
        if self.error.is_some() {
            // Pretend there is a hint until the error is returned.
            SizeHint::with_exact(42)
        } else {
            SizeHint::with_exact(0)
        }
    }
}

/// Show that a body that returns an error will be processed correctly.
#[test]
fn error_body() {
    type Error = &'static str;
    const ERROR: Error = "houston we have a problem";

    let mut body = {
        let body = ErrorBody::new(ERROR);
        let fut = ready(Ok::<_, Error>(body));
        TryFutureBody::new(fut)
    };

    // Confirm that hints are correct before we poll the future.
    {
        assert!(
            body.is_end_stream().not(),
            "stream is not over before future resolves"
        );
        let hint = body.size_hint();
        assert_eq!(
            hint.lower(),
            0,
            "size hint has lower bound of 0 before future resolves"
        );
        assert_eq!(
            hint.upper(),
            None,
            "size hint has no upper bound before future resolves"
        );
    }

    // Now poll the body. The future will resolve, and the underlying body will yield "hello".
    {
        let waker = noop_waker();
        let mut cx = Context::from_waker(&waker);
        let Poll::Ready(Some(Err(err))) = body.poll_frame(&mut cx) else {
            panic!("body should yield an error when polled");
        };
        assert_eq!(err, ERROR, "future errors are returned");
    }

    // Finally, show that the body properly reports that the stream is finished.
    {
        assert!(
            body.is_end_stream(),
            "stream is over after body is finished"
        );
        let hint = body.size_hint();
        assert_eq!(
            hint.upper(),
            Some(0),
            "size hint is upper bound of 0 after body is finished"
        );
    }
}

/// Show that a future that fails to yield a body will be processed correctly.
#[test]
fn error_future() {
    const ERROR: &str = "there is no body";

    let mut body = {
        let fut = ready(Err::<ErrorBody, _>(ERROR.to_string()));
        TryFutureBody::new(fut)
    };

    // Confirm that hints are correct before we poll the future.
    {
        assert!(
            body.is_end_stream().not(),
            "stream is not over before future resolves"
        );
        let hint = body.size_hint();
        assert_eq!(
            hint.lower(),
            0,
            "size hint has lower bound of 0 before future resolves"
        );
        assert_eq!(
            hint.upper(),
            None,
            "size hint has no upper bound before future resolves"
        );
    }

    // Now poll the body. The future will resolve, and the underlying body will yield "hello".
    {
        let waker = noop_waker();
        let mut cx = Context::from_waker(&waker);
        let Poll::Ready(Some(Err(err))) = body.poll_frame(&mut cx) else {
            panic!("body should yield an error when polled");
        };
        assert_eq!(err, "there is no body", "future errors are returned");
    }

    // Finally, show that the body properly reports that the stream is finished.
    {
        assert!(
            body.is_end_stream(),
            "stream is over after body is finished"
        );
        let hint = body.size_hint();
        assert_eq!(
            hint.upper(),
            Some(0),
            "size hint is upper bound of 0 after body is finished"
        );
    }
}

/// A future that is ready after a number of polls.
struct Later<T, E> {
    polls: usize,
    then: Ready<T, E>,
}

impl<T, E> TryFuture for Later<T, E> {
    type Ok = T;
    type Error = E;

    fn try_poll(&mut self, cx: &mut Context<'_>) -> Poll<Result<T, E>> {
        if self.polls > 0 {
            self.polls -= 1;
            return Poll::Pending;
        }
        self.then.try_poll(cx)
    }
}

#[test]
fn body_is_pending_until_the_future_resolves() {
    let body = Full::new(Bytes::from_static(b"hello"));
    let fut = Later {
        polls: 2,
        then: ready(Ok::<_, Infallible>(body)),
    };
    let mut body = TryFutureBody::new(Box::new(fut));
    let waker = noop_waker();
    let mut cx = Context::from_waker(&waker);

    for _ in 0..2 {
        assert!(body.poll_frame(&mut cx).is_pending());
        assert!(!body.is_end_stream());
        assert_eq!(body.size_hint().upper(), None);
    }
    match body.poll_frame(&mut cx) {
        Poll::Ready(Some(Ok(Frame::Data(data)))) => assert_eq!(data, "hello"),
        other => panic!("unexpected poll outcome: {:?}", other),
    }
    assert!(matches!(body.poll_frame(&mut cx), Poll::Ready(None)));
    assert!(body.is_end_stream());
}

#[test]
fn hints_are_those_of_the_body_once_it_is_there() {
    let mut body = TryFutureBody::<Ready<_, Infallible>, ErrorBody<Infallible>>::new(ready(Ok(
        ErrorBody { error: None },
    )));
    assert!(body
        .take_future(Poll::Ready(Ok::<_, Infallible>(ErrorBody { error: None })))
        .is_none());
    assert!(body.is_end_stream());
    assert_eq!(body.size_hint().lower(), 0);
    assert_eq!(body.size_hint().upper(), Some(0));
}

#[test]
fn failed_future_is_not_polled_again() {
    let mut body: TryFutureBody<_, ErrorBody<String>> =
        TryFutureBody::new(ready(Err::<ErrorBody<String>, &'static str>("no body")));
    let waker = noop_waker();
    let mut cx = Context::from_waker(&waker);

    match body.poll_frame(&mut cx) {
        Poll::Ready(Some(Err(error))) => assert_eq!(error, String::from("no body")),
        _ => panic!("the error should be returned"),
    }
    for _ in 0..3 {
        assert!(matches!(body.poll_frame(&mut cx), Poll::Ready(None)));
    }
    assert_eq!(body.size_hint().lower(), 0);
    assert_eq!(body.size_hint().upper(), Some(0));
}
