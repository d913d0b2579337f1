use bytes::Bytes;
use futures_util::task::noop_waker;
use http::{HeaderMap, HeaderName, HeaderValue};
use http_body_util::trailers::Oversized;
use http_body_util::{Body, Chain, ErrorBody as Failing, Frame, Pending, Polled, SizeHint};
use std::convert::Infallible;
use std::marker::PhantomData;
use std::ops::Not;
use std::task::{Context, Poll};

/// A body without any frames.
struct Empty;

impl Body for Empty {
    type Data = Bytes;
    type Error = Infallible;

    fn poll_frame(&mut self, _cx: &mut Context<'_>) -> Polled<Bytes, Infallible> {
        Poll::Ready(None)
    }

    fn is_end_stream(&self) -> bool {
        true
    }

    fn size_hint(&self) -> SizeHint {
        SizeHint::with_exact(0)
    }
}

/// A body that consists of a single chunk.
struct Full {
    data: Option<Bytes>,
}

impl Full {
    fn new(data: Bytes) -> Self {
        let data = if data.is_empty() { None } else { Some(data) };
        Full { data }
    }
}

impl Body for Full {
    type Data = Bytes;
    type Error = Infallible;

    fn poll_frame(&mut self, _cx: &mut Context<'_>) -> Polled<Bytes, Infallible> {
        Poll::Ready(self.data.take().map(Frame::data).map(Ok))
    }

    fn is_end_stream(&self) -> bool {
        self.data.is_none()
    }

    fn size_hint(&self) -> SizeHint {
        match &self.data {
            Some(data) => SizeHint::with_exact(data.len() as u64),
            None => SizeHint::with_exact(0),
        }
    }
}

/// A body that is followed by trailers.
struct WithTrailers {
    body: Full,
    trailers: Option<HeaderMap>,
}

impl WithTrailers {
    fn new(body: Full, trailers: HeaderMap) -> Self {
        WithTrailers {
            body,
            trailers: Some(trailers),
        }
    }
}

impl Body for WithTrailers {
    type Data = Bytes;
    type Error = Infallible;

    fn poll_frame(&mut self, cx: &mut Context<'_>) -> Polled<Bytes, Infallible> {
        match self.body.poll_frame(cx) {
            Poll::Ready(None) => Poll::Ready(self.trailers.take().map(Frame::trailers).map(Ok)),
            other => other,
        }
    }

    fn size_hint(&self) -> SizeHint {
        self.body.size_hint()
    }
}

/// A [`Body`] that returns an error.
struct ErrorBody {
    error: Option<ErrorBodyError>,
}

#[derive(Debug)]
struct ErrorBodyError(&'static str);

impl ErrorBody {
    fn new(msg: &'static str) -> Self {
        Self {
            error: Some(ErrorBodyError(msg)),
        }
    }
}

impl Body for ErrorBody {
    type Data = Bytes;
    type Error = ErrorBodyError;

    fn poll_frame(&mut self, _cx: &mut Context<'_>) -> Polled<Bytes, ErrorBodyError> {
        Poll::Ready(self.error.take().map(Result::Err))
    }
}

struct MockBody<E> {
    data: Option<Bytes>,
    _marker: PhantomData<E>,
}

impl<E> MockBody<E> {
    fn new(data: impl Into<Bytes>) -> Self {
        Self {
            data: Some(data.into()),
            _marker: PhantomData,
        }
    }
}

impl<E> Body for MockBody<E> {
    type Data = Bytes;
    type Error = E;

    fn poll_frame(&mut self, _cx: &mut Context<'_>) -> Polled<Bytes, E> {
        let frame = self.data.take().map(Frame::data).map(Result::Ok);
        Poll::Ready(frame)
    }
}

#[test]
fn two_empty() {
    let mut body = {
        let first = Empty;
        let second = Empty;
        Chain::new(first, second)
    };

    assert!(
        body.is_end_stream().not(),
        "body is not finished until polled"
    );
    assert_eq!(body.size_hint().lower(), 0, "empty bodies size hint is 0");
    assert_eq!(
        body.size_hint().upper(),
        Some(0),
        "empty bodies size hint is 0"
    );

    let waker = noop_waker();
    let mut cx = Context::from_waker(&waker);

    match body.poll_frame(&mut cx) {
        Poll::Ready(None) => {}
        other => panic!("unexpected poll outcome: {:?}", other),
    }

    assert!(body.is_end_stream(), "body is finished after being polled");
}

#[test]
fn full_then_empty() {
    let mut body = {
        let first = Full::new("hello ".into());
        let second = Empty;
        Chain::new(first, second)
    };

    assert!(
        body.is_end_stream().not(),
        "body is not finished until polled"
    );
    assert_eq!(body.size_hint().lower(), "hello ".len() as u64);
    assert_eq!(body.size_hint().upper(), Some("hello ".len() as u64));

    let waker = noop_waker();
    let mut cx = Context::from_waker(&waker);

    match body.poll_frame(&mut cx) {
        Poll::Ready(Some(Ok(frame))) => {
            let frame = frame.into_data().expect("should yield data");
            assert_eq!(frame, "hello ");
        }
        other => panic!("unexpected poll outcome: {:?}", other),
    }

    assert!(
        body.is_end_stream().not(),
        "body is not finished until second body is polled"
    );

    match body.poll_frame(&mut cx) {
        Poll::Ready(None) => {}
        other => panic!("unexpected poll outcome: {:?}", other),
    }

    assert!(body.is_end_stream(), "body is finished after being polled");
}

#[test]
fn empty_then_full() {
    let mut body = {
        let first = Empty;
        let second = Full::new("world!".into());
        Chain::new(first, second)
    };

    let waker = noop_waker();
    let mut cx = Context::from_waker(&waker);

    assert!(
        body.is_end_stream().not(),
        "body is not finished until polled"
    );
    assert_eq!(body.size_hint().lower(), "world!".len() as u64);
    assert_eq!(body.size_hint().upper(), Some("world!".len() as u64));

    match body.poll_frame(&mut cx) {
        Poll::Ready(Some(Ok(frame))) => {
            let frame = frame.into_data().expect("should yield data");
            assert_eq!(frame, "world!");
        }
        other => panic!("unexpected poll outcome: {:?}", other),
    }

    assert!(
        body.is_end_stream().not(),
        "body is not finished until second body is finished"
    );

    match body.poll_frame(&mut cx) {
        Poll::Ready(None) => {}
        other => panic!("unexpected poll outcome: {:?}", other),
    }

    assert!(body.is_end_stream(), "body is finished after being polled");
}

#[test]
fn two_bodies_chain() {
    let mut body = {
        let first = Full::new("hello ".into());
        let second = Full::new("world!".into());
        Chain::new(first, second)
    };

    let waker = noop_waker();
    let mut cx = Context::from_waker(&waker);

    assert!(
        body.is_end_stream().not(),
        "body is not finished until polled"
    );
    assert_eq!(body.size_hint().lower(), "hello world!".len() as u64);
    assert_eq!(body.size_hint().upper(), Some("hello world!".len() as u64));

    match body.poll_frame(&mut cx) {
        Poll::Ready(Some(Ok(frame))) => {
            let frame = frame.into_data().expect("should yield data");
            assert_eq!(frame, "hello ");
        }
        other => panic!("unexpected poll outcome: {:?}", other),
    }

    match body.poll_frame(&mut cx) {
        Poll::Ready(Some(Ok(frame))) => {
            let frame = frame.into_data().expect("should yield data");
            assert_eq!(frame, "world!");
        }
        other => panic!("unexpected poll outcome: {:?}", other),
    }

    assert!(
        body.is_end_stream().not(),
        "body is not finished until second body is finished"
    );

    match body.poll_frame(&mut cx) {
        Poll::Ready(None) => {}
        other => panic!("unexpected poll outcome: {:?}", other),
    }

    assert!(body.is_end_stream(), "body is finished after being polled");
}

#[test]
fn second_body_error() {
    let mut body = {
        let first = MockBody::<ErrorBodyError>::new("hello ");
        let second = ErrorBody::new("failure");
        Chain::new(first, second)
    };

    let waker = noop_waker();
    let mut cx = Context::from_waker(&waker);

    match body.poll_frame(&mut cx) {
        Poll::Ready(Some(Ok(frame))) => {
            let frame = frame.into_data().expect("should yield data");
            assert_eq!(frame, "hello ");
        }
        other => panic!("unexpected poll outcome: {:?}", other),
    }

    match body.poll_frame(&mut cx) {
        Poll::Ready(Some(Err(ErrorBodyError("failure")))) => {}
        other => panic!("unexpected poll outcome: {:?}", other),
    }

    assert!(
        body.is_end_stream(),
        "body is finished after returning an error"
    );

    match body.poll_frame(&mut cx) {
        Poll::Ready(None) => {}
        other => panic!("unexpected poll outcome: {:?}", other),
    }
}

#[test]
fn first_body_error() {
    let mut body = {
        let first = ErrorBody::new("failure");
        let second = MockBody::<ErrorBodyError>::new("world!");
        Chain::new(first, second)
    };

    let waker = noop_waker();
    let mut cx = Context::from_waker(&waker);

    match body.poll_frame(&mut cx) {
        Poll::Ready(Some(Err(ErrorBodyError("failure")))) => {}
        other => panic!("unexpected poll outcome: {:?}", other),
    }

    assert!(
        body.is_end_stream(),
        "body is finished after returning an error"
    );

    match body.poll_frame(&mut cx) {
        Poll::Ready(None) => {}
        other => panic!("unexpected poll outcome: {:?}", other),
    }
}

#[test]
fn first_body_trailers_are_propagated() {
    let trailers = {
        let trls = vec![(
            HeaderName::from_static("fourty-two"),
            HeaderValue::from_static("42"),
        )]
        .into_iter()
        .collect::<HeaderMap>();
        trls
    };

    let mut body = {
        let first = WithTrailers::new(Full::new("hello ".into()), trailers);
        let second = Full::new("world!".into());
        Chain::new(first, second)
    };

    let waker = noop_waker();
    let mut cx = Context::from_waker(&waker);

    match body.poll_frame(&mut cx) {
        Poll::Ready(Some(Ok(frame))) => {
            let frame = frame.into_data().expect("should yield data");
            assert_eq!(frame, "hello ");
        }
        other => panic!("unexpected poll outcome: {:?}", other),
    }

    match body.poll_frame(&mut cx) {
        Poll::Ready(Some(Ok(frame))) => {
            let frame = frame.into_data().expect("should yield data");
            assert_eq!(frame, "world!");
        }
        other => panic!("unexpected poll outcome: {:?}", other),
    }

    match body.poll_frame(&mut cx) {
        Poll::Ready(Some(Ok(frame))) => {
            let trailers = frame.into_trailers().expect("should yield trailers");
            let value = trailers
                .get("fourty-two")
                .map(HeaderValue::to_str)
                .transpose()
                .expect("header is a string")
                .expect("header exists");
            assert_eq!(value, "42");
        }
        other => panic!("unexpected poll outcome: {:?}", other),
    }

    assert!(
        body.is_end_stream(),
        "body is finished after returning trailers"
    );

    match body.poll_frame(&mut cx) {
        Poll::Ready(None) => {}
        other => panic!("unexpected poll outcome: {:?}", other),
    }
}

#[test]
fn second_body_trailers_are_propagated() {
    let trailers = {
        let trls = vec![(
            HeaderName::from_static("fourty-two"),
            HeaderValue::from_static("42"),
        )]
        .into_iter()
        .collect::<HeaderMap>();
        trls
    };

    let mut body = {
        let first = Full::new("hello ".into());
        let second = WithTrailers::new(Full::new("world!".into()), trailers);
        Chain::new(first, second)
    };

    let waker = noop_waker();
    let mut cx = Context::from_waker(&waker);

    match body.poll_frame(&mut cx) {
        Poll::Ready(Some(Ok(frame))) => {
            let frame = frame.into_data().expect("should yield data");
            assert_eq!(frame, "hello ");
        }
        other => panic!("unexpected poll outcome: {:?}", other),
    }

    match body.poll_frame(&mut cx) {
        Poll::Ready(Some(Ok(frame))) => {
            let frame = frame.into_data().expect("should yield data");
            assert_eq!(frame, "world!");
        }
        other => panic!("unexpected poll outcome: {:?}", other),
    }

    match body.poll_frame(&mut cx) {
        Poll::Ready(Some(Ok(frame))) => {
            let trailers = frame.into_trailers().expect("should yield trailers");
            let value = trailers
                .get("fourty-two")
                .map(HeaderValue::to_str)
                .transpose()
                .expect("header is a string")
                .expect("header exists");
            assert_eq!(value, "42");
        }
        other => panic!("unexpected poll outcome: {:?}", other),
    }

    assert!(
        body.is_end_stream(),
        "body is finished after returning trailers"
    );

    match body.poll_frame(&mut cx) {
        Poll::Ready(None) => {}
        other => panic!("unexpected poll outcome: {:?}", other),
    }
}

#[test]
fn body_trailers_are_consolidated() {
    let first = {
        let data = Full::new("hello ".into());
        let trls = vec![
            (
                HeaderName::from_static("fourty-two"),
                HeaderValue::from_static("42"),
            ),
            (
                HeaderName::from_static("both"),
                HeaderValue::from_static("alpha"),
            ),
        ]
        .into_iter()
        .collect::<HeaderMap>();
        WithTrailers::new(data, trls)
    };

    let second = {
        let data = Full::new("world!".into());
        let trls = vec![
            (
                HeaderName::from_static("ten"),
                HeaderValue::from_static("10"),
            ),
            (
                HeaderName::from_static("both"),
                HeaderValue::from_static("beta"),
            ),
        ]
        .into_iter()
        .collect::<HeaderMap>();
        WithTrailers::new(data, trls)
    };

    let mut body = Chain::new(first, second);

    let waker = noop_waker();
    let mut cx = Context::from_waker(&waker);

    match body.poll_frame(&mut cx) {
        Poll::Ready(Some(Ok(frame))) => {
            let frame = frame.into_data().expect("should yield data");
            assert_eq!(frame, "hello ");
        }
        other => panic!("unexpected poll outcome: {:?}", other),
    }

    match body.poll_frame(&mut cx) {
        Poll::Ready(Some(Ok(frame))) => {
            let frame = frame.into_data().expect("should yield data");
            assert_eq!(frame, "world!");
        }
        other => panic!("unexpected poll outcome: {:?}", other),
    }

    match body.poll_frame(&mut cx) {
        Poll::Ready(Some(Ok(frame))) => {
            let trailers = frame.into_trailers().expect("should yield trailers");
            assert_eq!(trailers.len(), 3);

            let value = trailers
                .get("fourty-two")
                .map(HeaderValue::to_str)
                .transpose()
                .expect("header is a string")
                .expect("header exists");
            assert_eq!(value, "42");

            let value = trailers
                .get("ten")
                .map(HeaderValue::to_str)
                .transpose()
                .expect("header is a string")
                .expect("header exists");
            assert_eq!(value, "10");

            // In the event of conflicts, the second body's headers take precendent.
            let both = trailers
                .get_all("both")
                .iter()
                .map(|s| s.to_str().unwrap().to_string())
                .collect::<Vec<String>>();
            assert_eq!(both.len(), 1);
            assert_eq!(both, ["beta"]);
        }
        other => panic!("unexpected poll outcome: {:?}", other),
    }

    match body.poll_frame(&mut cx) {
        Poll::Ready(None) => {}
        other => panic!("unexpected poll outcome: {:?}", other),
    }
}

/// A body that plays back what its polls are to return, and counts them.
struct Script<E> {
    outs: Vec<Polled<Bytes, E>>,
    hint: SizeHint,
}

impl<E> Script<E> {
    fn new(outs: Vec<Polled<Bytes, E>>) -> Self {
        Script {
            outs,
            hint: SizeHint::new(),
        }
    }

    fn with_hint(hint: SizeHint) -> Self {
        Script { outs: vec![], hint }
    }
}

impl<E> Body for Script<E> {
    type Data = Bytes;
    type Error = E;

    fn poll_frame(&mut self, _cx: &mut Context<'_>) -> Polled<Bytes, E> {
        assert!(!self.outs.is_empty(), "polled past the end of the script");
        self.outs.remove(0)
    }

    fn size_hint(&self) -> SizeHint {
        self.hint
    }
}

fn data<E>(text: &'static str) -> Polled<Bytes, E> {
    Poll::Ready(Some(Ok(Frame::data(Bytes::from_static(text.as_bytes())))))
}

/// Trailers with the names from `prefix0` on, each with one value.
fn many_trailers(prefix: &str, n: usize) -> HeaderMap {
    let mut map = HeaderMap::new();
    for i in 0..n {
        let name = HeaderName::from_bytes(format!("{}{}", prefix, i).as_bytes()).unwrap();
        map.insert(name, HeaderValue::from_static("x"));
    }
    map
}

#[test]
fn pending_polls_and_frames_pass_in_order() {
    let first = Script::<Infallible>::new(vec![
        Poll::Pending,
        data("a"),
        Poll::Pending,
        data("b"),
        Poll::Ready(None),
    ]);
    let second = Script::<Infallible>::new(vec![
        Poll::Pending,
        data("c"),
        Poll::Ready(None),
    ]);
    let mut body = Chain::new(first, second);
    let waker = noop_waker();
    let mut cx = Context::from_waker(&waker);

    let mut seen = vec![];
    for _ in 0..9 {
        seen.push(match body.poll_frame(&mut cx) {
            Poll::Pending => "pending".to_string(),
            Poll::Ready(None) => "none".to_string(),
            Poll::Ready(Some(Ok(frame))) => {
                String::from_utf8(frame.into_data().unwrap().to_vec()).unwrap()
            }
            Poll::Ready(Some(Err(_))) => unreachable!(),
        });
    }
    // The poll that finds the first body complete polls the second one. Neither body is polled
    // past its end, where the script would fail.
    assert_eq!(
        seen,
        ["pending", "a", "pending", "b", "pending", "c", "none", "none", "none"]
    );
}

#[test]
fn first_body_error_is_converted() {
    struct Wide(String);

    impl From<&'static str> for Wide {
        fn from(error: &'static str) -> Self {
            Wide(format!("wide {}", error))
        }
    }

    let first = Failing::<Bytes, &'static str>::new("failure");
    let second = MockBody::<Wide>::new("never seen");
    let mut body = Chain::new(first, second);
    let waker = noop_waker();
    let mut cx = Context::from_waker(&waker);

    match body.poll_frame(&mut cx) {
        Poll::Ready(Some(Err(Wide(error)))) => assert_eq!(error, "wide failure"),
        _ => panic!("the error should be returned"),
    }
    assert!(body.is_end_stream());
    assert!(matches!(body.poll_frame(&mut cx), Poll::Ready(None)));
}

#[test]
fn pending_first_body_keeps_the_chain_waiting() {
    let first = Pending::<Bytes, &'static str>::new();
    let second = Failing::<Bytes, &'static str>::new("never seen");
    let mut body = Chain::new(first, second);
    let waker = noop_waker();
    let mut cx = Context::from_waker(&waker);

    for _ in 0..3 {
        assert!(body.poll_frame(&mut cx).is_pending());
        assert!(!body.is_end_stream());
    }
}

#[test]
fn size_hints_follow_the_state() {
    let mut first_hint = SizeHint::new();
    first_hint.set_lower(3);
    let mut second_hint = SizeHint::with_exact(4);
    second_hint.set_upper(10);

    let mut first = Script::<Infallible>::new(vec![Poll::Ready(None)]);
    first.hint = first_hint;
    let mut second = Script::<Infallible>::new(vec![data("d"), Poll::Ready(None)]);
    second.hint = second_hint;
    let mut body = Chain::new(first, second);
    let waker = noop_waker();
    let mut cx = Context::from_waker(&waker);

    assert_eq!(body.size_hint().lower(), 7);
    assert_eq!(body.size_hint().upper(), None);

    let _ = body.poll_frame(&mut cx);
    assert_eq!(body.size_hint().lower(), 4);
    assert_eq!(body.size_hint().upper(), Some(10));

    let _ = body.poll_frame(&mut cx);
    assert_eq!(body.size_hint().lower(), 0);
    assert_eq!(body.size_hint().upper(), Some(0));
}

#[test]
fn sums_of_size_hints_that_are_too_large() {
    let mut unbounded = SizeHint::new();
    unbounded.set_lower(u64::MAX);

    let body = Chain::new(
        Script::<Infallible>::with_hint(unbounded),
        Script::<Infallible>::with_hint(SizeHint::with_exact(1)),
    );
    assert!(body.checked_size_hint().is_none());

    let body = Chain::new(
        Script::<Infallible>::with_hint(SizeHint::with_exact(u64::MAX - 1)),
        Script::<Infallible>::with_hint(SizeHint::with_exact(1)),
    );
    let hint = body.checked_size_hint().unwrap();
    assert_eq!(hint.lower(), u64::MAX);
    assert_eq!(hint.upper(), Some(u64::MAX));
}

#[test]
fn taking_polls_of_the_bodies() {
    let mut body = Chain::new(Empty, Empty);

    assert!(matches!(
        body.take_first(Poll::Pending),
        Some(Poll::Pending)
    ));
    assert!(matches!(
        body.take_first(data("a")),
        Some(Poll::Ready(Some(Ok(Frame::Data(_)))))
    ));
    let map = many_trailers("t", 1);
    assert!(body
        .take_first(Poll::Ready(Some(Ok(Frame::trailers(map)))))
        .is_none());

    assert!(matches!(body.take_second(Poll::Pending), Ok(Poll::Pending)));
    assert!(matches!(
        body.take_second(data("b")),
        Ok(Poll::Ready(Some(Ok(Frame::Data(_)))))
    ));
    assert!(!body.is_end_stream());
    match body.take_second(Poll::Ready(None)) {
        Ok(Poll::Ready(Some(Ok(Frame::Trailers(map))))) => assert_eq!(map.len(), 1),
        other => panic!("unexpected poll outcome: {:?}", other),
    }
    assert!(body.is_end_stream());
}

#[test]
fn trailers_with_the_same_names_are_merged() {
    let first = WithTrailers::new(Full::new("a".into()), many_trailers("t", 4000));
    let second = WithTrailers::new(Full::new("b".into()), many_trailers("t", 4000));
    let mut body = Chain::new(first, second);
    let waker = noop_waker();
    let mut cx = Context::from_waker(&waker);

    assert!(body.poll_frame(&mut cx).is_ready());
    assert!(body.poll_frame(&mut cx).is_ready());
    match body.poll_frame(&mut cx) {
        Poll::Ready(Some(Ok(Frame::Trailers(map)))) => assert_eq!(map.len(), 4000),
        other => panic!("unexpected poll outcome: {:?}", other),
    }
    assert!(matches!(body.poll_frame(&mut cx), Poll::Ready(None)));
}

#[test]
fn trailers_with_too_many_names_are_refused() {
    let first = WithTrailers::new(Full::new("a".into()), many_trailers("a", 13000));
    let second = WithTrailers::new(Full::new("b".into()), many_trailers("b", 13000));
    let mut body = Chain::new(first, second);
    let waker = noop_waker();
    let mut cx = Context::from_waker(&waker);

    assert!(body.try_poll_frame(&mut cx).is_ok());
    assert!(body.try_poll_frame(&mut cx).is_ok());
    assert!(matches!(body.try_poll_frame(&mut cx), Err(Oversized)));
    assert!(body.is_end_stream());
    assert!(matches!(
        body.try_poll_frame(&mut cx),
        Ok(Poll::Ready(None))
    ));
}

#[test]
fn trailers_with_many_names_are_merged() {
    let first = WithTrailers::new(Full::new("a".into()), many_trailers("a", 10000));
    let second = WithTrailers::new(Full::new("b".into()), many_trailers("b", 10000));
    let mut body = Chain::new(first, second);
    let waker = noop_waker();
    let mut cx = Context::from_waker(&waker);

    assert!(body.try_poll_frame(&mut cx).is_ok());
    assert!(body.try_poll_frame(&mut cx).is_ok());
    match body.try_poll_frame(&mut cx) {
        Ok(Poll::Ready(Some(Ok(Frame::Trailers(map))))) => assert_eq!(map.len(), 20000),
        other => panic!("unexpected poll outcome: {:?}", other),
    }
}
