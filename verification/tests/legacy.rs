use bytes::Bytes;
use futures_util::task::noop_waker;
use http::{HeaderMap, HeaderValue};
use http_body_util::legacy::{DataPolled, Stage, TrailersPolled};
use http_body_util::{Body, Chain, Frame, LegacyBody, Pending, SizeHint, UpgradeBody};
use std::task::{Context, Poll};

/// A legacy body that plays back what its polls are to return.
struct Script {
    data: Vec<DataPolled<Bytes, &'static str>>,
    trailers: Vec<TrailersPolled<&'static str>>,
    end: bool,
}

impl LegacyBody for Script {
    type Data = Bytes;
    type Error = &'static str;

    fn poll_data(&mut self, _cx: &mut Context<'_>) -> DataPolled<Bytes, &'static str> {
        assert!(!self.data.is_empty(), "polled for too much data");
        self.data.remove(0)
    }

    fn poll_trailers(&mut self, _cx: &mut Context<'_>) -> TrailersPolled<&'static str> {
        assert!(self.data.is_empty(), "polled for trailers before the end of the data");
        assert!(!self.trailers.is_empty(), "polled for too many trailers");
        self.trailers.remove(0)
    }

    fn is_end_stream(&self) -> bool {
        self.end
    }

    fn size_hint(&self) -> SizeHint {
        SizeHint::with_exact(self.data.len() as u64)
    }
}

/// A legacy body that relies on the defaults.
struct Plain;

impl LegacyBody for Plain {
    type Data = Bytes;
    type Error = &'static str;

    fn poll_data(&mut self, _cx: &mut Context<'_>) -> DataPolled<Bytes, &'static str> {
        Poll::Ready(None)
    }

    fn poll_trailers(&mut self, _cx: &mut Context<'_>) -> TrailersPolled<&'static str> {
        Poll::Ready(Ok(None))
    }
}

fn data(text: &'static str) -> DataPolled<Bytes, &'static str> {
    Poll::Ready(Some(Ok(Bytes::from_static(text.as_bytes()))))
}

fn trailers() -> HeaderMap {
    let mut map = HeaderMap::new();
    map.insert("fourty-two", HeaderValue::from_static("42"));
    map
}

#[test]
fn data_is_followed_by_trailers() {
    let mut body = UpgradeBody::new(Script {
        data: vec![Poll::Pending, data("hello "), data("world!"), Poll::Ready(None)],
        trailers: vec![Poll::Pending, Poll::Ready(Ok(Some(trailers())))],
        end: false,
    });
    let waker = noop_waker();
    let mut cx = Context::from_waker(&waker);

    assert_eq!(body.size_hint().upper(), Some(4));
    assert!(body.poll_frame(&mut cx).is_pending());
    for text in ["hello ", "world!"] {
        match body.poll_frame(&mut cx) {
            Poll::Ready(Some(Ok(Frame::Data(data)))) => assert_eq!(data, text),
            other => panic!("unexpected poll outcome: {:?}", other),
        }
    }
    // The end of the data is passed on, and trailers are polled for after that.
    assert!(matches!(body.poll_frame(&mut cx), Poll::Ready(None)));
    assert!(!body.is_end_stream());
    assert_eq!(body.size_hint().upper(), Some(0));
    assert!(body.poll_frame(&mut cx).is_pending());
    match body.poll_frame(&mut cx) {
        Poll::Ready(Some(Ok(Frame::Trailers(map)))) => assert_eq!(map["fourty-two"], "42"),
        other => panic!("unexpected poll outcome: {:?}", other),
    }
    assert!(body.is_end_stream());
    assert!(matches!(body.poll_frame(&mut cx), Poll::Ready(None)));
}

#[test]
fn failing_data_finishes_the_stream() {
    let mut body = UpgradeBody::new(Script {
        data: vec![data("hello "), Poll::Ready(Some(Err("failure")))],
        trailers: vec![],
        end: false,
    });
    let waker = noop_waker();
    let mut cx = Context::from_waker(&waker);

    assert!(matches!(
        body.poll_frame(&mut cx),
        Poll::Ready(Some(Ok(Frame::Data(_))))
    ));
    assert!(!body.is_end_stream());
    assert!(matches!(
        body.poll_frame(&mut cx),
        Poll::Ready(Some(Err("failure")))
    ));
    assert!(body.is_end_stream());
    assert!(matches!(body.poll_frame(&mut cx), Poll::Ready(None)));
}

#[test]
fn failing_trailers_finish_the_stream() {
    let mut body = UpgradeBody::new(Script {
        data: vec![Poll::Ready(None)],
        trailers: vec![Poll::Ready(Err("failure"))],
        end: false,
    });
    let waker = noop_waker();
    let mut cx = Context::from_waker(&waker);

    assert!(matches!(body.poll_frame(&mut cx), Poll::Ready(None)));
    assert!(matches!(
        body.poll_frame(&mut cx),
        Poll::Ready(Some(Err("failure")))
    ));
    assert!(body.is_end_stream());
}

#[test]
fn exhausted_body_is_not_polled() {
    let mut body = UpgradeBody::new(Script {
        data: vec![],
        trailers: vec![],
        end: true,
    });
    let waker = noop_waker();
    let mut cx = Context::from_waker(&waker);

    assert!(body.is_end_stream());
    for _ in 0..3 {
        assert!(matches!(body.poll_frame(&mut cx), Poll::Ready(None)));
    }
}

#[test]
fn defaults_of_a_legacy_body() {
    let mut body = UpgradeBody::new(Plain);
    let waker = noop_waker();
    let mut cx = Context::from_waker(&waker);

    assert!(!LegacyBody::is_end_stream(&Plain));
    assert_eq!(body.size_hint().lower(), 0);
    assert_eq!(body.size_hint().upper(), None);
    assert!(matches!(body.poll_frame(&mut cx), Poll::Ready(None)));
    assert!(!body.is_end_stream());
    assert!(matches!(body.poll_frame(&mut cx), Poll::Ready(None)));
    assert!(body.is_end_stream());
}

#[test]
fn taking_polls_of_a_legacy_body() {
    let mut stage = Stage::Data;
    assert!(stage.take_data(data("a")).is_ready());
    assert!(matches!(stage, Stage::Data));
    assert!(matches!(
        stage.take_data::<Bytes, &'static str>(Poll::Ready(None)),
        Poll::Ready(None)
    ));
    assert!(matches!(stage, Stage::Trailers));
    assert!(matches!(
        stage.take_trailers::<Bytes, &'static str>(Poll::Pending),
        Poll::Pending
    ));
    assert!(matches!(stage, Stage::Trailers));
    assert!(matches!(
        stage.take_trailers::<Bytes, &'static str>(Poll::Ready(Ok(None))),
        Poll::Ready(None)
    ));
    assert!(matches!(stage, Stage::Finished));
}

#[test]
fn upgraded_body_can_be_chained() {
    let first = UpgradeBody::new(Script {
        data: vec![data("hello "), Poll::Ready(None)],
        trailers: vec![],
        end: false,
    });
    let mut body = Chain::new(first, Pending::<Bytes, &'static str>::new());
    let waker = noop_waker();
    let mut cx = Context::from_waker(&waker);

    match body.poll_frame(&mut cx) {
        Poll::Ready(Some(Ok(Frame::Data(data)))) => assert_eq!(data, "hello "),
        other => panic!("unexpected poll outcome: {:?}", other),
    }
    assert!(body.poll_frame(&mut cx).is_pending());
}

#[test]
fn pending_legacy_body_takes_the_defaults() {
    let mut pending = Pending::<Bytes, &'static str>::new();
    assert!(!LegacyBody::is_end_stream(&pending));
    assert_eq!(LegacyBody::size_hint(&pending).lower(), 0);
    assert_eq!(LegacyBody::size_hint(&pending).upper(), None);

    let waker = noop_waker();
    let mut cx = Context::from_waker(&waker);
    assert!(pending.poll_data(&mut cx).is_pending());
    assert!(pending.poll_trailers(&mut cx).is_pending());
    let mut body = UpgradeBody::new(pending);
    assert!(body.poll_frame(&mut cx).is_pending());
    assert!(!body.is_end_stream());
}
