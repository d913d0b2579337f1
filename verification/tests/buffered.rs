use bytes::Bytes;
use futures_util::task::noop_waker;
use http_body_util::{Body, Buf, BufBody, Buffered, ErrorBody, Frame, Polled, SizeHint};
use std::collections::VecDeque;
use std::convert::Infallible;
use std::io::Read;
use std::task::{Context, Poll};

const HELLO_WORLD: &str = "hello world!";

/// A body that consists of a single chunk.
struct Full {
    data: Option<Bytes>,
}

impl Full {
    fn new(data: Bytes) -> Self {
        let data = if data.is_empty() { None } else { Some(data) };
        Full { data }
    }
}

impl Body for Full {
    type Data = Bytes;
    type Error = Infallible;

    fn poll_frame(&mut self, _cx: &mut Context<'_>) -> Polled<Bytes, Infallible> {
        Poll::Ready(self.data.take().map(Frame::data).map(Ok))
    }

    fn is_end_stream(&self) -> bool {
        self.data.is_none()
    }

    fn size_hint(&self) -> SizeHint {
        match &self.data {
            Some(data) => SizeHint::with_exact(data.len() as u64),
            None => SizeHint::with_exact(0),
        }
    }
}

/// Lends a buffer the interface of the `bytes` crate.
struct Adapter<T>(T);

impl<T: Buf> bytes::Buf for Adapter<T> {
    fn remaining(&self) -> usize {
        self.0.remaining()
    }

    fn chunk(&self) -> &[u8] {
        self.0.chunk()
    }

    fn advance(&mut self, cnt: usize) {
        self.0.advance(cnt)
    }
}

#[test]
fn simple_body_above_capacity_passes_through() {
    let mut body = {
        let inner = Full::new(Bytes::from(HELLO_WORLD));
        BufBody::with_capacity(4, inner)
    };

    let waker = noop_waker();
    let mut cx = Context::from_waker(&waker);

    // The body yields the whole "hello world!" chunk because it exceeds the buffer capacity.
    match body.poll_frame(&mut cx) {
        Poll::Ready(Some(Ok(frame))) => {
            let frame = frame.into_data().expect("should yield data");
            assert_eq!(frame, HELLO_WORLD);
        }
        other => panic!("unexpected poll outcome: {:?}", other),
    }
}

#[test]
fn errors_and_the_end_pass_through() {
    let mut body = BufBody::with_capacity(0, ErrorBody::<Bytes, u8>::new(3));
    let waker = noop_waker();
    let mut cx = Context::from_waker(&waker);

    assert!(matches!(
        body.poll_frame(&mut cx),
        Poll::Ready(Some(Err(3)))
    ));
    assert!(matches!(body.poll_frame(&mut cx), Poll::Ready(None)));
}

#[test]
fn hints_are_those_of_the_inner_body() {
    let mut body = BufBody::with_capacity(4, Full::new(Bytes::from(HELLO_WORLD)));
    let waker = noop_waker();
    let mut cx = Context::from_waker(&waker);

    assert!(!body.is_end_stream());
    assert_eq!(body.size_hint().lower(), HELLO_WORLD.len() as u64);
    assert_eq!(body.size_hint().upper(), Some(HELLO_WORLD.len() as u64));
    assert!(body.poll_frame(&mut cx).is_ready());
    assert!(body.is_end_stream());
    assert_eq!(body.size_hint().upper(), Some(0));
}

#[test]
fn hello_world() {
    let chunks: Vec<&[u8]> = vec![b"hello ", b"world!"];
    let buffered = Adapter(Buffered(VecDeque::from(chunks)));

    let mut dst = vec![];
    let mut reader = bytes::Buf::reader(buffered);
    let _ = reader.read_to_end(&mut dst);

    assert_eq!(dst, b"hello world!");
}

#[test]
fn advancing_across_pieces() {
    let chunks: Vec<&[u8]> = vec![b"", b"abc", b"", b"de", b"f"];
    let mut buffered = Buffered(VecDeque::from(chunks));
    assert_eq!(buffered.remaining(), 6);
    assert_eq!(buffered.chunk(), b"abc");

    buffered.advance(0);
    assert_eq!(buffered.remaining(), 6);

    buffered.advance(2);
    assert_eq!(buffered.remaining(), 4);
    assert_eq!(buffered.chunk(), b"c");

    buffered.advance(2);
    assert_eq!(buffered.remaining(), 2);
    assert_eq!(buffered.chunk(), b"e");

    buffered.advance(2);
    assert_eq!(buffered.remaining(), 0);
    assert_eq!(buffered.chunk(), b"");
}

#[test]
fn no_pieces_hold_nothing() {
    let mut buffered = Buffered(VecDeque::<Bytes>::new());
    assert_eq!(buffered.remaining(), 0);
    assert_eq!(buffered.chunk(), b"");
    buffered.advance(0);
    assert_eq!(buffered.remaining(), 0);
}

#[test]
fn pieces_of_bytes() {
    let chunks = vec![Bytes::from_static(b"hello "), Bytes::from_static(b"world!")];
    let mut buffered = Buffered(VecDeque::from(chunks));
    assert_eq!(buffered.remaining(), 12);
    assert_eq!(buffered.chunk(), b"hello ");

    buffered.advance(8);
    assert_eq!(buffered.remaining(), 4);
    assert_eq!(buffered.chunk(), b"rld!");
}

#[test]
fn buffers_of_buffers() {
    let inner = |a, b| Buffered(VecDeque::from(vec![Bytes::from_static(a), Bytes::from_static(b)]));
    let mut buffered = Buffered(VecDeque::from(vec![inner(b"ab", b"cd"), inner(b"ef", b"gh")]));

    let mut seen = vec![];
    while buffered.remaining() > 0 {
        seen.push(buffered.chunk()[0]);
        buffered.advance(1);
    }
    assert_eq!(seen, b"abcdefgh");
}

#[test]
fn slices_and_bytes_are_read_from_the_front() {
    let mut slice: &[u8] = b"abc";
    Buf::advance(&mut slice, 1);
    assert_eq!(Buf::remaining(&slice), 2);
    assert_eq!(Buf::chunk(&slice), b"bc");

    let mut bytes = Bytes::from_static(b"abc");
    Buf::advance(&mut bytes, 2);
    assert_eq!(Buf::remaining(&bytes), 1);
    assert_eq!(Buf::chunk(&bytes), b"c");
}
