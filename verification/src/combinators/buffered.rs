//! Bodies and buffers that keep data back.

use crate::body::{Body, Polled};
use crate::buf::{self, Buf};
use crate::run;
use crate::size_hint::SizeHint;
use std::collections::VecDeque;
use std::task::Context;
use vstd::prelude::*;

verus! {

/// A body with room for frames that are to be kept back.
pub struct BufBody<B: Body> {
    inner: B,
    capacity: usize,
    buffer: VecDeque<B::Data>,
}

impl<B: Body> BufBody<B> {
    /// The body that yields the frames.
    pub closed spec fn inner(self) -> B {
        self.inner
    }

    /// The number of bytes that may be kept back.
    pub closed spec fn capacity(self) -> usize {
        self.capacity
    }

    /// The data that is kept back.
    pub closed spec fn buffer(self) -> Seq<B::Data> {
        self.buffer@
    }

    /// Wraps a body, with nothing kept back.
    pub fn with_capacity(capacity: usize, body: B) -> (buffered: Self)
        ensures
            buffered.inner() == body,
            buffered.capacity() == capacity,
            buffered.buffer() == Seq::<B::Data>::empty(),
    {
        Self { inner: body, capacity, buffer: VecDeque::default() }
    }
}

impl<B: Body> Body for BufBody<B> {
    type Data = B::Data;

    type Error = B::Error;

    /// Frames are passed through as they come.
    open spec fn steps(
        pre: Self,
        cx: Context<'_>,
        post: Self,
        cx_post: Context<'_>,
        out: Polled<B::Data, B::Error>,
    ) -> bool {
        &&& B::steps(pre.inner(), cx, post.inner(), cx_post, out)
        &&& post.capacity() == pre.capacity()
        &&& post.buffer() == pre.buffer()
    }

    open spec fn pollable(&self) -> bool {
        self.inner().pollable()
    }

    open spec fn measurable(&self) -> bool {
        self.inner().measurable()
    }

    fn poll_frame(&mut self, cx: &mut Context<'_>) -> (out: Polled<B::Data, B::Error>) {
        self.inner.poll_frame(cx)
    }

    fn is_end_stream(&self) -> (end: bool)
        ensures
            call_ensures(B::is_end_stream, (&self.inner(),), end),
    {
        self.inner.is_end_stream()
    }

    fn size_hint(&self) -> (hint: SizeHint)
        ensures
            call_ensures(B::size_hint, (&self.inner(),), hint),
    {
        self.inner.size_hint()
    }
}

/// Buffers that follow each other, read as one.
pub struct Buffered<D>(pub VecDeque<D>);

/// What buffers that follow each other hold together.
pub open spec fn joined<D: Buf>(pieces: Seq<D>) -> Seq<u8>
    decreases pieces.len(),
{
    if pieces.len() == 0 {
        seq![]
    } else {
        pieces[0].content() + joined(pieces.skip(1))
    }
}

impl<D: Buf> Buf for Buffered<D> {
    open spec fn content(&self) -> Seq<u8> {
        joined(self.0@)
    }

    fn remaining(&self) -> (n: usize) {
        let ghost pieces = self.0@;
        let mut total: usize = 0;
        let mut i: usize = self.0.len();
        while i > 0
            invariant
                i <= pieces.len(),
                pieces == self.0@,
                total == buf::capped(joined(pieces.skip(i as int)).len()),
            decreases i,
        {
            i -= 1;
            assert(pieces.skip(i as int).skip(1) =~= pieces.skip(i + 1));
            total = total.saturating_add(self.0[i].remaining());
        }
        assert(pieces.skip(0) =~= pieces);
        total
    }

    fn chunk(&self) -> (chunk: &[u8]) {
        let ghost pieces = self.0@;
        let mut i: usize = 0;
        assert(pieces.skip(0) =~= pieces);
        while i < self.0.len()
            invariant
                i <= pieces.len(),
                pieces == self.0@,
                joined(pieces) == joined(pieces.skip(i as int)),
            decreases pieces.len() - i,
        {
            assert(pieces.skip(i as int).skip(1) =~= pieces.skip(i + 1));
            let chunk = self.0[i].chunk();
            if chunk.len() > 0 {
                return chunk;
            }
            i += 1;
        }
        &[]
    }

    fn advance(&mut self, cnt: usize) {
        let mut left: usize = cnt;
        while left > 0
            invariant
                left <= joined(self.0@).len(),
                joined(self.0@).skip(left as int) == joined(old(self).0@).skip(cnt as int),
            decreases self.0@.len(),
        {
            let ghost pieces = self.0@;
            if let Some(mut piece) = self.0.pop_front() {
                let n: usize = piece.remaining();
                assert(self.0@ =~= pieces.skip(1));
                assert(joined(pieces) == piece.content() + joined(self.0@));
                if left < n || n == usize::MAX {
                    piece.advance(left);
                    self.0.push_front(piece);
                    assert(self.0@.skip(1) =~= pieces.skip(1));
                    assert(joined(self.0@) =~= joined(pieces).skip(left as int));
                    return;
                }
                assert(joined(pieces).skip(left as int) =~= joined(self.0@).skip(left - n));
                left -= n;
            }
        }
        assert(joined(self.0@).skip(0) =~= joined(self.0@));
    }
}

/// Buffers hold what the first few of them hold, and then what the others hold.
pub proof fn joined_concatenates<D: Buf>(first: Seq<D>, second: Seq<D>)
    ensures
        joined(first + second) == joined(first) + joined(second),
    decreases first.len(),
{
    if first.len() == 0 {
        assert(first + second =~= second);
        assert(joined(first) + joined(second) =~= joined(second));
    } else {
        joined_concatenates(first.skip(1), second);
        assert((first + second).skip(1) =~= first.skip(1) + second);
        assert(joined(first + second) =~= joined(first) + joined(second));
    }
}

/// Over any run, a buffering body returns, poll by poll and in the same contexts, the very same as
/// the body that it wraps.
pub proof fn buffering_body_passes_everything_on<B: Body>(
    states: Seq<BufBody<B>>,
    cxs: Seq<run::Contexts<'_>>,
    outs: Seq<Polled<B::Data, B::Error>>,
)
    requires
        run::runs(states, cxs, outs),
    ensures
        exists|inner: Seq<B>|
            {
                &&& #[trigger] run::runs(inner, cxs, outs)
                &&& inner.len() == states.len()
                &&& forall|i: int|
                    0 <= i < states.len() ==> #[trigger] inner[i] == states[i].inner()
            },
        forall|i: int|
            0 <= i < states.len() ==> (#[trigger] states[i]).capacity() == states[0].capacity(),
        forall|i: int|
            0 <= i < states.len() ==> (#[trigger] states[i]).buffer() == states[0].buffer(),
    decreases outs.len(),
{
    let inner = Seq::new(states.len(), |i: int| states[i].inner());
    assert forall|i: int| 0 <= i < outs.len() implies B::steps(
        inner[i],
        cxs[i].0,
        inner[i + 1],
        cxs[i].1,
        #[trigger] outs[i],
    ) by {
        assert(BufBody::<B>::steps(states[i], cxs[i].0, states[i + 1], cxs[i].1, outs[i]));
    }
    assert(run::runs(inner, cxs, outs));
    if outs.len() > 0 {
        let pre = states.drop_last();
        let before = outs.drop_last();
        let i = outs.len() - 1;
        assert forall|i: int| 0 <= i < before.len() implies BufBody::<B>::steps(
            pre[i],
            cxs.drop_last()[i].0,
            pre[i + 1],
            cxs.drop_last()[i].1,
            #[trigger] before[i],
        ) by {
            assert(before[i] == outs[i]);
        }
        buffering_body_passes_everything_on(pre, cxs.drop_last(), before);
        assert(BufBody::<B>::steps(states[i], cxs[i].0, states[i + 1], cxs[i].1, outs[i]));
        assert forall|j: int| 0 <= j < states.len() implies (#[trigger] states[j]).capacity()
            == states[0].capacity() && states[j].buffer() == states[0].buffer() by {
            assert(pre[i] == states[i]);
            assert(pre[0] == states[0]);
            if j < pre.len() {
                assert(pre[j] == states[j]);
            }
        }
    }
}

/// A new buffering body wraps the body that it is given, with nothing kept back. It says of its end
/// and its size what that body says, and can be polled and measured exactly if that can.
pub proof fn buffering_body_speaks_for_its_body<B: Body>(
    capacity: usize,
    body: B,
    new: BufBody<B>,
    buffered: BufBody<B>,
    end: bool,
    hint: SizeHint,
)
    requires
        call_ensures(BufBody::<B>::with_capacity, (capacity, body), new),
        call_ensures(<BufBody<B> as Body>::is_end_stream, (&buffered,), end),
        call_ensures(<BufBody<B> as Body>::size_hint, (&buffered,), hint),
    ensures
        new.inner() == body,
        new.capacity() == capacity,
        new.buffer().len() == 0,
        call_ensures(B::is_end_stream, (&buffered.inner(),), end),
        call_ensures(B::size_hint, (&buffered.inner(),), hint),
        buffered.pollable() <==> buffered.inner().pollable(),
        buffered.measurable() <==> buffered.inner().measurable(),
{
}

/// Without buffers nothing is held, one buffer holds what it holds by itself, and buffers that are
/// read as one hold what they hold together.
pub proof fn joined_starts_with_single_buffers<D: Buf>(piece: D, buffered: Buffered<D>)
    ensures
        joined(Seq::<D>::empty()).len() == 0,
        joined(seq![piece]) == piece.content(),
        buffered.content() == joined(buffered.0@),
{
    assert(seq![piece].skip(1) =~= Seq::<D>::empty());
    assert(joined(Seq::<D>::empty()) =~= seq![]);
    assert(joined(seq![piece]) =~= piece.content());
}

/// Any body can be wrapped, with any capacity.
pub proof fn any_body_can_be_wrapped<B: Body>(capacity: usize, body: B)
    ensures
        call_requires(BufBody::<B>::with_capacity, (capacity, body)),
{
}

} // verus!
