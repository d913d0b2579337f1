//! A body that is never ready.

use crate::body::{Body, Polled};
use crate::run;
use crate::size_hint::{Bounds, SizeHint};
use std::marker::PhantomData;
use std::task::{Context, Poll};
use vstd::prelude::*;

verus! {

/// A body that always returns [`Poll::Pending`] when polled.
///
/// The `D` and `E` generics are the body's data and error types. This is like
/// [`std::future::Pending`], but for bodies.
#[derive(Debug)]
pub struct Pending<D, E> {
    data: PhantomData<D>,
    error: PhantomData<E>,
}

impl<D, E> Pending<D, E> {
    /// Returns a new [`Pending`] that yields [`Poll::Pending`] when polled.
    pub fn new() -> (body: Self)
        ensures
            forall|cx: Context<'_>, post: Self, cx_post: Context<'_>, out: Polled<D, E>| #[trigger]
                Self::steps(body, cx, post, cx_post, out) <==> out is Pending && post == body
                    && cx_post == cx,
    {
        Self { data: PhantomData, error: PhantomData }
    }
}

impl<D, E> Default for Pending<D, E> {
    fn default() -> (body: Self)
        ensures
            forall|cx: Context<'_>, post: Self, cx_post: Context<'_>, out: Polled<D, E>| #[trigger]
                Self::steps(body, cx, post, cx_post, out) <==> out is Pending && post == body
                    && cx_post == cx,
    {
        Self::new()
    }
}

impl<D, E> Body for Pending<D, E> {
    type Data = D;

    type Error = E;

    /// Nothing is kept of the context, and it is left as it is.
    open spec fn steps(
        pre: Self,
        cx: Context<'_>,
        post: Self,
        cx_post: Context<'_>,
        out: Polled<D, E>,
    ) -> bool {
        &&& out is Pending
        &&& post == pre
        &&& cx_post == cx
    }

    fn poll_frame(&mut self, _cx: &mut Context<'_>) -> (out: Polled<D, E>) {
        Poll::Pending
    }

    fn is_end_stream(&self) -> (end: bool)
        ensures
            !end,
    {
        false
    }

    fn size_hint(&self) -> (hint: SizeHint)
        ensures
            hint@ == Bounds::unknown(),
    {
        SizeHint::new()
    }
}

/// No poll is ever ready, and none keeps or changes anything of its context.
pub proof fn pending_is_never_ready<D, E>(
    states: Seq<Pending<D, E>>,
    cxs: Seq<run::Contexts<'_>>,
    outs: Seq<Polled<D, E>>,
    i: int,
)
    requires
        run::runs(states, cxs, outs),
        0 <= i < outs.len(),
    ensures
        outs[i] is Pending,
        states[i + 1] == states[i],
        cxs[i].1 == cxs[i].0,
{
    assert(Pending::<D, E>::steps(states[i], cxs[i].0, states[i + 1], cxs[i].1, outs[i]));
}

/// A body that is never ready can always be polled, is never at its end, and its size hint is open.
pub proof fn pending_promises_nothing<D, E>(body: Pending<D, E>, end: bool, hint: SizeHint)
    requires
        call_ensures(<Pending<D, E> as Body>::is_end_stream, (&body,), end),
        call_ensures(<Pending<D, E> as Body>::size_hint, (&body,), hint),
    ensures
        body.pollable(),
        body.measurable(),
        !end,
        hint@.lower == 0,
        hint@.upper is None,
{
}

} // verus!
