//! A body that fails.

use crate::body::{Body, Polled};
use crate::run;
use crate::size_hint::{Bounds, SizeHint};
use std::marker::PhantomData;
use std::task::{Context, Poll};
use vstd::prelude::*;

verus! {

/// A body that returns an error when polled, and nothing after that.
///
/// The `D` generic allows this body to be treated as one that would yield that kind of data were
/// it not to fail.
#[derive(Debug)]
pub struct ErrorBody<D, E> {
    error: Option<E>,
    data: PhantomData<D>,
}

impl<D, E> View for ErrorBody<D, E> {
    type V = Option<E>;

    /// The error that is still to be returned.
    closed spec fn view(&self) -> Option<E> {
        self.error
    }
}

impl<D, E> ErrorBody<D, E> {
    /// Returns a new [`ErrorBody`] that will yield the provided error.
    pub fn new(error: E) -> (body: Self)
        ensures
            body@ == Some(error),
    {
        Self { error: Some(error), data: PhantomData }
    }
}

impl<D, E> Body for ErrorBody<D, E> {
    type Data = D;

    type Error = E;

    open spec fn steps(
        pre: Self,
        cx: Context<'_>,
        post: Self,
        cx_post: Context<'_>,
        out: Polled<D, E>,
    ) -> bool {
        &&& post@ is None
        &&& cx_post == cx
        &&& out == (match pre@ {
            Some(error) => Polled::<D, E>::Ready(Some(Err(error))),
            None => Polled::<D, E>::Ready(None),
        })
    }

    fn poll_frame(&mut self, _cx: &mut Context<'_>) -> (out: Polled<D, E>) {
        if let Some(error) = self.error.take() {
            return Poll::Ready(Some(Err(error)));
        }
        Poll::Ready(None)
    }

    fn is_end_stream(&self) -> (end: bool)
        ensures
            end <==> self@ is None,
    {
        self.error.is_none()
    }

    fn size_hint(&self) -> (hint: SizeHint)
        ensures
            hint@ == Bounds::unknown(),
    {
        SizeHint::new()
    }
}

/// The first poll returns the error, and every later one finds the stream at its end.
pub proof fn error_is_returned_once<D, E>(
    error: E,
    states: Seq<ErrorBody<D, E>>,
    cxs: Seq<run::Contexts<'_>>,
    outs: Seq<Polled<D, E>>,
    i: int,
)
    requires
        run::runs(states, cxs, outs),
        states[0]@ == Some(error),
        0 <= i < outs.len(),
    ensures
        outs[i] == (if i == 0 {
            Polled::<D, E>::Ready(Some(Err(error)))
        } else {
            Polled::<D, E>::Ready(None)
        }),
        states[i + 1]@ is None,
    decreases i,
{
    if i > 0 {
        error_is_returned_once(error, states, cxs, outs, i - 1);
    }
    assert(ErrorBody::<D, E>::steps(states[i], cxs[i].0, states[i + 1], cxs[i].1, outs[i]));
}

/// A new body holds the error that it is given. It is at its end once that is no longer held, can
/// always be polled, and its size hint is open.
pub proof fn error_is_held_until_returned<D, E>(
    error: E,
    new: ErrorBody<D, E>,
    body: ErrorBody<D, E>,
    end: bool,
    hint: SizeHint,
)
    requires
        call_ensures(ErrorBody::<D, E>::new, (error,), new),
        call_ensures(<ErrorBody<D, E> as Body>::is_end_stream, (&body,), end),
        call_ensures(<ErrorBody<D, E> as Body>::size_hint, (&body,), hint),
    ensures
        new@ == Some(error),
        end <==> body@ is None,
        body.pollable(),
        body.measurable(),
        hint@.lower == 0,
        hint@.upper is None,
{
}

/// A poll returns the error if it is still held, and nothing else ever; the context is left as it
/// is.
pub proof fn error_step_returns_what_is_held<D, E>(
    pre: ErrorBody<D, E>,
    cx: Context<'_>,
    post: ErrorBody<D, E>,
    cx_post: Context<'_>,
    out: Polled<D, E>,
)
    requires
        ErrorBody::<D, E>::steps(pre, cx, post, cx_post, out),
    ensures
        pre@ is Some ==> (out matches Poll::Ready(Some(Err(returned))) && returned == pre@->0),
        pre@ is None ==> (out matches Poll::Ready(None)),
        post@ is None,
        cx_post == cx,
{
}

} // verus!
