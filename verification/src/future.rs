//! A body that is still to come.

use crate::body::{self, Body, Polled};
use crate::run;
use crate::size_hint::{Bounds, SizeHint};
use std::task::{Context, Poll};
use vstd::prelude::*;

verus! {

/// A future that resolves to a value or fails.
pub trait TryFuture: Sized {
    /// The value that the future may resolve to.
    type Ok;

    /// The error that the future may fail with.
    type Error;

    /// The steps of the future: whether a poll of `pre` that is handed the context `cx` may return
    /// `out` and leave `post` behind, and `cx_post` of the context.
    ///
    /// Of a future that does not say, every step is possible.
    open spec fn steps(
        pre: Self,
        cx: Context<'_>,
        post: Self,
        cx_post: Context<'_>,
        out: Poll<Result<Self::Ok, Self::Error>>,
    ) -> bool {
        true
    }

    /// Attempts to resolve the future.
    fn try_poll(&mut self, cx: &mut Context<'_>) -> (out: Poll<Result<Self::Ok, Self::Error>>)
        ensures
            Self::steps(*old(self), *old(cx), *final(self), *final(cx), out),
    ;
}

impl<F: TryFuture> TryFuture for Box<F> {
    type Ok = F::Ok;

    type Error = F::Error;

    open spec fn steps(
        pre: Self,
        cx: Context<'_>,
        post: Self,
        cx_post: Context<'_>,
        out: Poll<Result<F::Ok, F::Error>>,
    ) -> bool {
        F::steps(*pre, cx, *post, cx_post, out)
    }

    fn try_poll(&mut self, cx: &mut Context<'_>) -> (out: Poll<Result<F::Ok, F::Error>>) {
        (**self).try_poll(cx)
    }
}

/// A [`Body`] backed by a fallible future.
///
/// This allows an `F`-typed future that will yield either a `B`-typed body, or an error, to be
/// polled as a body. This is particularly useful when you create a body through an asynchronous
/// computation of some sort.
///
/// For example, sending a body over a oneshot channel or reading its contents from the filesystem.
pub struct TryFutureBody<F, B> {
    inner: Inner<F, B>,
}

/// The state of a [`TryFutureBody`]: a future is polled until it either yields a body, or fails.
pub enum Inner<F, B> {
    /// The future is still being polled.
    Future { future: F },
    /// The body has been yielded and is being polled.
    Body { body: B },
    /// The future failed to yield a body.
    Failed,
}

impl<F, B> View for TryFutureBody<F, B> {
    type V = Inner<F, B>;

    closed spec fn view(&self) -> Inner<F, B> {
        self.inner
    }
}

impl<F, B: Body> Inner<F, B> {
    /// How it is taken when a poll of the future has returned `polled`: the state moves from `pre`
    /// to `post`, and `out` is returned, or the body is polled where that is `None`.
    pub open spec fn takes_future<E: Into<B::Error>>(
        pre: Self,
        polled: Poll<Result<B, E>>,
        post: Self,
        out: Option<Polled<B::Data, B::Error>>,
    ) -> bool {
        match polled {
            Poll::Pending => post == pre && out == Some(Polled::<B::Data, B::Error>::Pending),
            Poll::Ready(Ok(body)) => post == (Self::Body { body }) && out is None,
            Poll::Ready(Err(error)) => post == Self::Failed && (out matches Some(
                Poll::Ready(Some(Err(converted))),
            ) && body::converts(error, converted)),
        }
    }

    /// The steps once the future has yielded a body: those of that body.
    pub open spec fn steps_body(
        pre: Self,
        cx: Context<'_>,
        post: Self,
        cx_post: Context<'_>,
        out: Polled<B::Data, B::Error>,
    ) -> bool {
        &&& post is Body
        &&& B::steps(pre->body, cx, post->body, cx_post, out)
    }
}

impl<F, B> TryFutureBody<F, B> {
    /// Wraps the provided future in a [`TryFutureBody<F, B>`].
    pub fn new(future: F) -> (body: Self)
        ensures
            body@ == (Inner::<F, B>::Future { future }),
    {
        Self { inner: Inner::Future { future } }
    }
}

impl<F, B: Body> TryFutureBody<F, B> {
    /// Takes what a poll of the future has returned.
    ///
    /// Returns what the body's own poll is to return, or `None` if the future has yielded a body
    /// that is to be polled now.
    pub fn take_future<E: Into<B::Error>>(&mut self, polled: Poll<Result<B, E>>) -> (out: Option<
        Polled<B::Data, B::Error>,
    >)
        requires
            old(self)@ is Future,
        ensures
            Inner::takes_future(old(self)@, polled, final(self)@, out),
    {
        match polled {
            Poll::Pending => Some(Poll::Pending),
            Poll::Ready(Ok(body)) => {
                self.inner = Inner::Body { body };
                None
            },
            Poll::Ready(Err(error)) => {
                self.inner = Inner::Failed;
                Some(Poll::Ready(Some(Err(error.into()))))
            },
        }
    }
}

impl<F, B> Body for TryFutureBody<F, B> where
    F: TryFuture<Ok = B>,
    B: Body,
    F::Error: Into<B::Error>,
 {
    type Data = B::Data;

    type Error = B::Error;

    open spec fn steps(
        pre: Self,
        cx: Context<'_>,
        post: Self,
        cx_post: Context<'_>,
        out: Polled<B::Data, B::Error>,
    ) -> bool {
        match pre@ {
            Inner::Future { future } => exists|
                future_post: F,
                cx_mid: Context<'_>,
                polled: Poll<Result<B, F::Error>>,
                mid: Inner<F, B>,
                now: Option<Polled<B::Data, B::Error>>,
            |
                {
                    &&& #[trigger] F::steps(future, cx, future_post, cx_mid, polled)
                    &&& #[trigger] Inner::takes_future(
                        Inner::Future { future: future_post },
                        polled,
                        mid,
                        now,
                    )
                    &&& match now {
                        Some(polled) => post@ == mid && cx_post == cx_mid && out == polled,
                        None => Inner::steps_body(mid, cx_mid, post@, cx_post, out),
                    }
                },
            Inner::Body { .. } => Inner::steps_body(pre@, cx, post@, cx_post, out),
            Inner::Failed => {
                &&& post@ is Failed
                &&& cx_post == cx
                &&& out == Polled::<B::Data, B::Error>::Ready(None)
            },
        }
    }

    /// A body that the future may yield is polled at once.
    open spec fn pollable(&self) -> bool {
        match self@ {
            Inner::Future { future } => forall|
                cx: Context<'_>,
                future_post: F,
                cx_post: Context<'_>,
                body: B,
            | #[trigger]
                F::steps(future, cx, future_post, cx_post, Poll::Ready(Ok(body)))
                    ==> body.pollable(),
            Inner::Body { body } => body.pollable(),
            Inner::Failed => true,
        }
    }

    open spec fn measurable(&self) -> bool {
        self@ matches Inner::Body { body } ==> body.measurable()
    }

    fn poll_frame(&mut self, cx: &mut Context<'_>) -> (out: Polled<B::Data, B::Error>) {
        if let Inner::Future { future } = &mut self.inner {
            let polled = future.try_poll(cx);
            if let Some(out) = self.take_future(polled) {
                return out;
            }
        }
        match &mut self.inner {
            Inner::Body { body } => body.poll_frame(cx),
            _ => Poll::Ready(None),
        }
    }

    fn is_end_stream(&self) -> (end: bool)
        ensures
            match self@ {
                Inner::Future { .. } => !end,
                Inner::Body { body } => call_ensures(B::is_end_stream, (&body,), end),
                Inner::Failed => end,
            },
    {
        match &self.inner {
            Inner::Future { .. } => false,
            Inner::Body { body } => body.is_end_stream(),
            Inner::Failed => true,
        }
    }

    fn size_hint(&self) -> (hint: SizeHint)
        ensures
            match self@ {
                Inner::Future { .. } => hint@ == Bounds::unknown(),
                Inner::Body { body } => call_ensures(B::size_hint, (&body,), hint),
                Inner::Failed => hint@ == Bounds::exact(0),
            },
    {
        match &self.inner {
            Inner::Future { .. } => SizeHint::new(),
            Inner::Body { body } => body.size_hint(),
            Inner::Failed => SizeHint::with_exact(0),
        }
    }
}

/// Whether a future may go through `states` while polls of it, in the contexts `cxs`, return
/// `outs`.
pub open spec fn future_runs<F: TryFuture>(
    states: Seq<F>,
    cxs: Seq<run::Contexts<'_>>,
    outs: Seq<Poll<Result<F::Ok, F::Error>>>,
) -> bool {
    &&& states.len() == outs.len() + 1
    &&& cxs.len() == outs.len()
    &&& forall|i: int|
        0 <= i < outs.len() ==> F::steps(
            states[i],
            cxs[i].0,
            states[i + 1],
            cxs[i].1,
            #[trigger] outs[i],
        )
}

impl<F, B> Inner<F, B> where F: TryFuture<Ok = B>, B: Body, F::Error: Into<B::Error> {
    /// Whether a run of the future and one of the body that it yielded account for a run that has
    /// returned `outs` and reached `state`. The future has left `mid` of the context of the poll in
    /// which it yielded the body.
    pub open spec fn accounts_for<'a>(
        states_future: Seq<F>,
        outs_future: Seq<Poll<Result<B, F::Error>>>,
        mid: Context<'a>,
        states_body: Seq<B>,
        outs_body: Seq<Polled<B::Data, B::Error>>,
        state: Self,
        cxs: Seq<run::Contexts<'a>>,
        outs: Seq<Polled<B::Data, B::Error>>,
    ) -> bool {
        let n = outs_future.len();
        let m = outs_body.len();
        // Each poll polls the future, the body or, if the future yields the body, both, and hands
        // its own context on.
        &&& run::polls_of_two(n, m) <= cxs.len() == outs.len()
        &&& future_runs(states_future, run::handed_first(cxs, n, m, mid), outs_future)
        &&& run::untouched_from(cxs, run::polls_of_two(n, m))
        // The future is not polled again after it has resolved.
        &&& forall|i: int|
            0 <= i < outs_future.len() - 1 ==> (#[trigger] outs_future[i]) is Pending
        // Nothing is yielded while the future is pending.
        &&& outs_future.len() <= outs.len()
        &&& forall|i: int|
            0 <= i < outs_future.len() - 1 ==> (#[trigger] outs[i]) is Pending
        &&& match state {
            // The last poll of the future, too, has returned that it is pending.
            Self::Future { future } => {
                &&& future == states_future.last()
                &&& outs.len() == outs_future.len()
                &&& outs_body.len() == 0
                &&& outs.len() > 0 ==> outs_future.last() is Pending && outs.last() is Pending
            },
            // From the poll on in which the future yielded the body, all is as with that body.
            Self::Body { body } => {
                &&& outs_future.len() > 0
                &&& outs_future.last() == Poll::<Result<B, F::Error>>::Ready(Ok(states_body[0]))
                &&& run::runs(states_body, run::handed_second(cxs, n, m, mid), outs_body)
                &&& outs_body.len() > 0
                &&& body == states_body.last()
                &&& outs.skip(outs_future.len() - 1) == outs_body
            },
            // The poll in which the future failed returned its error, and all others nothing.
            Self::Failed => {
                &&& outs_future.len() > 0
                &&& outs_body.len() == 0
                &&& outs_future.last() matches Poll::Ready(Err(error))
                &&& outs[outs_future.len() - 1] matches Poll::Ready(Some(Err(converted)))
                &&& body::converts(error, converted)
                &&& forall|i: int|
                    outs_future.len() <= i < outs.len() ==> #[trigger] outs[i] == Polled::<
                        B::Data,
                        B::Error,
                    >::Ready(None)
            },
        }
    }
}

/// A body backed by a future is pending until the future resolves. If that yields a body, then
/// from that poll on all is returned that polls of the body return. If it fails, its error is
/// returned, once, and no frame ever. Each poll polls the future at most once, with its own
/// context, and never again once the future has resolved.
pub proof fn future_resolves_to_its_body<'a, F, B>(
    future: F,
    states: Seq<TryFutureBody<F, B>>,
    cxs: Seq<run::Contexts<'a>>,
    outs: Seq<Polled<B::Data, B::Error>>,
) where F: TryFuture<Ok = B>, B: Body, F::Error: Into<B::Error>
    requires
        run::runs(states, cxs, outs),
        states[0]@ == (Inner::<F, B>::Future { future }),
    ensures
        exists|
            states_future: Seq<F>,
            outs_future: Seq<Poll<Result<B, F::Error>>>,
            mid: Context<'a>,
            states_body: Seq<B>,
            outs_body: Seq<Polled<B::Data, B::Error>>,
        |
            {
                &&& #[trigger] Inner::accounts_for(
                    states_future,
                    outs_future,
                    mid,
                    states_body,
                    outs_body,
                    states.last()@,
                    cxs,
                    outs,
                )
                &&& states_future[0] == future
            },
    decreases outs.len(),
{
    if outs.len() == 0 {
        let not_polled = Seq::<Poll<Result<B, F::Error>>>::empty();
        let mid = arbitrary::<Context<'a>>();
        assert(Inner::accounts_for(
            seq![future],
            not_polled,
            mid,
            Seq::<B>::empty(),
            outs,
            states.last()@,
            cxs,
            outs,
        ));
        assert(seq![future][0] == future);
    } else {
        let before = outs.drop_last();
        let pre = states.drop_last();
        let cxs_before = cxs.drop_last();
        let cx = cxs.last();
        let out = outs.last();
        assert(run::runs(pre, cxs_before, before)) by {
            assert forall|i: int| 0 <= i < before.len() implies TryFutureBody::<F, B>::steps(
                pre[i],
                cxs_before[i].0,
                pre[i + 1],
                cxs_before[i].1,
                #[trigger] before[i],
            ) by {
                assert(before[i] == outs[i]);
            }
        }
        future_resolves_to_its_body(future, pre, cxs_before, before);
        let (sf, of, mid, sb, ob) = choose|
            sf: Seq<F>,
            of: Seq<Poll<Result<B, F::Error>>>,
            mid: Context<'a>,
            sb: Seq<B>,
            ob: Seq<Polled<B::Data, B::Error>>,
        |
            {
                &&& #[trigger] Inner::accounts_for(sf, of, mid, sb, ob, pre.last()@, cxs_before, before)
                &&& sf[0] == future
            };
        assert(TryFutureBody::<F, B>::steps(pre.last(), cx.0, states.last(), cx.1, out)) by {
            assert(outs[outs.len() - 1] == out);
        }
        account_extends(sf, of, mid, sb, ob, pre.last(), cxs_before, before, states.last(), cx, out);
        assert(cxs_before.push(cx) =~= cxs);
        assert(before.push(out) =~= outs);
    }
}

/// One poll more, accounted for.
proof fn account_extends<'a, F, B>(
    sf: Seq<F>,
    of: Seq<Poll<Result<B, F::Error>>>,
    mid: Context<'a>,
    sb: Seq<B>,
    ob: Seq<Polled<B::Data, B::Error>>,
    pre: TryFutureBody<F, B>,
    cxs: Seq<run::Contexts<'a>>,
    outs: Seq<Polled<B::Data, B::Error>>,
    post: TryFutureBody<F, B>,
    cx: run::Contexts<'a>,
    out: Polled<B::Data, B::Error>,
) where F: TryFuture<Ok = B>, B: Body, F::Error: Into<B::Error>
    requires
        Inner::accounts_for(sf, of, mid, sb, ob, pre@, cxs, outs),
        TryFutureBody::<F, B>::steps(pre, cx.0, post, cx.1, out),
    ensures
        exists|
            states_future: Seq<F>,
            outs_future: Seq<Poll<Result<B, F::Error>>>,
            mid: Context<'a>,
            states_body: Seq<B>,
            outs_body: Seq<Polled<B::Data, B::Error>>,
        |
            {
                &&& #[trigger] Inner::accounts_for(
                    states_future,
                    outs_future,
                    mid,
                    states_body,
                    outs_body,
                    post@,
                    cxs.push(cx),
                    outs.push(out),
                )
                &&& states_future[0] == sf[0]
            },
{
    let n = of.len();
    let m = ob.len();
    let cxs_post = cxs.push(cx);
    match pre@ {
        Inner::Future { future } => {
            let (future_post, cx_mid, polled, state, now) = choose|
                future_post: F,
                cx_mid: Context<'a>,
                polled: Poll<Result<B, F::Error>>,
                state: Inner<F, B>,
                now: Option<Polled<B::Data, B::Error>>,
            |
                {
                    &&& #[trigger] F::steps(future, cx.0, future_post, cx_mid, polled)
                    &&& #[trigger] Inner::takes_future(
                        Inner::Future { future: future_post },
                        polled,
                        state,
                        now,
                    )
                    &&& match now {
                        Some(polled) => post@ == state && cx.1 == cx_mid && out == polled,
                        None => Inner::steps_body(state, cx_mid, post@, cx.1, out),
                    }
                };
            let sf_post = sf.push(future_post);
            let of_post = of.push(polled);
            assert(run::handed_first(cxs, n, m, mid) =~= cxs);
            if now is None {
                let sb_post = seq![state->body, post@->body];
                let ob_post = seq![out];
                assert(run::handed_first(cxs_post, n + 1, 1, cx_mid) =~= cxs.push((cx.0, cx_mid)));
                assert(run::handed_second(cxs_post, n + 1, 1, cx_mid) =~= seq![(cx_mid, cx.1)]);
                assert(outs.push(out).skip(n as int) =~= ob_post);
                assert(Inner::accounts_for(
                    sf_post,
                    of_post,
                    cx_mid,
                    sb_post,
                    ob_post,
                    post@,
                    cxs_post,
                    outs.push(out),
                ));
            } else {
                assert(run::handed_first(cxs_post, n + 1, 0, mid) =~= cxs_post);
                assert(Inner::accounts_for(
                    sf_post,
                    of_post,
                    mid,
                    sb,
                    ob,
                    post@,
                    cxs_post,
                    outs.push(out),
                ));
            }
        },
        Inner::Body { .. } => {
            let sb_post = sb.push(post@->body);
            let ob_post = ob.push(out);
            let handed = run::handed_second(cxs, n, m, mid);
            run::run_extends(sb, handed, ob, post@->body, cx, out);
            assert(run::handed_first(cxs_post, n, m + 1, mid) =~= run::handed_first(
                cxs,
                n,
                m,
                mid,
            ));
            assert(run::handed_second(cxs_post, n, m + 1, mid) =~= handed.push(cx));
            assert(outs.push(out).skip(n - 1) =~= ob_post);
            assert(Inner::accounts_for(
                sf,
                of,
                mid,
                sb_post,
                ob_post,
                post@,
                cxs_post,
                outs.push(out),
            ));
        },
        Inner::Failed => {
            assert(run::handed_first(cxs_post, n, m, mid) =~= run::handed_first(cxs, n, m, mid));
            assert(Inner::accounts_for(sf, of, mid, sb, ob, post@, cxs_post, outs.push(out)));
        },
    }
}

/// A boxed future takes exactly the steps of the future in the box.
pub proof fn boxed_future_is_polled_as_the_future<F: TryFuture>(
    pre: Box<F>,
    cx: Context<'_>,
    post: Box<F>,
    cx_post: Context<'_>,
    out: Poll<Result<F::Ok, F::Error>>,
)
    ensures
        <Box<F> as TryFuture>::steps(pre, cx, post, cx_post, out) <==> F::steps(
            *pre,
            cx,
            *post,
            cx_post,
            out,
        ),
{
}

/// A body backed by a boxed future that fails returns the error of the future in the box, and
/// fails; one that is backed by a pending one is pending.
pub proof fn boxed_future_hands_on_its_outcome<F, B>(
    pre: TryFutureBody<Box<F>, B>,
    cx: Context<'_>,
    post: TryFutureBody<Box<F>, B>,
    cx_post: Context<'_>,
    out: Polled<B::Data, B::Error>,
) where F: TryFuture<Ok = B>, B: Body, F::Error: Into<B::Error>
    requires
        TryFutureBody::<Box<F>, B>::steps(pre, cx, post, cx_post, out),
        pre@ is Future,
    ensures
        exists|future: F, cx_mid: Context<'_>, polled: Poll<Result<B, F::Error>>|
            {
                &&& #[trigger] F::steps(*pre@->future, cx, future, cx_mid, polled)
                &&& match polled {
                    Poll::Pending => out is Pending && post@ is Future && *post@->future == future,
                    Poll::Ready(Ok(body)) => {
                        &&& post@ is Body
                        &&& B::steps(body, cx_mid, post@->body, cx_post, out)
                    },
                    Poll::Ready(Err(error)) => {
                        &&& post@ is Failed
                        &&& out matches Poll::Ready(Some(Err(converted)))
                        &&& call_ensures(<F::Error as Into<B::Error>>::into, (error,), converted)
                    },
                }
            },
{
    let (boxed, cx_mid, polled, mid, now) = choose|
        boxed: Box<F>,
        cx_mid: Context<'_>,
        polled: Poll<Result<B, F::Error>>,
        mid: Inner<Box<F>, B>,
        now: Option<Polled<B::Data, B::Error>>,
    |
        {
            &&& #[trigger] <Box<F> as TryFuture>::steps(pre@->future, cx, boxed, cx_mid, polled)
            &&& #[trigger] Inner::takes_future(Inner::Future { future: boxed }, polled, mid, now)
            &&& match now {
                Some(polled) => post@ == mid && cx_post == cx_mid && out == polled,
                None => Inner::steps_body(mid, cx_mid, post@, cx_post, out),
            }
        };
    assert(F::steps(*pre@->future, cx, *boxed, cx_mid, polled));
}

/// A new body backed by a future is to poll that future. Until that resolves the body is not at its
/// end and its size hint is open; then both are those of the body that it yielded; after a failure
/// the body is at its end, and its size hint is exactly 0.
pub proof fn future_body_speaks_for_its_body<F, B>(
    future: F,
    new: TryFutureBody<F, B>,
    body: TryFutureBody<F, B>,
    end: bool,
    hint: SizeHint,
) where F: TryFuture<Ok = B>, B: Body, F::Error: Into<B::Error>
    requires
        call_ensures(TryFutureBody::<F, B>::new, (future,), new),
        call_ensures(<TryFutureBody<F, B> as Body>::is_end_stream, (&body,), end),
        call_ensures(<TryFutureBody<F, B> as Body>::size_hint, (&body,), hint),
    ensures
        new@ matches Inner::Future { future: held } && held == future,
        match body@ {
            Inner::Future { .. } => !end && hint@.lower == 0 && hint@.upper is None,
            Inner::Body { body } => {
                &&& call_ensures(B::is_end_stream, (&body,), end)
                &&& call_ensures(B::size_hint, (&body,), hint)
            },
            Inner::Failed => end && hint@.lower == 0 && hint@.upper == Some(0nat),
        },
        match body@ {
            Inner::Future { future } => {
                &&& body.measurable()
                &&& (forall|yielded: B| #[trigger] yielded.pollable()) ==> body.pollable()
            },
            Inner::Body { body: yielded } => {
                &&& body.measurable() <==> yielded.measurable()
                &&& body.pollable() <==> yielded.pollable()
            },
            Inner::Failed => body.pollable() && body.measurable(),
        },
{
}

/// What a poll of the future returned decides what becomes of the body.
pub proof fn future_polls_are_taken_as_they_come<F, B: Body, E: Into<B::Error>>(
    polled: Poll<Result<B, E>>,
    out: Option<Polled<B::Data, B::Error>>,
)
    ensures
        forall|body: &mut TryFutureBody<F, B>| #[trigger]
            call_ensures(TryFutureBody::<F, B>::take_future::<E>, (body, polled), out)
                ==> match polled {
                Poll::Pending => {
                    &&& out matches Some(returned)
                    &&& returned is Pending
                    &&& (*final(body))@ == (*body)@
                },
                Poll::Ready(Ok(yielded)) => {
                    &&& out is None
                    &&& (*final(body))@ matches Inner::Body { body }
                    &&& body == yielded
                },
                Poll::Ready(Err(error)) => {
                    &&& out matches Some(Poll::Ready(Some(Err(converted))))
                    &&& call_ensures(<E as Into<B::Error>>::into, (error,), converted)
                    &&& (*final(body))@ is Failed
                },
            },
{
}

/// A poll of a body backed by a future polls the future until that resolves, and from that poll on
/// the body that it yielded, and returns what that returns; if the future fails, it returns the
/// error, and nothing after that.
pub proof fn future_step_is_a_step_of_its_parts<F, B>(
    pre: TryFutureBody<F, B>,
    cx: Context<'_>,
    post: TryFutureBody<F, B>,
    cx_post: Context<'_>,
    out: Polled<B::Data, B::Error>,
) where F: TryFuture<Ok = B>, B: Body, F::Error: Into<B::Error>
    requires
        TryFutureBody::<F, B>::steps(pre, cx, post, cx_post, out),
    ensures
        pre@ matches Inner::Future { future } ==> exists|
            future_post: F,
            cx_mid: Context<'_>,
            polled: Poll<Result<B, F::Error>>,
        |
            {
                &&& #[trigger] F::steps(future, cx, future_post, cx_mid, polled)
                &&& match polled {
                    Poll::Pending => {
                        &&& out is Pending
                        &&& post@ == (Inner::<F, B>::Future { future: future_post })
                        &&& cx_post == cx_mid
                    },
                    Poll::Ready(Ok(body)) => {
                        &&& post@ is Body
                        &&& B::steps(body, cx_mid, post@->body, cx_post, out)
                    },
                    Poll::Ready(Err(error)) => {
                        &&& out matches Poll::Ready(Some(Err(returned)))
                        &&& call_ensures(<F::Error as Into<B::Error>>::into, (error,), returned)
                        &&& post@ is Failed
                        &&& cx_post == cx_mid
                    },
                }
            },
        pre@ matches Inner::Body { body } ==> post@ is Body && B::steps(
            body,
            cx,
            post@->body,
            cx_post,
            out,
        ),
        pre@ is Failed ==> post@ is Failed && cx_post == cx && (out matches Poll::Ready(None)),
{
    if let Inner::Future { future } = pre@ {
        let (future_post, cx_mid, polled, mid, now) = choose|
            future_post: F,
            cx_mid: Context<'_>,
            polled: Poll<Result<B, F::Error>>,
            mid: Inner<F, B>,
            now: Option<Polled<B::Data, B::Error>>,
        |
            {
                &&& #[trigger] F::steps(future, cx, future_post, cx_mid, polled)
                &&& #[trigger] Inner::takes_future(
                    Inner::Future { future: future_post },
                    polled,
                    mid,
                    now,
                )
                &&& match now {
                    Some(polled) => post@ == mid && cx_post == cx_mid && out == polled,
                    None => Inner::steps_body(mid, cx_mid, post@, cx_post, out),
                }
            };
        assert(F::steps(future, cx, future_post, cx_mid, polled));
    }
}

/// A poll of a future is one of its steps, and can always be made.
pub proof fn future_polls_are_steps<F: TryFuture>(out: Poll<Result<F::Ok, F::Error>>)
    ensures
        forall|future: &mut F, cx: &mut Context<'_>| #[trigger]
            call_ensures(F::try_poll, (future, cx), out) ==> F::steps(
                *future,
                *cx,
                *final(future),
                *final(cx),
                out,
            ),
        forall|future: &mut F, cx: &mut Context<'_>| #[trigger]
            call_requires(F::try_poll, (future, cx)),
{
}

/// A body can be made of any future, and takes any outcome of it while it waits for one.
pub proof fn future_outcomes_can_be_taken<F, B: Body, E: Into<B::Error>>(
    future: F,
    polled: Poll<Result<B, E>>,
)
    ensures
        call_requires(TryFutureBody::<F, B>::new, (future,)),
        forall|body: &mut TryFutureBody<F, B>|
            (*body)@ is Future ==> #[trigger] call_requires(
                TryFutureBody::<F, B>::take_future::<E>,
                (body, polled),
            ),
{
}

} // verus!
