//! Bodies that yield their data and their trailers through separate functions.

use crate::body::{Body, Frame, Polled};
use crate::pending::Pending;
use crate::run;
use crate::size_hint::{Bounds, SizeHint};
use http::HeaderMap;
use std::task::{Context, Poll};
use vstd::prelude::*;

verus! {

/// What a poll of a legacy body for its data returns.
pub type DataPolled<D, E> = Poll<Option<Result<D, E>>>;

/// What a poll of a legacy body for its trailers returns.
pub type TrailersPolled<E> = Poll<Result<Option<HeaderMap>, E>>;

/// Trait representing a streaming body of a Request or Response.
///
/// Data is streamed via the `poll_data` function, which asynchronously yields `Data` values. The
/// `size_hint` function provides insight into the total number of bytes that will be streamed.
///
/// The `poll_trailers` function returns an optional set of trailers used to finalize the request /
/// response exchange. This is mostly used when using the HTTP/2.0 protocol.
pub trait LegacyBody: Sized {
    /// Values yielded by the body.
    type Data;

    /// The error type this body might generate.
    type Error;

    /// Whether a poll of `pre` for data that is handed the context `cx` may return `out` and leave
    /// `post` behind, and `cx_post` of the context.
    ///
    /// Of a body that does not say, every step is possible.
    open spec fn data_steps(
        pre: Self,
        cx: Context<'_>,
        post: Self,
        cx_post: Context<'_>,
        out: DataPolled<Self::Data, Self::Error>,
    ) -> bool {
        true
    }

    /// Whether a poll of `pre` for trailers that is handed the context `cx` may return `out` and
    /// leave `post` behind, and `cx_post` of the context.
    ///
    /// Of a body that does not say, every step is possible.
    open spec fn trailers_steps(
        pre: Self,
        cx: Context<'_>,
        post: Self,
        cx_post: Context<'_>,
        out: TrailersPolled<Self::Error>,
    ) -> bool {
        true
    }

    /// Attempt to pull out the next data buffer of this stream.
    fn poll_data(&mut self, cx: &mut Context<'_>) -> (out: DataPolled<Self::Data, Self::Error>)
        ensures
            Self::data_steps(*old(self), *old(cx), *final(self), *final(cx), out),
    ;

    /// Poll for an optional **single** `HeaderMap` of trailers.
    ///
    /// This function should only be called once `poll_data` returns `None`.
    fn poll_trailers(&mut self, cx: &mut Context<'_>) -> (out: TrailersPolled<Self::Error>)
        ensures
            Self::trailers_steps(*old(self), *old(cx), *final(self), *final(cx), out),
    ;

    /// Returns `true` when the end of stream has been reached.
    ///
    /// An end of stream means that both `poll_data` and `poll_trailers` will
    /// return `None`.
    ///
    /// A return value of `false` **does not** guarantee that a value will be
    /// returned from `poll_data` or `poll_trailers`.
    fn is_end_stream(&self) -> (end: bool)
        default_ensures
            !end,
    {
        false
    }

    /// Returns the bounds on the remaining length of the stream.
    ///
    /// When the **exact** remaining length of the stream is known, the upper bound will be set and
    /// will equal the lower bound.
    fn size_hint(&self) -> (hint: SizeHint)
        default_ensures
            hint@ == Bounds::unknown(),
    {
        SizeHint::new()
    }
}

/// As a legacy body, too, a [`Pending`] is never ready, and has nothing to say of its length or its
/// end.
impl<D, E> LegacyBody for Pending<D, E> {
    type Data = D;

    type Error = E;

    open spec fn data_steps(
        pre: Self,
        cx: Context<'_>,
        post: Self,
        cx_post: Context<'_>,
        out: DataPolled<D, E>,
    ) -> bool {
        &&& out is Pending
        &&& post == pre
        &&& cx_post == cx
    }

    open spec fn trailers_steps(
        pre: Self,
        cx: Context<'_>,
        post: Self,
        cx_post: Context<'_>,
        out: TrailersPolled<E>,
    ) -> bool {
        &&& out is Pending
        &&& post == pre
        &&& cx_post == cx
    }

    fn poll_data(&mut self, _cx: &mut Context<'_>) -> (out: DataPolled<D, E>) {
        Poll::Pending
    }

    fn poll_trailers(&mut self, _cx: &mut Context<'_>) -> (out: TrailersPolled<E>) {
        Poll::Pending
    }
}

/// What a legacy body does not say itself promises nothing, as with [`Pending`]: it is not at its
/// end, and its size hint is open.
pub proof fn pending_takes_legacy_defaults<D, E>(
    body: Pending<D, E>,
    end: bool,
    hint: SizeHint,
)
    requires
        call_ensures(<Pending<D, E> as LegacyBody>::is_end_stream, (&body,), end),
        call_ensures(<Pending<D, E> as LegacyBody>::size_hint, (&body,), hint),
    ensures
        !end,
        hint@ == Bounds::unknown(),
{
}

/// What an [`UpgradeBody`] polls its inner body for.
pub enum Stage {
    /// Not all of the data has been polled.
    Data,
    /// All of the data has been polled, and it is time to poll the trailers.
    Trailers,
    /// The stream is finished.
    Finished,
}

impl Stage {
    /// How it is taken when a poll for data has returned `polled`: the stage moves from `pre` to
    /// `post`, and `out` is returned.
    pub open spec fn takes_data<D, E>(
        pre: Stage,
        polled: DataPolled<D, E>,
        post: Stage,
        out: Polled<D, E>,
    ) -> bool {
        match polled {
            Poll::Pending => post == pre && out == Polled::<D, E>::Pending,
            Poll::Ready(Some(Ok(data))) => post == pre && out == Polled::<D, E>::Ready(
                Some(Ok(Frame::Data(data))),
            ),
            Poll::Ready(Some(Err(error))) => post == Stage::Finished && out == Polled::<
                D,
                E,
            >::Ready(Some(Err(error))),
            Poll::Ready(None) => post == Stage::Trailers && out == Polled::<D, E>::Ready(None),
        }
    }

    /// How it is taken when a poll for trailers has returned `polled`: the stage moves from `pre`
    /// to `post`, and `out` is returned.
    pub open spec fn takes_trailers<D, E>(
        pre: Stage,
        polled: TrailersPolled<E>,
        post: Stage,
        out: Polled<D, E>,
    ) -> bool {
        match polled {
            Poll::Pending => post == pre && out == Polled::<D, E>::Pending,
            Poll::Ready(Ok(Some(map))) => post == Stage::Finished && out == Polled::<D, E>::Ready(
                Some(Ok(Frame::Trailers(map))),
            ),
            Poll::Ready(Ok(None)) => post == Stage::Finished && out == Polled::<D, E>::Ready(None),
            Poll::Ready(Err(error)) => post == Stage::Finished && out == Polled::<D, E>::Ready(
                Some(Err(error)),
            ),
        }
    }

    /// Takes what a poll for data has returned.
    pub fn take_data<D, E>(&mut self, polled: DataPolled<D, E>) -> (out: Polled<D, E>)
        ensures
            Stage::takes_data(*old(self), polled, *final(self), out),
    {
        match polled {
            Poll::Pending => Poll::Pending,
            Poll::Ready(Some(Ok(data))) => Poll::Ready(Some(Ok(Frame::data(data)))),
            Poll::Ready(Some(Err(error))) => {
                *self = Stage::Finished;
                Poll::Ready(Some(Err(error)))
            },
            Poll::Ready(None) => {
                *self = Stage::Trailers;
                Poll::Ready(None)
            },
        }
    }

    /// Takes what a poll for trailers has returned.
    pub fn take_trailers<D, E>(&mut self, polled: TrailersPolled<E>) -> (out: Polled<D, E>)
        ensures
            Stage::takes_trailers(*old(self), polled, *final(self), out),
    {
        let trailers = match polled {
            Poll::Pending => return Poll::Pending,
            Poll::Ready(Ok(Some(map))) => Some(Ok(Frame::trailers(map))),
            Poll::Ready(Ok(None)) => None,
            Poll::Ready(Err(error)) => Some(Err(error)),
        };
        // The stream is finished once the inner body yields a result.
        *self = Stage::Finished;
        Poll::Ready(trailers)
    }
}

/// Wraps a legacy v0.4 asynchronous request or response body.
pub struct UpgradeBody<B> {
    inner: B,
    stage: Stage,
}

impl<B> UpgradeBody<B> {
    /// The body that is wrapped.
    pub closed spec fn inner(self) -> B {
        self.inner
    }

    /// What that body is polled for next.
    pub closed spec fn stage(self) -> Stage {
        self.stage
    }
}

impl<B: LegacyBody> UpgradeBody<B> {
    /// Returns a legacy adaptor body.
    pub fn new(body: B) -> (upgraded: Self)
        ensures
            upgraded.inner() == body,
            upgraded.stage() is Data || upgraded.stage() is Finished,
            call_ensures(B::is_end_stream, (&body,), upgraded.stage() is Finished),
    {
        // Nothing is left to be polled if the inner body is already exhausted.
        let stage = if body.is_end_stream() {
            Stage::Finished
        } else {
            Stage::Data
        };
        Self { inner: body, stage }
    }
}

impl<B: LegacyBody> Body for UpgradeBody<B> {
    type Data = B::Data;

    type Error = B::Error;

    open spec fn steps(
        pre: Self,
        cx: Context<'_>,
        post: Self,
        cx_post: Context<'_>,
        out: Polled<B::Data, B::Error>,
    ) -> bool {
        match pre.stage() {
            Stage::Data => exists|polled: DataPolled<B::Data, B::Error>|
                {
                    &&& #[trigger] B::data_steps(pre.inner(), cx, post.inner(), cx_post, polled)
                    &&& Stage::takes_data(pre.stage(), polled, post.stage(), out)
                },
            Stage::Trailers => exists|polled: TrailersPolled<B::Error>|
                {
                    &&& #[trigger] B::trailers_steps(pre.inner(), cx, post.inner(), cx_post, polled)
                    &&& Stage::takes_trailers(pre.stage(), polled, post.stage(), out)
                },
            Stage::Finished => {
                &&& post.inner() == pre.inner()
                &&& post.stage() is Finished
                &&& cx_post == cx
                &&& out == Polled::<B::Data, B::Error>::Ready(None)
            },
        }
    }

    fn poll_frame(&mut self, cx: &mut Context<'_>) -> (out: Polled<B::Data, B::Error>) {
        match &self.stage {
            Stage::Finished => Poll::Ready(None),
            Stage::Trailers => {
                let polled = self.inner.poll_trailers(cx);
                let out = self.stage.take_trailers(polled);
                assert(B::trailers_steps(old(self).inner(), *old(cx), self.inner(), *cx, polled));
                out
            },
            Stage::Data => {
                let polled = self.inner.poll_data(cx);
                let out = self.stage.take_data(polled);
                assert(B::data_steps(old(self).inner(), *old(cx), self.inner(), *cx, polled));
                out
            },
        }
    }

    fn is_end_stream(&self) -> (end: bool)
        ensures
            end <==> self.stage() is Finished,
    {
        match &self.stage {
            Stage::Finished => true,
            _ => false,
        }
    }

    fn size_hint(&self) -> (hint: SizeHint)
        ensures
            call_ensures(B::size_hint, (&self.inner(),), hint),
    {
        self.inner.size_hint()
    }
}

/// Whether a legacy body may go through `states` while polls for data, in the contexts `cxs`,
/// return `outs`.
pub open spec fn data_runs<B: LegacyBody>(
    states: Seq<B>,
    cxs: Seq<run::Contexts<'_>>,
    outs: Seq<DataPolled<B::Data, B::Error>>,
) -> bool {
    &&& states.len() == outs.len() + 1
    &&& cxs.len() == outs.len()
    &&& forall|i: int|
        0 <= i < outs.len() ==> B::data_steps(
            states[i],
            cxs[i].0,
            states[i + 1],
            cxs[i].1,
            #[trigger] outs[i],
        )
}

/// Whether a legacy body may go through `states` while polls for trailers, in the contexts `cxs`,
/// return `outs`.
pub open spec fn trailers_runs<B: LegacyBody>(
    states: Seq<B>,
    cxs: Seq<run::Contexts<'_>>,
    outs: Seq<TrailersPolled<B::Error>>,
) -> bool {
    &&& states.len() == outs.len() + 1
    &&& cxs.len() == outs.len()
    &&& forall|i: int|
        0 <= i < outs.len() ==> B::trailers_steps(
            states[i],
            cxs[i].0,
            states[i + 1],
            cxs[i].1,
            #[trigger] outs[i],
        )
}

/// The data that polls for data yielded.
pub open spec fn data_in<D, E>(outs: Seq<DataPolled<D, E>>) -> Seq<D>
    decreases outs.len(),
{
    if outs.len() == 0 {
        seq![]
    } else {
        data_in(outs.drop_last()) + (match outs.last() {
            Poll::Ready(Some(Ok(data))) => seq![data],
            _ => seq![],
        })
    }
}

/// Whether more data may follow after a poll for data that returned `out`.
pub open spec fn data_goes_on<D, E>(out: DataPolled<D, E>) -> bool {
    out matches Poll::Ready(ready) ==> ready matches Some(Ok(_))
}

/// Whether polls for data and then polls for trailers account for a run of the upgraded body that
/// has returned `outs` and reached `state`.
pub open spec fn accounts_for<B: LegacyBody>(
    states_data: Seq<B>,
    outs_data: Seq<DataPolled<B::Data, B::Error>>,
    states_trailers: Seq<B>,
    outs_trailers: Seq<TrailersPolled<B::Error>>,
    state: UpgradeBody<B>,
    cxs: Seq<run::Contexts<'_>>,
    outs: Seq<Polled<B::Data, B::Error>>,
) -> bool {
    let n = outs_data.len() as int;
    let m = outs_trailers.len() as int;
    // Each poll makes one poll of the inner body, in its own context, until all are made.
    &&& n + m <= cxs.len() == outs.len()
    &&& data_runs(states_data, cxs.take(n), outs_data)
    &&& trailers_runs(states_trailers, cxs.subrange(n, n + m), outs_trailers)
    &&& run::untouched_from(cxs, n + m)
    &&& states_trailers[0] == states_data.last()
    &&& state.inner() == states_trailers.last()
    // The inner body is polled for no more data after the end of its data or an error, and for
    // no more trailers once a poll for them is ready.
    &&& forall|i: int|
        0 <= i < outs_data.len() - 1 ==> data_goes_on(#[trigger] outs_data[i])
    &&& forall|i: int|
        0 <= i < outs_trailers.len() - 1 ==> (#[trigger] outs_trailers[i]) is Pending
    // It is polled for trailers only once its data has ended.
    &&& outs_trailers.len() > 0 ==> outs_data.len() > 0 && outs_data.last() == DataPolled::<
        B::Data,
        B::Error,
    >::Ready(None)
    // Each poll returns what the inner poll returned: it is pending exactly if that was, and a
    // poll in which the data ended, or there were no trailers, finds no frame.
    &&& forall|i: int|
        0 <= i < n ==> (match #[trigger] outs_data[i] {
            Poll::Pending => outs[i] is Pending,
            Poll::Ready(None) => outs[i] matches Poll::Ready(None),
            Poll::Ready(Some(Ok(data))) => outs[i] matches Poll::Ready(Some(Ok(Frame::Data(yielded))))
                && yielded == data,
            Poll::Ready(Some(Err(error))) => outs[i] matches Poll::Ready(Some(Err(returned)))
                && returned == error,
        })
    &&& forall|k: int|
        0 <= k < m ==> (match #[trigger] outs_trailers[k] {
            Poll::Pending => outs[n + k] is Pending,
            Poll::Ready(Ok(None)) => outs[n + k] matches Poll::Ready(None),
            Poll::Ready(Ok(Some(map))) => outs[n + k] matches Poll::Ready(
                Some(Ok(Frame::Trailers(yielded))),
            ) && yielded == map,
            Poll::Ready(Err(error)) => outs[n + k] matches Poll::Ready(Some(Err(returned)))
                && returned == error,
        })
    &&& forall|i: int|
        n + m <= i < outs.len() ==> (#[trigger] outs[i] matches Poll::Ready(None))
    &&& n + m < outs.len() ==> state.stage() is Finished
    // All that it yields is yielded, and nothing else.
    &&& run::data_in(outs) == data_in(outs_data)
    &&& run::trailers_in(outs) == (if outs_trailers.len() > 0 {
        match outs_trailers.last() {
            Poll::Ready(Ok(Some(map))) => seq![map],
            _ => seq![],
        }
    } else {
        seq![]
    })
    &&& run::errors_in(outs) == (if outs_trailers.len() > 0 {
        match outs_trailers.last() {
            Poll::Ready(Err(error)) => seq![error],
            _ => seq![],
        }
    } else if outs_data.len() > 0 {
        match outs_data.last() {
            Poll::Ready(Some(Err(error))) => seq![error],
            _ => seq![],
        }
    } else {
        seq![]
    })
    &&& match state.stage() {
        Stage::Data => {
            &&& outs_data.len() > 0 ==> data_goes_on(outs_data.last())
            &&& outs_trailers.len() == 0
            &&& n == outs.len()
        },
        Stage::Trailers => {
            &&& outs_data.len() > 0
            &&& outs_data.last() == DataPolled::<B::Data, B::Error>::Ready(None)
            &&& outs_trailers.len() > 0 ==> outs_trailers.last() is Pending
            &&& n + m == outs.len()
        },
        Stage::Finished => if outs_trailers.len() > 0 {
            outs_trailers.last() is Ready
        } else {
            outs_data.len() > 0 && outs_data.last() matches Poll::Ready(Some(Err(_)))
        },
    }
}

/// An upgraded body yields the data of the inner body, in order, and then its trailers, and hands
/// on its error; it yields nothing else. It polls for trailers only once a poll for data has
/// returned `None`, and polls for neither after their end. Each poll makes at most one of these
/// polls, and hands its own context on.
pub proof fn upgraded_body_yields_data_then_trailers<B: LegacyBody>(
    states: Seq<UpgradeBody<B>>,
    cxs: Seq<run::Contexts<'_>>,
    outs: Seq<Polled<B::Data, B::Error>>,
)
    requires
        run::runs(states, cxs, outs),
        states[0].stage() is Data,
    ensures
        exists|
            states_data: Seq<B>,
            outs_data: Seq<DataPolled<B::Data, B::Error>>,
            states_trailers: Seq<B>,
            outs_trailers: Seq<TrailersPolled<B::Error>>,
        |
            {
                &&& #[trigger] accounts_for(
                    states_data,
                    outs_data,
                    states_trailers,
                    outs_trailers,
                    states.last(),
                    cxs,
                    outs,
                )
                &&& states_data[0] == states[0].inner()
            },
    decreases outs.len(),
{
    if outs.len() == 0 {
        let inner = states[0].inner();
        let no_data = Seq::<DataPolled<B::Data, B::Error>>::empty();
        let no_trailers = Seq::<TrailersPolled<B::Error>>::empty();
        assert(accounts_for(
            seq![inner],
            no_data,
            seq![inner],
            no_trailers,
            states.last(),
            cxs,
            outs,
        ));
        assert(seq![inner][0] == inner);
    } else {
        let before = outs.drop_last();
        let pre = states.drop_last();
        let cxs_before = cxs.drop_last();
        let cx = cxs.last();
        let out = outs.last();
        assert(run::runs(pre, cxs_before, before)) by {
            assert forall|i: int| 0 <= i < before.len() implies UpgradeBody::<B>::steps(
                pre[i],
                cxs_before[i].0,
                pre[i + 1],
                cxs_before[i].1,
                #[trigger] before[i],
            ) by {
                assert(before[i] == outs[i]);
            }
        }
        upgraded_body_yields_data_then_trailers(pre, cxs_before, before);
        let (sd, od, st, ot) = choose|
            sd: Seq<B>,
            od: Seq<DataPolled<B::Data, B::Error>>,
            st: Seq<B>,
            ot: Seq<TrailersPolled<B::Error>>,
        |
            {
                &&& #[trigger] accounts_for(sd, od, st, ot, pre.last(), cxs_before, before)
                &&& sd[0] == states[0].inner()
            };
        assert(UpgradeBody::<B>::steps(pre.last(), cx.0, states.last(), cx.1, out)) by {
            assert(outs[outs.len() - 1] == out);
        }
        account_extends(sd, od, st, ot, pre.last(), cxs_before, before, states.last(), cx, out);
        assert(cxs_before.push(cx) =~= cxs);
        assert(before.push(out) =~= outs);
    }
}

/// One poll more, accounted for.
proof fn account_extends<B: LegacyBody>(
    sd: Seq<B>,
    od: Seq<DataPolled<B::Data, B::Error>>,
    st: Seq<B>,
    ot: Seq<TrailersPolled<B::Error>>,
    pre: UpgradeBody<B>,
    cxs: Seq<run::Contexts<'_>>,
    outs: Seq<Polled<B::Data, B::Error>>,
    post: UpgradeBody<B>,
    cx: run::Contexts<'_>,
    out: Polled<B::Data, B::Error>,
)
    requires
        accounts_for(sd, od, st, ot, pre, cxs, outs),
        UpgradeBody::<B>::steps(pre, cx.0, post, cx.1, out),
    ensures
        exists|
            states_data: Seq<B>,
            outs_data: Seq<DataPolled<B::Data, B::Error>>,
            states_trailers: Seq<B>,
            outs_trailers: Seq<TrailersPolled<B::Error>>,
        |
            {
                &&& #[trigger] accounts_for(
                    states_data,
                    outs_data,
                    states_trailers,
                    outs_trailers,
                    post,
                    cxs.push(cx),
                    outs.push(out),
                )
                &&& states_data[0] == sd[0]
            },
{
    assert(outs.push(out).drop_last() =~= outs);
    let n = od.len() as int;
    let m = ot.len() as int;
    match pre.stage() {
        Stage::Data => {
            let polled = choose|polled: DataPolled<B::Data, B::Error>|
                {
                    &&& #[trigger] B::data_steps(pre.inner(), cx.0, post.inner(), cx.1, polled)
                    &&& Stage::takes_data(pre.stage(), polled, post.stage(), out)
                };
            let sd_post = sd.push(post.inner());
            let od_post = od.push(polled);
            let st_post = seq![post.inner()];
            assert(od_post.drop_last() =~= od);
            assert(cxs.push(cx).take(n + 1) =~= cxs.take(n).push(cx));
            assert(accounts_for(sd_post, od_post, st_post, ot, post, cxs.push(cx), outs.push(out)));
        },
        Stage::Trailers => {
            let polled = choose|polled: TrailersPolled<B::Error>|
                {
                    &&& #[trigger] B::trailers_steps(pre.inner(), cx.0, post.inner(), cx.1, polled)
                    &&& Stage::takes_trailers(pre.stage(), polled, post.stage(), out)
                };
            let st_post = st.push(post.inner());
            let ot_post = ot.push(polled);
            assert(cxs.push(cx).take(n) =~= cxs.take(n));
            assert(cxs.push(cx).subrange(n, n + m + 1) =~= cxs.subrange(n, n + m).push(cx));
            assert(accounts_for(sd, od, st_post, ot_post, post, cxs.push(cx), outs.push(out)));
        },
        Stage::Finished => {
            assert(cxs.push(cx).take(n) =~= cxs.take(n));
            assert(cxs.push(cx).subrange(n, n + m) =~= cxs.subrange(n, n + m));
            assert(accounts_for(sd, od, st, ot, post, cxs.push(cx), outs.push(out)));
        },
    }
}

/// An upgraded body whose stream is finished, as one is from the start if its inner body says so,
/// stays that way: it polls the inner body no more and yields nothing.
pub proof fn finished_upgraded_body_is_silent<B: LegacyBody>(
    states: Seq<UpgradeBody<B>>,
    cxs: Seq<run::Contexts<'_>>,
    outs: Seq<Polled<B::Data, B::Error>>,
    i: int,
    j: int,
)
    requires
        run::runs(states, cxs, outs),
        0 <= i <= j < outs.len(),
        states[i].stage() is Finished,
    ensures
        outs[j] == Polled::<B::Data, B::Error>::Ready(None),
        states[j + 1].stage() is Finished,
        states[j + 1].inner() == states[i].inner(),
    decreases j - i,
{
    if i < j {
        finished_upgraded_body_is_silent(states, cxs, outs, i, j - 1);
    }
    assert(UpgradeBody::<B>::steps(states[j], cxs[j].0, states[j + 1], cxs[j].1, outs[j]));
}

/// An upgraded body wraps the body that it is given. It starts out finished exactly if that says
/// that it is at its end, and else with the data. It says that it is at its end exactly if it is
/// finished, hands on the inner body's size hints, and can always be polled.
pub proof fn upgraded_body_wraps_its_body<B: LegacyBody>(
    body: B,
    new: UpgradeBody<B>,
    upgraded: UpgradeBody<B>,
    end: bool,
    hint: SizeHint,
)
    requires
        call_ensures(UpgradeBody::<B>::new, (body,), new),
        call_ensures(<UpgradeBody<B> as Body>::is_end_stream, (&upgraded,), end),
        call_ensures(<UpgradeBody<B> as Body>::size_hint, (&upgraded,), hint),
    ensures
        new.inner() == body,
        exists|at_end: bool|
            {
                &&& #[trigger] call_ensures(B::is_end_stream, (&body,), at_end)
                &&& new.stage() is Finished <==> at_end
                &&& new.stage() is Data <==> !at_end
            },
        end <==> upgraded.stage() is Finished,
        call_ensures(B::size_hint, (&upgraded.inner(),), hint),
        upgraded.pollable(),
        upgraded.measurable(),
{
    assert(call_ensures(B::is_end_stream, (&body,), new.stage() is Finished));
}

/// What a poll for data returned is returned as a frame, an error ends the stream, and the end of
/// the data leads on to the trailers; these, or an error, end the stream, and pending polls change
/// nothing.
pub proof fn legacy_polls_are_taken_as_they_come<D, E>(
    data: DataPolled<D, E>,
    trailers: TrailersPolled<E>,
    out: Polled<D, E>,
)
    ensures
        forall|stage: &mut Stage| #[trigger]
            call_ensures(Stage::take_data::<D, E>, (stage, data), out) ==> match data {
                Poll::Pending => out is Pending && *final(stage) == *stage,
                Poll::Ready(Some(Ok(data))) => {
                    &&& out matches Poll::Ready(Some(Ok(Frame::Data(yielded))))
                    &&& yielded == data
                    &&& *final(stage) == *stage
                },
                Poll::Ready(Some(Err(error))) => {
                    &&& out matches Poll::Ready(Some(Err(returned)))
                    &&& returned == error
                    &&& *final(stage) is Finished
                },
                Poll::Ready(None) => {
                    &&& out matches Poll::Ready(None)
                    &&& *final(stage) is Trailers
                },
            },
        forall|stage: &mut Stage| #[trigger]
            call_ensures(Stage::take_trailers::<D, E>, (stage, trailers), out) ==> match trailers {
                Poll::Pending => out is Pending && *final(stage) == *stage,
                Poll::Ready(Ok(Some(map))) => {
                    &&& out matches Poll::Ready(Some(Ok(Frame::Trailers(yielded))))
                    &&& yielded == map
                    &&& *final(stage) is Finished
                },
                Poll::Ready(Ok(None)) => {
                    &&& out matches Poll::Ready(None)
                    &&& *final(stage) is Finished
                },
                Poll::Ready(Err(error)) => {
                    &&& out matches Poll::Ready(Some(Err(returned)))
                    &&& returned == error
                    &&& *final(stage) is Finished
                },
            },
{
}

/// As a legacy body, a [`Pending`] is pending in every poll for data and for trailers, and stays as
/// it is.
pub proof fn pending_legacy_body_is_never_ready<D, E>(
    pre: Pending<D, E>,
    cx: Context<'_>,
    post: Pending<D, E>,
    cx_post: Context<'_>,
    data: DataPolled<D, E>,
    trailers: TrailersPolled<E>,
)
    ensures
        <Pending<D, E> as LegacyBody>::data_steps(pre, cx, post, cx_post, data) <==> data is Pending
            && post == pre && cx_post == cx,
        <Pending<D, E> as LegacyBody>::trailers_steps(pre, cx, post, cx_post, trailers)
            <==> trailers is Pending && post == pre && cx_post == cx,
{
}

/// A poll of an upgraded body is pending exactly if the poll of the inner body that it made is
/// pending. If the data ended in it, or there turned out to be no trailers, it finds no frame; and
/// data, trailers and errors are returned as they come.
pub proof fn upgraded_step_is_a_step_of_its_body<B: LegacyBody>(
    pre: UpgradeBody<B>,
    cx: Context<'_>,
    post: UpgradeBody<B>,
    cx_post: Context<'_>,
    out: Polled<B::Data, B::Error>,
)
    requires
        UpgradeBody::<B>::steps(pre, cx, post, cx_post, out),
    ensures
        pre.stage() is Data ==> exists|polled: DataPolled<B::Data, B::Error>|
            {
                &&& #[trigger] B::data_steps(pre.inner(), cx, post.inner(), cx_post, polled)
                &&& out is Pending <==> polled is Pending
                &&& match polled {
                    Poll::Pending => post.stage() is Data,
                    Poll::Ready(None) => {
                        &&& out matches Poll::Ready(None)
                        &&& post.stage() is Trailers
                    },
                    Poll::Ready(Some(Ok(data))) => {
                        &&& out matches Poll::Ready(Some(Ok(Frame::Data(yielded))))
                        &&& yielded == data
                        &&& post.stage() is Data
                    },
                    Poll::Ready(Some(Err(error))) => {
                        &&& out matches Poll::Ready(Some(Err(returned)))
                        &&& returned == error
                        &&& post.stage() is Finished
                    },
                }
            },
        pre.stage() is Trailers ==> exists|polled: TrailersPolled<B::Error>|
            {
                &&& #[trigger] B::trailers_steps(pre.inner(), cx, post.inner(), cx_post, polled)
                &&& out is Pending <==> polled is Pending
                &&& match polled {
                    Poll::Pending => post.stage() is Trailers,
                    Poll::Ready(Ok(None)) => {
                        &&& out matches Poll::Ready(None)
                        &&& post.stage() is Finished
                    },
                    Poll::Ready(Ok(Some(map))) => {
                        &&& out matches Poll::Ready(Some(Ok(Frame::Trailers(yielded))))
                        &&& yielded == map
                        &&& post.stage() is Finished
                    },
                    Poll::Ready(Err(error)) => {
                        &&& out matches Poll::Ready(Some(Err(returned)))
                        &&& returned == error
                        &&& post.stage() is Finished
                    },
                }
            },
        pre.stage() is Finished ==> {
            &&& out matches Poll::Ready(None)
            &&& post.stage() is Finished
            &&& post.inner() == pre.inner()
            &&& cx_post == cx
        },
{
    match pre.stage() {
        Stage::Data => {
            let polled = choose|polled: DataPolled<B::Data, B::Error>|
                {
                    &&& #[trigger] B::data_steps(pre.inner(), cx, post.inner(), cx_post, polled)
                    &&& Stage::takes_data(pre.stage(), polled, post.stage(), out)
                };
            assert(B::data_steps(pre.inner(), cx, post.inner(), cx_post, polled));
        },
        Stage::Trailers => {
            let polled = choose|polled: TrailersPolled<B::Error>|
                {
                    &&& #[trigger] B::trailers_steps(pre.inner(), cx, post.inner(), cx_post, polled)
                    &&& Stage::takes_trailers(pre.stage(), polled, post.stage(), out)
                };
            assert(B::trailers_steps(pre.inner(), cx, post.inner(), cx_post, polled));
        },
        Stage::Finished => {},
    }
}

/// Over a run from the data on, each poll of an upgraded body is pending exactly if the poll of the
/// inner body that it made, for data in the first ones and for trailers in those that follow, is
/// pending; a poll in which the data ended, or there turned out to be no trailers, finds no frame.
#[verifier::rlimit(50)]
pub proof fn upgraded_body_waits_only_for_its_body<B: LegacyBody>(
    states: Seq<UpgradeBody<B>>,
    cxs: Seq<run::Contexts<'_>>,
    outs: Seq<Polled<B::Data, B::Error>>,
)
    requires
        run::runs(states, cxs, outs),
        states[0].stage() is Data,
    ensures
        exists|
            states_data: Seq<B>,
            outs_data: Seq<DataPolled<B::Data, B::Error>>,
            states_trailers: Seq<B>,
            outs_trailers: Seq<TrailersPolled<B::Error>>,
        |
            {
                &&& #[trigger] data_runs(
                    states_data,
                    cxs.take(outs_data.len() as int),
                    outs_data,
                )
                &&& #[trigger] trailers_runs(
                    states_trailers,
                    cxs.subrange(
                        outs_data.len() as int,
                        (outs_data.len() + outs_trailers.len()) as int,
                    ),
                    outs_trailers,
                )
                &&& states_data[0] == states[0].inner()
                &&& states_trailers[0] == states_data.last()
                &&& outs_data.len() + outs_trailers.len() <= outs.len()
                &&& forall|i: int|
                    0 <= i < outs_data.len() ==> {
                        &&& outs[i] is Pending <==> (#[trigger] outs_data[i]) is Pending
                        &&& outs_data[i] == DataPolled::<B::Data, B::Error>::Ready(None)
                            ==> outs[i] == Polled::<B::Data, B::Error>::Ready(None)
                    }
                &&& forall|k: int|
                    0 <= k < outs_trailers.len() ==> {
                        &&& outs[outs_data.len() + k] is Pending
                            <==> (#[trigger] outs_trailers[k]) is Pending
                        &&& outs_trailers[k] == TrailersPolled::<B::Error>::Ready(Ok(None))
                            ==> outs[outs_data.len() + k] == Polled::<B::Data, B::Error>::Ready(
                            None,
                        )
                    }
                &&& forall|i: int|
                    outs_data.len() + outs_trailers.len() <= i < outs.len()
                        ==> #[trigger] outs[i] == Polled::<B::Data, B::Error>::Ready(None)
            },
{
    upgraded_body_yields_data_then_trailers(states, cxs, outs);
    let (sd, od, st, ot) = choose|
        sd: Seq<B>,
        od: Seq<DataPolled<B::Data, B::Error>>,
        st: Seq<B>,
        ot: Seq<TrailersPolled<B::Error>>,
    |
        {
            &&& #[trigger] accounts_for(sd, od, st, ot, states.last(), cxs, outs)
            &&& sd[0] == states[0].inner()
        };
    assert(data_runs(sd, cxs.take(od.len() as int), od));
    assert(trailers_runs(
        st,
        cxs.subrange(od.len() as int, (od.len() + ot.len()) as int),
        ot,
    ));
}

/// Polls of a legacy body are its steps, and can always be made.
pub proof fn legacy_polls_are_steps<B: LegacyBody>(
    data: DataPolled<B::Data, B::Error>,
    trailers: TrailersPolled<B::Error>,
)
    ensures
        forall|body: &mut B, cx: &mut Context<'_>| #[trigger]
            call_ensures(B::poll_data, (body, cx), data) ==> B::data_steps(
                *body,
                *cx,
                *final(body),
                *final(cx),
                data,
            ),
        forall|body: &mut B, cx: &mut Context<'_>| #[trigger]
            call_ensures(B::poll_trailers, (body, cx), trailers) ==> B::trailers_steps(
                *body,
                *cx,
                *final(body),
                *final(cx),
                trailers,
            ),
        forall|body: &mut B, cx: &mut Context<'_>| #[trigger]
            call_requires(B::poll_data, (body, cx)),
        forall|body: &mut B, cx: &mut Context<'_>| #[trigger]
            call_requires(B::poll_trailers, (body, cx)),
        forall|body: B| #[trigger] call_requires(B::is_end_stream, (&body,)),
        forall|body: B| #[trigger] call_requires(B::size_hint, (&body,)),
        forall|body: B| #[trigger] call_requires(UpgradeBody::<B>::new, (body,)),
        forall|stage: &mut Stage| #[trigger]
            call_requires(Stage::take_data::<B::Data, B::Error>, (stage, data)),
        forall|stage: &mut Stage| #[trigger]
            call_requires(Stage::take_trailers::<B::Data, B::Error>, (stage, trailers)),
{
}

} // verus!
