//! Two bodies, one after the other.

use crate::body::{self, Body, Frame, Polled};
use crate::run;
use crate::size_hint::{Bounds, SizeHint};
use crate::trailers::{self, merge_trailers, Oversized};
use http::HeaderMap;
use std::task::{Context, Poll};
use vstd::prelude::*;

verus! {

/// What a poll of a chain returns: what a poll of a body does, or an error of its own where the
/// trailers of its two bodies have too many names to be merged.
pub type ChainPolled<D, E> = Result<Polled<D, E>, Oversized>;

/// A body that links two bodies together, in a chain.
pub struct Chain<A, B> {
    inner: Inner<A, B>,
}

/// The state of a [`Chain`].
pub enum Inner<A, B> {
    /// The first body is being polled, and the second one has not been touched.
    First { first: A, second: B },
    /// The first body is complete, and left these trailers. The second one is being polled.
    Second { second: B, trailers: Option<HeaderMap> },
    /// Nothing is left to be polled.
    Finished,
}

impl<A, B> View for Chain<A, B> {
    type V = Inner<A, B>;

    closed spec fn view(&self) -> Inner<A, B> {
        self.inner
    }
}

impl<A, B> Inner<A, B> where A: Body<Data = B::Data>, B: Body, A::Error: Into<B::Error> {
    /// How the chain takes it when a poll of its first body has returned `polled`: it moves from
    /// `pre` to `post` and returns `out`, or goes on to poll the second body where that is `None`.
    pub open spec fn takes_first(
        pre: Self,
        polled: Polled<B::Data, A::Error>,
        post: Self,
        out: Option<Polled<B::Data, B::Error>>,
    ) -> bool {
        match polled {
            Poll::Pending => post == pre && out == Some(Polled::<B::Data, B::Error>::Pending),
            Poll::Ready(Some(Ok(Frame::Data(data)))) => post == pre && out == Some(
                Polled::<B::Data, B::Error>::Ready(Some(Ok(Frame::Data(data)))),
            ),
            Poll::Ready(Some(Err(error))) => post == Self::Finished && (out matches Some(
                Poll::Ready(Some(Err(converted))),
            ) && body::converts(error, converted)),
            Poll::Ready(Some(Ok(Frame::Trailers(map)))) => out is None && post == (Self::Second {
                second: pre->First_second,
                trailers: Some(map),
            }),
            Poll::Ready(None) => out is None && post == (Self::Second {
                second: pre->First_second,
                trailers: None,
            }),
        }
    }

    /// How the chain takes it when a poll of its second body has returned `polled`: it moves from
    /// `pre` to `post` and returns `out`.
    pub open spec fn takes_second(
        pre: Self,
        polled: Polled<B::Data, B::Error>,
        post: Self,
        out: ChainPolled<B::Data, B::Error>,
    ) -> bool {
        match polled {
            Poll::Pending => post == pre && out == Self::returned(Poll::Pending),
            Poll::Ready(Some(Ok(Frame::Data(data)))) => post == pre && out == Self::returned(
                Poll::Ready(Some(Ok(Frame::Data(data)))),
            ),
            Poll::Ready(Some(Err(error))) => post == Self::Finished && out == Self::returned(
                Poll::Ready(Some(Err(error))),
            ),
            Poll::Ready(Some(Ok(Frame::Trailers(map)))) => post == Self::Finished
                && Self::concludes(pre->trailers, Some(map), out),
            Poll::Ready(None) => post == Self::Finished && Self::concludes(
                pre->trailers,
                None,
                out,
            ),
        }
    }

    /// A poll of the chain that returned `polled`.
    pub open spec fn returned(polled: Polled<B::Data, B::Error>) -> ChainPolled<
        B::Data,
        B::Error,
    > {
        Ok(polled)
    }

    /// Whether `out` is what the chain returns last, where its bodies have left these trailers.
    pub open spec fn concludes(
        first: Option<HeaderMap>,
        second: Option<HeaderMap>,
        out: ChainPolled<B::Data, B::Error>,
    ) -> bool {
        exists|merged: Result<Option<HeaderMap>, Oversized>| #[trigger]
            trailers::merges(first, second, merged) && out == (match merged {
                Ok(Some(map)) => Self::returned(Poll::Ready(Some(Ok(Frame::Trailers(map))))),
                Ok(None) => Self::returned(Poll::Ready(None)),
                Err(oversized) => Err(oversized),
            })
    }

    /// The steps of a chain whose second body is being polled.
    pub open spec fn steps_second(
        pre: Self,
        cx: Context<'_>,
        post: Self,
        cx_post: Context<'_>,
        out: ChainPolled<B::Data, B::Error>,
    ) -> bool {
        exists|second: B, polled: Polled<B::Data, B::Error>| #[trigger]
            B::steps(pre->Second_second, cx, second, cx_post, polled) && Self::takes_second(
                Self::Second { second, trailers: pre->trailers },
                polled,
                post,
                out,
            )
    }

    /// The steps of a chain: whether a poll in state `pre` that is handed the context `cx` may
    /// return `out` and leave the chain in state `post`, and `cx_post` of the context.
    pub open spec fn steps(
        pre: Self,
        cx: Context<'_>,
        post: Self,
        cx_post: Context<'_>,
        out: ChainPolled<B::Data, B::Error>,
    ) -> bool {
        match pre {
            Self::First { first, second } => exists|
                first_post: A,
                cx_mid: Context<'_>,
                polled: Polled<B::Data, A::Error>,
                mid: Self,
                now: Option<Polled<B::Data, B::Error>>,
            |
                {
                    &&& #[trigger] A::steps(first, cx, first_post, cx_mid, polled)
                    &&& #[trigger] Self::takes_first(
                        Self::First { first: first_post, second },
                        polled,
                        mid,
                        now,
                    )
                    &&& match now {
                        Some(polled) => {
                            &&& post == mid
                            &&& cx_post == cx_mid
                            &&& out == Self::returned(polled)
                        },
                        None => Self::steps_second(mid, cx_mid, post, cx_post, out),
                    }
                },
            Self::Second { .. } => Self::steps_second(pre, cx, post, cx_post, out),
            Self::Finished => {
                &&& post == pre
                &&& cx_post == cx
                &&& out == Self::returned(Poll::Ready(None))
            },
        }
    }

    /// Whether the bodies can be polled that a poll of the chain may reach.
    pub open spec fn parts_pollable(self) -> bool {
        match self {
            Self::First { first, second } => {
                &&& first.pollable()
                &&& forall|
                    cx: Context<'_>,
                    first_post: A,
                    cx_post: Context<'_>,
                    polled: Polled<B::Data, A::Error>,
                | #[trigger]
                    A::steps(first, cx, first_post, cx_post, polled) && run::completes(polled)
                        ==> second.pollable()
            },
            Self::Second { second, .. } => second.pollable(),
            Self::Finished => true,
        }
    }

    /// Whether the bodies that are still to be polled can be asked for a size hint.
    pub open spec fn parts_measurable(self) -> bool {
        match self {
            Self::First { first, second } => first.measurable() && second.measurable(),
            Self::Second { second, .. } => second.measurable(),
            Self::Finished => true,
        }
    }

    /// Whether `out` is a size hint for the chain: for the sum of both bodies' hints while the
    /// first one is polled, `None` where that sum exceeds what a hint can hold.
    pub open spec fn measures(self, out: Option<SizeHint>) -> bool {
        match self {
            Self::First { first, second } => exists|a: SizeHint, b: SizeHint|
                {
                    &&& #[trigger] call_ensures(A::size_hint, (&first,), a)
                    &&& #[trigger] call_ensures(B::size_hint, (&second,), b)
                    &&& match out {
                        Some(hint) => hint@ == a@.plus(b@),
                        None => !a@.plus(b@).representable(),
                    }
                },
            Self::Second { second, .. } => out matches Some(hint) && call_ensures(
                B::size_hint,
                (&second,),
                hint,
            ),
            Self::Finished => out matches Some(hint) && hint@ == Bounds::exact(0),
        }
    }
}

impl<A, B> Chain<A, B> {
    /// Returns a "chained" body.
    ///
    /// The contents of the first provided body will precede the contents of the second body.
    pub fn new(first: A, second: B) -> (chain: Self)
        ensures
            chain@ == (Inner::First { first, second }),
    {
        Self { inner: Inner::First { first, second } }
    }
}

impl<A, B> Chain<A, B> where A: Body<Data = B::Data>, B: Body, A::Error: Into<B::Error> {
    /// Takes what a poll of the first body has returned.
    ///
    /// Returns what the chain's own poll is to return, or `None` if the first body is complete and
    /// the second one is to be polled now.
    pub fn take_first(&mut self, polled: Polled<B::Data, A::Error>) -> (out: Option<
        Polled<B::Data, B::Error>,
    >)
        requires
            old(self)@ is First,
        ensures
            Inner::takes_first(old(self)@, polled, final(self)@, out),
    {
        let trailers = match polled {
            Poll::Pending => return Some(Poll::Pending),
            // There are no more frames in the first body.
            Poll::Ready(None) => None,
            Poll::Ready(Some(Ok(frame))) => match frame.into_trailers() {
                Ok(map) => Some(map),
                // Other frames are returned, and the first body is polled again next time.
                Err(frame) => return Some(Poll::Ready(Some(Ok(frame)))),
            },
            Poll::Ready(Some(Err(error))) => {
                self.inner = Inner::Finished;
                return Some(Poll::Ready(Some(Err(error.into()))));
            },
        };
        let mut inner = Inner::Finished;
        std::mem::swap(&mut inner, &mut self.inner);
        if let Inner::First { second, .. } = inner {
            self.inner = Inner::Second { second, trailers };
        }
        None
    }

    /// Takes what a poll of the second body has returned.
    ///
    /// Returns what the chain's own poll is to return, or an error where the trailers of both
    /// bodies have too many names to be merged.
    pub fn take_second(&mut self, polled: Polled<B::Data, B::Error>) -> (out: ChainPolled<
        B::Data,
        B::Error,
    >)
        requires
            old(self)@ is Second,
        ensures
            Inner::takes_second(old(self)@, polled, final(self)@, out),
    {
        let trailers_second = match polled {
            Poll::Pending => return Ok(Poll::Pending),
            // There are no more frames in the second body.
            Poll::Ready(None) => None,
            Poll::Ready(Some(Ok(frame))) => match frame.into_trailers() {
                Ok(map) => Some(map),
                // Other frames are returned, and the second body is polled again next time.
                Err(frame) => return Ok(Poll::Ready(Some(Ok(frame)))),
            },
            Poll::Ready(Some(Err(error))) => {
                self.inner = Inner::Finished;
                return Ok(Poll::Ready(Some(Err(error))));
            },
        };
        let mut inner = Inner::Finished;
        std::mem::swap(&mut inner, &mut self.inner);
        let trailers_first = match inner {
            Inner::Second { trailers, .. } => trailers,
            _ => None,
        };
        match merge_trailers(trailers_first, trailers_second) {
            Ok(Some(map)) => Ok(Poll::Ready(Some(Ok(Frame::trailers(map))))),
            Ok(None) => Ok(Poll::Ready(None)),
            Err(oversized) => Err(oversized),
        }
    }

    /// Attempts to pull out the next frame: one of the first body until it is complete, then one
    /// of the second body, and at last the trailers of both.
    ///
    /// Where these have too many names to be merged, that is returned as an error.
    pub fn try_poll_frame(&mut self, cx: &mut Context<'_>) -> (out: ChainPolled<
        B::Data,
        B::Error,
    >)
        requires
            old(self)@.parts_pollable(),
        ensures
            Inner::steps(old(self)@, *old(cx), final(self)@, *final(cx), out),
    {
        if let Inner::First { first, .. } = &mut self.inner {
            let polled = first.poll_frame(cx);
            if let Some(out) = self.take_first(polled) {
                return Ok(out);
            }
        }
        match &mut self.inner {
            Inner::Second { second, .. } => {
                let polled = second.poll_frame(cx);
                self.take_second(polled)
            },
            _ => Ok(Poll::Ready(None)),
        }
    }

    /// Returns bounds on the number of bytes that the chain has yet to yield, or `None` where they
    /// exceed `u64::MAX`.
    pub fn checked_size_hint(&self) -> (out: Option<SizeHint>)
        requires
            self@.parts_measurable(),
        ensures
            self@.measures(out),
    {
        match &self.inner {
            // The first body is still being polled: the sum of the two bodies' hints.
            Inner::First { first, second } => {
                let first = first.size_hint();
                let second = second.size_hint();
                first.checked_add(second)
            },
            Inner::Second { second, .. } => Some(second.size_hint()),
            Inner::Finished => {
                let mut hint = SizeHint::new();
                hint.set_exact(0);
                Some(hint)
            },
        }
    }
}

impl<A, B> Body for Chain<A, B> where A: Body<Data = B::Data>, B: Body, A::Error: Into<B::Error> {
    type Data = B::Data;

    type Error = B::Error;

    open spec fn steps(
        pre: Self,
        cx: Context<'_>,
        post: Self,
        cx_post: Context<'_>,
        out: Polled<B::Data, B::Error>,
    ) -> bool {
        Inner::steps(pre@, cx, post@, cx_post, Ok(out))
    }

    /// The trailers of both bodies can be merged whatever the bodies yield.
    open spec fn pollable(&self) -> bool {
        &&& self@.parts_pollable()
        &&& forall|
            cx: Context<'_>,
            post: Inner<A, B>,
            cx_post: Context<'_>,
            oversized: Oversized,
        |
            !#[trigger] Inner::steps(self@, cx, post, cx_post, Err(oversized))
    }

    /// The bounds do not exceed `u64::MAX` whatever the bodies' hints are.
    open spec fn measurable(&self) -> bool {
        &&& self@.parts_measurable()
        &&& !self@.measures(None)
    }

    fn poll_frame(&mut self, cx: &mut Context<'_>) -> (out: Polled<B::Data, B::Error>) {
        match self.try_poll_frame(cx) {
            Ok(out) => out,
            Err(_) => vstd::pervasive::unreached(),
        }
    }

    fn is_end_stream(&self) -> (end: bool)
        ensures
            end <==> self@ is Finished,
    {
        match &self.inner {
            Inner::First { .. } => false,
            Inner::Second { .. } => false,
            Inner::Finished => true,
        }
    }

    fn size_hint(&self) -> (hint: SizeHint)
        ensures
            self@.measures(Some(hint)),
    {
        match self.checked_size_hint() {
            Some(hint) => hint,
            None => vstd::pervasive::unreached(),
        }
    }
}

impl<A, B> Inner<A, B> where A: Body<Data = B::Data>, B: Body, A::Error: Into<B::Error> {
    /// Whether a chain may go through `states` while polls of it, in the contexts `cxs`, return
    /// `outs`.
    pub open spec fn runs(
        states: Seq<Self>,
        cxs: Seq<run::Contexts<'_>>,
        outs: Seq<ChainPolled<B::Data, B::Error>>,
    ) -> bool {
        &&& states.len() == outs.len() + 1
        &&& cxs.len() == outs.len()
        &&& forall|i: int|
            0 <= i < outs.len() ==> Self::steps(
                states[i],
                cxs[i].0,
                states[i + 1],
                cxs[i].1,
                #[trigger] outs[i],
            )
    }

    /// Whether more may follow after a poll that returned `out`.
    pub open spec fn goes_on(out: ChainPolled<B::Data, B::Error>) -> bool {
        out matches Ok(polled) && run::goes_on(polled)
    }

    /// The data that was yielded in a run.
    pub open spec fn data_in(outs: Seq<ChainPolled<B::Data, B::Error>>) -> Seq<B::Data>
        decreases outs.len(),
    {
        if outs.len() == 0 {
            seq![]
        } else {
            Self::data_in(outs.drop_last()) + (match outs.last() {
                Ok(polled) => run::data_of(polled),
                Err(_) => seq![],
            })
        }
    }

    /// The first of `outs` after which nothing more may follow.
    pub open spec fn end_of(outs: Seq<ChainPolled<B::Data, B::Error>>) -> Option<
        ChainPolled<B::Data, B::Error>,
    >
        decreases outs.len(),
    {
        if outs.len() == 0 {
            None
        } else {
            match Self::end_of(outs.drop_last()) {
                Some(end) => Some(end),
                None => if Self::goes_on(outs.last()) {
                    None
                } else {
                    Some(outs.last())
                },
            }
        }
    }

    /// Whether a chain ends with `end` where its bodies have returned `outs_first` and
    /// `outs_second`: with the error of the one that failed, and else with the trailers of both.
    pub open spec fn ends_with(
        outs_first: Seq<Polled<B::Data, A::Error>>,
        outs_second: Seq<Polled<B::Data, B::Error>>,
        end: ChainPolled<B::Data, B::Error>,
    ) -> bool {
        if outs_second.len() == 0 {
            &&& outs_first.len() > 0
            &&& outs_first.last() matches Poll::Ready(Some(Err(error)))
            &&& end matches Ok(Poll::Ready(Some(Err(converted))))
            &&& body::converts(error, converted)
        } else if let Poll::Ready(Some(Err(error))) = outs_second.last() {
            end == Self::returned(Poll::Ready(Some(Err(error))))
        } else {
            &&& run::completes(outs_second.last())
            &&& Self::concludes(
                run::trailers_of(outs_first.last()),
                run::trailers_of(outs_second.last()),
                end,
            )
            &&& Self::delivers(
                run::trailers_of(outs_first.last()),
                run::trailers_of(outs_second.last()),
                end,
            )
        }
    }

    /// Whether `end` delivers the trailers that the two bodies have left: none if there are none,
    /// the very map if one body has left one, and else a map with the names of both, with the
    /// values of the second body where it has any, and those of the first body otherwise. Only if
    /// there are more than 6553 names may they be refused.
    pub open spec fn delivers(
        first: Option<HeaderMap>,
        second: Option<HeaderMap>,
        end: ChainPolled<B::Data, B::Error>,
    ) -> bool {
        match (first, second) {
            (None, None) => end matches Ok(Poll::Ready(None)),
            (Some(map), None) => end matches Ok(Poll::Ready(Some(Ok(Frame::Trailers(yielded)))))
                && yielded == map,
            (None, Some(map)) => end matches Ok(Poll::Ready(Some(Ok(Frame::Trailers(yielded)))))
                && yielded == map,
            (Some(first), Some(second)) => {
                let a = trailers::header_entries(first);
                let b = trailers::header_entries(second);
                match end {
                    Ok(Poll::Ready(Some(Ok(Frame::Trailers(map))))) => forall|name: Seq<char>|
                        {
                            let merged = trailers::header_entries(map);
                            &&& #[trigger] trailers::header_entries(map).contains_key(name)
                                <==> a.contains_key(name) || b.contains_key(name)
                            &&& b.contains_key(name) ==> merged[name] == b[name]
                            &&& a.contains_key(name) && !b.contains_key(name) ==> merged[name]
                                == a[name]
                        },
                    Err(_) => a.dom().union(b.dom()).len() > 6553,
                    _ => false,
                }
            },
        }
    }

    /// Whether a run of the first body and one of the second body account for a run of the chain
    /// that has returned `outs` and reached `state`. The first body has left `mid` of the context
    /// of the poll in which it was complete.
    pub open spec fn accounts_for<'a>(
        states_first: Seq<A>,
        outs_first: Seq<Polled<B::Data, A::Error>>,
        mid: Context<'a>,
        states_second: Seq<B>,
        outs_second: Seq<Polled<B::Data, B::Error>>,
        state: Self,
        cxs: Seq<run::Contexts<'a>>,
        outs: Seq<ChainPolled<B::Data, B::Error>>,
    ) -> bool {
        let n = outs_first.len();
        let m = outs_second.len();
        // Each poll polls the first body, the second one or, if the first one is complete, both,
        // and hands its own context on.
        &&& run::polls_of_two(n, m) <= cxs.len() == outs.len()
        &&& run::runs(states_first, run::handed_first(cxs, n, m, mid), outs_first)
        &&& run::runs(states_second, run::handed_second(cxs, n, m, mid), outs_second)
        &&& run::untouched_from(cxs, run::polls_of_two(n, m))
        // Each poll returns what the body that it polled returned, if that was pending, data or an
        // error. If the first body is complete, the second one is polled in the same poll.
        &&& forall|i: int|
            0 <= i < n ==> (match #[trigger] outs_first[i] {
                Poll::Pending => outs[i] matches Ok(Poll::Pending),
                Poll::Ready(Some(Ok(Frame::Data(data)))) => outs[i] matches Ok(
                    Poll::Ready(Some(Ok(Frame::Data(yielded)))),
                ) && yielded == data,
                Poll::Ready(Some(Err(error))) => outs[i] matches Ok(
                    Poll::Ready(Some(Err(returned))),
                ) && call_ensures(<A::Error as Into<B::Error>>::into, (error,), returned),
                _ => m > 0,
            })
        // If the second body is complete, the poll returns the trailers of both.
        &&& forall|k: int|
            0 <= k < m ==> (match #[trigger] outs_second[k] {
                Poll::Ready(None) => Self::delivers(
                    run::trailers_of(outs_first.last()),
                    None,
                    outs[n - 1 + k],
                ),
                Poll::Ready(Some(Ok(Frame::Trailers(map)))) => Self::delivers(
                    run::trailers_of(outs_first.last()),
                    Some(map),
                    outs[n - 1 + k],
                ),
                _ => outs[n - 1 + k] matches Ok(polled) && polled == outs_second[k],
            })
        // After that there is nothing left.
        &&& forall|i: int|
            run::polls_of_two(n, m) <= i < outs.len() ==> (#[trigger] outs[i] matches Ok(
                Poll::Ready(None),
            ))
        &&& run::polls_of_two(n, m) < outs.len() ==> state is Finished
        // The data of the first body precedes the data of the second one.
        &&& Self::data_in(outs) == run::data_in(outs_first) + run::data_in(outs_second)
        // The second body is not polled before the first one is complete.
        &&& outs_second.len() > 0 ==> outs_first.len() > 0 && run::completes(outs_first.last())
        // No body is polled again after its end.
        &&& run::stops_in_time(outs_first)
        &&& run::stops_in_time(outs_second)
        &&& match state {
            Self::First { first, second } => {
                &&& first == states_first.last()
                &&& outs_first.len() > 0 ==> run::goes_on(outs_first.last())
                &&& second == states_second.last()
                &&& outs_second.len() == 0
                &&& n == outs.len()
                &&& Self::end_of(outs) is None
            },
            Self::Second { second, trailers } => {
                &&& outs_first.len() > 0
                &&& run::completes(outs_first.last())
                &&& trailers == run::trailers_of(outs_first.last())
                &&& second == states_second.last()
                &&& outs_second.len() > 0
                &&& run::goes_on(outs_second.last())
                &&& n - 1 + m == outs.len()
                &&& Self::end_of(outs) is None
            },
            Self::Finished => Self::end_of(outs) matches Some(end) && Self::ends_with(
                outs_first,
                outs_second,
                end,
            ),
        }
    }
}

/// A chain yields the data of its first body and then the data of its second body, each in order
/// and nothing else. It polls the second body only once the first one is complete, and polls
/// neither one past its end. It ends with the error of the body that failed, or else with the
/// trailers of both. The bodies get the contexts of the polls of the chain.
pub proof fn chain_yields_first_then_second<'a, A, B>(
    first: A,
    second: B,
    states: Seq<Inner<A, B>>,
    cxs: Seq<run::Contexts<'a>>,
    outs: Seq<ChainPolled<B::Data, B::Error>>,
) where A: Body<Data = B::Data>, B: Body, A::Error: Into<B::Error>
    requires
        Inner::runs(states, cxs, outs),
        states[0] == (Inner::First { first, second }),
    ensures
        exists|
            states_first: Seq<A>,
            outs_first: Seq<Polled<B::Data, A::Error>>,
            mid: Context<'a>,
            states_second: Seq<B>,
            outs_second: Seq<Polled<B::Data, B::Error>>,
        |
            {
                &&& #[trigger] Inner::accounts_for(
                    states_first,
                    outs_first,
                    mid,
                    states_second,
                    outs_second,
                    states.last(),
                    cxs,
                    outs,
                )
                &&& states_first[0] == first
                &&& states_second[0] == second
            },
    decreases outs.len(),
{
    if outs.len() == 0 {
        let no_first = Seq::<Polled<B::Data, A::Error>>::empty();
        let no_second = Seq::<Polled<B::Data, B::Error>>::empty();
        let mid = arbitrary::<Context<'a>>();
        assert(Inner::accounts_for(
            seq![first],
            no_first,
            mid,
            seq![second],
            no_second,
            states.last(),
            cxs,
            outs,
        ));
        assert(seq![first][0] == first && seq![second][0] == second);
    } else {
        let before = outs.drop_last();
        let pre = states.drop_last();
        let cxs_before = cxs.drop_last();
        let cx = cxs.last();
        let out = outs.last();
        assert(Inner::runs(pre, cxs_before, before)) by {
            assert forall|i: int| 0 <= i < before.len() implies Inner::steps(
                pre[i],
                cxs_before[i].0,
                pre[i + 1],
                cxs_before[i].1,
                #[trigger] before[i],
            ) by {
                assert(before[i] == outs[i]);
            }
        }
        chain_yields_first_then_second(first, second, pre, cxs_before, before);
        let (sa, oa, mid, sb, ob) = choose|
            sa: Seq<A>,
            oa: Seq<Polled<B::Data, A::Error>>,
            mid: Context<'a>,
            sb: Seq<B>,
            ob: Seq<Polled<B::Data, B::Error>>,
        |
            {
                &&& #[trigger] Inner::accounts_for(sa, oa, mid, sb, ob, pre.last(), cxs_before, before)
                &&& sa[0] == first
                &&& sb[0] == second
            };
        assert(Inner::steps(pre.last(), cx.0, states.last(), cx.1, out)) by {
            assert(outs[outs.len() - 1] == out);
        }
        account_extends(sa, oa, mid, sb, ob, pre.last(), cxs_before, before, states.last(), cx, out);
        assert(cxs_before.push(cx) =~= cxs);
        assert(before.push(out) =~= outs);
    }
}

/// One poll more of the chain, accounted for.
proof fn account_extends<'a, A, B>(
    sa: Seq<A>,
    oa: Seq<Polled<B::Data, A::Error>>,
    mid: Context<'a>,
    sb: Seq<B>,
    ob: Seq<Polled<B::Data, B::Error>>,
    pre: Inner<A, B>,
    cxs: Seq<run::Contexts<'a>>,
    outs: Seq<ChainPolled<B::Data, B::Error>>,
    post: Inner<A, B>,
    cx: run::Contexts<'a>,
    out: ChainPolled<B::Data, B::Error>,
) where A: Body<Data = B::Data>, B: Body, A::Error: Into<B::Error>
    requires
        Inner::accounts_for(sa, oa, mid, sb, ob, pre, cxs, outs),
        Inner::steps(pre, cx.0, post, cx.1, out),
    ensures
        exists|
            states_first: Seq<A>,
            outs_first: Seq<Polled<B::Data, A::Error>>,
            mid: Context<'a>,
            states_second: Seq<B>,
            outs_second: Seq<Polled<B::Data, B::Error>>,
        |
            {
                &&& #[trigger] Inner::accounts_for(
                    states_first,
                    outs_first,
                    mid,
                    states_second,
                    outs_second,
                    post,
                    cxs.push(cx),
                    outs.push(out),
                )
                &&& states_first[0] == sa[0]
                &&& states_second[0] == sb[0]
            },
{
    let n = oa.len();
    let m = ob.len();
    let cxs_post = cxs.push(cx);
    let outs_post = outs.push(out);
    assert(outs_post.drop_last() =~= outs);
    match pre {
        Inner::First { first, second } => {
            let (first_post, cx_mid, polled, state, now) = choose|
                first_post: A,
                cx_mid: Context<'a>,
                polled: Polled<B::Data, A::Error>,
                state: Inner<A, B>,
                now: Option<Polled<B::Data, B::Error>>,
            |
                {
                    &&& #[trigger] A::steps(first, cx.0, first_post, cx_mid, polled)
                    &&& #[trigger] Inner::takes_first(
                        Inner::First { first: first_post, second },
                        polled,
                        state,
                        now,
                    )
                    &&& match now {
                        Some(polled) => {
                            &&& post == state
                            &&& cx.1 == cx_mid
                            &&& out == Inner::<A, B>::returned(polled)
                        },
                        None => Inner::steps_second(state, cx_mid, post, cx.1, out),
                    }
                };
            assert(run::handed_first(cxs, n, 0, mid) =~= cxs);
            run::run_extends(sa, cxs, oa, first_post, (cx.0, cx_mid), polled);
            let sa_post = sa.push(first_post);
            let oa_post = oa.push(polled);
            if now is None {
                let (second_post, polled_second) = second_step(state, cx_mid, post, cx.1, out);
                if run::completes(polled_second) {
                    conclusion_delivers::<A, B>(
                        run::trailers_of(polled),
                        run::trailers_of(polled_second),
                        out,
                    );
                }
                run::run_extends(sb, seq![], ob, second_post, (cx_mid, cx.1), polled_second);
                let sb_post = sb.push(second_post);
                let ob_post = ob.push(polled_second);
                assert(run::handed_first(cxs_post, n + 1, 1, cx_mid) =~= cxs.push((cx.0, cx_mid)));
                assert(run::handed_second(cxs_post, n + 1, 1, cx_mid) =~= seq![].push(
                    (cx_mid, cx.1),
                ));
                assert(run::data_in(oa) + (run::data_in(ob) + run::data_of(polled_second))
                    =~= run::data_in(oa) + run::data_in(ob) + run::data_of(polled_second));
                assert(run::data_in(oa_post) =~= run::data_in(oa));
                assert(Inner::accounts_for(
                    sa_post,
                    oa_post,
                    cx_mid,
                    sb_post,
                    ob_post,
                    post,
                    cxs_post,
                    outs_post,
                ));
            } else {
                assert(run::handed_first(cxs_post, n + 1, 0, mid) =~= cxs_post);
                assert(Inner::accounts_for(
                    sa_post,
                    oa_post,
                    mid,
                    sb,
                    ob,
                    post,
                    cxs_post,
                    outs_post,
                ));
            }
        },
        Inner::Second { .. } => {
            let handed = run::handed_second(cxs, n, m, mid);
            let (second_post, polled) = second_step(pre, cx.0, post, cx.1, out);
            if run::completes(polled) {
                conclusion_delivers::<A, B>(
                    run::trailers_of(oa.last()),
                    run::trailers_of(polled),
                    out,
                );
            }
            run::run_extends(sb, handed, ob, second_post, cx, polled);
            let sb_post = sb.push(second_post);
            let ob_post = ob.push(polled);
            assert(run::handed_first(cxs_post, n, m + 1, mid) =~= run::handed_first(
                cxs,
                n,
                m,
                mid,
            ));
            assert(run::handed_second(cxs_post, n, m + 1, mid) =~= handed.push(cx));
            assert(run::data_in(oa) + (run::data_in(ob) + run::data_of(polled)) =~= run::data_in(oa)
                + run::data_in(ob) + run::data_of(polled));
            assert(Inner::accounts_for(sa, oa, mid, sb_post, ob_post, post, cxs_post, outs_post));
        },
        Inner::Finished => {
            assert(run::handed_first(cxs_post, n, m, mid) =~= run::handed_first(cxs, n, m, mid));
            assert(run::handed_second(cxs_post, n, m, mid) =~= run::handed_second(cxs, n, m, mid));
            assert(Inner::accounts_for(sa, oa, mid, sb, ob, post, cxs_post, outs_post));
        },
    }
}

/// What the chain returns last delivers the trailers of both bodies.
proof fn conclusion_delivers<A, B>(
    first: Option<HeaderMap>,
    second: Option<HeaderMap>,
    end: ChainPolled<B::Data, B::Error>,
) where A: Body<Data = B::Data>, B: Body, A::Error: Into<B::Error>
    requires
        Inner::<A, B>::concludes(first, second, end),
    ensures
        Inner::<A, B>::delivers(first, second, end),
{
    let merged = choose|merged: Result<Option<HeaderMap>, Oversized>| #[trigger]
        trailers::merges(first, second, merged) && end == (match merged {
            Ok(Some(map)) => Inner::<A, B>::returned(Poll::Ready(Some(Ok(Frame::Trailers(map))))),
            Ok(None) => Inner::<A, B>::returned(Poll::Ready(None)),
            Err(oversized) => Err(oversized),
        });
    trailers::merged_trailers_lose_nothing(first, second, merged);
}

/// The step of the second body in a step of the chain.
proof fn second_step<A, B>(
    pre: Inner<A, B>,
    cx: Context<'_>,
    post: Inner<A, B>,
    cx_post: Context<'_>,
    out: ChainPolled<B::Data, B::Error>,
) -> (step: (B, Polled<B::Data, B::Error>)) where
    A: Body<Data = B::Data>,
    B: Body,
    A::Error: Into<B::Error>,

    requires
        Inner::steps_second(pre, cx, post, cx_post, out),
    ensures
        B::steps(pre->Second_second, cx, step.0, cx_post, step.1),
        Inner::takes_second(
            Inner::<A, B>::Second { second: step.0, trailers: pre->trailers },
            step.1,
            post,
            out,
        ),
{
    choose|second: B, polled: Polled<B::Data, B::Error>|
        {
            &&& #[trigger] B::steps(pre->Second_second, cx, second, cx_post, polled)
            &&& Inner::takes_second(
                Inner::<A, B>::Second { second, trailers: pre->trailers },
                polled,
                post,
                out,
            )
        }
}

/// If the hints of both bodies admit what the bodies have yet to yield, then the hint of a chain
/// of them, neither polled to its end, admits what they have yet to yield together.
pub proof fn chain_hint_admits_both_bodies<A, B>(
    first: A,
    second: B,
    hint: SizeHint,
    n: nat,
    m: nat,
) where A: Body<Data = B::Data>, B: Body, A::Error: Into<B::Error>
    requires
        (Inner::First { first, second }).measures(Some(hint)),
        forall|a: SizeHint| #[trigger] call_ensures(A::size_hint, (&first,), a) ==> a@.admits(n),
        forall|b: SizeHint| #[trigger] call_ensures(B::size_hint, (&second,), b) ==> b@.admits(m),
    ensures
        hint@.admits(n + m),
{
}

/// A chain says that its stream has ended after a poll that neither yielded data nor was pending,
/// and only then.
pub proof fn chain_is_finished_after_its_end<A, B>(
    pre: Inner<A, B>,
    cx: Context<'_>,
    post: Inner<A, B>,
    cx_post: Context<'_>,
    out: ChainPolled<B::Data, B::Error>,
) where A: Body<Data = B::Data>, B: Body, A::Error: Into<B::Error>
    requires
        Inner::steps(pre, cx, post, cx_post, out),
    ensures
        post is Finished <==> !Inner::<A, B>::goes_on(out),
{
}

/// A chain yields nothing after its end: neither data nor an error, and trailers only once.
pub proof fn chain_is_silent_after_its_end<A, B>(
    states: Seq<Inner<A, B>>,
    cxs: Seq<run::Contexts<'_>>,
    outs: Seq<ChainPolled<B::Data, B::Error>>,
    i: int,
    j: int,
) where A: Body<Data = B::Data>, B: Body, A::Error: Into<B::Error>
    requires
        Inner::runs(states, cxs, outs),
        0 <= i < j < outs.len(),
        !Inner::<A, B>::goes_on(outs[i]),
    ensures
        outs[j] == Inner::<A, B>::returned(Poll::Ready(None)),
        states[j + 1] is Finished,
    decreases j - i,
{
    if i + 1 < j {
        chain_is_silent_after_its_end(states, cxs, outs, i, j - 1);
        assert(!Inner::<A, B>::goes_on(outs[j - 1]));
    }
    assert(Inner::steps(states[j - 1], cxs[j - 1].0, states[j], cxs[j - 1].1, outs[j - 1]));
    assert(Inner::steps(states[j], cxs[j].0, states[j + 1], cxs[j].1, outs[j]));
}

/// Every poll of a chain, tried or not, is a step of it.
pub proof fn chain_polls_are_steps<A, B>(
    pre: Chain<A, B>,
    cx: Context<'_>,
    post: Chain<A, B>,
    cx_post: Context<'_>,
    out: Polled<B::Data, B::Error>,
    tried: ChainPolled<B::Data, B::Error>,
) where A: Body<Data = B::Data>, B: Body, A::Error: Into<B::Error>
    ensures
        Chain::<A, B>::steps(pre, cx, post, cx_post, out) ==> Inner::steps(
            pre@,
            cx,
            post@,
            cx_post,
            Ok(out),
        ),
        forall|chain: &mut Chain<A, B>, context: &mut Context<'_>| #[trigger]
            call_ensures(Chain::<A, B>::try_poll_frame, (chain, context), tried) ==> Inner::steps(
                (*chain)@,
                *context,
                (*final(chain))@,
                *final(context),
                tried,
            ),
{
}

/// A chain that is polled to its end without an error ends with the trailers of its bodies: with
/// the very map that one of them left, whatever it holds, if the other one left none, with a
/// trailers frame if both did, and with none only if neither did.
pub proof fn chain_ends_with_the_trailers_of_its_bodies<'a, A, B>(
    first: A,
    second: B,
    states: Seq<Chain<A, B>>,
    cxs: Seq<run::Contexts<'a>>,
    outs: Seq<Polled<B::Data, B::Error>>,
) where A: Body<Data = B::Data>, B: Body, A::Error: Into<B::Error>
    requires
        run::runs(states, cxs, outs),
        call_ensures(Chain::<A, B>::new, (first, second), states[0]),
        outs.len() > 0,
        forall|i: int|
            0 <= i < outs.len() - 1 ==> (match #[trigger] outs[i] {
                Poll::Pending => true,
                Poll::Ready(Some(Ok(Frame::Data(_)))) => true,
                _ => false,
            }),
        match outs.last() {
            Poll::Ready(None) => true,
            Poll::Ready(Some(Ok(Frame::Trailers(_)))) => true,
            _ => false,
        },
    ensures
        exists|
            states_first: Seq<A>,
            outs_first: Seq<Polled<B::Data, A::Error>>,
            mid: Context<'a>,
            states_second: Seq<B>,
            outs_second: Seq<Polled<B::Data, B::Error>>,
        |
            {
                &&& #[trigger] run::runs(
                    states_first,
                    run::handed_first(cxs, outs_first.len(), outs_second.len(), mid),
                    outs_first,
                )
                &&& #[trigger] run::runs(
                    states_second,
                    run::handed_second(cxs, outs_first.len(), outs_second.len(), mid),
                    outs_second,
                )
                &&& states_first[0] == first
                &&& states_second[0] == second
                &&& outs_first.len() > 0
                &&& outs_second.len() > 0
                &&& outs_first.len() - 1 + outs_second.len() == outs.len()
                &&& run::completes(outs_first.last())
                &&& run::completes(outs_second.last())
                &&& match (
                    run::trailers_of(outs_first.last()),
                    run::trailers_of(outs_second.last()),
                ) {
                    (None, None) => outs.last() matches Poll::Ready(None),
                    (Some(map), None) => outs.last() matches Poll::Ready(
                        Some(Ok(Frame::Trailers(yielded))),
                    ) && yielded == map,
                    (None, Some(map)) => outs.last() matches Poll::Ready(
                        Some(Ok(Frame::Trailers(yielded))),
                    ) && yielded == map,
                    (Some(a), Some(b)) => outs.last() matches Poll::Ready(
                        Some(Ok(Frame::Trailers(yielded))),
                    ) && forall|name: Seq<char>|
                        {
                            let merged = trailers::header_entries(yielded);
                            &&& #[trigger] trailers::header_entries(yielded).contains_key(name)
                                <==> trailers::header_entries(a).contains_key(name)
                                || trailers::header_entries(b).contains_key(name)
                            &&& trailers::header_entries(b).contains_key(name) ==> merged[name]
                                == trailers::header_entries(b)[name]
                            &&& trailers::header_entries(a).contains_key(name)
                                && !trailers::header_entries(b).contains_key(name) ==> merged[name]
                                == trailers::header_entries(a)[name]
                        },
                }
            },
{
    let inner = states.map_values(|chain: Chain<A, B>| chain@);
    let tried = outs.map_values(|out: Polled<B::Data, B::Error>| Inner::<A, B>::returned(out));
    assert forall|i: int| 0 <= i < tried.len() implies Inner::steps(
        inner[i],
        cxs[i].0,
        inner[i + 1],
        cxs[i].1,
        #[trigger] tried[i],
    ) by {
        assert(Chain::<A, B>::steps(states[i], cxs[i].0, states[i + 1], cxs[i].1, outs[i]));
    }
    chain_yields_first_then_second(first, second, inner, cxs, tried);
    let (sa, oa, mid, sb, ob) = choose|
        sa: Seq<A>,
        oa: Seq<Polled<B::Data, A::Error>>,
        mid: Context<'a>,
        sb: Seq<B>,
        ob: Seq<Polled<B::Data, B::Error>>,
    |
        {
            &&& #[trigger] Inner::accounts_for(sa, oa, mid, sb, ob, inner.last(), cxs, tried)
            &&& sa[0] == first
            &&& sb[0] == second
        };
    let n = oa.len();
    let m = ob.len();
    let last = outs.len() - 1;
    assert(tried[last] == Inner::<A, B>::returned(outs[last]));
    assert(inner.last() is Finished) by {
        assert(Inner::steps(inner[last], cxs[last].0, inner[last + 1], cxs[last].1, tried[last]));
    }
    let polls = run::polls_of_two(n, m);
    if m == 0 {
        assert(oa[n - 1] == oa.last());
        assert(tried[n - 1] == Inner::<A, B>::returned(outs[n - 1]));
    } else {
        assert(ob[m - 1] == ob.last());
        assert(tried[n - 2 + m] == Inner::<A, B>::returned(outs[n - 2 + m]));
    }
    assert(polls == outs.len());
    assert(m > 0);
    assert(run::runs(sa, run::handed_first(cxs, n, m, mid), oa));
    assert(run::runs(sb, run::handed_second(cxs, n, m, mid), ob));
}

/// A new chain is about to poll its first body. A chain says that it is at its end after a poll
/// that neither was pending nor yielded data, and only then.
pub proof fn chain_is_at_its_end_after_its_last_frame<A, B>(
    first: A,
    second: B,
    new: Chain<A, B>,
    end_new: bool,
    pre: Chain<A, B>,
    cx: Context<'_>,
    post: Chain<A, B>,
    cx_post: Context<'_>,
    out: Polled<B::Data, B::Error>,
    end: bool,
) where A: Body<Data = B::Data>, B: Body, A::Error: Into<B::Error>
    requires
        call_ensures(Chain::<A, B>::new, (first, second), new),
        call_ensures(<Chain<A, B> as Body>::is_end_stream, (&new,), end_new),
        Chain::<A, B>::steps(pre, cx, post, cx_post, out),
        call_ensures(<Chain<A, B> as Body>::is_end_stream, (&post,), end),
    ensures
        new@ matches Inner::First { first: a, second: b } && a == first && b == second,
        !end_new,
        end <==> (match out {
            Poll::Pending => false,
            Poll::Ready(Some(Ok(Frame::Data(_)))) => false,
            _ => true,
        }),
{
}

/// While the first body is polled, the bounds of a chain's hint are the sums of those of hints of
/// both bodies, and there is none exactly if these exceed `u64::MAX`. While the second body is
/// polled, they are those of a hint of that. After the end they are exactly 0.
pub proof fn chain_hints_are_those_of_the_rest<A, B>(chain: Chain<A, B>, out: Option<SizeHint>) where
    A: Body<Data = B::Data>,
    B: Body,
    A::Error: Into<B::Error>,

    requires
        call_ensures(Chain::<A, B>::checked_size_hint, (&chain,), out) || (out is Some
            && call_ensures(<Chain<A, B> as Body>::size_hint, (&chain,), out->0)),
    ensures
        match chain@ {
            Inner::First { first, second } => exists|a: SizeHint, b: SizeHint|
                {
                    &&& #[trigger] call_ensures(A::size_hint, (&first,), a)
                    &&& #[trigger] call_ensures(B::size_hint, (&second,), b)
                    &&& match out {
                        Some(hint) => {
                            &&& hint@.lower == a@.lower + b@.lower
                            &&& hint@.upper == (if a@.upper is Some && b@.upper is Some {
                                Some(a@.upper->0 + b@.upper->0)
                            } else {
                                None
                            })
                        },
                        None => {
                            ||| a@.lower + b@.lower > u64::MAX
                            ||| a@.upper is Some && b@.upper is Some && a@.upper->0 + b@.upper->0
                                > u64::MAX
                        },
                    }
                },
            Inner::Second { second, .. } => exists|b: SizeHint|
                {
                    &&& #[trigger] call_ensures(B::size_hint, (&second,), b)
                    &&& out matches Some(hint)
                    &&& hint@.lower == b@.lower
                    &&& hint@.upper == b@.upper
                },
            Inner::Finished => {
                &&& out matches Some(hint)
                &&& hint@.lower == 0
                &&& hint@.upper == Some(0nat)
            },
        },
{
}

/// If the hints of the second body admit what that has yet to yield, then so does the hint of a
/// chain that polls it; the hint of a finished chain admits 0 bytes and nothing else.
pub proof fn chain_hint_admits_the_rest<A, B>(chain: Chain<A, B>, hint: SizeHint, m: nat) where
    A: Body<Data = B::Data>,
    B: Body,
    A::Error: Into<B::Error>,

    requires
        call_ensures(Chain::<A, B>::checked_size_hint, (&chain,), Some(hint)) || call_ensures(
            <Chain<A, B> as Body>::size_hint,
            (&chain,),
            hint,
        ),
    ensures
        chain@ matches Inner::Second { second, .. } ==> (forall|b: SizeHint| #[trigger]
            call_ensures(B::size_hint, (&second,), b) ==> b@.lower <= m && (b@.upper is None || m
                <= b@.upper->0)) ==> hint@.lower <= m && (hint@.upper is None || m
            <= hint@.upper->0),
        chain@ is Finished ==> (hint@.admits(m) <==> m == 0),
{
}

/// What a poll of the first body returned is returned, if it is pending, data or an error, which
/// finishes the chain; else the second body is next, and the trailers are kept.
pub proof fn first_polls_are_taken_as_they_come<A, B>(
    polled: Polled<B::Data, A::Error>,
    out: Option<Polled<B::Data, B::Error>>,
) where A: Body<Data = B::Data>, B: Body, A::Error: Into<B::Error>
    ensures
        forall|chain: &mut Chain<A, B>|
            (*chain)@ is First && #[trigger] call_ensures(
                Chain::<A, B>::take_first,
                (chain, polled),
                out,
            ) ==> match polled {
                Poll::Pending => {
                    &&& out matches Some(returned)
                    &&& returned is Pending
                    &&& (*final(chain))@ == (*chain)@
                },
                Poll::Ready(Some(Ok(Frame::Data(data)))) => {
                    &&& out matches Some(Poll::Ready(Some(Ok(Frame::Data(yielded)))))
                    &&& yielded == data
                    &&& (*final(chain))@ == (*chain)@
                },
                Poll::Ready(Some(Err(error))) => {
                    &&& out matches Some(Poll::Ready(Some(Err(returned))))
                    &&& call_ensures(<A::Error as Into<B::Error>>::into, (error,), returned)
                    &&& (*final(chain))@ is Finished
                },
                Poll::Ready(Some(Ok(Frame::Trailers(map)))) => {
                    &&& out is None
                    &&& (*final(chain))@ matches Inner::Second { second, trailers: Some(kept) }
                    &&& second == (*chain)@->First_second
                    &&& kept == map
                },
                Poll::Ready(None) => {
                    &&& out is None
                    &&& (*final(chain))@ matches Inner::Second { second, trailers: None }
                    &&& second == (*chain)@->First_second
                },
            },
{
}

/// What a poll of the second body returned is returned, if it is pending, data or an error, which
/// finishes the chain; else the chain is finished with the trailers of both bodies.
pub proof fn second_polls_are_taken_as_they_come<A, B>(
    polled: Polled<B::Data, B::Error>,
    out: ChainPolled<B::Data, B::Error>,
) where A: Body<Data = B::Data>, B: Body, A::Error: Into<B::Error>
    ensures
        forall|chain: &mut Chain<A, B>|
            (*chain)@ is Second && #[trigger] call_ensures(
                Chain::<A, B>::take_second,
                (chain, polled),
                out,
            ) ==> match polled {
                Poll::Ready(None) => {
                    &&& Inner::<A, B>::delivers((*chain)@->trailers, None, out)
                    &&& (*final(chain))@ is Finished
                },
                Poll::Ready(Some(Ok(Frame::Trailers(map)))) => {
                    &&& Inner::<A, B>::delivers((*chain)@->trailers, Some(map), out)
                    &&& (*final(chain))@ is Finished
                },
                Poll::Ready(Some(Err(_))) => {
                    &&& out matches Ok(returned)
                    &&& returned == polled
                    &&& (*final(chain))@ is Finished
                },
                _ => {
                    &&& out matches Ok(returned)
                    &&& returned == polled
                    &&& (*final(chain))@ == (*chain)@
                },
            },
{
    assert forall|chain: &mut Chain<A, B>|
        (*chain)@ is Second && #[trigger] call_ensures(
            Chain::<A, B>::take_second,
            (chain, polled),
            out,
        ) && run::completes(polled) implies Inner::<A, B>::delivers(
        (*chain)@->trailers,
        run::trailers_of(polled),
        out,
    ) by {
        conclusion_delivers::<A, B>((*chain)@->trailers, run::trailers_of(polled), out);
    }
}

/// A chain can be polled if the bodies can that a poll may reach, unless the trailers of both may
/// come to more than 6553 names. It can be measured if its bodies can, unless the bounds of their
/// hints may exceed `u64::MAX`.
pub proof fn chain_can_be_polled_if_its_bodies_can<A, B>(chain: Chain<A, B>) where
    A: Body<Data = B::Data>,
    B: Body,
    A::Error: Into<B::Error>,

    ensures
        match chain@ {
            Inner::First { first, second } => {
                &&& {
                    &&& first.pollable()
                    &&& second.pollable()
                    &&& forall|
                        cx: Context<'_>,
                        a_post: A,
                        cx_mid: Context<'_>,
                        a: HeaderMap,
                        b_post: B,
                        cx_post: Context<'_>,
                        b: HeaderMap,
                    |
                        {
                            &&& #[trigger] A::steps(
                                first,
                                cx,
                                a_post,
                                cx_mid,
                                Poll::Ready(Some(Ok(Frame::Trailers(a)))),
                            )
                            &&& #[trigger] B::steps(
                                second,
                                cx_mid,
                                b_post,
                                cx_post,
                                Poll::Ready(Some(Ok(Frame::Trailers(b)))),
                            )
                        } ==> trailers::header_entries(a).dom().union(
                            trailers::header_entries(b).dom(),
                        ).len() <= 6553
                } ==> chain.pollable()
                &&& {
                    &&& first.measurable()
                    &&& second.measurable()
                    &&& forall|a: SizeHint, b: SizeHint|
                        {
                            &&& #[trigger] call_ensures(A::size_hint, (&first,), a)
                            &&& #[trigger] call_ensures(B::size_hint, (&second,), b)
                        } ==> a@.lower + b@.lower <= u64::MAX && (a@.upper is Some && b@.upper is Some
                            ==> a@.upper->0 + b@.upper->0 <= u64::MAX)
                } ==> chain.measurable()
            },
            Inner::Second { second, trailers } => {
                &&& {
                    &&& second.pollable()
                    &&& forall|
                        cx: Context<'_>,
                        b_post: B,
                        cx_post: Context<'_>,
                        b: HeaderMap,
                    |
                        trailers is Some && #[trigger] B::steps(
                            second,
                            cx,
                            b_post,
                            cx_post,
                            Poll::Ready(Some(Ok(Frame::Trailers(b)))),
                        ) ==> trailers::header_entries(trailers->0).dom().union(
                            trailers::header_entries(b).dom(),
                        ).len() <= 6553
                } ==> chain.pollable()
                &&& second.measurable() ==> chain.measurable()
            },
            Inner::Finished => chain.pollable() && chain.measurable(),
        },
{
    assert forall|a: HeaderMap, b: HeaderMap| #[trigger] trailers::mergeable(a, b) <==>
        trailers::header_entries(a).dom().union(trailers::header_entries(b).dom()).len() <= 6553 by {
        assert(trailers::header_entries(a).union_prefer_right(trailers::header_entries(b)).dom()
            =~= trailers::header_entries(a).dom().union(trailers::header_entries(b).dom()));
    }
}

/// A poll of a chain polls the first body until that is complete, and from that poll on the second
/// one. What it returns and leaves behind is decided by what these return.
pub proof fn chain_step_is_a_step_of_its_bodies<A, B>(
    pre: Inner<A, B>,
    cx: Context<'_>,
    post: Inner<A, B>,
    cx_post: Context<'_>,
    out: ChainPolled<B::Data, B::Error>,
) where A: Body<Data = B::Data>, B: Body, A::Error: Into<B::Error>
    requires
        Inner::steps(pre, cx, post, cx_post, out),
    ensures
        pre matches Inner::First { first, second } ==> exists|
            a: A,
            cx_mid: Context<'_>,
            polled: Polled<B::Data, A::Error>,
        |
            {
                &&& #[trigger] A::steps(first, cx, a, cx_mid, polled)
                &&& match polled {
                    Poll::Pending => {
                        &&& out matches Ok(Poll::Pending)
                        &&& post == (Inner::First { first: a, second })
                        &&& cx_post == cx_mid
                    },
                    Poll::Ready(Some(Ok(Frame::Data(data)))) => {
                        &&& out matches Ok(Poll::Ready(Some(Ok(Frame::Data(yielded)))))
                        &&& yielded == data
                        &&& post == (Inner::First { first: a, second })
                        &&& cx_post == cx_mid
                    },
                    Poll::Ready(Some(Err(error))) => {
                        &&& out matches Ok(Poll::Ready(Some(Err(returned))))
                        &&& call_ensures(<A::Error as Into<B::Error>>::into, (error,), returned)
                        &&& post is Finished
                        &&& cx_post == cx_mid
                    },
                    Poll::Ready(Some(Ok(Frame::Trailers(map)))) => Inner::<A, B>::polls_second(
                        second,
                        Some(map),
                        cx_mid,
                        post,
                        cx_post,
                        out,
                    ),
                    Poll::Ready(None) => Inner::<A, B>::polls_second(
                        second,
                        None,
                        cx_mid,
                        post,
                        cx_post,
                        out,
                    ),
                }
            },
        pre matches Inner::Second { second, trailers } ==> Inner::<A, B>::polls_second(
            second,
            trailers,
            cx,
            post,
            cx_post,
            out,
        ),
        pre is Finished ==> post is Finished && cx_post == cx && (out matches Ok(Poll::Ready(None))),
{
    match pre {
        Inner::First { first, second } => {
            let (a, cx_mid, polled, mid, now) = choose|
                a: A,
                cx_mid: Context<'_>,
                polled: Polled<B::Data, A::Error>,
                mid: Inner<A, B>,
                now: Option<Polled<B::Data, B::Error>>,
            |
                {
                    &&& #[trigger] A::steps(first, cx, a, cx_mid, polled)
                    &&& #[trigger] Inner::takes_first(
                        Inner::First { first: a, second },
                        polled,
                        mid,
                        now,
                    )
                    &&& match now {
                        Some(polled) => {
                            &&& post == mid
                            &&& cx_post == cx_mid
                            &&& out == Inner::<A, B>::returned(polled)
                        },
                        None => Inner::steps_second(mid, cx_mid, post, cx_post, out),
                    }
                };
            if now is None {
                second_body_is_polled(mid, cx_mid, post, cx_post, out);
            }
            assert(A::steps(first, cx, a, cx_mid, polled));
        },
        Inner::Second { .. } => {
            second_body_is_polled(pre, cx, post, cx_post, out);
        },
        Inner::Finished => {},
    }
}

impl<A, B> Inner<A, B> where A: Body<Data = B::Data>, B: Body, A::Error: Into<B::Error> {
    /// Whether a poll of the second body, where the first one has left `trailers`, may make the
    /// chain return `out` and leave it in state `post`.
    pub open spec fn polls_second(
        second: B,
        trailers: Option<HeaderMap>,
        cx: Context<'_>,
        post: Self,
        cx_post: Context<'_>,
        out: ChainPolled<B::Data, B::Error>,
    ) -> bool {
        exists|b: B, polled: Polled<B::Data, B::Error>|
            {
                &&& #[trigger] B::steps(second, cx, b, cx_post, polled)
                &&& match polled {
                    Poll::Ready(None) => Self::delivers(trailers, None, out) && post is Finished,
                    Poll::Ready(Some(Ok(Frame::Trailers(map)))) => Self::delivers(
                        trailers,
                        Some(map),
                        out,
                    ) && post is Finished,
                    Poll::Ready(Some(Err(_))) => {
                        &&& out matches Ok(returned)
                        &&& returned == polled
                        &&& post is Finished
                    },
                    _ => {
                        &&& out matches Ok(returned)
                        &&& returned == polled
                        &&& post == (Self::Second { second: b, trailers })
                    },
                }
            }
    }
}

/// The step of a chain that polls its second body.
proof fn second_body_is_polled<A, B>(
    pre: Inner<A, B>,
    cx: Context<'_>,
    post: Inner<A, B>,
    cx_post: Context<'_>,
    out: ChainPolled<B::Data, B::Error>,
) where A: Body<Data = B::Data>, B: Body, A::Error: Into<B::Error>
    requires
        pre is Second,
        Inner::steps_second(pre, cx, post, cx_post, out),
    ensures
        Inner::<A, B>::polls_second(
            pre->Second_second,
            pre->trailers,
            cx,
            post,
            cx_post,
            out,
        ),
{
    let (b, polled) = second_step(pre, cx, post, cx_post, out);
    if run::completes(polled) {
        conclusion_delivers::<A, B>(pre->trailers, run::trailers_of(polled), out);
    }
    assert(B::steps(pre->Second_second, cx, b, cx_post, polled));
}

/// Any two bodies can be chained. A chain can be tried whenever the bodies can be polled that it
/// may reach, measured whenever its bodies can, and takes any outcome of the body that it polls.
pub proof fn chains_can_be_tried_if_their_bodies_can_be_polled<A, B>(
    a: A,
    b: B,
    chain: Chain<A, B>,
    polled_first: Polled<B::Data, A::Error>,
    polled_second: Polled<B::Data, B::Error>,
) where A: Body<Data = B::Data>, B: Body, A::Error: Into<B::Error>
    ensures
        call_requires(Chain::<A, B>::new, (a, b)),
        forall|chain: &mut Chain<A, B>, cx: &mut Context<'_>|
            (match (*chain)@ {
                Inner::First { first, second } => first.pollable() && second.pollable(),
                Inner::Second { second, .. } => second.pollable(),
                Inner::Finished => true,
            }) ==> #[trigger] call_requires(Chain::<A, B>::try_poll_frame, (chain, cx)),
        (match chain@ {
            Inner::First { first, second } => first.measurable() && second.measurable(),
            Inner::Second { second, .. } => second.measurable(),
            Inner::Finished => true,
        }) ==> call_requires(Chain::<A, B>::checked_size_hint, (&chain,)),
        forall|chain: &mut Chain<A, B>|
            (*chain)@ is First ==> #[trigger] call_requires(
                Chain::<A, B>::take_first,
                (chain, polled_first),
            ),
        forall|chain: &mut Chain<A, B>|
            (*chain)@ is Second ==> #[trigger] call_requires(
                Chain::<A, B>::take_second,
                (chain, polled_second),
            ),
{
}

} // verus!
