//! Runs of a body: polls that follow each other.

use crate::body::{Body, Frame, Polled};
use http::HeaderMap;
use std::task::{Context, Poll};
use vstd::prelude::*;

verus! {

/// The context of a poll: as it was handed in, and as it was left.
pub type Contexts<'a> = (Context<'a>, Context<'a>);

/// Whether a body may go through `states` while polls of it, in the contexts `cxs`, return `outs`.
pub open spec fn runs<B: Body>(
    states: Seq<B>,
    cxs: Seq<Contexts<'_>>,
    outs: Seq<Polled<B::Data, B::Error>>,
) -> bool {
    &&& states.len() == outs.len() + 1
    &&& cxs.len() == outs.len()
    &&& forall|i: int|
        0 <= i < outs.len() ==> B::steps(
            states[i],
            cxs[i].0,
            states[i + 1],
            cxs[i].1,
            #[trigger] outs[i],
        )
}

/// How many polls there are if one thing is polled in `n` of them and another one in `m`, the first
/// time in the last poll of the one before.
pub open spec fn polls_of_two(n: nat, m: nat) -> int {
    if m == 0 {
        n as int
    } else {
        n - 1 + m
    }
}

/// The contexts that the one gets that is polled first, if the polls get `cxs` and `mid` is what it
/// leaves of the context in the poll that it shares.
pub open spec fn handed_first<'a>(
    cxs: Seq<Contexts<'a>>,
    n: nat,
    m: nat,
    mid: Context<'a>,
) -> Seq<Contexts<'a>> {
    if m == 0 {
        cxs.take(n as int)
    } else {
        cxs.take(n as int).update(n - 1, (cxs[n - 1].0, mid))
    }
}

/// The contexts that the one gets that is polled second.
pub open spec fn handed_second<'a>(
    cxs: Seq<Contexts<'a>>,
    n: nat,
    m: nat,
    mid: Context<'a>,
) -> Seq<Contexts<'a>> {
    if m == 0 {
        seq![]
    } else {
        cxs.subrange(n - 1, n - 1 + m).update(0, (mid, cxs[n - 1].1))
    }
}

/// Whether the contexts of all polls from the one at `start` on are left as they were.
pub open spec fn untouched_from(cxs: Seq<Contexts<'_>>, start: int) -> bool {
    forall|i: int| start <= i < cxs.len() ==> (#[trigger] cxs[i]).1 == cxs[i].0
}

/// Whether more may follow after a poll that returned `out`: it yielded data, or nothing yet.
pub open spec fn goes_on<D, E>(out: Polled<D, E>) -> bool {
    out matches Poll::Ready(ready) ==> ready matches Some(Ok(Frame::Data(_)))
}

/// Whether a body is complete once a poll of it has returned `out`: it yielded trailers, or it had
/// no more frames.
pub open spec fn completes<D, E>(out: Polled<D, E>) -> bool {
    out matches Poll::Ready(ready) && (ready is None || ready matches Some(Ok(Frame::Trailers(_))))
}

/// The trailers that a poll yielded.
pub open spec fn trailers_of<D, E>(out: Polled<D, E>) -> Option<HeaderMap> {
    match out {
        Poll::Ready(Some(Ok(Frame::Trailers(map)))) => Some(map),
        _ => None,
    }
}

/// The data that a poll yielded.
pub open spec fn data_of<D, E>(out: Polled<D, E>) -> Seq<D> {
    match out {
        Poll::Ready(Some(Ok(Frame::Data(data)))) => seq![data],
        _ => seq![],
    }
}

/// The data that was yielded in a run.
pub open spec fn data_in<D, E>(outs: Seq<Polled<D, E>>) -> Seq<D>
    decreases outs.len(),
{
    if outs.len() == 0 {
        seq![]
    } else {
        data_in(outs.drop_last()) + data_of(outs.last())
    }
}

/// The errors that were returned in a run.
pub open spec fn errors_in<D, E>(outs: Seq<Polled<D, E>>) -> Seq<E>
    decreases outs.len(),
{
    if outs.len() == 0 {
        seq![]
    } else {
        errors_in(outs.drop_last()) + (match outs.last() {
            Poll::Ready(Some(Err(error))) => seq![error],
            _ => seq![],
        })
    }
}

/// The trailers that were yielded in a run.
pub open spec fn trailers_in<D, E>(outs: Seq<Polled<D, E>>) -> Seq<HeaderMap>
    decreases outs.len(),
{
    if outs.len() == 0 {
        seq![]
    } else {
        trailers_in(outs.drop_last()) + (match trailers_of(outs.last()) {
            Some(map) => seq![map],
            None => seq![],
        })
    }
}

/// Whether a body is polled no further once it is complete or has failed.
pub open spec fn stops_in_time<D, E>(outs: Seq<Polled<D, E>>) -> bool {
    forall|i: int| 0 <= i < outs.len() - 1 ==> goes_on(#[trigger] outs[i])
}

/// One poll more makes a longer run.
pub proof fn run_extends<B: Body>(
    states: Seq<B>,
    cxs: Seq<Contexts<'_>>,
    outs: Seq<Polled<B::Data, B::Error>>,
    post: B,
    cx: Contexts<'_>,
    out: Polled<B::Data, B::Error>,
)
    requires
        runs(states, cxs, outs),
        B::steps(states.last(), cx.0, post, cx.1, out),
    ensures
        runs(states.push(post), cxs.push(cx), outs.push(out)),
        data_in(outs.push(out)) == data_in(outs) + data_of(out),
{
    assert(outs.push(out).drop_last() =~= outs);
}

} // verus!
