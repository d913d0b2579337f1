//! Streaming bodies, and what a poll of one returns.

use crate::size_hint::{Bounds, SizeHint};
use http::HeaderMap;
use std::task::{Context, Poll};
use vstd::prelude::*;

verus! {

/// [`Context`] is carried from the caller of a poll to the polled body.
#[verifier::external_type_specification]
#[verifier::external_body]
pub struct ExContext<'a>(std::task::Context<'a>);

/// [`Poll`] is an enum of std whose two variants are public.
#[verifier::external_type_specification]
pub struct ExPoll<T>(std::task::Poll<T>);

/// A frame of a body: a piece of its data, or the trailers that follow the data.
#[derive(Debug)]
pub enum Frame<T> {
    Data(T),
    Trailers(HeaderMap),
}

impl<T> Frame<T> {
    /// Creates a data frame.
    pub fn data(data: T) -> (frame: Self)
        ensures
            frame == Frame::Data(data),
    {
        Frame::Data(data)
    }

    /// Creates a trailers frame.
    pub fn trailers(map: HeaderMap) -> (frame: Self)
        ensures
            frame == Frame::<T>::Trailers(map),
    {
        Frame::Trailers(map)
    }

    /// Takes the data out of a data frame; any other frame is handed back.
    pub fn into_data(self) -> (data: Result<T, Self>)
        ensures
            data == (match self {
                Frame::Data(data) => Ok(data),
                Frame::Trailers(_) => Err(self),
            }),
    {
        match self {
            Frame::Data(data) => Ok(data),
            other => Err(other),
        }
    }

    /// Takes the map out of a trailers frame; any other frame is handed back.
    pub fn into_trailers(self) -> (trailers: Result<HeaderMap, Self>)
        ensures
            trailers == (match self {
                Frame::Trailers(map) => Ok(map),
                Frame::Data(_) => Err(self),
            }),
    {
        match self {
            Frame::Trailers(map) => Ok(map),
            other => Err(other),
        }
    }
}

/// What a poll of a body returns:
///
/// - `Pending` if the next frame is not ready yet,
/// - `Ready(Some(Ok(frame)))` when the next frame is available,
/// - `Ready(Some(Err(error)))` when an error has been reached,
/// - `Ready(None)` when there are no more frames.
pub type Polled<D, E> = Poll<Option<Result<Frame<D>, E>>>;

/// A streaming body of a request or response.
pub trait Body: Sized {
    /// The data of the body's frames.
    type Data;

    /// The error that the body may come to.
    type Error;

    /// The steps of the body: whether a poll of `pre` that is handed the context `cx` may return
    /// `out` and leave `post` behind, and `cx_post` of the context.
    ///
    /// Of a body that does not say, every step is possible.
    open spec fn steps(
        pre: Self,
        cx: Context<'_>,
        post: Self,
        cx_post: Context<'_>,
        out: Polled<Self::Data, Self::Error>,
    ) -> bool {
        true
    }

    /// Whether the body can be polled. A body that does not say always can.
    open spec fn pollable(&self) -> bool {
        true
    }

    /// Whether the body can be asked for a size hint. A body that does not say always can.
    open spec fn measurable(&self) -> bool {
        true
    }

    /// Attempts to pull out the next frame.
    fn poll_frame(&mut self, cx: &mut Context<'_>) -> (out: Polled<Self::Data, Self::Error>)
        requires
            old(self).pollable(),
        ensures
            Self::steps(*old(self), *old(cx), *final(self), *final(cx), out),
    ;

    /// Returns `true` only where the end of the stream has been reached.
    fn is_end_stream(&self) -> (end: bool)
        default_ensures
            !end,
    {
        false
    }

    /// Returns bounds on the number of bytes that the body has yet to yield.
    fn size_hint(&self) -> (hint: SizeHint)
        requires
            self.measurable(),
        default_ensures
            hint@ == Bounds::unknown(),
    {
        SizeHint::new()
    }
}

/// Whether the conversion of `from` may give `to`.
pub open spec fn converts<T: Into<U>, U>(from: T, to: U) -> bool {
    call_ensures(<T as Into<U>>::into, (from,), to)
}

/// [`From::from`] to the type that a value already has returns the value unchanged.
pub assume_specification<V>[ <V as std::convert::From<V>>::from ](value: V) -> (result: V)
    ensures
        result == value,
;

/// A value that is converted to its own type stays as it is.
pub proof fn conversion_to_own_type_is_identity<E>(from: E, to: E)
    requires
        converts(from, to),
    ensures
        to == from,
{
}

/// A frame gives up what it was made of, and is handed back if asked for something else.
pub proof fn frames_give_up_what_they_hold<T>(
    data: T,
    map: HeaderMap,
    data_frame: Frame<T>,
    trailers_frame: Frame<T>,
)
    requires
        call_ensures(Frame::<T>::data, (data,), data_frame),
        call_ensures(Frame::<T>::trailers, (map,), trailers_frame),
    ensures
        forall|out: Result<T, Frame<T>>| #[trigger]
            call_ensures(Frame::<T>::into_data, (data_frame,), out) ==> (out matches Ok(taken)
                && taken == data),
        forall|out: Result<HeaderMap, Frame<T>>| #[trigger]
            call_ensures(Frame::<T>::into_trailers, (trailers_frame,), out) ==> (out matches Ok(
                taken,
            ) && taken == map),
        forall|out: Result<T, Frame<T>>| #[trigger]
            call_ensures(Frame::<T>::into_data, (trailers_frame,), out) ==> (out matches Err(back)
                && back == trailers_frame),
        forall|out: Result<HeaderMap, Frame<T>>| #[trigger]
            call_ensures(Frame::<T>::into_trailers, (data_frame,), out) ==> (out matches Err(back)
                && back == data_frame),
        data_frame matches Frame::Data(held) && held == data,
        trailers_frame matches Frame::Trailers(held) && held == map,
{
}

/// A poll of a body is one of its steps, and can be made whenever the body says so.
pub proof fn polls_are_steps<B: Body>(out: Polled<B::Data, B::Error>)
    ensures
        forall|body: &mut B, cx: &mut Context<'_>| #[trigger]
            call_ensures(B::poll_frame, (body, cx), out) ==> B::steps(
                *body,
                *cx,
                *final(body),
                *final(cx),
                out,
            ),
        forall|body: &mut B, cx: &mut Context<'_>|
            (*body).pollable() ==> #[trigger] call_requires(B::poll_frame, (body, cx)),
        forall|body: B| body.measurable() ==> #[trigger] call_requires(B::size_hint, (&body,)),
        forall|body: B| #[trigger] call_requires(B::is_end_stream, (&body,)),
{
}

/// Frames can be made of anything, and asked for anything.
pub proof fn frames_can_be_used_freely<T>(data: T, map: HeaderMap, frame: Frame<T>)
    ensures
        call_requires(Frame::<T>::data, (data,)),
        call_requires(Frame::<T>::trailers, (map,)),
        call_requires(Frame::<T>::into_data, (frame,)),
        call_requires(Frame::<T>::into_trailers, (frame,)),
{
}

} // verus!
