//! Buffers of bytes that are read from the front.

use bytes::Bytes;
use vstd::prelude::*;

verus! {

/// [`Bytes`] is a contiguous piece of memory that is cheap to clone.
#[verifier::external_type_specification]
#[verifier::external_body]
pub struct ExBytes(bytes::Bytes);

/// The bytes that a [`Bytes`] holds.
pub uninterp spec fn bytes_held(bytes: bytes::Bytes) -> Seq<u8>;

/// The `bytes::Buf::chunk` of a [`Bytes`] is all that it holds.
#[verifier::external_body]
fn bytes_chunk(bytes: &Bytes) -> (chunk: &[u8])
    ensures
        chunk@ == bytes_held(*bytes),
{
    bytes::Buf::chunk(bytes)
}

/// The `bytes::Buf::advance` of a [`Bytes`] takes the given number of bytes off its front.
#[verifier::external_body]
fn bytes_advance(bytes: &mut Bytes, cnt: usize)
    requires
        cnt <= bytes_held(*old(bytes)).len(),
    ensures
        bytes_held(*final(bytes)) == bytes_held(*old(bytes)).skip(cnt as int),
{
    bytes::Buf::advance(bytes, cnt);
}

/// Read access to a sequence of bytes that may lie in memory in several pieces.
pub trait Buf: Sized {
    /// The bytes that are still to be read.
    spec fn content(&self) -> Seq<u8>;

    /// Returns the number of bytes that are still to be read, or `usize::MAX` if there are more.
    fn remaining(&self) -> (n: usize)
        ensures
            n == capped(self.content().len()),
    ;

    /// Returns some of the bytes that come next. There are none only if nothing is left.
    fn chunk(&self) -> (chunk: &[u8])
        ensures
            chunk@.is_prefix_of(self.content()),
            chunk@.len() == 0 ==> self.content().len() == 0,
    ;

    /// Moves past the next `cnt` bytes.
    fn advance(&mut self, cnt: usize)
        requires
            cnt <= old(self).content().len(),
        ensures
            final(self).content() == old(self).content().skip(cnt as int),
    ;
}

/// The number `n`, or `usize::MAX` if that is less.
pub open spec fn capped(n: nat) -> nat {
    if n <= usize::MAX {
        n
    } else {
        usize::MAX as nat
    }
}

impl Buf for &[u8] {
    open spec fn content(&self) -> Seq<u8> {
        self@
    }

    fn remaining(&self) -> (n: usize) {
        self.len()
    }

    fn chunk(&self) -> (chunk: &[u8])
        ensures
            chunk@ == self.content(),
    {
        *self
    }

    fn advance(&mut self, cnt: usize) {
        *self = self.split_at(cnt).1;
    }
}

impl Buf for Bytes {
    open spec fn content(&self) -> Seq<u8> {
        bytes_held(*self)
    }

    fn remaining(&self) -> (n: usize) {
        bytes_chunk(self).len()
    }

    fn chunk(&self) -> (chunk: &[u8])
        ensures
            chunk@ == self.content(),
    {
        bytes_chunk(self)
    }

    fn advance(&mut self, cnt: usize) {
        bytes_advance(self, cnt);
    }
}

/// One who reads a buffer to its end, by moving past some of the bytes that come next time and
/// again, has read all of it, in order.
pub proof fn reading_to_the_end_yields_all(contents: Seq<Seq<u8>>, reads: Seq<Seq<u8>>)
    requires
        contents.len() == reads.len() + 1,
        forall|i: int|
            0 <= i < reads.len() ==> (#[trigger] reads[i]).is_prefix_of(contents[i])
                && contents[i + 1] == contents[i].skip(reads[i].len() as int),
        contents.last().len() == 0,
    ensures
        reads.flatten() == contents[0],
    decreases reads.len(),
{
    if reads.len() == 0 {
        assert(reads.flatten() =~= contents[0]);
    } else {
        let rest = reads.drop_first();
        let after = contents.drop_first();
        assert forall|i: int| 0 <= i < rest.len() implies (#[trigger] rest[i]).is_prefix_of(after[i])
            && after[i + 1] == after[i].skip(rest[i].len() as int) by {
            assert(rest[i] == reads[i + 1]);
        }
        reading_to_the_end_yields_all(after, rest);
        assert(reads[0].is_prefix_of(contents[0]));
        assert(reads.flatten() =~= contents[0]);
    }
}

/// A buffer counts the bytes in it up to `usize::MAX`, shows those that come next, some if there
/// are any, and moves past as many as it is told.
pub proof fn buffers_are_read_from_the_front<T: Buf>(buf: T, n: usize, chunk: &[u8], cnt: usize)
    requires
        call_ensures(T::remaining, (&buf,), n),
        call_ensures(T::chunk, (&buf,), chunk),
    ensures
        buf.content().len() <= usize::MAX ==> n == buf.content().len(),
        buf.content().len() > usize::MAX ==> n == usize::MAX,
        chunk@.len() <= buf.content().len(),
        forall|i: int| 0 <= i < chunk@.len() ==> #[trigger] chunk@[i] == buf.content()[i],
        buf.content().len() > 0 ==> chunk@.len() > 0,
        forall|reader: &mut T|
            (*reader).content().len() >= cnt && #[trigger] call_ensures(T::advance, (reader, cnt), ())
                ==> {
                &&& (*final(reader)).content().len() == (*reader).content().len() - cnt
                &&& forall|i: int|
                    0 <= i < (*final(reader)).content().len() ==> (*final(reader)).content()[i]
                        == (*reader).content()[i + cnt]
            },
{
}

/// A slice and a [`Bytes`] hold their bytes, all in one chunk.
pub proof fn contiguous_buffers_hold_their_bytes(
    slice: &[u8],
    bytes: Bytes,
    slice_chunk: &[u8],
    bytes_chunk: &[u8],
)
    requires
        call_ensures(<&[u8] as Buf>::chunk, (&slice,), slice_chunk),
        call_ensures(<Bytes as Buf>::chunk, (&bytes,), bytes_chunk),
    ensures
        (&slice).content() == slice@,
        bytes.content() == bytes_held(bytes),
        slice_chunk@ == slice@,
        bytes_chunk@ == bytes_held(bytes),
{
}

/// Any buffer can be counted and looked at, and moved past as many bytes as are left.
pub proof fn buffers_can_be_read_freely<T: Buf>(buf: T, cnt: usize)
    ensures
        call_requires(T::remaining, (&buf,)),
        call_requires(T::chunk, (&buf,)),
        forall|reader: &mut T|
            cnt <= (*reader).content().len() ==> #[trigger] call_requires(T::advance, (reader, cnt)),
{
}

} // verus!
