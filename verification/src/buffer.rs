//! The working buffer of a stream reader.
//!
//! Bytes arrive from the transport in pieces of any size. The reader collects
//! them here until a whole frame is present, and takes each frame off the
//! front. The buffer has a fixed limit: bytes that would not fit are never
//! accepted, so the cursor cannot pass the limit.

use vstd::prelude::*;
use bytes::BytesMut;

verus! {

/// The byte buffer of the `bytes` crate. Its inside is not visible here: what
/// it holds is spoken of through [`held`].
#[verifier::external_type_specification]
#[verifier::external_body]
pub struct ExBytesMut(BytesMut);

/// The bytes that a `BytesMut` holds, first to last.
pub uninterp spec fn held(buffer: BytesMut) -> Seq<u8>;

/// `BytesMut::with_capacity` returns a buffer that holds no bytes. It hands
/// the capacity to `Vec::with_capacity`, which panics above `isize::MAX`.
pub assume_specification[ BytesMut::with_capacity ](capacity: usize) -> (buffer: BytesMut)
    requires
        capacity <= isize::MAX,
    ensures
        held(buffer) == Seq::<u8>::empty(),
;

/// `BytesMut::len` returns the number of bytes held.
pub assume_specification[ BytesMut::len ](buffer: &BytesMut) -> (len: usize)
    ensures
        len == held(*buffer).len(),
;

/// `BytesMut::extend_from_slice` appends the bytes of `extend`. It reserves
/// room for them first, which panics where the new length overflows.
pub assume_specification[ BytesMut::extend_from_slice ](buffer: &mut BytesMut, extend: &[u8])
    requires
        held(*old(buffer)).len() + extend@.len() <= isize::MAX,
    ensures
        held(*final(buffer)) == held(*old(buffer)) + extend@,
;

/// `BytesMut::split_to` returns the first `at` bytes and leaves the rest. It
/// panics where `at` is beyond the length.
pub assume_specification[ BytesMut::split_to ](buffer: &mut BytesMut, at: usize) -> (head: BytesMut)
    requires
        at <= held(*old(buffer)).len(),
    ensures
        held(head) == held(*old(buffer)).take(at as int),
        held(*final(buffer)) == held(*old(buffer)).skip(at as int),
;

/// `BytesMut::clear` removes every byte.
pub assume_specification[ BytesMut::clear ](buffer: &mut BytesMut)
    ensures
        held(*final(buffer)) == Seq::<u8>::empty(),
;

/// The bytes of a `BytesMut` as a slice, through its `AsRef<[u8]>`.
#[verifier::external_body]
fn bytes_of(buffer: &BytesMut) -> (bytes: &[u8])
    ensures
        bytes@ == held(*buffer),
{
    buffer.as_ref()
}

/// A byte buffer with a fixed limit.
pub struct WorkingBuffer {
    bytes: BytesMut,
    limit: usize,
}

impl View for WorkingBuffer {
    type V = Seq<u8>;

    closed spec fn view(&self) -> Seq<u8> {
        held(self.bytes)
    }
}

impl WorkingBuffer {
    /// The number of bytes the buffer accepts.
    pub closed spec fn capacity(&self) -> nat {
        if self.limit <= isize::MAX {
            self.limit as nat
        } else {
            isize::MAX as nat
        }
    }

    /// The cursor has not passed the limit. A buffer starts out so, and
    /// nothing that is done to it changes that.
    pub open spec fn within_capacity(&self) -> bool {
        self@.len() <= self.capacity()
    }

    /// An empty buffer that accepts `limit` bytes, or as many as a buffer can
    /// hold where `limit` asks for more.
    pub fn new(limit: usize) -> (buffer: WorkingBuffer)
        ensures
            buffer@ == Seq::<u8>::empty(),
            buffer.within_capacity(),
            buffer.capacity() == if limit <= isize::MAX { limit as nat } else { isize::MAX as nat },
    {
        let limit = if limit <= isize::MAX as usize { limit } else { isize::MAX as usize };
        WorkingBuffer { bytes: BytesMut::with_capacity(limit), limit }
    }

    /// The number of bytes the buffer accepts.
    pub fn limit(&self) -> (limit: usize)
        ensures
            limit == self.capacity(),
            limit <= isize::MAX,
    {
        if self.limit <= isize::MAX as usize {
            self.limit
        } else {
            isize::MAX as usize
        }
    }

    /// The number of bytes held.
    pub fn len(&self) -> (len: usize)
        ensures
            len == self@.len(),
    {
        self.bytes.len()
    }

    /// The number of bytes that still fit.
    pub fn remaining(&self) -> (room: usize)
        ensures
            room == if self.within_capacity() {
                self.capacity() - self@.len()
            } else {
                0
            },
    {
        let limit = self.limit();
        let len = self.bytes.len();
        if len <= limit {
            limit - len
        } else {
            0
        }
    }

    /// Whether the cursor has reached the limit.
    pub fn is_full(&self) -> (full: bool)
        ensures
            full <==> self@.len() >= self.capacity(),
    {
        self.bytes.len() >= self.limit()
    }

    /// The bytes held, first to last.
    pub fn as_slice(&self) -> (bytes: &[u8])
        ensures
            bytes@ == self@,
    {
        bytes_of(&self.bytes)
    }

    /// Appends `chunk` where it fits, and says whether it did. A chunk that
    /// does not fit leaves the buffer as it is.
    pub fn append(&mut self, chunk: &[u8]) -> (fits: bool)
        ensures
            final(self).capacity() == old(self).capacity(),
            fits <==> old(self)@.len() + chunk@.len() <= old(self).capacity(),
            final(self)@ == if fits { old(self)@ + chunk@ } else { old(self)@ },
            old(self).within_capacity() ==> final(self).within_capacity(),
    {
        let limit = self.limit();
        let len = self.bytes.len();
        if len > limit || chunk.len() > limit - len {
            return false;
        }
        self.bytes.extend_from_slice(chunk);
        true
    }

    /// Drops the first `count` bytes, or all of them where fewer are held.
    pub fn consume(&mut self, count: usize)
        ensures
            final(self).capacity() == old(self).capacity(),
            final(self)@ == if count <= old(self)@.len() {
                old(self)@.skip(count as int)
            } else {
                Seq::<u8>::empty()
            },
            old(self).within_capacity() ==> final(self).within_capacity(),
    {
        if count <= self.bytes.len() {
            let _ = self.bytes.split_to(count);
        } else {
            self.bytes.clear();
        }
    }

    /// Drops every byte.
    pub fn reset(&mut self)
        ensures
            final(self).capacity() == old(self).capacity(),
            final(self)@ == Seq::<u8>::empty(),
            final(self).within_capacity(),
    {
        self.bytes.clear();
    }
}

} // verus!
