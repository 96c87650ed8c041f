//! The two sides of a ring buffer, as separate handles.
//!
//! A handle borrows the buffer for as long as it lives and passes each call
//! straight on to it. What a handle's method promises is what the buffer's
//! method of the same name promises, said of the borrowed buffer.

use crate::ring::RingBuf;
use crate::storage::ByteArray;
use vstd::prelude::*;

verus! {

/// The consumer's side of a buffer: it can take bytes out and nothing else.
///
/// The field is public so that contracts can speak of the borrowed buffer;
/// a consumer is meant to go through `dequeue` and `read`.
pub struct RingReader<'a, S: ByteArray> {
    pub ring: &'a mut RingBuf<S>,
}

/// The producer's side of a buffer: it can put bytes in and nothing else.
///
/// The field is public so that contracts can speak of the borrowed buffer;
/// a producer is meant to go through `enqueue` and `write`.
pub struct RingWriter<'a, S: ByteArray> {
    pub ring: &'a mut RingBuf<S>,
}

impl<'a, S: ByteArray> RingReader<'a, S> {
    /// Takes the oldest queued byte out of the borrowed buffer, if there is one.
    pub fn dequeue(&mut self) -> (item: Option<u8>)
        requires
            old(self).ring.wf(),
        ensures
            final(self).ring.wf(),
            *final(final(self).ring) == *final(old(self).ring),
            item == old(self).ring@.front(),
            final(self).ring@ == old(self).ring@.dequeue(),
            final(self).ring@.len() == old(self).ring@.len() - if item is Some { 1int } else { 0int },
            item is None <==> old(self).ring@.len() == 0,
            item is None ==> final(self).ring@ == old(self).ring@,
            item is Some ==> item == Some(old(self).ring@.queue()[0]) && final(self).ring@.queue()
                == old(self).ring@.queue().drop_first(),
    {
        self.ring.dequeue()
    }

    /// Moves as many queued bytes as `buf` has room for into the front of
    /// `buf`, oldest first, and returns how many that was.
    pub fn read(&mut self, buf: &mut [u8]) -> (n: usize)
        requires
            old(self).ring.wf(),
        ensures
            final(self).ring.wf(),
            *final(final(self).ring) == *final(old(self).ring),
            n == vstd::math::min(old(self).ring@.len() as int, old(buf)@.len() as int),
            final(buf)@ == old(self).ring@.queue().take(n as int) + old(buf)@.skip(n as int),
            final(self).ring@ == old(self).ring@.advance(n as nat),
            final(self).ring@.len() == old(self).ring@.len() - n,
            final(self).ring@.queue() == old(self).ring@.queue().skip(n as int),
    {
        self.ring.read(buf)
    }
}

impl<'a, S: ByteArray> RingWriter<'a, S> {
    /// Queues `value` in the borrowed buffer unless it is full, and says
    /// whether it did.
    pub fn enqueue(&mut self, value: u8) -> (accepted: bool)
        requires
            old(self).ring.wf(),
        ensures
            final(self).ring.wf(),
            *final(final(self).ring) == *final(old(self).ring),
            accepted == !old(self).ring@.is_full(),
            final(self).ring@ == old(self).ring@.enqueue(value),
            final(self).ring@.len() == old(self).ring@.len() + if accepted { 1int } else { 0int },
            !accepted ==> final(self).ring@ == old(self).ring@,
            accepted && old(self).ring@.vacant(1) ==> final(self).ring@.queue() == old(
                self,
            ).ring@.queue().push(value),
    {
        self.ring.enqueue(value)
    }

    /// Queues as many leading bytes of `buf` as there is room for and returns
    /// how many that was.
    pub fn write(&mut self, buf: &[u8]) -> (n: usize)
        requires
            old(self).ring.wf(),
        ensures
            final(self).ring.wf(),
            *final(final(self).ring) == *final(old(self).ring),
            n == vstd::math::min(old(self).ring@.rem(), buf@.len() as int),
            final(self).ring@ == old(self).ring@.enqueue_all(buf@.take(n as int)),
            final(self).ring@.len() == old(self).ring@.len() + n,
            old(self).ring@.vacant(n as nat) ==> final(self).ring@.queue() == old(
                self,
            ).ring@.queue() + buf@.take(n as int),
    {
        self.ring.write(buf)
    }
}

} // verus!
