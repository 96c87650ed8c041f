//! The ring buffer itself.

use crate::fifo::{
    lemma_advance_skips, lemma_dequeue_takes_head, lemma_enqueue_all_appends,
    lemma_enqueue_all_len, lemma_enqueue_appends,
};
use crate::handle::{RingReader, RingWriter};
use crate::model::RingModel;
use crate::storage::ByteArray;
use vstd::prelude::*;

verus! {

/// A byte queue of fixed capacity over caller-supplied storage.
///
/// The buffer owns its storage and two cursors that count bytes put in and
/// taken out. Both wrap with the machine word; occupancy is their wrapping
/// difference, so a buffer of `N` slots holds up to `N` bytes and "full" is
/// never mistaken for "empty".
pub struct RingBuf<S: ByteArray> {
    reader: usize,
    writer: usize,
    length: usize,
    buffer: S,
}

impl<S: ByteArray> View for RingBuf<S> {
    type V = RingModel;

    closed spec fn view(&self) -> RingModel {
        RingModel { reader: self.reader, writer: self.writer, slots: self.buffer.slots() }
    }
}

impl<S: ByteArray> RingBuf<S> {
    /// The capacity on record is the number of slots of the storage.
    pub closed spec fn coherent(&self) -> bool {
        self.length == self.buffer.slots().len()
    }

    /// The buffer's invariant: `new` establishes it and every operation keeps it.
    pub open spec fn wf(&self) -> bool {
        &&& self.coherent()
        &&& self@.wf()
    }

    /// An empty buffer over `buffer`, which has `length` slots.
    pub fn new(buffer: S, length: usize) -> (ring: Self)
        requires
            0 < length,
            buffer.slots().len() == length,
        ensures
            ring.wf(),
            ring@ == RingModel::fresh(buffer.slots()),
    {
        RingBuf { reader: 0, writer: 0, length, buffer }
    }

    /// Lends the buffer to a consumer. What the consumer did shows in the
    /// buffer once the handle is gone.
    pub fn reader(&mut self) -> (handle: RingReader<'_, S>)
        ensures
            *handle.ring == *old(self),
            *final(handle.ring) == *final(self),
    {
        RingReader { ring: self }
    }

    /// Lends the buffer to a producer. What the producer did shows in the
    /// buffer once the handle is gone.
    pub fn writer(&mut self) -> (handle: RingWriter<'_, S>)
        ensures
            *handle.ring == *old(self),
            *final(handle.ring) == *final(self),
    {
        RingWriter { ring: self }
    }

    /// Number of slots.
    pub fn cap(&self) -> (n: usize)
        requires
            self.wf(),
        ensures
            n == self@.cap(),
    {
        self.length
    }

    /// Number of bytes queued.
    pub fn len(&self) -> (n: usize)
        ensures
            n == self@.len(),
    {
        self.writer.wrapping_sub(self.reader)
    }

    /// Number of bytes that can still be queued.
    pub fn rem(&self) -> (n: usize)
        requires
            self.wf(),
        ensures
            n == self@.rem(),
    {
        self.cap().wrapping_sub(self.len())
    }

    /// Whether nothing is queued.
    pub fn is_empty(&self) -> (empty: bool)
        ensures
            empty == self@.is_empty(),
    {
        self.reader == self.writer
    }

    /// Whether every slot holds a queued byte.
    pub fn is_full(&self) -> (full: bool)
        requires
            self.wf(),
        ensures
            full == self@.is_full(),
    {
        self.len() == self.cap()
    }

    /// The slot that cursor value `index` falls on: `index` modulo the capacity.
    pub fn phy(&self, index: usize) -> (slot: usize)
        requires
            self.wf(),
        ensures
            slot == self@.phy(index),
            slot < self@.cap(),
    {
        index % self.cap()
    }

    /// Moves the read cursor one step. The buffer must not be empty.
    pub fn incr_reader(&mut self)
        requires
            old(self).wf(),
            !old(self)@.is_empty(),
        ensures
            final(self).wf(),
            final(self)@ == old(self)@.advance(1),
    {
        self.reader = self.reader.wrapping_add(1);
    }

    /// Moves the write cursor one step. The buffer must not be full.
    pub fn incr_writer(&mut self)
        requires
            old(self).wf(),
            !old(self)@.is_full(),
        ensures
            final(self).wf(),
            final(self)@ == (RingModel { writer: old(self)@.writer.wrapping_add(1), ..old(self)@ }),
    {
        self.writer = self.writer.wrapping_add(1);
    }

    /// Queues `value` unless the buffer is full, and says whether it did.
    pub fn enqueue(&mut self, value: u8) -> (accepted: bool)
        requires
            old(self).wf(),
        ensures
            final(self).wf(),
            accepted == !old(self)@.is_full(),
            final(self)@ == old(self)@.enqueue(value),
            final(self)@.len() == old(self)@.len() + if accepted { 1int } else { 0int },
            !accepted ==> final(self)@ == old(self)@,
            accepted && old(self)@.vacant(1) ==> final(self)@.queue() == old(self)@.queue().push(
                value,
            ),
    {
        proof {
            if !self@.is_full() && self@.vacant(1) {
                lemma_enqueue_appends(self@, value);
            }
        }
        if self.is_full() {
            false
        } else {
            let writer: usize = self.phy(self.writer);
            self.buffer.set(writer, value);
            self.incr_writer();
            true
        }
    }

    /// Takes the oldest queued byte out, if there is one.
    pub fn dequeue(&mut self) -> (item: Option<u8>)
        requires
            old(self).wf(),
        ensures
            final(self).wf(),
            item == old(self)@.front(),
            final(self)@ == old(self)@.dequeue(),
            final(self)@.len() == old(self)@.len() - if item is Some { 1int } else { 0int },
            item is None <==> old(self)@.len() == 0,
            item is None ==> final(self)@ == old(self)@,
            item is Some ==> item == Some(old(self)@.queue()[0]) && final(self)@.queue() == old(
                self,
            )@.queue().drop_first(),
    {
        proof {
            if !self@.is_empty() {
                lemma_dequeue_takes_head(self@);
            }
        }
        if self.is_empty() {
            None
        } else {
            let reader: usize = self.phy(self.reader);
            let value: u8 = self.buffer.get(reader);
            self.incr_reader();
            Some(value)
        }
    }

    /// Queues as many leading bytes of `buf` as there is room for and returns
    /// how many that was.
    pub fn write(&mut self, buf: &[u8]) -> (n: usize)
        requires
            old(self).wf(),
        ensures
            final(self).wf(),
            n == vstd::math::min(old(self)@.rem(), buf@.len() as int),
            final(self)@ == old(self)@.enqueue_all(buf@.take(n as int)),
            final(self)@.len() == old(self)@.len() + n,
            old(self)@.vacant(n as nat) ==> final(self)@.queue() == old(self)@.queue() + buf@.take(
                n as int,
            ),
    {
        let room: usize = self.rem();
        let n: usize = if room < buf.len() {
            room
        } else {
            buf.len()
        };
        let ghost start = self@;
        for i in 0..n
            invariant
                start.wf(),
                n <= start.rem(),
                n <= buf@.len(),
                self.wf(),
                self@ == start.enqueue_all(buf@.take(i as int)),
        {
            proof {
                lemma_enqueue_all_len(start, buf@.take(i as int));
                assert(buf@.take(i + 1).drop_last() =~= buf@.take(i as int));
            }
            self.enqueue(buf[i]);
        }
        proof {
            lemma_enqueue_all_len(start, buf@.take(n as int));
            if start.vacant(n as nat) {
                lemma_enqueue_all_appends(start, buf@.take(n as int));
            }
        }
        n
    }

    /// Moves as many queued bytes as `buf` has room for into the front of
    /// `buf`, oldest first, and returns how many that was.
    pub fn read(&mut self, buf: &mut [u8]) -> (n: usize)
        requires
            old(self).wf(),
        ensures
            final(self).wf(),
            n == vstd::math::min(old(self)@.len() as int, old(buf)@.len() as int),
            final(buf)@ == old(self)@.queue().take(n as int) + old(buf)@.skip(n as int),
            final(self)@ == old(self)@.advance(n as nat),
            final(self)@.len() == old(self)@.len() - n,
            final(self)@.queue() == old(self)@.queue().skip(n as int),
    {
        let held: usize = self.len();
        let n: usize = if held < buf.len() {
            held
        } else {
            buf.len()
        };
        let ghost start = self@;
        let ghost target = buf@;
        for i in 0..n
            invariant
                start.wf(),
                n <= start.len(),
                n <= target.len(),
                self.wf(),
                self@ == start.advance(i as nat),
                buf@ == start.queue().take(i as int) + target.skip(i as int),
        {
            proof {
                lemma_advance_skips(start, i as nat);
            }
            buf[i] = self.dequeue().expect("Ring buffer is empty");
        }
        proof {
            lemma_advance_skips(start, n as nat);
        }
        n
    }
}

} // verus!
