//! The mathematical model of a ring buffer.
//!
//! A [`RingModel`] is what a ring buffer is to a specification: two
//! free-running cursors and a row of slots. Everything else (occupancy, the
//! slot of a cursor, the queue of bytes waiting to be read) is derived from
//! those three, and every operation of the buffer is a function from one model
//! to the next.

use vstd::prelude::*;

verus! {

/// Two free-running cursors over a fixed row of slots.
///
/// Each cursor counts operations and wraps with the machine word. A cursor's
/// slot is its value modulo the number of slots, and the distance from the
/// read cursor to the write cursor is the number of bytes queued.
pub struct RingModel {
    /// Number of bytes taken out so far, modulo the word range.
    pub reader: usize,
    /// Number of bytes put in so far, modulo the word range.
    pub writer: usize,
    /// The backing storage.
    pub slots: Seq<u8>,
}

impl RingModel {
    /// An empty buffer over `slots`, both cursors at zero.
    pub open spec fn fresh(slots: Seq<u8>) -> RingModel {
        RingModel { reader: 0, writer: 0, slots }
    }

    /// Number of slots.
    pub open spec fn cap(self) -> nat {
        self.slots.len()
    }

    /// Number of bytes queued: the wrapping distance from `reader` to `writer`.
    pub open spec fn len(self) -> nat {
        self.writer.wrapping_sub(self.reader) as nat
    }

    /// Number of bytes that can still be queued.
    pub open spec fn rem(self) -> int {
        self.cap() - self.len()
    }

    /// There is at least one slot, the slots can be counted in a machine word,
    /// and no more bytes are queued than there are slots.
    pub open spec fn wf(self) -> bool {
        &&& 0 < self.cap() <= usize::MAX
        &&& self.len() <= self.cap()
    }

    /// Nothing is queued.
    pub open spec fn is_empty(self) -> bool {
        self.reader == self.writer
    }

    /// Every slot holds a queued byte.
    pub open spec fn is_full(self) -> bool {
        self.len() == self.cap()
    }

    /// The slot that cursor value `index` falls on.
    pub open spec fn phy(self, index: usize) -> int {
        index as int % self.cap() as int
    }

    /// The cursor value `i` steps after the read cursor.
    pub open spec fn cursor(self, i: int) -> usize {
        self.reader.wrapping_add(i as usize)
    }

    /// The slot of the queue's `i`-th position, counted from the read cursor.
    pub open spec fn slot(self, i: int) -> int {
        self.phy(self.cursor(i))
    }

    /// The bytes waiting to be read, oldest first.
    pub open spec fn queue(self) -> Seq<u8> {
        Seq::new(self.len(), |i: int| self.slots[self.slot(i)])
    }

    /// The byte that the next `dequeue` hands out, if any.
    pub open spec fn front(self) -> Option<u8> {
        if self.is_empty() {
            None
        } else {
            Some(self.slots[self.phy(self.reader)])
        }
    }

    /// The model after the read cursor has moved `n` steps.
    pub open spec fn advance(self, n: nat) -> RingModel {
        RingModel { reader: self.reader.wrapping_add(n as usize), ..self }
    }

    /// The model after one `dequeue`: unchanged when empty, else one step on.
    pub open spec fn dequeue(self) -> RingModel {
        if self.is_empty() {
            self
        } else {
            self.advance(1)
        }
    }

    /// The model after one `enqueue`: unchanged when full, else `value` is
    /// stored in the write cursor's slot and the write cursor moves one step.
    pub open spec fn enqueue(self, value: u8) -> RingModel {
        if self.is_full() {
            self
        } else {
            RingModel {
                writer: self.writer.wrapping_add(1),
                slots: self.slots.update(self.phy(self.writer), value),
                ..self
            }
        }
    }

    /// The model after enqueueing `values` one by one, first to last.
    pub open spec fn enqueue_all(self, values: Seq<u8>) -> RingModel
        decreases values.len(),
    {
        if values.len() == 0 {
            self
        } else {
            self.enqueue_all(values.drop_last()).enqueue(values.last())
        }
    }

    /// The next `n` writes land on slots that hold no queued byte.
    ///
    /// Position `j` of the queue-to-be shares its slot with no earlier
    /// position, for each of the `n` positions behind the write cursor. This
    /// is what makes `n` enqueues behave as `n` appends, whatever the values.
    pub open spec fn vacant(self, n: nat) -> bool {
        forall|i: int, j: int|
            #![trigger self.slot(i), self.slot(j)]
            0 <= i < j < self.len() + n && self.len() <= j ==> self.slot(i) != self.slot(j)
    }

    /// The capacity divides the word range, so slots stay in step when a
    /// cursor wraps. On a binary machine these are the powers of two.
    pub open spec fn divides_word(self) -> bool {
        (usize::MAX as int + 1) % (self.cap() as int) == 0
    }

    /// No cursor wraps within the queued positions and the `n` after them,
    /// or the capacity divides the word range.
    pub open spec fn seamless(self, n: nat) -> bool {
        self.divides_word() || self.reader + self.len() + n <= usize::MAX as int + 1
    }
}

} // verus!
