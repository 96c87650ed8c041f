//! Why the cursors and slots of a [`RingModel`] behave as a first-in,
//! first-out queue, and where they stop doing so.
//!
//! Taking bytes out never disturbs the queue. Putting bytes in appends to it
//! as long as the write cursor's slot holds no queued byte
//! ([`RingModel::vacant`]). That is always so while no cursor wraps, and at
//! every wrap when the capacity divides the word range
//! ([`RingModel::seamless`]).

use crate::model::RingModel;
use vstd::arithmetic::div_mod::*;
use vstd::math::min;
use vstd::prelude::*;

verus! {

/// Two integers less than `m` apart have different remainders modulo `m`.
pub proof fn lemma_close_remainders_differ(a: int, b: int, m: int)
    requires
        0 < m,
        a < b < a + m,
    ensures
        a % m != b % m,
{
    if a % m == b % m {
        lemma_mod_equivalence(b, a, m);
        lemma_small_mod((b - a) as nat, m as nat);
    }
}

/// A cursor and the unwrapped count it stands for fall on the same slot when
/// the capacity divides the word range.
pub proof fn lemma_wrap_keeps_slot(s: RingModel, i: int)
    requires
        s.wf(),
        s.divides_word(),
        0 <= i <= usize::MAX,
    ensures
        s.slot(i) == (s.reader + i) % (s.cap() as int),
{
    let m = s.cap() as int;
    let w = usize::MAX as int + 1;
    if s.reader + i > usize::MAX {
        lemma_fundamental_div_mod(w, m);
        lemma_mod_multiples_vanish(-(w / m), s.reader + i, m);
        assert(m * (-(w / m)) == -(m * (w / m))) by (nonlinear_arith);
    }
}

/// A seamless stretch of positions is vacant: with no wrap inside it, or with
/// a capacity that divides the word range, no two positions less than the
/// capacity apart share a slot.
pub proof fn lemma_seamless_is_vacant(s: RingModel, n: nat)
    requires
        s.wf(),
        s.len() + n <= s.cap(),
        s.seamless(n),
    ensures
        s.vacant(n),
{
    let m = s.cap() as int;
    assert forall|i: int, j: int| 0 <= i < j < s.len() + n && s.len() <= j implies s.slot(i)
        != s.slot(j) by {
        if s.divides_word() {
            lemma_wrap_keeps_slot(s, i);
            lemma_wrap_keeps_slot(s, j);
        }
        lemma_close_remainders_differ(s.reader + i, s.reader + j, m);
    }
}

/// A buffer whose cursors start at zero is seamless for as many bytes as it
/// has slots.
pub proof fn lemma_fresh_is_seamless(slots: Seq<u8>)
    requires
        0 < slots.len() <= usize::MAX,
    ensures
        RingModel::fresh(slots).wf(),
        RingModel::fresh(slots).is_empty(),
        RingModel::fresh(slots).seamless(slots.len()),
        RingModel::fresh(slots).vacant(slots.len()),
{
    lemma_seamless_is_vacant(RingModel::fresh(slots), slots.len());
}

/// Occupancy stays within the capacity: an enqueue adds one byte unless the
/// buffer is full, a dequeue removes one unless it is empty, and neither
/// leaves the range from zero to the capacity.
pub proof fn lemma_steps_keep_bounds(s: RingModel, value: u8)
    requires
        s.wf(),
    ensures
        s.enqueue(value).wf(),
        s.dequeue().wf(),
        s.enqueue(value).len() == if s.is_full() { s.len() } else { s.len() + 1 },
        s.dequeue().len() == if s.is_empty() { 0 } else { s.len() - 1 },
        s.is_empty() <==> s.len() == 0,
{
}

/// An enqueue on a buffer with a vacant write slot appends to the queue.
pub proof fn lemma_enqueue_appends(s: RingModel, value: u8)
    requires
        s.wf(),
        !s.is_full(),
        s.vacant(1),
    ensures
        s.enqueue(value).queue() == s.queue().push(value),
{
    let t = s.enqueue(value);
    let n = s.len() as int;
    assert forall|i: int| 0 <= i < n + 1 implies t.queue()[i] == s.queue().push(value)[i] by {
        if i < n {
            assert(s.slot(i) != s.slot(n));
        }
    }
}

/// A dequeue on a buffer that is not empty hands out the head of the queue
/// and leaves the rest, in order.
pub proof fn lemma_dequeue_takes_head(s: RingModel)
    requires
        s.wf(),
        !s.is_empty(),
    ensures
        s.front() == Some(s.queue()[0]),
        s.dequeue().queue() == s.queue().drop_first(),
{
    lemma_advance_skips(s, 1);
}

/// Moving the read cursor `n` steps drops the first `n` bytes of the queue
/// and nothing else.
pub proof fn lemma_advance_skips(s: RingModel, n: nat)
    requires
        s.wf(),
        n <= s.len(),
    ensures
        s.advance(n).wf(),
        s.advance(n).len() == s.len() - n,
        s.advance(n).queue() == s.queue().skip(n as int),
        n < s.len() ==> s.advance(n).front() == Some(s.queue()[n as int]),
        n < s.len() ==> s.advance(n).dequeue() == s.advance(n + 1),
{
}

/// Enqueueing no more bytes than there is room for adds exactly that many.
pub proof fn lemma_enqueue_all_len(s: RingModel, values: Seq<u8>)
    requires
        s.wf(),
        values.len() <= s.rem(),
    ensures
        s.enqueue_all(values).wf(),
        s.enqueue_all(values).len() == s.len() + values.len(),
        s.enqueue_all(values).reader == s.reader,
        s.enqueue_all(values).cap() == s.cap(),
    decreases values.len(),
{
    if values.len() > 0 {
        lemma_enqueue_all_len(s, values.drop_last());
    }
}

/// Enqueueing bytes onto vacant slots appends them to the queue, in order.
pub proof fn lemma_enqueue_all_appends(s: RingModel, values: Seq<u8>)
    requires
        s.wf(),
        values.len() <= s.rem(),
        s.vacant(values.len()),
    ensures
        s.enqueue_all(values).queue() == s.queue() + values,
    decreases values.len(),
{
    if values.len() > 0 {
        let init = values.drop_last();
        let t = s.enqueue_all(init);
        lemma_enqueue_all_len(s, init);
        lemma_enqueue_all_appends(s, init);
        assert(t.vacant(1)) by {
            assert forall|i: int, j: int| 0 <= i < j < t.len() + 1 && t.len() <= j implies t.slot(i)
                != t.slot(j) by {
                assert(s.slot(i) != s.slot(j));
            }
        }
        lemma_enqueue_appends(t, values.last());
    }
}

/// A buffer that was empty is full after as many enqueues as it has slots,
/// and a full buffer turns the next byte away and stays as it is.
pub proof fn lemma_full_after_cap_enqueues(s: RingModel, values: Seq<u8>, extra: u8)
    requires
        s.wf(),
        s.is_empty(),
        values.len() == s.cap(),
    ensures
        s.enqueue_all(values).is_full(),
        s.enqueue_all(values).len() == s.cap(),
        s.enqueue_all(values).enqueue(extra) == s.enqueue_all(values),
{
    lemma_enqueue_all_len(s, values);
}

/// First in, first out: bytes enqueued on an empty buffer come out of it in
/// the order they went in, and then the buffer is empty again.
///
/// The bytes must fit, and their slots must be vacant; see
/// [`lemma_seamless_is_vacant`] for when they are.
pub proof fn lemma_first_in_first_out(s: RingModel, values: Seq<u8>)
    requires
        s.wf(),
        s.is_empty(),
        values.len() <= s.cap(),
        s.vacant(values.len()),
    ensures
        s.enqueue_all(values).queue() == values,
        forall|k: int|
            0 <= k < values.len() ==> {
                &&& #[trigger] s.enqueue_all(values).advance(k as nat).front() == Some(values[k])
                &&& s.enqueue_all(values).advance(k as nat).dequeue() == s.enqueue_all(
                    values,
                ).advance((k + 1) as nat)
            },
        s.enqueue_all(values).advance(values.len()).is_empty(),
        s.enqueue_all(values).advance(values.len()).front() == None::<u8>,
{
    let t = s.enqueue_all(values);
    lemma_enqueue_all_len(s, values);
    lemma_enqueue_all_appends(s, values);
    assert forall|k: int| 0 <= k < values.len() implies {
        &&& #[trigger] t.advance(k as nat).front() == Some(values[k])
        &&& t.advance(k as nat).dequeue() == t.advance((k + 1) as nat)
    } by {
        lemma_advance_skips(t, k as nat);
    }
    lemma_advance_skips(t, values.len());
}

/// Round trip: an empty buffer takes as many bytes as it has slots in one
/// bulk write, and one bulk read into room for at least that many gives them
/// back in order and leaves the buffer empty.
///
/// `buf` is what is written and `out` is the reader's buffer before the read.
/// The slots must be vacant; see [`lemma_seamless_is_vacant`] for when they
/// are.
pub proof fn lemma_write_read_round_trip(s: RingModel, buf: Seq<u8>, out: Seq<u8>)
    requires
        s.wf(),
        s.is_empty(),
        buf.len() == s.cap(),
        out.len() >= s.cap(),
        s.vacant(s.cap()),
    ensures
        ({
            let written = min(s.rem(), buf.len() as int);
            let filled = s.enqueue_all(buf.take(written));
            let read = min(filled.len() as int, out.len() as int);
            let got = filled.queue().take(read) + out.skip(read);
            &&& written == s.cap()
            &&& read == s.cap()
            &&& got.take(s.cap() as int) == buf
            &&& got.skip(s.cap() as int) == out.skip(s.cap() as int)
            &&& filled.advance(read as nat).is_empty()
        }),
{
    assert(buf.take(s.cap() as int) =~= buf);
    lemma_first_in_first_out(s, buf);
}

} // verus!
