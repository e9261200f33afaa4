//! The sliding-window sample store: a fixed-capacity, overwrite-on-full ring
//! of the most recent mono samples, stored as the raw bit patterns of the
//! 32-bit samples the capture backend delivers.
//!
//! The ring itself comes from the `ringbuffer` crate; its behaviour is stated
//! in the contracts of the small trusted wrappers below, and everything on
//! top of them is verified.

use vstd::prelude::*;

verus! {

/// The elements currently held by the ring, oldest first.
pub uninterp spec fn ring_items(rb: ringbuffer::AllocRingBuffer<u32>) -> Seq<u32>;

/// The maximum number of elements the ring was created to hold.
pub uninterp spec fn ring_cap(rb: ringbuffer::AllocRingBuffer<u32>) -> nat;

#[verifier::external_type_specification]
#[verifier::external_body]
#[verifier::reject_recursive_types(T)]
pub struct ExAllocRingBuffer<T>(ringbuffer::AllocRingBuffer<T>);

/// Relies on ringbuffer::AllocRingBuffer::new: returns an empty ring that
/// holds at most `capacity` elements; it panics only when `capacity` is zero.
#[verifier::external_body]
fn rb_new(capacity: usize) -> (rb: ringbuffer::AllocRingBuffer<u32>)
    requires
        capacity >= 1,
    ensures
        ring_items(rb) == Seq::<u32>::empty(),
        ring_cap(rb) == capacity as nat,
{
    ringbuffer::AllocRingBuffer::new(capacity)
}

/// Relies on ringbuffer::RingBuffer::fill: writes the value into every slot,
/// so the ring afterwards holds exactly capacity-many copies of it.
#[verifier::external_body]
fn rb_fill(rb: &mut ringbuffer::AllocRingBuffer<u32>, value: u32)
    ensures
        ring_cap(*final(rb)) == ring_cap(*old(rb)),
        ring_items(*final(rb)) == Seq::new(ring_cap(*old(rb)), |i: int| value),
{
    ringbuffer::RingBuffer::fill(rb, value)
}

/// Relies on ringbuffer::RingBuffer::enqueue: appends the value at the back;
/// when the ring is full it first evicts the oldest element.
#[verifier::external_body]
fn rb_enqueue(rb: &mut ringbuffer::AllocRingBuffer<u32>, value: u32)
    ensures
        ring_cap(*final(rb)) == ring_cap(*old(rb)),
        ring_items(*old(rb)).len() < ring_cap(*old(rb)) ==> ring_items(*final(rb))
            == ring_items(*old(rb)).push(value),
        ring_items(*old(rb)).len() >= ring_cap(*old(rb)) ==> ring_items(*final(rb))
            == ring_items(*old(rb)).skip(1).push(value),
{
    let _ = ringbuffer::RingBuffer::enqueue(rb, value);
}

/// Relies on ringbuffer::RingBuffer::len: the number of elements held.
#[verifier::external_body]
fn rb_len(rb: &ringbuffer::AllocRingBuffer<u32>) -> (n: usize)
    ensures
        n as nat == ring_items(*rb).len(),
{
    ringbuffer::RingBuffer::len(rb)
}

/// Relies on ringbuffer::RingBuffer::to_vec: copies the elements out in
/// oldest-to-newest order.
#[verifier::external_body]
fn rb_to_vec(rb: &ringbuffer::AllocRingBuffer<u32>) -> (v: Vec<u32>)
    ensures
        v@ == ring_items(*rb),
{
    ringbuffer::RingBuffer::to_vec(rb)
}

/// A sequence of `n` zero samples.
pub open spec fn zeros(n: nat) -> Seq<u32> {
    Seq::new(n, |i: int| 0u32)
}

/// One append of a batch to a full window of fixed length: the batch lands at
/// the back and as many oldest elements leave at the front.
pub open spec fn slide(s: Seq<u32>, batch: Seq<u32>) -> Seq<u32> {
    (s + batch).skip(batch.len() as int)
}

/// A whole history of appends, applied in order to an initial window.
pub open spec fn slide_all(s: Seq<u32>, batches: Seq<Seq<u32>>) -> Seq<u32>
    decreases batches.len(),
{
    if batches.len() == 0 {
        s
    } else {
        slide(slide_all(s, batches.drop_last()), batches.last())
    }
}

/// All appended batches of a history, concatenated in order of arrival.
pub open spec fn concat_all(batches: Seq<Seq<u32>>) -> Seq<u32>
    decreases batches.len(),
{
    if batches.len() == 0 {
        Seq::empty()
    } else {
        concat_all(batches.drop_last()) + batches.last()
    }
}

/// Appending batch after batch is the same as appending their concatenation
/// at once.
pub proof fn lemma_slide_all_is_slide_of_concat(s: Seq<u32>, batches: Seq<Seq<u32>>)
    ensures
        slide_all(s, batches) == slide(s, concat_all(batches)),
    decreases batches.len(),
{
    if batches.len() == 0 {
        assert(slide(s, concat_all(batches)) =~= s);
    } else {
        lemma_slide_all_is_slide_of_concat(s, batches.drop_last());
        let front = concat_all(batches.drop_last());
        let last = batches.last();
        assert(slide(slide(s, front), last) =~= slide(s, front + last));
    }
}

/// Sliding-window preservation: as long as the appends of a history total at
/// most the window length, they all stand at the tail of the window, behind
/// what is left of the zero prefill.
pub proof fn lemma_sliding_window_preservation(cap: nat, batches: Seq<Seq<u32>>)
    requires
        concat_all(batches).len() <= cap,
    ensures
        slide_all(zeros(cap), batches) == zeros((cap - concat_all(batches).len()) as nat)
            + concat_all(batches),
{
    lemma_slide_all_is_slide_of_concat(zeros(cap), batches);
    assert(slide(zeros(cap), concat_all(batches)) =~= zeros(
        (cap - concat_all(batches).len()) as nat,
    ) + concat_all(batches));
}

/// Overflow eviction: once the appends of a history total more than the
/// window length, the window holds exactly the most recent elements appended,
/// in arrival order.
pub proof fn lemma_overflow_eviction(cap: nat, batches: Seq<Seq<u32>>)
    requires
        concat_all(batches).len() > cap,
    ensures
        slide_all(zeros(cap), batches) == concat_all(batches).skip(
            (concat_all(batches).len() - cap) as int,
        ),
{
    lemma_slide_all_is_slide_of_concat(zeros(cap), batches);
    assert(slide(zeros(cap), concat_all(batches)) =~= concat_all(batches).skip(
        (concat_all(batches).len() - cap) as int,
    ));
}

/// Whether `n` is a power of two.
pub open spec fn is_power_of_two(n: nat) -> bool
    decreases n,
{
    if n == 0 {
        false
    } else if n == 1 {
        true
    } else {
        n % 2 == 0 && is_power_of_two(n / 2)
    }
}

/// The least power of two that is at least `n` (and at least 1).
pub open spec fn next_pow2(n: nat) -> nat
    decreases n,
{
    if n <= 1 {
        1
    } else {
        2 * next_pow2((n + 1) / 2)
    }
}

/// `next_pow2` is a power of two, is at least its argument, and is the least
/// such power: half of it is already below the argument.
pub proof fn lemma_next_pow2_properties(n: nat)
    ensures
        next_pow2(n) >= 1,
        next_pow2(n) >= n,
        n >= 1 ==> next_pow2(n) < 2 * n,
        is_power_of_two(next_pow2(n)),
    decreases n,
{
    if n > 1 {
        lemma_next_pow2_properties((n + 1) / 2);
    }
}

/// Rounds up to the next power of two.
pub fn next_power_of_two(n: usize) -> (r: usize)
    requires
        n <= usize::MAX / 2,
    ensures
        r as nat == next_pow2(n as nat),
    decreases n,
{
    if n <= 1 {
        1
    } else {
        let half = (n - 1) / 2 + 1;
        proof {
            lemma_next_pow2_properties(half as nat);
        }
        2 * next_power_of_two(half)
    }
}

/// The sliding-window sample store: a fixed-capacity, overwrite-on-full ring
/// of mono samples, each held as the raw bits of a 32-bit sample. It is
/// always full: construction prefills it with zeros, and appends evict the
/// oldest elements one-for-one.
pub struct SampleStore {
    ring: ringbuffer::AllocRingBuffer<u32>,
    cap: usize,
}

impl View for SampleStore {
    type V = Seq<u32>;

    closed spec fn view(&self) -> Seq<u32> {
        ring_items(self.ring)
    }
}

impl SampleStore {
    /// The store is well formed: the ring was made with the recorded
    /// capacity and is full.
    pub closed spec fn wf(&self) -> bool {
        &&& ring_cap(self.ring) == self.cap as nat
        &&& self.cap >= 1
        &&& ring_items(self.ring).len() == self.cap as nat
    }

    /// Creates a store whose length is the next power of two at or above the
    /// requested capacity, prefilled with zeros.
    pub fn new(requested_capacity: usize) -> (store: SampleStore)
        requires
            requested_capacity <= usize::MAX / 2,
        ensures
            store.wf(),
            store@ == zeros(next_pow2(requested_capacity as nat)),
    {
        let cap = next_power_of_two(requested_capacity);
        proof {
            lemma_next_pow2_properties(requested_capacity as nat);
        }
        let mut ring = rb_new(cap);
        rb_fill(&mut ring, 0);
        SampleStore { ring, cap }
    }

    /// The fixed number of samples the store holds, which is also its length.
    pub fn capacity(&self) -> (c: usize)
        requires
            self.wf(),
        ensures
            c as nat == self@.len(),
    {
        self.cap
    }

    /// The number of samples held; the store is always full.
    pub fn len(&self) -> (n: usize)
        requires
            self.wf(),
        ensures
            n as nat == self@.len(),
    {
        rb_len(&self.ring)
    }

    /// Appends a batch of samples: they land at the back of the window and
    /// as many of the oldest samples are evicted at the front.
    pub fn extend(&mut self, samples: &Vec<u32>)
        requires
            old(self).wf(),
        ensures
            final(self).wf(),
            final(self)@.len() == old(self)@.len(),
            final(self)@ == slide(old(self)@, samples@),
    {
        let ghost orig = ring_items(self.ring);
        let mut idx: usize = 0;
        while idx < samples.len()
            invariant
                idx <= samples@.len(),
                self.wf(),
                ring_cap(self.ring) == old(self).cap as nat,
                self.cap == old(self).cap,
                ring_items(self.ring) == slide(orig, samples@.take(idx as int)),
                orig.len() == self.cap as nat,
            decreases samples@.len() - idx,
        {
            let ghost before = ring_items(self.ring);
            rb_enqueue(&mut self.ring, samples[idx as usize]);
            idx = idx + 1;
            proof {
                assert(ring_items(self.ring) =~= slide(orig, samples@.take(idx as int)));
            }
        }
        proof {
            assert(samples@.take(samples@.len() as int) =~= samples@);
        }
    }

    /// Copies the window out, oldest sample first. The copy is owned by the
    /// caller: appends that happen afterwards do not touch it.
    pub fn to_vec(&self) -> (snapshot: Vec<u32>)
        ensures
            snapshot@ == self@,
    {
        rb_to_vec(&self.ring)
    }
}

} // verus!
