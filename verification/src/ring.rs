//! The bounded buffer that hands the most recent audio samples from the
//! capture callback to the analysis loop.
//!
//! A sample is carried as the 32-bit word of its single-precision encoding.
//! The ring never interprets a sample, it only stores and copies it; the
//! all-zero word is the encoding of silence.
use ringbuf::traits::{Consumer, RingBuffer};
use ringbuf::HeapRb;
use vstd::prelude::*;

verus! {

/// One audio sample, as the 32-bit word of its encoding.
pub type Sample = u32;

/// The encoding of a silent sample.
pub const SILENCE: Sample = 0;

/// Largest capacity a ring can be made with: its storage must stay
/// addressable.
pub const MAX_CAPACITY: usize = usize::MAX / 8;

/// The heap-allocated ring buffer of the `ringbuf` crate, holding samples.
/// Verus does not look inside; what the buffer holds is named by
/// [`ring_items`] and [`ring_limit`].
#[verifier::external_body]
pub struct RingStore {
    rb: HeapRb<Sample>,
}

/// The samples that the buffer holds, oldest first.
pub uninterp spec fn ring_items(store: RingStore) -> Seq<Sample>;

/// The capacity that the buffer was made with.
pub uninterp spec fn ring_limit(store: RingStore) -> nat;

/// `HeapRb::new`: an empty buffer of exactly the capacity asked for. The
/// crate panics on a capacity of zero, and the allocation behind it cannot
/// exceed the address space, so both are excluded.
#[verifier::external_body]
fn ring_with_capacity(capacity: usize) -> (store: RingStore)
    requires
        0 < capacity <= MAX_CAPACITY,
    ensures
        ring_items(store) == Seq::<Sample>::empty(),
        ring_limit(store) == capacity,
{
    RingStore { rb: HeapRb::<Sample>::new(capacity) }
}

/// `RingBuffer::push_overwrite`: appends one sample as the newest. A full
/// buffer first gives up its oldest sample, which is returned; the capacity
/// never changes. The call neither panics nor unwinds.
#[verifier::external_body]
fn ring_push_overwrite(store: &mut RingStore, sample: Sample) -> (evicted: Option<Sample>)
    ensures
        ring_limit(*final(store)) == ring_limit(*old(store)),
        ring_items(*old(store)).len() < ring_limit(*old(store)) ==> evicted.is_none()
            && ring_items(*final(store)) == ring_items(*old(store)).push(sample),
        ring_items(*old(store)).len() == ring_limit(*old(store)) ==> evicted == Some(
            ring_items(*old(store)).first(),
        ) && ring_items(*final(store)) == ring_items(*old(store)).drop_first().push(sample),
    no_unwind
{
    store.rb.push_overwrite(sample)
}

/// `Consumer::as_slices`: the whole contents as two slices which, one after
/// the other, hold the samples from oldest to newest.
#[verifier::external_body]
fn ring_as_slices(store: &RingStore) -> (halves: (&[Sample], &[Sample]))
    ensures
        halves.0@ + halves.1@ == ring_items(*store),
{
    store.rb.as_slices()
}

/// The last `limit` items of a sequence, or all of it if it is shorter.
pub open spec fn keep_last(items: Seq<Sample>, limit: nat) -> Seq<Sample> {
    if items.len() <= limit {
        items
    } else {
        items.subrange(items.len() - limit, items.len() as int)
    }
}

/// `count` silent samples.
pub open spec fn silence(count: nat) -> Seq<Sample> {
    Seq::new(count, |i: int| SILENCE)
}

/// What a reader that asks for `count` samples is given: the newest `count`
/// of `items` in arrival order, or, where fewer are held, all of them
/// followed by silence.
pub open spec fn most_recent(items: Seq<Sample>, count: nat) -> Seq<Sample> {
    if count <= items.len() {
        items.subrange(items.len() - count, items.len() as int)
    } else {
        items + silence((count - items.len()) as nat)
    }
}

/// All samples of a series of writes, in arrival order.
pub open spec fn concat_writes(writes: Seq<Seq<Sample>>) -> Seq<Sample>
    decreases writes.len(),
{
    if writes.len() == 0 {
        Seq::empty()
    } else {
        concat_writes(writes.drop_last()) + writes.last()
    }
}

/// Contents of a ring of capacity `limit` that held `start` and then took
/// the given writes one after the other.
pub open spec fn after_writes(start: Seq<Sample>, writes: Seq<Seq<Sample>>, limit: nat) -> Seq<
    Sample,
>
    decreases writes.len(),
{
    if writes.len() == 0 {
        start
    } else {
        keep_last(after_writes(start, writes.drop_last(), limit) + writes.last(), limit)
    }
}

/// Appending to a ring that keeps at most `limit` items is the same as
/// appending to everything it has ever seen and keeping the last `limit`.
pub proof fn lemma_keep_last_append(seen: Seq<Sample>, more: Seq<Sample>, limit: nat)
    ensures
        keep_last(keep_last(seen, limit) + more, limit) == keep_last(seen + more, limit),
{
    assert(keep_last(keep_last(seen, limit) + more, limit) =~= keep_last(seen + more, limit));
}

/// A series of writes leaves the ring with the last `capacity` samples of
/// what it held before followed by everything written, in arrival order:
/// how the samples were split into writes makes no difference.
pub proof fn lemma_writes_accumulate(start: Seq<Sample>, writes: Seq<Seq<Sample>>, limit: nat)
    requires
        start.len() <= limit,
    ensures
        after_writes(start, writes, limit) == keep_last(start + concat_writes(writes), limit),
    decreases writes.len(),
{
    if writes.len() == 0 {
        assert(start + concat_writes(writes) =~= start);
    } else {
        let earlier = writes.drop_last();
        lemma_writes_accumulate(start, earlier, limit);
        lemma_keep_last_append(start + concat_writes(earlier), writes.last(), limit);
        assert(start + concat_writes(writes) =~= (start + concat_writes(earlier)) + writes.last());
    }
}

/// The overwrite law. Once the writes add up to at least the capacity, a
/// snapshot of `capacity` samples is exactly the `capacity` most recently
/// written samples in arrival order: nothing of what the ring held before,
/// and nothing older among the written samples, is visible.
pub proof fn lemma_overwrite_law(start: Seq<Sample>, writes: Seq<Seq<Sample>>, limit: nat)
    requires
        start.len() <= limit,
        concat_writes(writes).len() >= limit,
    ensures
        most_recent(after_writes(start, writes, limit), limit) == concat_writes(writes).subrange(
            concat_writes(writes).len() - limit,
            concat_writes(writes).len() as int,
        ),
{
    lemma_writes_accumulate(start, writes, limit);
    let written = concat_writes(writes);
    assert(keep_last(start + written, limit) =~= written.subrange(
        written.len() - limit,
        written.len() as int,
    ));
}

/// A fixed-capacity ring of the most recent samples. Writes never fail:
/// once the ring is full, each new sample displaces the oldest one.
pub struct SampleRing {
    store: RingStore,
    capacity: usize,
}

impl View for SampleRing {
    type V = Seq<Sample>;

    /// The samples held, oldest first.
    closed spec fn view(&self) -> Seq<Sample> {
        ring_items(self.store)
    }
}

impl SampleRing {
    #[verifier::type_invariant]
    spec fn inv(self) -> bool {
        &&& 0 < self.capacity <= MAX_CAPACITY
        &&& ring_limit(self.store) == self.capacity
        &&& ring_items(self.store).len() <= self.capacity
    }

    /// The capacity that the ring was made with.
    pub closed spec fn spec_capacity(&self) -> nat {
        self.capacity as nat
    }

    /// An empty ring that holds up to `capacity` samples.
    pub fn new(capacity: usize) -> (ring: SampleRing)
        requires
            0 < capacity <= MAX_CAPACITY,
        ensures
            ring@ == Seq::<Sample>::empty(),
            ring.spec_capacity() == capacity,
    {
        SampleRing { store: ring_with_capacity(capacity), capacity }
    }

    /// The capacity that the ring was made with.
    pub fn capacity(&self) -> (capacity: usize)
        ensures
            capacity == self.spec_capacity(),
            0 < capacity <= MAX_CAPACITY,
            self@.len() <= capacity,
    {
        proof {
            use_type_invariant(self);
        }
        self.capacity
    }

    /// The number of samples held.
    pub fn len(&self) -> (held: usize)
        ensures
            held == self@.len(),
            held <= self.spec_capacity(),
    {
        proof {
            use_type_invariant(self);
        }
        let (older, newer) = ring_as_slices(&self.store);
        older.len() + newer.len()
    }

    /// Appends `samples` in order as the newest samples. Where the ring
    /// overflows, the oldest samples make room: afterwards the ring holds
    /// the last `capacity` samples of its old contents followed by
    /// `samples`.
    pub fn write(&mut self, samples: &[Sample])
        ensures
            final(self)@ == keep_last(old(self)@ + samples@, old(self).spec_capacity()),
            final(self).spec_capacity() == old(self).spec_capacity(),
            final(self)@.len() <= final(self).spec_capacity(),
    {
        proof {
            use_type_invariant(&*self);
            assert(samples@.subrange(0, 0) =~= Seq::<Sample>::empty());
            assert(self@ + samples@.subrange(0, 0) =~= self@);
        }
        let ghost limit = self.capacity as nat;
        let mut done: usize = 0;
        while done < samples.len()
            invariant
                done <= samples.len(),
                limit == old(self).spec_capacity(),
                0 < limit,
                self.capacity == limit,
                ring_limit(self.store) == limit,
                ring_items(self.store).len() <= limit,
                ring_items(self.store) == keep_last(
                    old(self)@ + samples@.subrange(0, done as int),
                    limit,
                ),
            decreases samples.len() - done,
        {
            let ghost before = old(self)@ + samples@.subrange(0, done as int);
            let sample = samples[done];
            proof {
                use_type_invariant(&*self);
            }
            let _ = ring_push_overwrite(&mut self.store, sample);
            done += 1;
            proof {
                assert(old(self)@ + samples@.subrange(0, done as int) =~= before.push(sample));
                assert(ring_items(self.store) =~= keep_last(before.push(sample), limit));
            }
        }
        proof {
            assert(samples@.subrange(0, done as int) =~= samples@);
        }
    }

    /// Fills `out` with the most recent `out.len()` samples in arrival
    /// order. Where the ring holds fewer, `out` starts with all of them and
    /// ends in silence. The ring itself is left as it was.
    pub fn snapshot(&self, out: &mut [Sample])
        ensures
            final(out)@ == most_recent(self@, old(out)@.len()),
    {
        proof {
            use_type_invariant(self);
        }
        let (older, newer) = ring_as_slices(&self.store);
        let held: usize = older.len() + newer.len();
        let wanted: usize = out.len();
        let skipped: usize = if wanted < held {
            held - wanted
        } else {
            0
        };
        let ghost items = older@ + newer@;
        let mut filled: usize = 0;
        while filled < wanted
            invariant
                filled <= wanted,
                out@.len() == wanted,
                held == older@.len() + newer@.len(),
                held <= MAX_CAPACITY,
                items == older@ + newer@,
                skipped == if wanted < held {
                    held - wanted
                } else {
                    0
                },
                forall|i: int| 0 <= i < filled ==> out@[i] == most_recent(items, wanted as nat)[i],
            decreases wanted - filled,
        {
            let source: usize = skipped + filled;
            let sample: Sample = if source < older.len() {
                older[source]
            } else if source < held {
                newer[source - older.len()]
            } else {
                SILENCE
            };
            out[filled] = sample;
            filled += 1;
        }
        proof {
            assert(out@ =~= most_recent(items, wanted as nat));
        }
    }
}

} // verus!
