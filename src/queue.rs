use std::sync::atomic::{AtomicU64, Ordering};
use std::sync::Arc;
use vstd::prelude::*;

use crate::pow2::{is_pow2, lemma_mask_is_mod, lemma_pow2_fits, max_pow2_usize};
use crate::protocol::{advance, counters_ok, read_window, used, write_window, Chunk};

verus! {

/// The word of the control block that holds `W`.
const WRITE_WORD: usize = 16;

/// The word of the control block that holds `R`.
const READ_WORD: usize = 32;

/// The number of 8-byte words in the control block.
const CONTROL_WORDS: usize = 48;

/// The counters shared by the writer and the reader: `W`, the elements ever
/// committed, and `R`, the elements ever consumed. Each sits 128 bytes away
/// from the other and from both ends of the block, so that a load of one never
/// touches the cache line of the other.
pub struct ControlBlock {
    words: Vec<AtomicU64>,
}

impl ControlBlock {
    pub closed spec fn wf(&self) -> bool {
        self.words@.len() == CONTROL_WORDS
    }

    /// A control block with both counters at zero.
    pub fn new() -> (cb: ControlBlock)
        ensures
            cb.wf(),
    {
        let mut words: Vec<AtomicU64> = Vec::with_capacity(CONTROL_WORDS);
        let mut i: usize = 0;
        while i < CONTROL_WORDS
            invariant
                i <= CONTROL_WORDS,
                words@.len() == i,
            decreases CONTROL_WORDS - i,
        {
            words.push(AtomicU64::new(0));
            i = i + 1;
        }
        ControlBlock { words }
    }

    fn write_position(&self) -> &AtomicU64
        requires
            self.wf(),
    {
        &self.words[WRITE_WORD]
    }

    fn read_position(&self) -> &AtomicU64
        requires
            self.wf(),
    {
        &self.words[READ_WORD]
    }
}

/// What both handles own together: the counters and the element memory.
struct Shared<M> {
    control: ControlBlock,
    memory: M,
}

/// Relies on `Arc::clone`: a second handle to the same allocation.
#[verifier::external_body]
fn share<S>(shared: &Arc<S>) -> (r: Arc<S>)
    ensures
        *r == **shared,
{
    Arc::clone(shared)
}

/// Relies on `Arc::strong_count`: the number of handles to the allocation at
/// the moment of the call. The peer may drop its handle at any time, so
/// nothing is said of that number.
#[verifier::external_body]
fn holders<S>(shared: &Arc<S>) -> usize {
    Arc::strong_count(shared)
}

/// Whether a handle whose queue is held by `holders` handles, itself
/// included, has lost its peer.
pub fn abandoned_for(holders: usize) -> (r: bool)
    ensures
        r == (holders < 2),
{
    holders < 2
}

/// What a writer knows of its queue.
pub struct WriterView {
    /// Slots in the buffer.
    pub capacity: nat,
    /// `W`: the writer is the only one to change it, so its copy is exact.
    pub written: u64,
    /// `R` as the writer last saw it. The reader only ever moves `R` on, so
    /// the slots it has freed are at least those this value frees.
    pub read_seen: u64,
    /// Slots of the current write chunk that may still be committed.
    pub open: nat,
}

impl WriterView {
    pub open spec fn wf(self) -> bool {
        &&& is_pow2(self.capacity)
        &&& self.capacity <= max_pow2_usize()
        &&& counters_ok(self.capacity, self.written, self.read_seen)
        &&& self.open <= self.capacity - used(self.written, self.read_seen)
    }
}

/// The producing end of a queue.
pub struct Writer<M> {
    shared: Arc<Shared<M>>,
    capacity: usize,
    mask: u64,
    written: u64,
    read_seen: u64,
    open: usize,
}

impl<M> View for Writer<M> {
    type V = WriterView;

    closed spec fn view(&self) -> WriterView {
        WriterView {
            capacity: self.capacity as nat,
            written: self.written,
            read_seen: self.read_seen,
            open: self.open as nat,
        }
    }
}

impl<M> Writer<M> {
    pub closed spec fn wf(&self) -> bool {
        &&& self@.wf()
        &&& self.shared.control.wf()
        &&& self.mask == self.capacity - 1
    }

    /// The element memory that the windows of this queue index.
    pub closed spec fn memory_spec(&self) -> M {
        self.shared.memory
    }

    /// Maximum number of elements the queue holds.
    pub fn capacity(&self) -> (r: usize)
        requires
            self.wf(),
        ensures
            r == self@.capacity,
            self@.wf(),
    {
        self.capacity
    }

    /// The element memory shared with the reader.
    pub fn memory(&self) -> (r: &M)
        ensures
            *r == self.memory_spec(),
    {
        &self.shared.memory
    }

    /// Takes `r`, a value of `R` just read, where a reader that keeps the
    /// protocol can have published it: where it moves `R` neither back nor
    /// past `W`. Any other value is left aside.
    fn take_read_position(&mut self, r: u64)
        requires
            old(self).wf(),
        ensures
            final(self).wf(),
            final(self)@.wf(),
            final(self)@ == (WriterView {
                read_seen: if used(old(self)@.written, r) <= used(
                    old(self)@.written,
                    old(self)@.read_seen,
                ) {
                    r
                } else {
                    old(self)@.read_seen
                },
                ..old(self)@
            }),
            final(self).memory_spec() == old(self).memory_spec(),
    {
        let seen_used = self.written.wrapping_sub(self.read_seen);
        if self.written.wrapping_sub(r) <= seen_used {
            self.read_seen = r;
        }
    }

    /// Opens a write chunk: every free slot, from the slot of `W` on.
    ///
    /// `R` is read with acquire ordering, so the reader is done with every slot
    /// it has given back. A value of `R` that would move it back, or past `W`,
    /// cannot come from a reader that keeps the protocol and is not taken.
    pub fn write_chunk(&mut self) -> (chunk: Chunk)
        requires
            old(self).wf(),
        ensures
            final(self).wf(),
            final(self)@.wf(),
            final(self)@.capacity == old(self)@.capacity,
            final(self)@.written == old(self)@.written,
            used(final(self)@.written, final(self)@.read_seen) <= used(
                old(self)@.written,
                old(self)@.read_seen,
            ),
            final(self)@.open == final(self)@.capacity - used(
                final(self)@.written,
                final(self)@.read_seen,
            ),
            chunk == write_window(
                final(self)@.capacity,
                final(self)@.written,
                final(self)@.read_seen,
            ),
            final(self).memory_spec() == old(self).memory_spec(),
    {
        let r = self.shared.control.read_position().load(Ordering::Acquire);
        self.take_read_position(r);
        let used_now = self.written.wrapping_sub(self.read_seen);
        self.open = self.capacity - used_now as usize;
        proof {
            lemma_mask_is_mod(self.written, self.capacity as nat);
        }
        Chunk { start: (self.written & self.mask) as usize, len: self.open }
    }

    /// Publishes the first `n` slots of the open chunk to the reader, or all
    /// of it where `n` is larger. Returns the number of elements committed.
    ///
    /// `W` is stored with release ordering: the reader that sees the new `W`
    /// sees every element written before.
    pub fn commit(&mut self, n: usize) -> (m: usize)
        requires
            old(self).wf(),
        ensures
            final(self).wf(),
            final(self)@.wf(),
            m == if n <= old(self)@.open {
                n
            } else {
                old(self)@.open as usize
            },
            final(self)@ == (WriterView {
                written: advance(old(self)@.written, m as nat),
                open: (old(self)@.open - m) as nat,
                ..old(self)@
            }),
            n == 0 ==> final(self)@ == old(self)@,
            final(self).memory_spec() == old(self).memory_spec(),
    {
        let m = if n <= self.open {
            n
        } else {
            self.open
        };
        if m > 0 {
            self.open = self.open - m;
            self.written = self.written.wrapping_add(m as u64);
            self.shared.control.write_position().store(self.written, Ordering::Release);
        }
        m
    }

    /// Whether the reader has been dropped: this handle is the only one
    /// left that holds the queue. The count is read once; the reader may drop
    /// its handle right after.
    pub fn is_abandoned(&self) -> bool {
        abandoned_for(holders(&self.shared))
    }

    /// Reserves the slot for one element: opens a write chunk and returns its
    /// first slot, or `None` where the queue is full. Committing 1 then
    /// publishes the element written there.
    pub fn push_slot(&mut self) -> (slot: Option<usize>)
        requires
            old(self).wf(),
        ensures
            final(self).wf(),
            final(self)@.wf(),
            final(self)@.capacity == old(self)@.capacity,
            final(self)@.written == old(self)@.written,
            used(final(self)@.written, final(self)@.read_seen) <= used(
                old(self)@.written,
                old(self)@.read_seen,
            ),
            final(self)@.open == final(self)@.capacity - used(
                final(self)@.written,
                final(self)@.read_seen,
            ),
            slot == if final(self)@.open == 0 {
                None
            } else {
                Some((final(self)@.written as nat % final(self)@.capacity) as usize)
            },
            final(self).memory_spec() == old(self).memory_spec(),
    {
        let chunk = self.write_chunk();
        if chunk.len == 0 {
            None
        } else {
            Some(chunk.start)
        }
    }
}

/// What a reader knows of its queue.
pub struct ReaderView {
    /// Slots in the buffer.
    pub capacity: nat,
    /// `R`: the reader is the only one to change it, so its copy is exact.
    pub consumed: u64,
    /// `W` as the reader last saw it. The writer only ever moves `W` on, so
    /// the elements it has published are at least those this value shows.
    pub write_seen: u64,
    /// Slots of the current read chunk that may still be committed.
    pub open: nat,
}

impl ReaderView {
    pub open spec fn wf(self) -> bool {
        &&& is_pow2(self.capacity)
        &&& self.capacity <= max_pow2_usize()
        &&& counters_ok(self.capacity, self.write_seen, self.consumed)
        &&& self.open <= used(self.write_seen, self.consumed)
    }
}

/// The consuming end of a queue.
pub struct Reader<M> {
    shared: Arc<Shared<M>>,
    capacity: usize,
    mask: u64,
    consumed: u64,
    write_seen: u64,
    open: usize,
}

impl<M> View for Reader<M> {
    type V = ReaderView;

    closed spec fn view(&self) -> ReaderView {
        ReaderView {
            capacity: self.capacity as nat,
            consumed: self.consumed,
            write_seen: self.write_seen,
            open: self.open as nat,
        }
    }
}

impl<M> Reader<M> {
    pub closed spec fn wf(&self) -> bool {
        &&& self@.wf()
        &&& self.shared.control.wf()
        &&& self.mask == self.capacity - 1
    }

    /// The element memory that the windows of this queue index.
    pub closed spec fn memory_spec(&self) -> M {
        self.shared.memory
    }

    /// Maximum number of elements the queue holds.
    pub fn capacity(&self) -> (r: usize)
        requires
            self.wf(),
        ensures
            r == self@.capacity,
            self@.wf(),
    {
        self.capacity
    }

    /// The element memory shared with the writer.
    pub fn memory(&self) -> (r: &M)
        ensures
            *r == self.memory_spec(),
    {
        &self.shared.memory
    }

    /// The number of slots of the open read chunk that may still be given back.
    pub fn read_size(&self) -> (r: usize)
        requires
            self.wf(),
        ensures
            r == self@.open,
    {
        self.open
    }

    /// Takes `w`, a value of `W` just read, where a writer that keeps the
    /// protocol can have published it: where it moves `W` neither back nor
    /// more than a buffer ahead of `R`. Any other value is left aside.
    fn take_write_position(&mut self, w: u64)
        requires
            old(self).wf(),
        ensures
            final(self).wf(),
            final(self)@.wf(),
            final(self)@ == (ReaderView {
                write_seen: if used(old(self)@.write_seen, old(self)@.consumed) <= used(
                    w,
                    old(self)@.consumed,
                ) && used(w, old(self)@.consumed) <= old(self)@.capacity {
                    w
                } else {
                    old(self)@.write_seen
                },
                ..old(self)@
            }),
            final(self).memory_spec() == old(self).memory_spec(),
    {
        let seen_used = self.write_seen.wrapping_sub(self.consumed);
        let now_used = w.wrapping_sub(self.consumed);
        if seen_used <= now_used && now_used <= self.capacity as u64 {
            self.write_seen = w;
        }
    }

    /// Opens a read chunk: every element committed and not yet consumed, from
    /// the slot of `R` on.
    pub fn read_chunk(&mut self) -> (chunk: Chunk)
        requires
            old(self).wf(),
        ensures
            final(self).wf(),
            final(self)@.wf(),
            final(self)@.capacity == old(self)@.capacity,
            final(self)@.consumed == old(self)@.consumed,
            used(final(self)@.write_seen, final(self)@.consumed) >= used(
                old(self)@.write_seen,
                old(self)@.consumed,
            ),
            final(self)@.open == used(final(self)@.write_seen, final(self)@.consumed),
            chunk == read_window(
                final(self)@.capacity,
                final(self)@.write_seen,
                final(self)@.consumed,
            ),
            final(self).memory_spec() == old(self).memory_spec(),
    {
        let w = self.shared.control.write_position().load(Ordering::Acquire);
        self.take_write_position(w);
        let used_now = self.write_seen.wrapping_sub(self.consumed);
        self.open = used_now as usize;
        proof {
            lemma_mask_is_mod(self.consumed, self.capacity as nat);
        }
        Chunk { start: (self.consumed & self.mask) as usize, len: self.open }
    }

    /// Opens a read chunk of at most `n` elements.
    pub fn limited_read_chunk(&mut self, n: u64) -> (chunk: Chunk)
        requires
            old(self).wf(),
        ensures
            final(self).wf(),
            final(self)@.wf(),
            final(self)@.capacity == old(self)@.capacity,
            final(self)@.consumed == old(self)@.consumed,
            used(final(self)@.write_seen, final(self)@.consumed) >= used(
                old(self)@.write_seen,
                old(self)@.consumed,
            ),
            final(self)@.open == if n <= used(final(self)@.write_seen, final(self)@.consumed) {
                n as nat
            } else {
                used(final(self)@.write_seen, final(self)@.consumed)
            },
            chunk == (Chunk {
                start: (final(self)@.consumed as nat % final(self)@.capacity) as usize,
                len: final(self)@.open as usize,
            }),
            final(self).memory_spec() == old(self).memory_spec(),
    {
        let w = self.shared.control.write_position().load(Ordering::Acquire);
        self.take_write_position(w);
        let used_now = self.write_seen.wrapping_sub(self.consumed);
        let len = if n <= used_now {
            n
        } else {
            used_now
        };
        self.open = len as usize;
        proof {
            lemma_mask_is_mod(self.consumed, self.capacity as nat);
        }
        Chunk { start: (self.consumed & self.mask) as usize, len: self.open }
    }

    /// Gives back every slot of the open read chunk to the writer.
    ///
    /// `R` is stored with release ordering: the writer that sees the new `R`
    /// will not overwrite the slots before the reader is done with them.
    pub fn commit(&mut self)
        requires
            old(self).wf(),
        ensures
            final(self).wf(),
            final(self)@.wf(),
            final(self)@ == (ReaderView {
                consumed: advance(old(self)@.consumed, old(self)@.open),
                open: 0,
                ..old(self)@
            }),
            final(self).memory_spec() == old(self).memory_spec(),
    {
        let k = self.open;
        self.commit_read(k);
    }

    /// Gives back the first `k` slots of the open read chunk to the writer.
    pub fn commit_read(&mut self, k: usize)
        requires
            old(self).wf(),
            k <= old(self)@.open,
        ensures
            final(self).wf(),
            final(self)@.wf(),
            final(self)@ == (ReaderView {
                consumed: advance(old(self)@.consumed, k as nat),
                open: (old(self)@.open - k) as nat,
                ..old(self)@
            }),
            final(self).memory_spec() == old(self).memory_spec(),
    {
        if k > 0 {
            self.open = self.open - k;
            self.consumed = self.consumed.wrapping_add(k as u64);
            self.shared.control.read_position().store(self.consumed, Ordering::Release);
        }
    }

    /// Whether the writer has been dropped: this handle is the only one
    /// left that holds the queue. The count is read once; the writer may drop
    /// its handle right after.
    pub fn is_abandoned(&self) -> bool {
        abandoned_for(holders(&self.shared))
    }
}

/// Builds a queue of `capacity` slots over `memory`, with both counters at
/// zero, and returns its two handles, which own the memory together.
pub fn cueue<M>(capacity: usize, memory: M) -> (handles: (Writer<M>, Reader<M>))
    requires
        is_pow2(capacity as nat),
    ensures
        handles.0.wf(),
        handles.1.wf(),
        handles.0@.wf(),
        handles.1@.wf(),
        handles.0@ == (WriterView { capacity: capacity as nat, written: 0, read_seen: 0, open: 0 }),
        handles.1@ == (ReaderView { capacity: capacity as nat, consumed: 0, write_seen: 0, open: 0 }),
        handles.0.memory_spec() == memory,
        handles.1.memory_spec() == memory,
{
    proof {
        lemma_pow2_fits(capacity as nat);
    }
    let shared = Arc::new(Shared { control: ControlBlock::new(), memory });
    let mask = (capacity - 1) as u64;
    let writer = Writer {
        shared: share(&shared),
        capacity,
        mask,
        written: 0,
        read_seen: 0,
        open: 0,
    };
    let reader = Reader { shared, capacity, mask, consumed: 0, write_seen: 0, open: 0 };
    (writer, reader)
}

} // verus!
