use vstd::prelude::*;

verus! {

/// The counters `W` and `R` are 64-bit and count modulo 2^64.
pub open spec fn counter_range() -> int {
    0x1_0000_0000_0000_0000
}

/// Elements committed by the writer and not yet consumed by the reader, for
/// the write counter `w` and the read counter `r`.
pub open spec fn used(w: u64, r: u64) -> nat {
    if w >= r {
        (w - r) as nat
    } else {
        (w - r + counter_range()) as nat
    }
}

/// The counter `c` moved on by `n` elements.
pub open spec fn advance(c: u64, n: nat) -> u64 {
    ((c + n) % counter_range()) as u64
}

/// A window of slots: `len` slots from slot `start` on. The buffer is mapped
/// twice, back to back, so slot `i` and slot `i + capacity` are the same
/// element and any window that starts inside the buffer is contiguous.
#[derive(Clone, Copy, Debug, PartialEq, Eq, Structural)]
pub struct Chunk {
    pub start: usize,
    pub len: usize,
}

/// The window the writer may fill: from the slot of `W` on, every free slot.
pub open spec fn write_window(capacity: nat, w: u64, r: u64) -> Chunk {
    Chunk { start: (w as nat % capacity) as usize, len: (capacity - used(w, r)) as usize }
}

/// The window the reader may consume: from the slot of `R` on, every used slot.
pub open spec fn read_window(capacity: nat, w: u64, r: u64) -> Chunk {
    Chunk { start: (r as nat % capacity) as usize, len: used(w, r) as usize }
}

/// The counters of a queue of `capacity` slots are in a legal state:
/// `0 <= W - R <= capacity`.
pub open spec fn counters_ok(capacity: nat, w: u64, r: u64) -> bool {
    used(w, r) <= capacity
}

/// The smaller of `a` and `b`.
pub open spec fn min_nat(a: nat, b: nat) -> nat {
    if a <= b {
        a
    } else {
        b
    }
}

/// Moving `W` on by `n` adds `n` to `W - R`; moving `R` on by `k` takes it off.
pub proof fn lemma_advance_used(w: u64, r: u64, n: nat, k: nat)
    requires
        used(w, r) + n < counter_range(),
        k <= used(w, r),
    ensures
        used(advance(w, n), r) == used(w, r) + n,
        used(w, advance(r, k)) == used(w, r) - k,
{
}

/// Moving a counter on twice is moving it on by the sum.
pub proof fn lemma_advance_advance(c: u64, a: nat, b: nat)
    ensures
        advance(advance(c, a), b) == advance(c, a + b),
{
    let m = counter_range();
    let x = c + a;
    vstd::arithmetic::div_mod::lemma_add_mod_noop(x, b as int, m);
    vstd::arithmetic::div_mod::lemma_add_mod_noop(x % m, b as int, m);
    vstd::arithmetic::div_mod::lemma_mod_twice(x, m);
}

/// A write chunk and a read chunk each lie inside the doubly mapped buffer,
/// `[0, 2 * capacity)`, so each is one contiguous range, also where it wraps.
pub proof fn lemma_windows_contiguous(capacity: nat, w: u64, r: u64)
    requires
        0 < capacity <= usize::MAX,
        counters_ok(capacity, w, r),
    ensures
        write_window(capacity, w, r).start < capacity,
        write_window(capacity, w, r).start + write_window(capacity, w, r).len <= 2 * capacity,
        read_window(capacity, w, r).start < capacity,
        read_window(capacity, w, r).start + read_window(capacity, w, r).len <= 2 * capacity,
{
}

/// What the writer commits into an empty queue is what the reader is handed
/// next: the same slots, from the same one on, so the elements come back as
/// they were written.
pub proof fn lemma_round_trip(capacity: nat, c: u64, n: nat)
    requires
        0 < capacity <= usize::MAX,
        capacity < counter_range(),
        n <= capacity,
    ensures
        write_window(capacity, c, c).len == capacity,
        read_window(capacity, advance(c, n), c).start == write_window(capacity, c, c).start,
        read_window(capacity, advance(c, n), c).len == n,
{
    lemma_advance_used(c, c, n, 0);
}

/// A read chunk depends on `R` and the `W` seen alone: read twice without a
/// commit in between, it starts at the same slot and only grows, and it is
/// the same chunk where the writer committed nothing in between.
pub proof fn lemma_read_twice(capacity: nat, w1: u64, w2: u64, r: u64)
    requires
        0 < capacity <= usize::MAX,
        counters_ok(capacity, w2, r),
        used(w1, r) <= used(w2, r),
    ensures
        read_window(capacity, w2, r).start == read_window(capacity, w1, r).start,
        read_window(capacity, w2, r).len >= read_window(capacity, w1, r).len,
        w1 == w2 ==> read_window(capacity, w2, r) == read_window(capacity, w1, r),
{
}

/// A full queue has no free slot to write and its whole capacity to read.
pub proof fn lemma_full(capacity: nat, w: u64, r: u64)
    requires
        0 < capacity <= usize::MAX,
        used(w, r) == capacity,
    ensures
        write_window(capacity, w, r).len == 0,
        read_window(capacity, w, r).len == capacity,
{
}

/// After `capacity - 1` elements went through a fresh queue, two more are
/// handed to the reader as one chunk that starts in the last slot and runs on
/// into the alias of the first.
pub proof fn lemma_wrap_around(capacity: nat)
    requires
        2 <= capacity <= usize::MAX,
        capacity < counter_range(),
    ensures
        ({
            let c = advance(0, (capacity - 1) as nat);
            let w = advance(c, 2);
            &&& used(c, c) == 0
            &&& write_window(capacity, c, c).len >= 2
            &&& read_window(capacity, w, c) == (Chunk { start: (capacity - 1) as usize, len: 2 })
            &&& read_window(capacity, w, c).start + 2 == capacity + 1
        }),
{
    let c = advance(0, (capacity - 1) as nat);
    vstd::arithmetic::div_mod::lemma_small_mod((capacity - 1) as nat, counter_range() as nat);
    assert(c == capacity - 1);
    lemma_advance_used(c, c, 2, 0);
    vstd::arithmetic::div_mod::lemma_small_mod((capacity - 1) as nat, capacity);
}

} // verus!
