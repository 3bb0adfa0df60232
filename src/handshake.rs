use vstd::prelude::*;

use crate::protocol::{advance, counters_ok, lemma_advance_advance, lemma_advance_used, min_nat, used};
use crate::queue::{ReaderView, WriterView};

verus! {

/// The writer and the reader of one queue agree with each other: `W` is the
/// writer's counter and `R` the reader's, the `R` that the writer last saw
/// lies between `R` and `W` behind it, and the `W` that the reader last saw
/// lies between `R` and `W`.
pub open spec fn handles_agree(wv: WriterView, rv: ReaderView) -> bool {
    &&& wv.capacity == rv.capacity
    &&& used(wv.written, rv.consumed) <= used(wv.written, wv.read_seen)
    &&& used(rv.write_seen, rv.consumed) <= used(wv.written, rv.consumed)
}

/// One operation of either handle.
pub enum HandleOp {
    /// `Writer::write_chunk`, which reads `R`.
    WriteChunk,
    /// `Writer::commit(n)`.
    WriterCommit(nat),
    /// `Reader::read_chunk`, which reads `W`.
    ReadChunk,
    /// `Reader::limited_read_chunk(n)`, which reads `W`.
    LimitedReadChunk(nat),
    /// `Reader::commit`.
    ReaderCommit,
    /// `Reader::commit_read(k)`; one past the open chunk is not made.
    ReaderCommitRead(nat),
}

/// What an operation does to the two handles, as their contracts state it,
/// where each load of the peer's counter returns the counter's value.
pub open spec fn apply(s: (WriterView, ReaderView), op: HandleOp) -> (WriterView, ReaderView) {
    let (wv, rv) = s;
    let w = wv.written;
    let r = rv.consumed;
    match op {
        HandleOp::WriteChunk => (
            WriterView { read_seen: r, open: (wv.capacity - used(w, r)) as nat, ..wv },
            rv,
        ),
        HandleOp::WriterCommit(n) => {
            let m = min_nat(n, wv.open);
            (WriterView { written: advance(w, m), open: (wv.open - m) as nat, ..wv }, rv)
        },
        HandleOp::ReadChunk => (wv, ReaderView { write_seen: w, open: used(w, r), ..rv }),
        HandleOp::LimitedReadChunk(n) => (
            wv,
            ReaderView { write_seen: w, open: min_nat(n, used(w, r)), ..rv },
        ),
        HandleOp::ReaderCommit => (
            wv,
            ReaderView { consumed: advance(r, rv.open), open: 0, ..rv },
        ),
        HandleOp::ReaderCommitRead(k) => if k <= rv.open {
            (wv, ReaderView { consumed: advance(r, k), open: (rv.open - k) as nat, ..rv })
        } else {
            s
        },
    }
}

/// The handles after the operations, in the order given.
pub open spec fn apply_all(s: (WriterView, ReaderView), ops: Seq<HandleOp>) -> (
    WriterView,
    ReaderView,
)
    decreases ops.len(),
{
    if ops.len() == 0 {
        s
    } else {
        apply(apply_all(s, ops.drop_last()), ops.last())
    }
}

/// The elements the writer commits in one operation.
pub open spec fn produced_by(s: (WriterView, ReaderView), op: HandleOp) -> nat {
    match op {
        HandleOp::WriterCommit(n) => min_nat(n, s.0.open),
        _ => 0,
    }
}

/// The elements the reader gives back in one operation.
pub open spec fn consumed_by(s: (WriterView, ReaderView), op: HandleOp) -> nat {
    match op {
        HandleOp::ReaderCommit => s.1.open,
        HandleOp::ReaderCommitRead(k) => if k <= s.1.open {
            k
        } else {
            0
        },
        _ => 0,
    }
}

/// The elements the writer committed over the operations.
pub open spec fn produced(s: (WriterView, ReaderView), ops: Seq<HandleOp>) -> nat
    decreases ops.len(),
{
    if ops.len() == 0 {
        0
    } else {
        produced(s, ops.drop_last()) + produced_by(apply_all(s, ops.drop_last()), ops.last())
    }
}

/// The elements the reader gave back over the operations.
pub open spec fn consumed(s: (WriterView, ReaderView), ops: Seq<HandleOp>) -> nat
    decreases ops.len(),
{
    if ops.len() == 0 {
        0
    } else {
        consumed(s, ops.drop_last()) + consumed_by(apply_all(s, ops.drop_last()), ops.last())
    }
}

/// Where the handles agree, the counters are in bounds,
/// `0 <= W - R <= capacity`, and a load of the peer's counter is taken: the
/// writer takes `R`, since it does not move `R` back, and the reader takes
/// `W`, since it moves `W` neither back nor more than a buffer ahead of `R`.
pub proof fn lemma_agreeing_handles_in_bounds(wv: WriterView, rv: ReaderView)
    requires
        wv.wf(),
        rv.wf(),
        handles_agree(wv, rv),
    ensures
        counters_ok(wv.capacity, wv.written, rv.consumed),
        used(wv.written, rv.consumed) <= used(wv.written, wv.read_seen),
        used(rv.write_seen, rv.consumed) <= used(wv.written, rv.consumed)
            <= rv.capacity,
{
}

proof fn lemma_apply_keeps_agreement(s: (WriterView, ReaderView), op: HandleOp)
    requires
        s.0.wf(),
        s.1.wf(),
        handles_agree(s.0, s.1),
    ensures
        apply(s, op).0.wf(),
        apply(s, op).1.wf(),
        handles_agree(apply(s, op).0, apply(s, op).1),
        apply(s, op).0.capacity == s.0.capacity,
        apply(s, op).0.written == advance(s.0.written, produced_by(s, op)),
        apply(s, op).1.consumed == advance(s.1.consumed, consumed_by(s, op)),
        used(apply(s, op).0.written, apply(s, op).1.consumed) + consumed_by(s, op) == used(
            s.0.written,
            s.1.consumed,
        ) + produced_by(s, op),
{
    let (wv, rv) = s;
    assert(advance(wv.written, 0) == wv.written);
    assert(advance(rv.consumed, 0) == rv.consumed);
    let w = wv.written;
    let r = rv.consumed;
    match op {
        HandleOp::WriterCommit(n) => {
            let m = min_nat(n, wv.open);
            lemma_advance_used(w, r, m, 0);
            lemma_advance_used(w, wv.read_seen, m, 0);
            lemma_advance_used(w, rv.write_seen, m, 0);
        },
        HandleOp::ReaderCommit => {
            lemma_advance_used(w, r, 0, rv.open);
            lemma_advance_used(rv.write_seen, r, 0, rv.open);
        },
        HandleOp::ReaderCommitRead(k) => {
            if k <= rv.open {
                lemma_advance_used(w, r, 0, k);
                lemma_advance_used(rv.write_seen, r, 0, k);
            }
        },
        _ => {},
    }
}

/// Whatever the writer and the reader do, in whatever interleaving, the two
/// handles go on agreeing, and so `0 <= W - R <= capacity` at every step.
/// Each counter moves on by exactly what its handle committed, in the order
/// committed, so `W - R` is what was produced and not yet consumed.
pub proof fn lemma_interleaving_keeps_bounds(s: (WriterView, ReaderView), ops: Seq<HandleOp>)
    requires
        s.0.wf(),
        s.1.wf(),
        handles_agree(s.0, s.1),
    ensures
        apply_all(s, ops).0.wf(),
        apply_all(s, ops).1.wf(),
        handles_agree(apply_all(s, ops).0, apply_all(s, ops).1),
        apply_all(s, ops).0.capacity == s.0.capacity,
        counters_ok(s.0.capacity, apply_all(s, ops).0.written, apply_all(s, ops).1.consumed),
        apply_all(s, ops).0.written == advance(s.0.written, produced(s, ops)),
        apply_all(s, ops).1.consumed == advance(s.1.consumed, consumed(s, ops)),
        used(apply_all(s, ops).0.written, apply_all(s, ops).1.consumed) + consumed(s, ops) == used(
            s.0.written,
            s.1.consumed,
        ) + produced(s, ops),
    decreases ops.len(),
{
    if ops.len() > 0 {
        let rest = ops.drop_last();
        let before = apply_all(s, rest);
        lemma_interleaving_keeps_bounds(s, rest);
        lemma_apply_keeps_agreement(before, ops.last());
        lemma_advance_advance(s.0.written, produced(s, rest), produced_by(before, ops.last()));
        lemma_advance_advance(s.1.consumed, consumed(s, rest), consumed_by(before, ops.last()));
    } else {
        assert(advance(s.0.written, 0) == s.0.written);
        assert(advance(s.1.consumed, 0) == s.1.consumed);
    }
    lemma_agreeing_handles_in_bounds(apply_all(s, ops).0, apply_all(s, ops).1);
}

/// Once the reader has drained a queue that started empty, it has consumed
/// exactly what the writer produced, in the order produced: both counters
/// moved on by the same amount from the same place.
pub proof fn lemma_drained_consumed_all(s: (WriterView, ReaderView), ops: Seq<HandleOp>)
    requires
        s.0.wf(),
        s.1.wf(),
        handles_agree(s.0, s.1),
        s.0.written == s.1.consumed,
        used(apply_all(s, ops).0.written, apply_all(s, ops).1.consumed) == 0,
    ensures
        consumed(s, ops) == produced(s, ops),
        apply_all(s, ops).0.written == apply_all(s, ops).1.consumed,
{
    lemma_interleaving_keeps_bounds(s, ops);
}

/// The handles of a new queue agree.
pub proof fn lemma_new_handles_agree(capacity: nat)
    ensures
        handles_agree(
            WriterView { capacity, written: 0, read_seen: 0, open: 0 },
            ReaderView { capacity, consumed: 0, write_seen: 0, open: 0 },
        ),
{
}

} // verus!
