use vstd::arithmetic::div_mod::{lemma_div_is_ordered_by_denominator, lemma_mod_multiples_basic};
use vstd::prelude::*;

use crate::error::CueueError;
use crate::pow2::{
    is_pow2, is_pow2_ceil, lemma_pow2_ceil, lemma_pow2_ceil_unique, lemma_pow2_divides,
    lemma_pow2_part, lemma_pow2_part_of_pow2, lemma_pow2_part_positive, max_pow2_usize,
    next_power_two, pow2_ceil, pow2_part, pow2_part_of,
};

verus! {

/// The fewest slots a queue of elements of `elem_size` bytes holds: a page's
/// worth of elements. Sizes that are not a power of two count as their largest
/// power-of-two factor, so that a power-of-two number of them always fills
/// whole pages.
pub open spec fn min_slots(page_size: nat, elem_size: nat) -> nat {
    page_size / pow2_part(elem_size)
}

/// The number of slots a queue gets for a request of `requested` slots.
pub open spec fn slots_for(requested: nat, page_size: nat, elem_size: nat) -> nat {
    pow2_ceil(spec_max(requested, min_slots(page_size, elem_size)))
}

pub open spec fn spec_max(a: nat, b: nat) -> nat {
    if a >= b {
        a
    } else {
        b
    }
}

/// How a queue's memory is laid out: `capacity` slots of `elem_size` bytes,
/// a buffer of `buffer_bytes`, mapped twice, back to back, over a region of
/// `region_bytes`.
#[derive(Clone, Copy, Debug, PartialEq, Eq, Structural)]
pub struct Layout {
    pub capacity: usize,
    pub elem_size: usize,
    pub buffer_bytes: usize,
    pub region_bytes: usize,
}

impl Layout {
    /// Sizes a queue for at least `requested` elements of `elem_size` bytes on
    /// a system with pages of `page_size` bytes.
    ///
    /// The capacity is the smallest power of two not smaller than the request
    /// nor than a page's worth of elements. `CapacityOverflow` comes when that
    /// power of two does not fit in `usize`; `LayoutTooLarge` when the doubly
    /// mapped region of the buffer does not fit in `isize`.
    pub fn new(requested: usize, page_size: usize, elem_size: usize) -> (r: Result<
        Layout,
        CueueError,
    >)
        ensures
            r matches Err(e) ==> (e == CueueError::CapacityOverflow <==> spec_max(
                requested as nat,
                min_slots(page_size as nat, elem_size as nat),
            ) > max_pow2_usize()),
            r matches Err(e) ==> e == CueueError::CapacityOverflow || e
                == CueueError::LayoutTooLarge,
            r is Ok <==> spec_max(requested as nat, min_slots(page_size as nat, elem_size as nat))
                <= max_pow2_usize() && 2 * slots_for(
                requested as nat,
                page_size as nat,
                elem_size as nat,
            ) * elem_size <= isize::MAX,
            r matches Ok(l) ==> {
                &&& l.capacity == slots_for(requested as nat, page_size as nat, elem_size as nat)
                &&& l.elem_size == elem_size
                &&& l.buffer_bytes == l.capacity * elem_size
                &&& l.region_bytes == 2 * l.buffer_bytes
            },
    {
        let unit = pow2_part_of(elem_size);
        proof {
            lemma_pow2_part_positive(elem_size as nat);
        }
        let floor = page_size / unit;
        let want = if requested >= floor {
            requested
        } else {
            floor
        };
        let capacity = match next_power_two(want) {
            Ok(p) => p,
            Err(e) => {
                return Err(e);
            },
        };
        let limit: usize = (isize::MAX as usize) / 2;
        if elem_size != 0 && capacity > limit / elem_size {
            assert(2 * capacity * elem_size > isize::MAX) by (nonlinear_arith)
                requires
                    elem_size > 0,
                    capacity > limit / elem_size,
                    limit == isize::MAX / 2,
            ;
            return Err(CueueError::LayoutTooLarge);
        }
        assert(2 * capacity * elem_size <= isize::MAX) by (nonlinear_arith)
            requires
                elem_size == 0 || capacity <= limit / elem_size,
                limit == isize::MAX / 2,
        ;
        assert(isize::MAX as int <= usize::MAX as int);
        assert(capacity * elem_size <= 2 * capacity * elem_size) by (nonlinear_arith);
        let buffer_bytes = capacity * elem_size;
        Ok(Layout { capacity, elem_size, buffer_bytes, region_bytes: 2 * buffer_bytes })
    }
}

/// Extra flags for the primary mapping: pre-fault its pages, so that the
/// first writes into the buffer do not stop on page faults.
///
/// Relies on `libc::MAP_POPULATE`, the flag's value on this target; its value
/// differs between targets, so nothing is said of it.
#[verifier::external_body]
pub fn platform_flags() -> i32 {
    libc::MAP_POPULATE
}

/// A queue's capacity is a power of two, at least the request, and at least
/// a page's worth of elements.
pub proof fn lemma_capacity_bounds(requested: nat, page_size: nat, elem_size: nat)
    ensures
        is_pow2(slots_for(requested, page_size, elem_size)),
        slots_for(requested, page_size, elem_size) >= requested,
        elem_size > 0 ==> slots_for(requested, page_size, elem_size) >= page_size / elem_size,
{
    let want = spec_max(requested, min_slots(page_size, elem_size));
    lemma_pow2_ceil(want);
    lemma_pow2_part(elem_size);
    lemma_pow2_part_positive(elem_size);
    if elem_size > 0 {
        lemma_div_is_ordered_by_denominator(
            page_size as int,
            pow2_part(elem_size) as int,
            elem_size as int,
        );
    }
}

/// Asked for no slots, a queue of power-of-two sized elements gets exactly
/// one page's worth.
pub proof fn lemma_zero_request(page_size: nat, elem_size: nat)
    requires
        is_pow2(page_size),
        is_pow2(elem_size),
        elem_size <= page_size,
    ensures
        slots_for(0, page_size, elem_size) == page_size / elem_size,
        slots_for(0, page_size, elem_size) * elem_size == page_size,
{
    lemma_pow2_part(elem_size);
    lemma_pow2_divides(pow2_part(elem_size), elem_size);
    assert(pow2_part(elem_size) == elem_size) by {
        lemma_pow2_part_of_pow2(elem_size);
    }
    lemma_pow2_divides(elem_size, page_size);
    let s = page_size / elem_size;
    assert(is_pow2_ceil(s, s));
    lemma_pow2_ceil_unique(s, s);
}

/// The buffer of a queue fills whole pages, so that it can be mapped twice,
/// back to back, on page boundaries.
pub proof fn lemma_buffer_whole_pages(requested: nat, page_size: nat, elem_size: nat)
    requires
        is_pow2(page_size),
    ensures
        (slots_for(requested, page_size, elem_size) * elem_size) % page_size == 0,
{
    let cap = slots_for(requested, page_size, elem_size);
    let u = pow2_part(elem_size);
    let o = elem_size / u;
    lemma_capacity_bounds(requested, page_size, elem_size);
    lemma_pow2_part(elem_size);
    lemma_pow2_ceil(spec_max(requested, min_slots(page_size, elem_size)));
    if u <= page_size {
        lemma_pow2_divides(u, page_size);
        let f = page_size / u;
        lemma_pow2_divides(f, cap);
        let t = cap / f;
        assert(cap * elem_size == page_size * (t * o)) by (nonlinear_arith)
            requires
                cap == f * t,
                page_size == u * f,
                elem_size == u * o,
        ;
        lemma_mod_multiples_basic((t * o) as int, page_size as int);
        assert((t * o) * page_size == page_size * (t * o)) by (nonlinear_arith);
    } else {
        lemma_pow2_divides(page_size, u);
        let t = u / page_size;
        assert(cap * elem_size == page_size * (t * o * cap)) by (nonlinear_arith)
            requires
                u == page_size * t,
                elem_size == u * o,
        ;
        lemma_mod_multiples_basic((t * o * cap) as int, page_size as int);
        assert((t * o * cap) * page_size == page_size * (t * o * cap)) by (nonlinear_arith);
    }
}

} // verus!
