use vstd::arithmetic::power::pow;
use vstd::arithmetic::power2::{
    lemma2_to64, lemma2_to64_rest, lemma_pow2, lemma_pow2_strictly_increases, lemma_pow2_unfold,
    pow2,
};
use vstd::bits::{lemma_u64_low_bits_mask_is_mod, low_bits_mask};
use vstd::arithmetic::div_mod::lemma_div_multiples_vanish;
use vstd::prelude::*;

use crate::error::CueueError;

verus! {

/// `n` is a power of two: 1, 2, 4, ...
pub open spec fn is_pow2(n: nat) -> bool
    decreases n,
{
    if n == 1 {
        true
    } else if n < 2 || n % 2 == 1 {
        false
    } else {
        is_pow2(n / 2)
    }
}

/// `p` is the smallest power of two that is not smaller than `n`.
pub open spec fn is_pow2_ceil(p: nat, n: nat) -> bool {
    &&& is_pow2(p)
    &&& n <= p
    &&& (p == 1 || p < 2 * n)
}

/// The smallest power of two not smaller than `n`.
pub open spec fn pow2_ceil(n: nat) -> nat
    decreases n,
{
    if n <= 1 {
        1
    } else {
        2 * pow2_ceil(((n + 1) / 2) as nat)
    }
}

/// The largest power of two that divides `n`; 1 where `n` is zero or odd.
pub open spec fn pow2_part(n: nat) -> nat
    decreases n,
{
    if n == 0 || n % 2 == 1 {
        1
    } else {
        2 * pow2_part(n / 2)
    }
}

/// The largest power of two that a `usize` holds.
pub open spec fn max_pow2_usize() -> nat {
    (usize::MAX as nat) / 2 + 1
}

/// Of two powers of two, the smaller one is at most half the larger one.
pub proof fn lemma_pow2_gap(p: nat, q: nat)
    requires
        is_pow2(p),
        is_pow2(q),
        p < q,
    ensures
        2 * p <= q,
    decreases p,
{
    if p != 1 {
        lemma_pow2_gap(p / 2, q / 2);
    }
}

proof fn lemma_pow2_exp(k: nat)
    ensures
        is_pow2(pow2(k)),
    decreases k,
{
    if k > 0 {
        lemma_pow2_exp((k - 1) as nat);
        lemma_pow2_unfold(k);
        assert(pow2(k) / 2 == pow2((k - 1) as nat));
    } else {
        lemma_pow2(0);
        reveal(pow);
    }
}

proof fn lemma_max_pow2_usize()
    ensures
        is_pow2(max_pow2_usize()),
{
    lemma2_to64();
    lemma2_to64_rest();
    lemma_pow2_exp(31);
    lemma_pow2_exp(63);
}

/// `pow2_ceil(n)` is the smallest power of two not smaller than `n`.
pub proof fn lemma_pow2_ceil(n: nat)
    ensures
        is_pow2_ceil(pow2_ceil(n), n),
    decreases n,
{
    if n > 1 {
        let m = ((n + 1) / 2) as nat;
        lemma_pow2_ceil(m);
        let c = pow2_ceil(m);
        assert(pow2_ceil(n) == 2 * c);
        assert((2 * c) / 2 == c);
        if c != 1 && n % 2 == 1 {
            assert(c % 2 == 0);
        }
    }
}

/// There is only one smallest power of two not smaller than `n`.
pub proof fn lemma_pow2_ceil_unique(p: nat, n: nat)
    requires
        is_pow2_ceil(p, n),
    ensures
        p == pow2_ceil(n),
{
    let q = pow2_ceil(n);
    lemma_pow2_ceil(n);
    if p < q {
        lemma_pow2_gap(p, q);
    } else if q < p {
        lemma_pow2_gap(q, p);
    }
}

/// Every power of two that a `usize` holds is at most `max_pow2_usize()`.
pub proof fn lemma_pow2_fits(p: nat)
    requires
        is_pow2(p),
        p <= usize::MAX,
    ensures
        p <= max_pow2_usize(),
{
    lemma_max_pow2_usize();
    if p > max_pow2_usize() {
        lemma_pow2_gap(max_pow2_usize(), p);
    }
}

/// A power of two is `pow2(k)` for some `k`.
proof fn lemma_pow2_exponent(n: nat) -> (k: nat)
    requires
        is_pow2(n),
    ensures
        pow2(k) == n,
    decreases n,
{
    if n == 1 {
        lemma_pow2(0);
        reveal(pow);
        0
    } else {
        let k = lemma_pow2_exponent(n / 2);
        lemma_pow2_unfold(k + 1);
        k + 1
    }
}

/// For a power of two `capacity` that fits in a `usize`, masking with
/// `capacity - 1` is taking the remainder by `capacity`.
pub proof fn lemma_mask_is_mod(x: u64, capacity: nat)
    requires
        is_pow2(capacity),
        capacity <= max_pow2_usize(),
    ensures
        x & ((capacity - 1) as u64) == x % (capacity as u64),
{
    let k = lemma_pow2_exponent(capacity);
    lemma2_to64();
    lemma2_to64_rest();
    if k >= 64 {
        lemma_pow2_strictly_increases(63, k);
    }
    lemma_u64_low_bits_mask_is_mod(x, k);
    assert(low_bits_mask(k) == capacity - 1);
}

/// Returns the smallest power of two not smaller than `n`, or
/// `CapacityOverflow` when that power of two does not fit in a `usize`.
pub fn next_power_two(n: usize) -> (r: Result<usize, CueueError>)
    ensures
        r is Ok <==> n <= max_pow2_usize(),
        r matches Ok(p) ==> p == pow2_ceil(n as nat),
        r matches Err(e) ==> e == CueueError::CapacityOverflow,
{
    let mut p: usize = 1;
    while p < n
        invariant
            is_pow2(p as nat),
            p == 1 || p < 2 * n,
            p <= max_pow2_usize(),
        decreases usize::MAX - p,
    {
        if p > usize::MAX / 2 {
            return Err(CueueError::CapacityOverflow);
        }
        proof {
            lemma_max_pow2_usize();
            lemma_pow2_gap(p as nat, max_pow2_usize());
        }
        assert(is_pow2((p * 2) as nat)) by {
            assert((p * 2) as nat / 2 == p as nat);
        }
        p = p * 2;
    }
    proof {
        lemma_pow2_ceil_unique(p as nat, n as nat);
    }
    Ok(p)
}


/// Returns the largest power of two that divides `n` (1 for zero or odd `n`).
pub(crate) fn pow2_part_of(n: usize) -> (u: usize)
    ensures
        u == pow2_part(n as nat),
{
    let mut rest: usize = n;
    let mut unit: usize = 1;
    while rest != 0 && rest % 2 == 0
        invariant
            unit >= 1,
            unit * rest == n,
            unit * pow2_part(rest as nat) == pow2_part(n as nat),
        decreases rest,
    {
        assert(unit * 2 <= unit * rest) by (nonlinear_arith)
            requires
                rest >= 2,
                unit >= 1,
        ;
        assert((unit * 2) * (rest / 2) == unit * rest) by (nonlinear_arith)
            requires
                rest % 2 == 0,
        ;
        assert(pow2_part(rest as nat) == 2 * pow2_part((rest / 2) as nat));
        assert(unit * pow2_part(rest as nat) == (unit * 2) * pow2_part((rest / 2) as nat))
            by (nonlinear_arith)
            requires
                pow2_part(rest as nat) == 2 * pow2_part((rest / 2) as nat),
        ;
        rest = rest / 2;
        unit = unit * 2;
    }
    assert(pow2_part(rest as nat) == 1);
    assert(unit * pow2_part(rest as nat) == unit) by (nonlinear_arith)
        requires
            pow2_part(rest as nat) == 1,
    ;
    unit
}

pub proof fn lemma_pow2_part_positive(n: nat)
    ensures
        pow2_part(n) >= 1,
    decreases n,
{
    if n != 0 && n % 2 == 0 {
        lemma_pow2_part_positive(n / 2);
    }
}


/// `q` is a multiple of the power of two `p` not larger than it, and the
/// quotient is a power of two too.
pub proof fn lemma_pow2_divides(p: nat, q: nat)
    requires
        is_pow2(p),
        is_pow2(q),
        p <= q,
    ensures
        q == p * (q / p),
        is_pow2(q / p),
    decreases p,
{
    if p == 1 {
        assert(q / 1 == q);
    } else {
        if q == 1 {
            assert(false);
        }
        lemma_pow2_divides(p / 2, q / 2);
        let t = (q / 2) / (p / 2);
        assert(q == p * t) by (nonlinear_arith)
            requires
                q / 2 == (p / 2) * t,
                q % 2 == 0,
                p % 2 == 0,
        ;
        lemma_div_multiples_vanish(t as int, p as int);
    }
}

/// `n` is `pow2_part(n)` times a whole number, and `pow2_part(n)` is a power
/// of two, not larger than `n` where `n` is positive.
pub proof fn lemma_pow2_part(n: nat)
    ensures
        n == pow2_part(n) * (n / pow2_part(n)),
        is_pow2(pow2_part(n)),
        n > 0 ==> pow2_part(n) <= n,
    decreases n,
{
    if n == 0 || n % 2 == 1 {
        assert(pow2_part(n) == 1);
        assert(n / 1 == n);
        assert(1 * n == n);
    } else {
        lemma_pow2_part(n / 2);
        let h = pow2_part(n / 2);
        let t = (n / 2) / h;
        assert(pow2_part(n) == 2 * h);
        assert(n == (2 * h) * t) by (nonlinear_arith)
            requires
                n / 2 == h * t,
                n % 2 == 0,
        ;
        lemma_div_multiples_vanish(t as int, (2 * h) as int);
        assert(n / pow2_part(n) == t);
        assert((2 * h) / 2 == h);
        assert(2 * h <= n) by (nonlinear_arith)
            requires
                n == (2 * h) * t,
                n > 0,
                h >= 1,
        ;
    }
}

pub proof fn lemma_pow2_part_of_pow2(n: nat)
    requires
        is_pow2(n),
    ensures
        pow2_part(n) == n,
    decreases n,
{
    if n > 1 {
        lemma_pow2_part_of_pow2(n / 2);
    }
}

} // verus!
