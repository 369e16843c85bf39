//! Growth policy of the GPU instance and point buffers.
//!
//! A buffer is reallocated only when the data no longer fits; the new
//! capacity is the smallest power of two that holds the data, so repeated
//! small increases do not reallocate every frame.

use vstd::prelude::*;
use vstd::arithmetic::power2::{pow2, lemma_pow2_unfold, lemma_pow2_strictly_increases, lemma2_to64};

verus! {

/// `p` is a power of two (`2^k` for some `k`).
pub open spec fn is_power_of_two(p: nat) -> bool {
    exists|k: nat| pow2(k) == p
}

/// `p` is the smallest power of two that is at least `n`.
pub open spec fn is_next_power_of_two(n: nat, p: nat) -> bool {
    &&& is_power_of_two(p)
    &&& n <= p
    &&& (p == 1 || p / 2 < n)
}

/// Smallest power of two that is at least `n` (one for `n == 0`).
pub fn next_power_of_two(n: u32) -> (p: u32)
    requires
        n <= 0x8000_0000,
    ensures
        is_next_power_of_two(n as nat, p as nat),
{
    proof {
        lemma2_to64();
    }
    let mut p: u32 = 1;
    let ghost mut k: nat = 0;
    while p < n
        invariant
            n <= 0x8000_0000,
            p == pow2(k),
            k <= 31,
            p == 1 || p / 2 < n,
            pow2(31) == 0x8000_0000,
            pow2(0) == 1,
        decreases 31 - k,
    {
        proof {
            if k >= 31 {
                if k > 31 {
                    lemma_pow2_strictly_increases(31, k);
                }
                assert(false);
            }
            lemma_pow2_unfold(k + 1);
            if k + 1 < 31 {
                lemma_pow2_strictly_increases(k + 1, 31);
            }
        }
        p = p * 2;
        proof {
            k = k + 1;
        }
    }
    p
}

/// Decides whether a buffer of `current` elements must grow to hold
/// `needed` elements: `None` keeps the buffer, `Some(c)` reallocates it with
/// capacity `c`, the smallest power of two that holds `needed`.
pub fn grown_capacity(current: u32, needed: u32) -> (next: Option<u32>)
    requires
        needed <= current || needed <= 0x8000_0000,
    ensures
        match next {
            None => needed <= current,
            Some(c) => current < needed && is_next_power_of_two(needed as nat, c as nat),
        },
{
    if needed <= current {
        None
    } else {
        let c = next_power_of_two(needed);
        Some(if c < 1 { 1 } else { c })
    }
}

} // verus!
