//! How GPU buffers grow.

use vstd::arithmetic::power2;
use vstd::prelude::*;

verus! {

/// `r` is the smallest power of two that is `n` or more.
pub open spec fn is_next_pow2(n: nat, r: nat) -> bool {
    exists|k: nat|
        r == #[trigger] power2::pow2(k) && n <= r && (k > 0 ==> power2::pow2((k - 1) as nat) < n)
}

/// The smallest power of two that is `n` or more.
pub fn next_power_of_two(n: u64) -> (r: u64)
    requires
        n <= 0x8000_0000_0000_0000,
    ensures
        is_next_pow2(n as nat, r as nat),
        r <= 0x8000_0000_0000_0000,
{
    let mut r: u64 = 1;
    let ghost mut k: nat = 0;
    proof {
        power2::lemma2_to64();
    }
    while r < n
        invariant
            n <= 0x8000_0000_0000_0000,
            r == power2::pow2(k),
            r <= 0x8000_0000_0000_0000,
            k > 0 ==> power2::pow2((k - 1) as nat) < n,
        decreases 0x1_0000_0000_0000_0000 - r,
    {
        proof {
            power2::lemma_pow2_unfold((k + 1) as nat);
            power2::lemma_pow2_pos(k);
            power2::lemma2_to64();
            power2::lemma2_to64_rest();
            if k > 63 {
                power2::lemma_pow2_strictly_increases(63, k);
            }
            if k + 1 < 63 {
                power2::lemma_pow2_strictly_increases((k + 1) as nat, 63);
            }
            k = (k + 1) as nat;
        }
        r = r * 2;
    }
    r
}

/// The size a buffer is made anew with, if it has to be: from nothing, the next
/// power of two but at least `least`; else twice what it was, or what is
/// needed, whichever is more.
pub open spec fn grows_to(capacity: nat, size: nat, least: nat, new: nat) -> bool {
    if capacity == 0 {
        exists|p: nat|
            #[trigger] is_next_pow2(size, p) && new == if p >= least {
                p
            } else {
                least
            }
    } else {
        new == if 2 * capacity >= size {
            2 * capacity
        } else {
            size
        }
    }
}

/// Whether a buffer of `capacity` bytes has to be made anew to hold `size`
/// bytes, and with how many.
pub fn grown_capacity(capacity: u64, size: u64, least: u64) -> (r: Option<u64>)
    requires
        size <= 0x8000_0000_0000_0000,
        capacity < 0x8000_0000_0000_0000,
    ensures
        r is None == (size == 0 || capacity >= size),
        r is Some ==> grows_to(capacity as nat, size as nat, least as nat, r->0 as nat),
{
    if size == 0 || capacity >= size {
        return None;
    }
    if capacity == 0 {
        let p: u64 = next_power_of_two(size);
        assert(is_next_pow2(size as nat, p as nat));
        if p >= least {
            Some(p)
        } else {
            Some(least)
        }
    } else {
        let doubled: u64 = capacity * 2;
        if doubled >= size {
            Some(doubled)
        } else {
            Some(size)
        }
    }
}

/// The least size of a buffer of polygon edges.
pub const LEAST_EDGE_BYTES: u64 = 64;

/// The least size of a buffer of transform rows: one row.
pub const LEAST_TRANSFORM_BYTES: u64 = 48;

/// Law: a buffer made anew holds what is needed, and one made larger at least
/// doubles.
pub proof fn lemma_grown_is_enough(capacity: nat, size: nat, least: nat, new: nat)
    requires
        size > capacity,
        grows_to(capacity, size, least, new),
    ensures
        new >= size,
        new >= 2 * capacity,
{
}

/// `wgpu::COPY_BUFFER_ALIGNMENT`: buffer copies work on units of four bytes.
#[verifier::external_body]
fn copy_buffer_alignment() -> (r: u64)
    ensures
        r == 4,
{
    wgpu::COPY_BUFFER_ALIGNMENT
}

/// The size of a buffer that `size` bytes can be copied into: the next power of
/// two, rounded up to whole units of copying, and at least one unit.
pub fn next_copy_buffer_size(size: u64) -> (r: u64)
    requires
        size <= 0x8000_0000_0000_0000,
    ensures
        r % 4 == 0,
        r >= size,
        exists|p: nat|
            #[trigger] is_next_pow2(size as nat, p) && r == if p >= 4 {
                p
            } else {
                4
            },
{
    let align: u64 = copy_buffer_alignment();
    let align_mask: u64 = align - 1;
    let p: u64 = next_power_of_two(size);
    proof {
        let k = choose|k: nat|
            p as nat == #[trigger] power2::pow2(k) && size <= p && (k > 0 ==> power2::pow2(
                (k - 1) as nat,
            ) < size);
        lemma_pow2_multiple_of_four(k);
    }
    let rounded: u64 = (p + align_mask) & !align_mask;
    assert(rounded == if p >= 4 { p } else { 4 }) by (bit_vector)
        requires
            rounded == ((p + 3u64) as u64) & !3u64,
            p == 1 || p == 2 || p % 4 == 0,
            0 < p <= 0x8000_0000_0000_0000u64,
    ;
    assert(is_next_pow2(size as nat, p as nat));
    if rounded >= align {
        rounded
    } else {
        align
    }
}

proof fn lemma_pow2_multiple_of_four(k: nat)
    ensures
        power2::pow2(k) == 1 || power2::pow2(k) == 2 || power2::pow2(k) % 4 == 0,
        power2::pow2(k) > 0,
    decreases k,
{
    power2::lemma2_to64();
    if k >= 2 {
        lemma_pow2_multiple_of_four((k - 1) as nat);
        power2::lemma_pow2_unfold(k);
        power2::lemma_pow2_unfold((k - 1) as nat);
        power2::lemma_pow2_pos((k - 2) as nat);
    }
}

/// A power of two is one, two, or a number of whole units of copying.
pub proof fn lemma_pow2_from_four(n: nat, p: nat)
    requires
        is_next_pow2(n, p),
    ensures
        p > 2 ==> p % 4 == 0,
        exists|k: nat| p == #[trigger] power2::pow2(k),
        p >= n,
        p > 0,
        n > 1 ==> p < 2 * n,
        n <= 1 ==> p == 1,
{
    let k = choose|k: nat|
        p == #[trigger] power2::pow2(k) && n <= p && (k > 0 ==> power2::pow2((k - 1) as nat) < n);
    lemma_pow2_multiple_of_four(k);
    power2::lemma2_to64();
    if k > 0 {
        power2::lemma_pow2_unfold(k);
        power2::lemma_pow2_pos((k - 1) as nat);
    }
}

/// Law: the next power of two is enough, and half of it is not.
pub proof fn lemma_next_power_is_least(n: u64, r: u64)
    requires
        n <= 0x8000_0000_0000_0000,
        call_ensures(next_power_of_two, (n,), r),
    ensures
        r >= n,
        n > 1 ==> r < 2 * n,
        n <= 1 ==> r == 1,
        r > 2 ==> r % 4 == 0,
        exists|k: nat| r == #[trigger] power2::pow2(k),
{
    lemma_pow2_from_four(n as nat, r as nat);
}

/// Law: a buffer is made anew exactly if it cannot hold what is needed. The new one
/// can, and is at least twice the old one and as large as the least; it is no
/// larger than these, or than twice what is needed.
pub proof fn lemma_buffers_grow_as_needed(capacity: u64, size: u64, least: u64, r: Option<u64>)
    requires
        size <= 0x8000_0000_0000_0000,
        capacity < 0x8000_0000_0000_0000,
        call_ensures(grown_capacity, (capacity, size, least), r),
    ensures
        r is Some <==> capacity < size,
        r matches Some(new) ==> {
            &&& new >= size
            &&& new >= 2 * capacity
            &&& capacity == 0 ==> new >= least
            &&& new == least || new < 2 * size || new == 2 * capacity || new == 1
            &&& capacity > 0 ==> new == size || new == 2 * capacity
        },
{
    if r is Some && capacity == 0 {
        let new = r->0 as nat;
        let p = choose|p: nat|
            #[trigger] is_next_pow2(size as nat, p) && new == if p >= least {
                p
            } else {
                least as nat
            };
        lemma_pow2_from_four(size as nat, p);
    }
}

/// Law: a buffer that is copied into holds what is copied, in whole units of four
/// bytes, and is at most twice as large, or one unit.
pub proof fn lemma_copy_buffer_is_enough(size: u64, r: u64)
    requires
        size <= 0x8000_0000_0000_0000,
        call_ensures(next_copy_buffer_size, (size,), r),
    ensures
        r >= size,
        r % 4 == 0,
        r >= 4,
        r == 4 || r < 2 * size,
{
    let p = choose|p: nat|
        #[trigger] is_next_pow2(size as nat, p) && r == if p >= 4 {
            p
        } else {
            4
        };
    lemma_pow2_from_four(size as nat, p);
}

} // verus!
