//! Block sizes and alignment arithmetic.

use vstd::prelude::*;
use vstd::arithmetic::power2::is_pow2;

verus! {

/// A block size the library works with: a power of two, small enough that a
/// buffer of two blocks less one byte can be allocated.
pub open spec fn valid_block_size(n: int) -> bool {
    is_pow2(n) && 2 * n - 1 <= isize::MAX
}

/// `value` lies on a boundary of `block_size`.
pub open spec fn aligned(value: int, block_size: int) -> bool {
    value % block_size == 0
}

/// The least number of bytes to skip from `address` to reach a boundary of
/// `block_size`.
pub open spec fn padding(address: int, block_size: int) -> int {
    (block_size - address % block_size) % block_size
}

/// Tells whether `n` is a power of two.
pub fn is_power_of_two(n: usize) -> (r: bool)
    ensures
        r == is_pow2(n as int),
{
    if n == 0 {
        proof {
            reveal(is_pow2);
        }
        return false;
    }
    let mut m: usize = n;
    while m % 2 == 0
        invariant
            0 < m <= n,
            is_pow2(m as int) == is_pow2(n as int),
        decreases m,
    {
        proof {
            reveal(is_pow2);
        }
        m = m / 2;
    }
    proof {
        reveal(is_pow2);
    }
    m == 1
}

/// Tells whether `n` can serve as a block size.
pub fn is_valid_block_size(n: usize) -> (r: bool)
    ensures
        r == valid_block_size(n as int),
{
    let limit: usize = isize::MAX as usize;
    if n == 0 || n > limit {
        proof {
            reveal(is_pow2);
        }
        return false;
    }
    is_power_of_two(n) && n - 1 <= limit - n
}

/// Tells whether `offset` is a multiple of `block_size`.
pub fn is_aligned(offset: u64, block_size: usize) -> (r: bool)
    requires
        block_size > 0,
    ensures
        r == aligned(offset as int, block_size as int),
{
    offset % (block_size as u64) == 0
}

/// Computes how many bytes lie between `address` and the next boundary of
/// `block_size` at or after it.
pub fn padding_to_align(address: usize, block_size: usize) -> (pad: usize)
    requires
        block_size > 0,
    ensures
        pad == padding(address as int, block_size as int),
        pad < block_size,
        aligned(address + pad, block_size as int),
{
    let rest: usize = address % block_size;
    proof {
        lemma_padding_aligns(address as int, block_size as int);
        if rest == 0 {
            vstd::arithmetic::div_mod::lemma_mod_self_0(block_size as int);
        } else {
            vstd::arithmetic::div_mod::lemma_small_mod(
                (block_size - rest) as nat,
                block_size as nat,
            );
        }
    }
    if rest == 0 {
        0
    } else {
        block_size - rest
    }
}

/// Skipping `padding(address, block_size)` bytes from `address` reaches a
/// boundary.
pub proof fn lemma_padding_aligns(address: int, block_size: int)
    requires
        block_size > 0,
    ensures
        0 <= padding(address, block_size) < block_size,
        aligned(address + padding(address, block_size), block_size),
{
    let rest = address % block_size;
    let quot = address / block_size;
    assert(address == block_size * quot + rest) by {
        vstd::arithmetic::div_mod::lemma_fundamental_div_mod(address, block_size);
    }
    if rest == 0 {
        assert(padding(address, block_size) == 0) by {
            vstd::arithmetic::div_mod::lemma_mod_self_0(block_size);
        }
    } else {
        let pad = block_size - rest;
        assert(pad % block_size == pad) by {
            vstd::arithmetic::div_mod::lemma_small_mod(pad as nat, block_size as nat);
        }
        assert((address + pad) % block_size == 0) by {
            assert(address + pad == block_size * (quot + 1)) by (nonlinear_arith)
                requires
                    address == block_size * quot + rest,
                    pad == block_size - rest,
            ;
            vstd::arithmetic::div_mod::lemma_mod_multiples_basic(quot + 1, block_size);
        }
    }
}

/// No skip shorter than `padding(address, block_size)` reaches a boundary.
pub proof fn lemma_padding_is_least(address: int, block_size: int, skip: int)
    requires
        block_size > 0,
        0 <= skip < padding(address, block_size),
    ensures
        !aligned(address + skip, block_size),
{
    let rest = address % block_size;
    let quot = address / block_size;
    vstd::arithmetic::div_mod::lemma_fundamental_div_mod(address, block_size);
    if rest == 0 {
        vstd::arithmetic::div_mod::lemma_mod_self_0(block_size);
    } else {
        let pad = block_size - rest;
        vstd::arithmetic::div_mod::lemma_small_mod(pad as nat, block_size as nat);
        assert(address + skip == block_size * quot + (rest + skip));
        vstd::arithmetic::div_mod::lemma_fundamental_div_mod_converse(
            address + skip,
            block_size,
            quot,
            rest + skip,
        );
    }
}

/// Of two powers of two, the smaller divides the larger.
pub proof fn lemma_power_of_two_divides(small: int, large: int)
    requires
        is_pow2(small),
        is_pow2(large),
        small <= large,
    ensures
        large % small == 0,
    decreases small,
{
    reveal(is_pow2);
    if small == 1 {
        assert(large % 1 == 0);
    } else {
        lemma_power_of_two_divides(small / 2, large / 2);
        let half = small / 2;
        let quot = (large / 2) / half;
        vstd::arithmetic::div_mod::lemma_fundamental_div_mod(large / 2, half);
        assert(large == small * quot) by (nonlinear_arith)
            requires
                large == 2 * (large / 2),
                small == 2 * half,
                large / 2 == half * quot,
        ;
        vstd::arithmetic::div_mod::lemma_mod_multiples_basic(quot, small);
        assert(small * quot == quot * small) by (nonlinear_arith);
    }
}

/// A block that starts at an aligned 64-bit file offset ends within the range
/// of 64-bit file positions.
pub proof fn lemma_aligned_block_fits(offset: int, block_size: int)
    requires
        is_pow2(block_size),
        block_size <= u64::MAX,
        0 <= offset <= u64::MAX,
        aligned(offset, block_size),
    ensures
        offset + block_size - 1 <= u64::MAX,
{
    let top: int = 0x1_0000_0000_0000_0000;
    assert(is_pow2(top)) by {
        vstd::arithmetic::power2::lemma2_to64();
        vstd::arithmetic::power2::lemma_pow2(64);
        assert(vstd::arithmetic::power2::is_pow2_exists(top));
        vstd::arithmetic::power2::is_pow2_equiv(top);
    }
    lemma_power_of_two_divides(block_size, top);
    assert(block_size > 0) by {
        reveal(is_pow2);
    }
    vstd::arithmetic::div_mod::lemma_fundamental_div_mod(offset, block_size);
    vstd::arithmetic::div_mod::lemma_fundamental_div_mod(top, block_size);
    let a = offset / block_size;
    let b = top / block_size;
    assert(a < b) by (nonlinear_arith)
        requires
            block_size > 0,
            offset == block_size * a,
            top == block_size * b,
            offset < top,
    ;
    assert(block_size * (a + 1) <= block_size * b) by (nonlinear_arith)
        requires
            block_size > 0,
            a + 1 <= b,
    ;
    assert(block_size * (a + 1) == block_size * a + block_size) by (nonlinear_arith);
}

} // verus!
