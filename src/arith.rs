//! Small arithmetic facts shared by the sampler and its laws.
use vstd::prelude::*;

verus! {

/// Scaling an index below `n` by `m / n` lands below `m`.
pub proof fn lemma_scaled_index_below(k: int, n: int, m: int)
    requires
        0 <= k < n,
        0 < m,
    ensures
        0 <= (k * m) / n < m,
{
    assert(0 <= k * m) by (nonlinear_arith)
        requires
            0 <= k,
            0 < m,
    ;
    vstd::arithmetic::div_mod::lemma_div_pos_is_pos(k * m, n);
    vstd::arithmetic::div_mod::lemma_fundamental_div_mod(k * m, n);
    let q = (k * m) / n;
    let r = (k * m) % n;
    assert(0 <= r) by {
        vstd::arithmetic::div_mod::lemma_mod_pos_bound(k * m, n);
    }
    assert(q < m) by (nonlinear_arith)
        requires
            k * m == n * q + r,
            0 <= r,
            0 <= k < n,
            0 < m,
    ;
}

/// A cell `(x, y)` of a `w` by `h` grid, read row by row, lies before `w * h`.
pub proof fn lemma_row_major_index(x: int, y: int, w: int, h: int)
    requires
        0 <= x < w,
        0 <= y < h,
    ensures
        0 <= y * w + x < w * h,
{
    assert(0 <= y * w + x < w * h) by (nonlinear_arith)
        requires
            0 <= x < w,
            0 <= y < h,
    ;
}

/// Bounds on a product of two non-negative factors.
pub proof fn lemma_mul_le(a: int, b: int, bound_a: int, bound_b: int)
    requires
        0 <= a <= bound_a,
        0 <= b <= bound_b,
    ensures
        0 <= a * b <= bound_a * bound_b,
{
    assert(0 <= a * b <= bound_a * bound_b) by (nonlinear_arith)
        requires
            0 <= a <= bound_a,
            0 <= b <= bound_b,
    ;
}

/// The product of two 32-bit integers stays within `2^62` in magnitude.
pub proof fn lemma_mul_i32(a: int, b: int)
    requires
        -0x8000_0000 <= a <= 0x7fff_ffff,
        -0x8000_0000 <= b <= 0x7fff_ffff,
    ensures
        -0x4000_0000_0000_0000 <= a * b <= 0x4000_0000_0000_0000,
{
    assert(-0x4000_0000_0000_0000 <= a * b <= 0x4000_0000_0000_0000) by (nonlinear_arith)
        requires
            -0x8000_0000 <= a <= 0x7fff_ffff,
            -0x8000_0000 <= b <= 0x7fff_ffff,
    ;
}

} // verus!
