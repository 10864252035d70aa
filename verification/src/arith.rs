//! Integer arithmetic shared by the operations.
use vstd::prelude::*;

verus! {

pub open spec fn min_of(a: int, b: int) -> int {
    if a <= b {
        a
    } else {
        b
    }
}

pub open spec fn max_of(a: int, b: int) -> int {
    if a >= b {
        a
    } else {
        b
    }
}

/// `a / b`, rounded up.
pub open spec fn ceil_div(a: int, b: int) -> int {
    (a + b - 1) / b
}

/// `ceil_div(a, b)` is the least number of blocks of `b` that hold `a` items.
pub proof fn lemma_ceil_div(a: int, b: int)
    requires
        0 <= a,
        0 < b,
    ensures
        0 <= ceil_div(a, b) <= a,
        a <= ceil_div(a, b) * b,
        a > 0 ==> (ceil_div(a, b) - 1) * b < a,
        ceil_div(a, b) == a / b + (if a % b == 0 {
            0int
        } else {
            1
        }),
{
    let q = a / b;
    let r = a % b;
    assert(a == q * b + r && 0 <= r < b && q >= 0) by (nonlinear_arith)
        requires
            0 <= a,
            0 < b,
            q == a / b,
            r == a % b,
    ;
    if r == 0 {
        assert((a + b - 1) / b == q) by (nonlinear_arith)
            requires
                a == q * b,
                b > 0,
        ;
        assert(q <= a && (a > 0 ==> (q - 1) * b < a)) by (nonlinear_arith)
            requires
                a == q * b,
                b > 0,
                q >= 0,
        ;
    } else {
        assert((a + b - 1) / b == q + 1) by (nonlinear_arith)
            requires
                a == q * b + r,
                0 < r < b,
        ;
        assert(q + 1 <= a && a <= (q + 1) * b && q * b < a) by (nonlinear_arith)
            requires
                a == q * b + r,
                0 < r < b,
                q >= 0,
        ;
    }
}

pub fn div_ceil(a: usize, b: usize) -> (q: usize)
    requires
        b > 0,
    ensures
        q == ceil_div(a as int, b as int),
{
    proof {
        lemma_ceil_div(a as int, b as int);
    }
    if a % b == 0 {
        a / b
    } else {
        a / b + 1
    }
}

/// Every place of a grid of `rows` rows lies in one row and one column.
pub proof fn lemma_place(i: int, rows: int, cols: int)
    requires
        0 <= i < rows * cols,
        0 <= cols,
    ensures
        0 <= i / cols < rows,
        0 <= i % cols < cols,
        i == (i / cols) * cols + i % cols,
{
    assert(cols > 0) by (nonlinear_arith)
        requires
            0 <= i < rows * cols,
            0 <= cols,
    ;
    assert(0 <= i / cols && 0 <= i % cols < cols && i == (i / cols) * cols + i % cols)
        by (nonlinear_arith)
        requires
            cols > 0,
            0 <= i,
    ;
    assert(i / cols < rows) by (nonlinear_arith)
        requires
            cols > 0,
            i == (i / cols) * cols + i % cols,
            0 <= i % cols,
            i < rows * cols,
    ;
}

/// A row and a column of a grid of `rows` rows have a place in it.
pub proof fn lemma_pair(row: int, col: int, rows: int, cols: int)
    requires
        0 <= row < rows,
        0 <= col < cols,
    ensures
        0 <= row * cols + col < rows * cols,
        0 <= row * cols,
{
    assert(0 <= row * cols && row * cols + col < rows * cols) by (nonlinear_arith)
        requires
            0 <= row < rows,
            0 <= col < cols,
    ;
}

/// Whether a product can be counted.
pub fn product_fits(a: usize, b: usize) -> (fits: bool)
    ensures
        fits == (a * b <= usize::MAX),
{
    a.checked_mul(b).is_some()
}

pub fn to_u32(value: usize) -> (narrow: Option<u32>)
    ensures
        match narrow {
            Some(n) => n == value,
            None => value > u32::MAX,
        },
{
    if value as u64 <= u32::MAX as u64 {
        Some(value as u32)
    } else {
        None
    }
}

} // verus!
