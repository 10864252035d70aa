//! The floating-point arithmetic that the kernels are written over.
//!
//! The host kernels never look inside a floating-point value: they decide which values meet,
//! in which operation and in which order. The trait below names the operations, and the
//! contracts of the kernels say which of them produced each result, through `call_ensures`.
//! Nothing is claimed of what an operation returns.
use vstd::prelude::*;

verus! {

/// One family of number formats with its operations.
///
/// `F32` is the format in which the kernels compute; `F16` and `BF16` are storage formats, and
/// `F64` is the format of hyper-parameters.
pub trait Scalars: Sized {
    type F16: Copy;

    type BF16: Copy;

    type F32: Copy;

    type F64: Copy;

    /// The value `0`.
    fn zero() -> Self::F32;

    /// The value `1 / sqrt(2)`.
    fn frac_1_sqrt_2() -> Self::F32;

    /// The smallest scale that a packed row may have, `1e-8`.
    fn tiny() -> Self::F32;

    /// A small integer.
    fn from_i32(value: i32) -> Self::F32;

    /// `a + b`.
    fn plus(a: Self::F32, b: Self::F32) -> Self::F32;

    /// `a - b`.
    fn minus(a: Self::F32, b: Self::F32) -> Self::F32;

    /// `a * b`.
    fn times(a: Self::F32, b: Self::F32) -> Self::F32;

    /// `a / b`.
    fn divide(a: Self::F32, b: Self::F32) -> Self::F32;

    /// `-a`.
    fn negate(a: Self::F32) -> Self::F32;

    /// The larger of `a` and `b`.
    fn larger(a: Self::F32, b: Self::F32) -> Self::F32;

    /// `|a|`.
    fn magnitude(a: Self::F32) -> Self::F32;

    /// The square root of `a`.
    fn root(a: Self::F32) -> Self::F32;

    /// Whether `a` equals `0`.
    fn is_zero(a: Self::F32) -> bool;

    /// `a` rounded half away from zero and clamped to `low ..= high`.
    fn round_clamped(a: Self::F32, low: i8, high: i8) -> i8;

    fn widen_f16(a: Self::F16) -> Self::F32;

    fn widen_bf16(a: Self::BF16) -> Self::F32;

    fn narrow_f16(a: Self::F32) -> Self::F16;

    fn narrow_bf16(a: Self::F32) -> Self::BF16;

    /// `a` in single precision.
    fn single(a: Self::F64) -> Self::F32;

    /// `1 - a` in double precision.
    fn one_minus(a: Self::F64) -> Self::F64;

    /// Whether `a` is within one machine epsilon of `1`.
    fn is_one(a: Self::F64) -> bool;
}

/// One step of a running value: from `trace[i]` to `trace[i + 1]`.
pub open spec fn steps_at<N: Scalars>(
    step: spec_fn(int, N::F32, N::F32) -> bool,
    trace: Seq<N::F32>,
    i: int,
) -> bool {
    step(i, trace[i], trace[i + 1])
}

/// The values that a running value takes: zero first, then one per step `0 .. n`.
pub open spec fn is_trace<N: Scalars>(
    step: spec_fn(int, N::F32, N::F32) -> bool,
    n: nat,
    trace: Seq<N::F32>,
) -> bool {
    &&& trace.len() == n + 1
    &&& call_ensures(N::zero, (), trace[0])
    &&& forall|i: int| 0 <= i < n ==> #[trigger] steps_at::<N>(step, trace, i)
}

/// `acc` is what a running value that starts at zero comes to after steps `0 .. n`, in order.
pub open spec fn accumulates<N: Scalars>(
    step: spec_fn(int, N::F32, N::F32) -> bool,
    n: nat,
    acc: N::F32,
) -> bool {
    exists|trace: Seq<N::F32>| #[trigger] is_trace::<N>(step, n, trace) && trace[n as int] == acc
}

pub proof fn accumulates_start<N: Scalars>(
    step: spec_fn(int, N::F32, N::F32) -> bool,
    acc: N::F32,
)
    requires
        call_ensures(N::zero, (), acc),
    ensures
        accumulates::<N>(step, 0, acc),
{
    assert(is_trace::<N>(step, 0, seq![acc]));
}

pub proof fn accumulates_next<N: Scalars>(
    step: spec_fn(int, N::F32, N::F32) -> bool,
    n: nat,
    prev: N::F32,
    acc: N::F32,
)
    requires
        accumulates::<N>(step, n, prev),
        step(n as int, prev, acc),
    ensures
        accumulates::<N>(step, n + 1, acc),
{
    let trace = choose|trace: Seq<N::F32>| #[trigger]
        is_trace::<N>(step, n, trace) && trace[n as int] == prev;
    let longer = trace.push(acc);
    assert forall|i: int| 0 <= i < n + 1 implies #[trigger] steps_at::<N>(step, longer, i) by {
        if i < n {
            assert(steps_at::<N>(step, trace, i));
        }
    }
    assert(is_trace::<N>(step, n + 1, longer));
}

/// Where every step of `left` is a step of `right`, so is every running value.
pub proof fn accumulates_mono<N: Scalars>(
    left: spec_fn(int, N::F32, N::F32) -> bool,
    right: spec_fn(int, N::F32, N::F32) -> bool,
    n: nat,
    acc: N::F32,
)
    requires
        forall|i: int, from: N::F32, to: N::F32|
            0 <= i < n && #[trigger] left(i, from, to) ==> right(i, from, to),
        accumulates::<N>(left, n, acc),
    ensures
        accumulates::<N>(right, n, acc),
{
    let trace = choose|trace: Seq<N::F32>| #[trigger]
        is_trace::<N>(left, n, trace) && trace[n as int] == acc;
    assert forall|i: int| 0 <= i < n implies #[trigger] steps_at::<N>(right, trace, i) by {
        assert(steps_at::<N>(left, trace, i));
    }
    assert(is_trace::<N>(right, n, trace));
}

/// `to` is `from` with the product of `a` and `b` added.
pub open spec fn adds_product<N: Scalars>(a: N::F32, b: N::F32, from: N::F32, to: N::F32) -> bool {
    exists|p: N::F32| #[trigger]
        call_ensures(N::times, (a, b), p) && call_ensures(N::plus, (from, p), to)
}

pub fn add_product<N: Scalars>(a: N::F32, b: N::F32, from: N::F32) -> (to: N::F32)
    ensures
        adds_product::<N>(a, b, from, to),
{
    let p = N::times(a, b);
    N::plus(from, p)
}

} // verus!
