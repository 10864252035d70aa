//! Numbers as the real numbers that they stand for, and operations without rounding.
//!
//! What an operation is for is a formula over real numbers. Under a reading of numbers in which no
//! operation rounds, its result is what the formula says.
use crate::host::{narrows, widens, widens_bf16, widens_f16, widens_u8};
use crate::layout::lemma_contiguous_place;
use crate::scalar::{accumulates, adds_product, is_trace, steps_at, Scalars};
use crate::tensor::{HostData, HostTensor, HostVec, Storage, Tensor};
use vstd::prelude::*;

verus! {

/// The real number that a number of each format stands for.
pub struct Reading<N: Scalars> {
    pub half: spec_fn(N::F16) -> real,
    pub brain: spec_fn(N::BF16) -> real,
    pub single: spec_fn(N::F32) -> real,
    pub double: spec_fn(N::F64) -> real,
}

/// The integer `code` is `x`, rounded half away from zero and clamped to `low ..= high`.
pub open spec fn is_rounded(x: real, low: int, high: int, code: int) -> bool {
    &&& low <= code <= high
    &&& x >= high as real ==> code == high
    &&& x <= low as real ==> code == low
    &&& low as real <= x <= high as real ==> 2real * (x - code as real) <= 1real && 2real * (
    code as real - x) <= 1real
    &&& low as real <= x <= high as real && x > 0real ==> 2real * (x - code as real) < 1real
    &&& low as real <= x <= high as real && x < 0real ==> 2real * (code as real - x) < 1real
}

impl<N: Scalars> Reading<N> {
    /// Constants, sums, differences, products and negatives are exact.
    pub open spec fn exact_arithmetic(self) -> bool {
        let val = self.single;
        &&& forall|a: N::F32| #[trigger] call_ensures(N::zero, (), a) ==> val(a) == 0real
        &&& forall|n: i32, a: N::F32| #[trigger]
            call_ensures(N::from_i32, (n,), a) ==> val(a) == n as int as real
        &&& forall|a: N::F32, b: N::F32, c: N::F32| #[trigger]
            call_ensures(N::plus, (a, b), c) ==> val(c) == val(a) + val(b)
        &&& forall|a: N::F32, b: N::F32, c: N::F32| #[trigger]
            call_ensures(N::minus, (a, b), c) ==> val(c) == val(a) - val(b)
        &&& forall|a: N::F32, b: N::F32, c: N::F32| #[trigger]
            call_ensures(N::times, (a, b), c) ==> val(c) == val(a) * val(b)
        &&& forall|a: N::F32, c: N::F32| #[trigger]
            call_ensures(N::negate, (a,), c) ==> val(c) == -val(a)
    }

    /// Quotients and roots are exact, where there are any.
    pub open spec fn exact_division(self) -> bool {
        let val = self.single;
        &&& forall|a: N::F32, b: N::F32, c: N::F32| #[trigger]
            call_ensures(N::divide, (a, b), c) && val(b) != 0real ==> val(c) * val(b) == val(a)
        &&& forall|a: N::F32, c: N::F32| #[trigger]
            call_ensures(N::root, (a,), c) && val(a) >= 0real ==> val(c) >= 0real && val(c) * val(
                c,
            ) == val(a)
        &&& forall|a: N::F32| #[trigger]
            call_ensures(N::frac_1_sqrt_2, (), a) ==> val(a) > 0real && 2real * (val(a) * val(a))
                == 1real
    }

    /// Comparisons, magnitudes and rounding to integers are exact.
    pub open spec fn exact_order(self) -> bool {
        let val = self.single;
        &&& forall|a: N::F32| #[trigger]
            call_ensures(N::tiny, (), a) ==> val(a) * 100000000real == 1real
        &&& forall|a: N::F32, b: N::F32, c: N::F32| #[trigger]
            call_ensures(N::larger, (a, b), c) ==> val(c) == if val(a) >= val(b) {
                val(a)
            } else {
                val(b)
            }
        &&& forall|a: N::F32, c: N::F32| #[trigger]
            call_ensures(N::magnitude, (a,), c) ==> val(c) == if val(a) >= 0real {
                val(a)
            } else {
                -val(a)
            }
        &&& forall|a: N::F32, yes: bool| #[trigger]
            call_ensures(N::is_zero, (a,), yes) ==> yes == (val(a) == 0real)
        &&& forall|a: N::F32, low: i8, high: i8, code: i8| #[trigger]
            call_ensures(N::round_clamped, (a, low, high), code) && low <= high ==> is_rounded(
                val(a),
                low as int,
                high as int,
                code as int,
            )
    }

    /// Conversions between formats are exact.
    pub open spec fn exact_conversions(self) -> bool {
        &&& forall|a: N::F16, c: N::F32| #[trigger]
            call_ensures(N::widen_f16, (a,), c) ==> (self.single)(c) == (self.half)(a)
        &&& forall|a: N::BF16, c: N::F32| #[trigger]
            call_ensures(N::widen_bf16, (a,), c) ==> (self.single)(c) == (self.brain)(a)
        &&& forall|a: N::F32, c: N::F16| #[trigger]
            call_ensures(N::narrow_f16, (a,), c) ==> (self.half)(c) == (self.single)(a)
        &&& forall|a: N::F32, c: N::BF16| #[trigger]
            call_ensures(N::narrow_bf16, (a,), c) ==> (self.brain)(c) == (self.single)(a)
        &&& forall|a: N::F64, c: N::F32| #[trigger]
            call_ensures(N::single, (a,), c) ==> (self.single)(c) == (self.double)(a)
        &&& forall|a: N::F64, c: N::F64| #[trigger]
            call_ensures(N::one_minus, (a,), c) ==> (self.double)(c) == 1real - (self.double)(a)
    }

    /// No operation rounds.
    pub open spec fn is_exact(self) -> bool {
        &&& self.exact_arithmetic()
        &&& self.exact_division()
        &&& self.exact_order()
        &&& self.exact_conversions()
    }

    /// The number `i` places behind the first element of a host tensor.
    pub open spec fn at(self, t: Tensor<N>, i: int) -> real {
        let place = t.layout.start_offset + i;
        match t.storage {
            Storage::Host(HostData::U8(values)) => values@[place] as int as real,
            Storage::Host(HostData::F16(values)) => (self.half)(values@[place]),
            Storage::Host(HostData::BF16(values)) => (self.brain)(values@[place]),
            Storage::Host(HostData::F32(values)) => (self.single)(values@[place]),
            _ => 0real,
        }
    }

    /// Element number `i` of a host tensor, counted in row-major order.
    pub open spec fn nth(self, t: Tensor<N>, i: int) -> real {
        match t.storage {
            Storage::Host(HostData::U8(values)) => t.layout.elements(
                values@,
            )[i] as int as real,
            Storage::Host(HostData::F16(values)) => (self.half)(t.layout.elements(values@)[i]),
            Storage::Host(HostData::BF16(values)) => (self.brain)(t.layout.elements(values@)[i]),
            Storage::Host(HostData::F32(values)) => (self.single)(t.layout.elements(values@)[i]),
            _ => 0real,
        }
    }

    /// Number `i` of a result.
    pub open spec fn of(self, out: HostTensor<N>, i: int) -> real {
        self.stored(out.data, i)
    }

    /// Number `i` of stored numbers.
    pub open spec fn stored(self, data: HostVec<N>, i: int) -> real {
        match data {
            HostVec::U8(values) => values@[i] as int as real,
            HostVec::F16(values) => (self.half)(values@[i]),
            HostVec::BF16(values) => (self.brain)(values@[i]),
            HostVec::F32(values) => (self.single)(values@[i]),
        }
    }
}

/// What is read of a host tensor stands for its elements.
pub proof fn lemma_read_nth<N: Scalars>(r: Reading<N>, t: Tensor<N>, wide: Seq<N::F32>, i: int)
    requires
        r.is_exact(),
        t.storage matches Storage::Host(data) && widens::<N>(data, t.layout, wide),
        0 <= i < t.count(),
    ensures
        wide.len() == t.count(),
        (r.single)(wide[i]) == r.nth(t, i),
{
    match t.storage {
        Storage::Host(HostData::U8(values)) => {
            let stored = t.layout.elements(values@);
            assert(widens_u8::<N>(stored, wide));
            assert(call_ensures(N::from_i32, (stored[i] as i32,), wide[i]));
        },
        Storage::Host(HostData::F16(values)) => {
            let stored = t.layout.elements(values@);
            assert(widens_f16::<N>(stored, wide));
            assert(call_ensures(N::widen_f16, (stored[i],), wide[i]));
        },
        Storage::Host(HostData::BF16(values)) => {
            let stored = t.layout.elements(values@);
            assert(widens_bf16::<N>(stored, wide));
            assert(call_ensures(N::widen_bf16, (stored[i],), wide[i]));
        },
        _ => {},
    }
}

/// What is read of a contiguous host tensor stands for the numbers that it holds.
pub proof fn lemma_read_exactly<N: Scalars>(r: Reading<N>, t: Tensor<N>, wide: Seq<N::F32>, i: int)
    requires
        r.is_exact(),
        t.layout.contiguous(),
        t.storage matches Storage::Host(data) && widens::<N>(data, t.layout, wide),
        0 <= i < t.count(),
    ensures
        wide.len() == t.count(),
        (r.single)(wide[i]) == r.at(t, i),
{
    lemma_contiguous_place(t.layout, i);
    lemma_read_nth(r, t, wide, i);
}

/// What is stored stands for the numbers that were to be stored.
pub proof fn lemma_stored_exactly<N: Scalars>(
    r: Reading<N>,
    wide: Seq<N::F32>,
    data: HostVec<N>,
    i: int,
)
    requires
        r.is_exact(),
        narrows::<N>(wide, data),
        0 <= i < wide.len(),
    ensures
        r.stored(data, i) == (r.single)(wide[i]),
{
    match data {
        HostVec::F16(values) => {
            assert(call_ensures(N::narrow_f16, (wide[i],), values@[i]));
        },
        HostVec::BF16(values) => {
            assert(call_ensures(N::narrow_bf16, (wide[i],), values@[i]));
        },
        _ => {},
    }
}

/// A running value comes to what its steps add up to.
pub proof fn lemma_sum_exactly<N: Scalars>(
    r: Reading<N>,
    steps: spec_fn(int, N::F32, N::F32) -> bool,
    total: spec_fn(int) -> real,
    n: nat,
    acc: N::F32,
)
    requires
        r.is_exact(),
        total(0) == 0real,
        forall|i: int, from: N::F32, to: N::F32|
            0 <= i < n && #[trigger] steps(i, from, to) ==> (r.single)(to) - (r.single)(from) == total(
                i + 1,
            ) - total(i),
        accumulates::<N>(steps, n, acc),
    ensures
        (r.single)(acc) == total(n as int),
{
    let trace = choose|trace: Seq<N::F32>| #[trigger]
        is_trace::<N>(steps, n, trace) && trace[n as int] == acc;
    lemma_trace_exactly::<N>(r, steps, total, n, trace, n);
}

proof fn lemma_trace_exactly<N: Scalars>(
    r: Reading<N>,
    steps: spec_fn(int, N::F32, N::F32) -> bool,
    total: spec_fn(int) -> real,
    n: nat,
    trace: Seq<N::F32>,
    k: nat,
)
    requires
        r.is_exact(),
        total(0) == 0real,
        forall|i: int, from: N::F32, to: N::F32|
            0 <= i < n && #[trigger] steps(i, from, to) ==> (r.single)(to) - (r.single)(from) == total(
                i + 1,
            ) - total(i),
        is_trace::<N>(steps, n, trace),
        k <= n,
    ensures
        (r.single)(trace[k as int]) == total(k as int),
    decreases k,
{
    if k > 0 {
        lemma_trace_exactly::<N>(r, steps, total, n, trace, (k - 1) as nat);
        assert(steps_at::<N>(steps, trace, k - 1));
        assert(steps(k - 1, trace[k - 1], trace[k as int]));
    }
}

/// A product is added exactly.
pub proof fn lemma_product_exactly<N: Scalars>(
    r: Reading<N>,
    a: N::F32,
    b: N::F32,
    from: N::F32,
    to: N::F32,
)
    requires
        r.is_exact(),
        adds_product::<N>(a, b, from, to),
    ensures
        (r.single)(to) == (r.single)(from) + (r.single)(a) * (r.single)(b),
{
    let p = choose|p: N::F32| #[trigger]
        call_ensures(N::times, (a, b), p) && call_ensures(N::plus, (from, p), to);
}

} // verus!
