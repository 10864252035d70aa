//! Results that agree up to a relation of numbers.
//!
//! Two runs of one operation need not return the same number bit by bit: which bits a NaN has, for
//! example, is left open. What holds of every two runs is stated up to a relation that the
//! operations respect, such as equality of numbers where the two zeros are equal and so are all
//! NaNs.
use crate::host::{widens, widens_bf16, widens_f16, widens_u8};
use crate::layout::Layout;
use crate::scalar::{accumulates, adds_product, is_trace, steps_at, Scalars};
use crate::tensor::{HostData, HostTensor, HostVec, Storage, Tensor};
use vstd::prelude::*;

verus! {

/// A relation of numbers.
pub type Relation<F> = spec_fn(F, F) -> bool;

/// Every number is related to itself.
pub open spec fn is_reflexive<F>(same: Relation<F>) -> bool {
    forall|a: F| #[trigger] same(a, a)
}

/// What is related through a third number is related.
pub open spec fn is_transitive<F>(same: Relation<F>) -> bool {
    forall|a: F, b: F, c: F|
        #![trigger same(a, b), same(b, c)]
        same(a, b) && same(b, c) ==> same(a, c)
}

/// Sums, products and negatives of related numbers are related.
pub open spec fn arithmetic_respects<N: Scalars>(same: Relation<N::F32>) -> bool {
    &&& forall|a: N::F32, b: N::F32, c: N::F32, d: N::F32, left: N::F32, right: N::F32|
        #![trigger call_ensures(N::plus, (a, b), left), call_ensures(N::plus, (c, d), right)]
        same(a, c) && same(b, d) && call_ensures(N::plus, (a, b), left) && call_ensures(
            N::plus,
            (c, d),
            right,
        ) ==> same(left, right)
    &&& forall|a: N::F32, b: N::F32, c: N::F32, d: N::F32, left: N::F32, right: N::F32|
        #![trigger call_ensures(N::times, (a, b), left), call_ensures(N::times, (c, d), right)]
        same(a, c) && same(b, d) && call_ensures(N::times, (a, b), left) && call_ensures(
            N::times,
            (c, d),
            right,
        ) ==> same(left, right)
    &&& forall|a: N::F32, b: N::F32, left: N::F32, right: N::F32|
        #![trigger call_ensures(N::negate, (a,), left), call_ensures(N::negate, (b,), right)]
        same(a, b) && call_ensures(N::negate, (a,), left) && call_ensures(N::negate, (b,), right)
            ==> same(left, right)
}

/// Constants and conversions give related numbers whenever they are asked for.
pub open spec fn conversions_respect<N: Scalars>(same: Relation<N::F32>) -> bool {
    &&& forall|left: N::F32, right: N::F32|
        #![trigger call_ensures(N::zero, (), left), call_ensures(N::zero, (), right)]
        call_ensures(N::zero, (), left) && call_ensures(N::zero, (), right) ==> same(left, right)
    &&& forall|left: N::F32, right: N::F32|
        #![trigger call_ensures(N::frac_1_sqrt_2, (), left), call_ensures(
            N::frac_1_sqrt_2,
            (),
            right,
        )]
        call_ensures(N::frac_1_sqrt_2, (), left) && call_ensures(N::frac_1_sqrt_2, (), right)
            ==> same(left, right)
    &&& forall|n: i32, left: N::F32, right: N::F32|
        #![trigger call_ensures(N::from_i32, (n,), left), call_ensures(N::from_i32, (n,), right)]
        call_ensures(N::from_i32, (n,), left) && call_ensures(N::from_i32, (n,), right) ==> same(
            left,
            right,
        )
    &&& forall|a: N::F16, left: N::F32, right: N::F32|
        #![trigger call_ensures(N::widen_f16, (a,), left), call_ensures(N::widen_f16, (a,), right)]
        call_ensures(N::widen_f16, (a,), left) && call_ensures(N::widen_f16, (a,), right) ==> same(
            left,
            right,
        )
    &&& forall|a: N::BF16, left: N::F32, right: N::F32|
        #![trigger call_ensures(N::widen_bf16, (a,), left), call_ensures(
            N::widen_bf16,
            (a,),
            right,
        )]
        call_ensures(N::widen_bf16, (a,), left) && call_ensures(N::widen_bf16, (a,), right)
            ==> same(left, right)
    &&& forall|a: N::F64, left: N::F32, right: N::F32|
        #![trigger call_ensures(N::single, (a,), left), call_ensures(N::single, (a,), right)]
        call_ensures(N::single, (a,), left) && call_ensures(N::single, (a,), right) ==> same(
            left,
            right,
        )
}

/// `same` is a relation that the operations respect.
pub open spec fn respected<N: Scalars>(same: Relation<N::F32>) -> bool {
    &&& is_reflexive(same)
    &&& is_transitive(same)
    &&& arithmetic_respects::<N>(same)
    &&& conversions_respect::<N>(same)
}

/// Two sequences of numbers are related place by place.
pub open spec fn all_same<F>(same: Relation<F>, left: Seq<F>, right: Seq<F>) -> bool {
    &&& left.len() == right.len()
    &&& forall|i: int| 0 <= i < left.len() ==> same(#[trigger] left[i], right[i])
}

/// Related numbers with related products added are related.
pub proof fn lemma_same_product<N: Scalars>(
    same: Relation<N::F32>,
    a: N::F32,
    b: N::F32,
    from_left: N::F32,
    to_left: N::F32,
    c: N::F32,
    d: N::F32,
    from_right: N::F32,
    to_right: N::F32,
)
    requires
        respected::<N>(same),
        same(a, c),
        same(b, d),
        same(from_left, from_right),
        adds_product::<N>(a, b, from_left, to_left),
        adds_product::<N>(c, d, from_right, to_right),
    ensures
        same(to_left, to_right),
{
    let p1 = choose|p: N::F32| #[trigger]
        call_ensures(N::times, (a, b), p) && call_ensures(N::plus, (from_left, p), to_left);
    let p2 = choose|p: N::F32| #[trigger]
        call_ensures(N::times, (c, d), p) && call_ensures(N::plus, (from_right, p), to_right);
    assert(same(p1, p2));
}

/// Steps from related numbers lead to related numbers.
pub open spec fn steps_agree<N: Scalars>(
    same: Relation<N::F32>,
    left: spec_fn(int, N::F32, N::F32) -> bool,
    right: spec_fn(int, N::F32, N::F32) -> bool,
    n: nat,
) -> bool {
    forall|i: int, a: N::F32, b: N::F32, c: N::F32, d: N::F32|
        #![trigger left(i, a, b), right(i, c, d)]
        0 <= i < n && same(a, c) && left(i, a, b) && right(i, c, d) ==> same(b, d)
}

proof fn lemma_same_traces<N: Scalars>(
    same: Relation<N::F32>,
    left: spec_fn(int, N::F32, N::F32) -> bool,
    right: spec_fn(int, N::F32, N::F32) -> bool,
    n: nat,
    left_trace: Seq<N::F32>,
    right_trace: Seq<N::F32>,
    i: nat,
)
    requires
        respected::<N>(same),
        steps_agree::<N>(same, left, right, n),
        is_trace::<N>(left, n, left_trace),
        is_trace::<N>(right, n, right_trace),
        i <= n,
    ensures
        same(left_trace[i as int], right_trace[i as int]),
    decreases i,
{
    if i > 0 {
        let k = i - 1;
        lemma_same_traces::<N>(same, left, right, n, left_trace, right_trace, k as nat);
        assert(steps_at::<N>(left, left_trace, k));
        assert(steps_at::<N>(right, right_trace, k));
        assert(left(k, left_trace[k], left_trace[k + 1]));
        assert(right(k, right_trace[k], right_trace[k + 1]));
    }
}

/// Running values whose steps agree come to related numbers.
pub proof fn lemma_same_sums<N: Scalars>(
    same: Relation<N::F32>,
    left: spec_fn(int, N::F32, N::F32) -> bool,
    right: spec_fn(int, N::F32, N::F32) -> bool,
    n: nat,
    a: N::F32,
    b: N::F32,
)
    requires
        respected::<N>(same),
        steps_agree::<N>(same, left, right, n),
        accumulates::<N>(left, n, a),
        accumulates::<N>(right, n, b),
    ensures
        same(a, b),
{
    let left_trace = choose|trace: Seq<N::F32>| #[trigger]
        is_trace::<N>(left, n, trace) && trace[n as int] == a;
    let right_trace = choose|trace: Seq<N::F32>| #[trigger]
        is_trace::<N>(right, n, trace) && trace[n as int] == b;
    lemma_same_traces::<N>(same, left, right, n, left_trace, right_trace, n);
}

/// A host tensor is read as related numbers every time.
pub proof fn lemma_same_reading<N: Scalars>(
    same: Relation<N::F32>,
    data: HostData<N>,
    layout: Layout,
    left: Seq<N::F32>,
    right: Seq<N::F32>,
)
    requires
        respected::<N>(same),
        widens::<N>(data, layout, left),
        widens::<N>(data, layout, right),
    ensures
        all_same(same, left, right),
{
    assert forall|i: int| 0 <= i < left.len() implies same(#[trigger] left[i], right[i]) by {
        match data {
            HostData::U8(values) => {
                let stored = layout.elements(values@);
                assert(widens_u8::<N>(stored, left) && widens_u8::<N>(stored, right));
                assert(call_ensures(N::from_i32, (stored[i] as i32,), left[i]));
                assert(call_ensures(N::from_i32, (stored[i] as i32,), right[i]));
            },
            HostData::F16(values) => {
                let stored = layout.elements(values@);
                assert(widens_f16::<N>(stored, left) && widens_f16::<N>(stored, right));
                assert(call_ensures(N::widen_f16, (stored[i],), left[i]));
                assert(call_ensures(N::widen_f16, (stored[i],), right[i]));
            },
            HostData::BF16(values) => {
                let stored = layout.elements(values@);
                assert(widens_bf16::<N>(stored, left) && widens_bf16::<N>(stored, right));
                assert(call_ensures(N::widen_bf16, (stored[i],), left[i]));
                assert(call_ensures(N::widen_bf16, (stored[i],), right[i]));
            },
            _ => {},
        }
    }
}

/// `wide` is the host tensor `half`, in half precision, brought to single precision.
pub open spec fn is_widened<N: Scalars>(half: Tensor<N>, wide: Tensor<N>) -> bool {
    &&& wide.layout.dims@ == half.layout.dims@
    &&& match (half.storage, wide.storage) {
        (Storage::Host(HostData::F16(narrow)), Storage::Host(HostData::F32(values))) => {
            widens_f16::<N>(half.layout.elements(narrow@), wide.layout.elements(values@))
        },
        _ => false,
    }
}

/// Two tensors on the host have one shape, and their numbers, in single precision, are related.
pub open spec fn same_tensors<N: Scalars>(
    same: Relation<N::F32>,
    left: HostTensor<N>,
    right: HostTensor<N>,
) -> bool {
    &&& left.dims@ == right.dims@
    &&& left.data matches HostVec::F32(a) && right.data matches HostVec::F32(b) && all_same(
        same,
        a@,
        b@,
    )
}

} // verus!
