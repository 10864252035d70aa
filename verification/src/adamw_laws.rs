//! What several AdamW steps on the host come to.
use crate::adamw::{
    is_factors, is_segment, is_step, layouts_of, packed_result, reads_values, step_outcome,
    step_values, unpacks_state, AdamWFactors, AdamWHost, AdamWState, AdamWStepParams, AdamWValues,
    StepOutcome,
};
use crate::host::{narrows, widens, widens_bf16, widens_f16};
use crate::launch::Outcome;
use crate::scalar::Scalars;
use crate::tensor::{HostData, HostTensor, HostVec, Storage, Tensor};
use vstd::prelude::*;

verus! {

/// `wide` are the elements of a result, in single precision.
pub open spec fn widens_stored<N: Scalars>(data: HostVec<N>, wide: Seq<N::F32>) -> bool {
    match data {
        HostVec::U8(_) => false,
        HostVec::F16(values) => widens_f16::<N>(values@, wide),
        HostVec::BF16(values) => widens_bf16::<N>(values@, wide),
        HostVec::F32(values) => wide == values@,
    }
}

/// `tensor` holds the elements of `out`, in its shape and format.
pub open spec fn holds_result<N: Scalars>(tensor: Tensor<N>, out: HostTensor<N>) -> bool {
    &&& tensor.shape() == out.dims@
    &&& match (tensor.storage, out.data) {
        (Storage::Host(HostData::F16(stored)), HostVec::F16(values)) => {
            tensor.layout.elements(stored@) == values@
        },
        (Storage::Host(HostData::BF16(stored)), HostVec::BF16(values)) => {
            tensor.layout.elements(stored@) == values@
        },
        (Storage::Host(HostData::F32(stored)), HostVec::F32(values)) => {
            tensor.layout.elements(stored@) == values@
        },
        _ => false,
    }
}

/// The tensors and the parameters of one step.
pub struct StepInputs<'a, N: Scalars> {
    pub theta: Tensor<'a, N>,
    pub first_moment: Tensor<'a, N>,
    pub second_moment: Tensor<'a, N>,
    pub grad: Tensor<'a, N>,
    pub params: AdamWStepParams<N>,
}

impl<'a, N: Scalars> StepInputs<'a, N> {
    /// The variables hold `state`.
    pub open spec fn holds(&self, state: AdamWState<N>) -> bool {
        &&& holds_result(self.theta, state.theta)
        &&& holds_result(self.first_moment, state.first_moment)
        &&& holds_result(self.second_moment, state.second_moment)
    }

    /// The step is taken on the host, and leads to `state`.
    pub open spec fn leads_to(&self, state: AdamWState<N>) -> bool {
        step_outcome(
            self.theta,
            self.first_moment,
            self.second_moment,
            self.grad,
            self.params,
            false,
            StepOutcome::Host(state),
        )
    }
}

/// `after` is what a step from `before` gives, over the elements alone: the stored numbers in
/// single precision are taken one step, with the gradient, and stored again in their format.
pub open spec fn state_step<N: Scalars>(
    before: AdamWState<N>,
    grad: Tensor<N>,
    params: AdamWStepParams<N>,
    after: AdamWState<N>,
) -> bool {
    &&& after.first_moment.dims@ == before.theta.dims@
    &&& after.second_moment.dims@ == before.theta.dims@
    &&& after.theta.dims@ == before.theta.dims@
    &&& same_element(before.theta.data, after.first_moment.data)
    &&& same_element(before.theta.data, after.second_moment.data)
    &&& same_element(before.theta.data, after.theta.data)
    &&& exists|values: AdamWValues<N>, factors: AdamWFactors<N>, wide: Seq<N::F32>|
        #![trigger is_factors::<N>(params, factors), is_step::<N>(
            values,
            factors,
            values.theta.len() as int,
            wide,
        )]
        {
            let n = values.theta.len() as int;
            &&& widens_stored(before.theta.data, values.theta)
            &&& widens_stored(before.first_moment.data, values.m)
            &&& widens_stored(before.second_moment.data, values.v)
            &&& grad.storage matches Storage::Host(g) && widens::<N>(g, grad.layout, values.g)
            &&& is_factors::<N>(params, factors)
            &&& is_step::<N>(values, factors, n, wide)
            &&& narrows::<N>(wide.subrange(0, n), after.first_moment.data)
            &&& narrows::<N>(wide.subrange(n, 2 * n), after.second_moment.data)
            &&& narrows::<N>(wide.subrange(2 * n, 3 * n), after.theta.data)
        }
}

/// Two results have one format.
pub open spec fn same_element<N: Scalars>(left: HostVec<N>, right: HostVec<N>) -> bool {
    match (left, right) {
        (HostVec::U8(_), HostVec::U8(_)) => true,
        (HostVec::F16(_), HostVec::F16(_)) => true,
        (HostVec::BF16(_), HostVec::BF16(_)) => true,
        (HostVec::F32(_), HostVec::F32(_)) => true,
        _ => false,
    }
}

/// A part of stored numbers is the part of the numbers, stored.
proof fn lemma_part_narrows<N: Scalars>(
    wide: Seq<N::F32>,
    whole: HostVec<N>,
    start: int,
    end: int,
    part: HostVec<N>,
)
    requires
        narrows::<N>(wide, whole),
        is_segment(whole, start, end, part),
        0 <= start <= end <= wide.len(),
    ensures
        narrows::<N>(wide.subrange(start, end), part),
{
    let cut = wide.subrange(start, end);
    match (whole, part) {
        (HostVec::F16(w), HostVec::F16(p)) => {
            assert forall|i: int| 0 <= i < cut.len() implies call_ensures(
                N::narrow_f16,
                (cut[i],),
                #[trigger] p@[i],
            ) by {
                assert(call_ensures(N::narrow_f16, (wide[start + i],), w@[start + i]));
            }
        },
        (HostVec::BF16(w), HostVec::BF16(p)) => {
            assert forall|i: int| 0 <= i < cut.len() implies call_ensures(
                N::narrow_bf16,
                (cut[i],),
                #[trigger] p@[i],
            ) by {
                assert(call_ensures(N::narrow_bf16, (wide[start + i],), w@[start + i]));
            }
        },
        _ => {},
    }
}

/// A step on the host depends on what the variables hold, and not on where they hold it: it takes
/// the state in the variables one step.
pub proof fn a_step_takes_the_state_one_step<N: Scalars>(
    step: StepInputs<N>,
    before: AdamWState<N>,
    after: AdamWState<N>,
)
    requires
        step.holds(before),
        step.leads_to(after),
    ensures
        state_step(before, step.grad, step.params, after),
{
    let n = step.theta.count() as int;
    let t = step.theta.storage->Host_0;
    let m = step.first_moment.storage->Host_0;
    let v = step.second_moment.storage->Host_0;
    let g = step.grad.storage->Host_0;
    let data = AdamWHost { theta: &t, m: &m, v: &v, g: &g };
    let l = layouts_of(&step.theta, &step.first_moment, &step.second_moment, &step.grad);
    let packed = choose|packed: HostTensor<N>| #[trigger]
        unpacks_state(packed, n, step.theta.shape(), after) && packed_result(
            step.theta,
            step.first_moment,
            step.second_moment,
            step.grad,
            step.params,
            Outcome::Host(packed),
        );
    let wide = choose|wide: Seq<N::F32>| #[trigger]
        step_values(data, l, step.params, wide) && narrows::<N>(wide, packed.data);
    let (values, factors) = choose|values: AdamWValues<N>, factors: AdamWFactors<N>|
        #![trigger reads_values(data, l, values), is_factors::<N>(step.params, factors)]
        reads_values(data, l, values) && is_factors::<N>(step.params, factors) && is_step::<N>(
            values,
            factors,
            n,
            wide,
        );
    assert(values.theta.len() == n);
    lemma_part_narrows::<N>(wide, packed.data, 0, n, after.first_moment.data);
    lemma_part_narrows::<N>(wide, packed.data, n, 2 * n, after.second_moment.data);
    lemma_part_narrows::<N>(wide, packed.data, 2 * n, 3 * n, after.theta.data);
    assert(is_factors::<N>(step.params, factors));
    assert(is_step::<N>(values, factors, values.theta.len() as int, wide));
}

/// Step number `i` takes `run[i]` to `run[i + 1]`.
pub open spec fn runs_at<N: Scalars>(
    steps: Seq<StepInputs<N>>,
    run: Seq<AdamWState<N>>,
    i: int,
) -> bool {
    state_step(run[i], steps[i].grad, steps[i].params, run[i + 1])
}

/// The states that steps run through: `first`, then one per step.
pub open spec fn is_run<N: Scalars>(
    first: AdamWState<N>,
    steps: Seq<StepInputs<N>>,
    run: Seq<AdamWState<N>>,
) -> bool {
    &&& run.len() == steps.len() + 1
    &&& run[0] == first
    &&& forall|i: int| 0 <= i < steps.len() ==> #[trigger] runs_at(steps, run, i)
}

/// `state` is what `steps` come to from `first`: the step relation applied in turn.
pub open spec fn state_after<N: Scalars>(
    first: AdamWState<N>,
    steps: Seq<StepInputs<N>>,
    state: AdamWState<N>,
) -> bool {
    exists|run: Seq<AdamWState<N>>| #[trigger] is_run(first, steps, run) && run.last() == state
}

/// A run keeps the shape and the format of the parameters.
proof fn lemma_run_keeps_format<N: Scalars>(
    first: AdamWState<N>,
    steps: Seq<StepInputs<N>>,
    run: Seq<AdamWState<N>>,
    k: nat,
)
    requires
        is_run(first, steps, run),
        k <= steps.len(),
    ensures
        run[k as int].theta.dims@ == first.theta.dims@,
        same_element(first.theta.data, run[k as int].theta.data),
    decreases k,
{
    if k > 0 {
        lemma_run_keeps_format(first, steps, run, (k - 1) as nat);
        assert(runs_at(steps, run, k - 1));
    }
}

/// Where the variables of every step hold the state that the step before led to, the state after
/// all of them is the step relation applied in turn, and has the shape and the format of the
/// parameters at first.
pub proof fn steps_apply_in_turn<N: Scalars>(
    steps: Seq<StepInputs<N>>,
    states: Seq<AdamWState<N>>,
)
    requires
        states.len() == steps.len() + 1,
        forall|i: int| 0 <= i < steps.len() ==> (#[trigger] steps[i]).holds(states[i]),
        forall|i: int| 0 <= i < steps.len() ==> (#[trigger] steps[i]).leads_to(states[i + 1]),
    ensures
        state_after(states[0], steps, states.last()),
        states.last().theta.dims@ == states[0].theta.dims@,
        same_element(states[0].theta.data, states.last().theta.data),
{
    assert forall|i: int| 0 <= i < steps.len() implies #[trigger] runs_at(steps, states, i) by {
        assert(steps[i].holds(states[i]) && steps[i].leads_to(states[i + 1]));
        a_step_takes_the_state_one_step(steps[i], states[i], states[i + 1]);
    }
    assert(is_run(states[0], steps, states));
    lemma_run_keeps_format(states[0], steps, states, steps.len());
}

} // verus!
