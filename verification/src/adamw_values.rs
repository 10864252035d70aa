//! What AdamW steps come to, as real numbers, and what they launch.
use crate::adamw::{
    adamw_args, bias_corrected, denominator, is_factors, is_kernel_params, is_segment, is_step,
    moved, next_first_moment, next_second_moment, next_theta, one_less, packed_fault,
    packed_result, reads_values, step_outcome, step_values, steps_to, unpacks_state, writes_of, AdamWError, AdamWFactors,
    AdamWHost, AdamWOperand, AdamWState, AdamWStepParams, AdamWValues, KernelParams, StepEnd,
    StepOutcome,
};
use crate::dtype::DType;
use crate::exact::{lemma_read_exactly, lemma_stored_exactly, Reading};
use crate::host::narrows;
use crate::launch::{DeviceTensor, Grid, KernelArg, Launch, Operand, Outcome};
use crate::scalar::Scalars;
use crate::tensor::{HostTensor, HostVec, Storage, Tensor};
use vstd::prelude::*;

verus! {

/// What of an exponential moving average with decay `beta` is left of `old`, together with what
/// is new of `new`.
pub open spec fn averaged(beta: real, old: real, new: real) -> real {
    beta * old + (1real - beta) * new
}

/// There is one root that is not negative.
proof fn lemma_root(a: real, b: real)
    requires
        a >= 0real,
        b >= 0real,
        a * a == b * b,
    ensures
        a == b,
{
    assert((a - b) * (a + b) == 0real) by (nonlinear_arith)
        requires
            a * a == b * b,
    ;
    if a != b {
        let (x, y) = (a - b, a + b);
        assert(x * y != 0real) by (nonlinear_arith)
            requires
                x != 0real,
                y > 0real,
        ;
    }
}

/// The factors of a step are the hyper-parameters.
proof fn lemma_factors_exactly<N: Scalars>(
    r: Reading<N>,
    params: AdamWStepParams<N>,
    f: AdamWFactors<N>,
)
    requires
        r.is_exact(),
        is_factors::<N>(params, f),
    ensures
        (r.single)(f.beta1) == (r.double)(params.beta1),
        (r.single)(f.beta2) == (r.double)(params.beta2),
        (r.single)(f.scale_m) == (r.double)(params.scale_m),
        (r.single)(f.scale_v) == (r.double)(params.scale_v),
        (r.single)(f.eps) == (r.double)(params.eps),
        (r.single)(f.lr) == (r.double)(params.lr),
        (r.single)(f.one_minus_lr_lambda) == 1real - (r.double)(params.lr_lambda),
        (r.single)(f.one_minus_beta1) == 1real - (r.double)(params.beta1),
        (r.single)(f.one_minus_beta2) == 1real - (r.double)(params.beta2),
{
    let kept = choose|kept: N::F64| #[trigger]
        call_ensures(N::one_minus, (params.lr_lambda,), kept) && call_ensures(
            N::single,
            (kept,),
            f.one_minus_lr_lambda,
        );
    assert(one_less::<N>(f.beta1, f.one_minus_beta1));
    assert(one_less::<N>(f.beta2, f.one_minus_beta2));
}

/// The moments after a step.
proof fn lemma_moments_exactly<N: Scalars>(
    r: Reading<N>,
    beta: N::F32,
    old: N::F32,
    rest: N::F32,
    g: N::F32,
    first: N::F32,
    second: N::F32,
)
    requires
        r.is_exact(),
        (r.single)(rest) == 1real - (r.single)(beta),
    ensures
        next_first_moment::<N>(beta, old, rest, g, first) ==> (r.single)(first) == averaged(
            (r.single)(beta),
            (r.single)(old),
            (r.single)(g),
        ),
        next_second_moment::<N>(beta, old, rest, g, second) ==> (r.single)(second) == averaged(
            (r.single)(beta),
            (r.single)(old),
            (r.single)(g) * (r.single)(g),
        ),
{
    let (x, y) = ((r.single)(rest), (r.single)(g));
    assert((x * y) * y == x * (y * y)) by (nonlinear_arith);
}

/// The parameters after a step.
proof fn lemma_theta_exactly<N: Scalars>(
    r: Reading<N>,
    theta: N::F32,
    m: N::F32,
    v: N::F32,
    f: AdamWFactors<N>,
    next: N::F32,
    root: real,
)
    requires
        r.is_exact(),
        next_theta::<N>(theta, m, v, f, next),
        root >= 0real,
        root * root == (r.single)(v) * (r.single)(f.scale_v),
        root + (r.single)(f.eps) != 0real,
    ensures
        (r.single)(next) * (root + (r.single)(f.eps)) == (r.single)(f.one_minus_lr_lambda) * (
        r.single)(theta) * (root + (r.single)(f.eps)) - (r.single)(f.lr) * ((r.single)(m) * (
        r.single)(f.scale_m)),
{
    let (d, ratio) = choose|d: N::F32, ratio: N::F32|
        #![trigger denominator::<N>(v, f.scale_v, f.eps, d), bias_corrected::<N>(
            m,
            f.scale_m,
            d,
            ratio,
        )]
        denominator::<N>(v, f.scale_v, f.eps, d) && bias_corrected::<N>(m, f.scale_m, d, ratio)
            && moved::<N>(theta, f.one_minus_lr_lambda, f.lr, ratio, next);
    let (hat, found) = choose|hat: N::F32, found: N::F32|
        #![trigger call_ensures(N::root, (hat,), found), call_ensures(N::plus, (found, f.eps), d)]
        call_ensures(N::times, (v, f.scale_v), hat) && call_ensures(N::root, (hat,), found)
            && call_ensures(N::plus, (found, f.eps), d);
    assert(root * root >= 0real) by (nonlinear_arith);
    lemma_root((r.single)(found), root);
    let low = (r.single)(d);
    let q = (r.single)(ratio);
    let top = (r.single)(m) * (r.single)(f.scale_m);
    assert(low == root + (r.single)(f.eps));
    assert(q * low == top);
    let (kept, rate) = (
        (r.single)(f.one_minus_lr_lambda) * (r.single)(theta),
        (r.single)(f.lr),
    );
    assert((r.single)(next) == kept - rate * q);
    assert((kept - rate * q) * low == kept * low - rate * top) by (nonlinear_arith)
        requires
            q * low == top,
    ;
}

/// After a step on the host, number `i` of the first moments is the average of the old moment and
/// the gradient, number `i` of the second moments that of the old moment and the squared gradient.
/// The parameter has decayed by the learning rate times the weight decay, and has moved against
/// the corrected first moment, over the root of the corrected second moment and `eps`.
pub proof fn steps_follow_the_formula<N: Scalars>(
    r: Reading<N>,
    theta: Tensor<N>,
    m: Tensor<N>,
    v: Tensor<N>,
    g: Tensor<N>,
    params: AdamWStepParams<N>,
    out: HostTensor<N>,
    i: int,
    root: real,
)
    requires
        r.is_exact(),
        packed_fault(theta, m, v, g) is None,
        packed_result(theta, m, v, g, params, Outcome::Host(out)),
        0 <= i < theta.count(),
        root >= 0real,
        root * root == averaged(
            (r.double)(params.beta2),
            r.at(v, i),
            r.at(g, i) * r.at(g, i),
        ) * (r.double)(params.scale_v),
        root + (r.double)(params.eps) != 0real,
    ensures
        out.dims@ == seq![3usize, theta.count() as usize],
        out.data is F32 <==> theta.spec_dtype() == DType::F32,
        out.data is F16 <==> theta.spec_dtype() == DType::F16,
        out.data is BF16 <==> theta.spec_dtype() == DType::BF16,
        r.of(out, i) == averaged((r.double)(params.beta1), r.at(m, i), r.at(g, i)),
        r.of(out, theta.count() + i) == averaged(
            (r.double)(params.beta2),
            r.at(v, i),
            r.at(g, i) * r.at(g, i),
        ),
        r.of(out, 2 * theta.count() + i) * (root + (r.double)(params.eps)) == (1real - (r.double)(
            params.lr_lambda,
        )) * r.at(theta, i) * (root + (r.double)(params.eps)) - (r.double)(params.lr) * (averaged(
            (r.double)(params.beta1),
            r.at(m, i),
            r.at(g, i),
        ) * (r.double)(params.scale_m)),
{
    let l = crate::adamw::layouts_of(&theta, &m, &v, &g);
    let n = theta.count() as int;
    match (theta.storage, m.storage, v.storage, g.storage) {
        (Storage::Host(td), Storage::Host(md), Storage::Host(vd), Storage::Host(gd)) => {
            let data = AdamWHost { theta: &td, m: &md, v: &vd, g: &gd };
            let wide = choose|wide: Seq<N::F32>| #[trigger]
                step_values(data, l, params, wide) && narrows::<N>(wide, out.data);
            let (values, f) = choose|values: AdamWValues<N>, f: AdamWFactors<N>|
                #![trigger reads_values(data, l, values), is_factors::<N>(params, f)]
                reads_values(data, l, values) && is_factors::<N>(params, f) && is_step::<N>(
                    values,
                    f,
                    n,
                    wide,
                );
            lemma_factors_exactly(r, params, f);
            lemma_read_exactly(r, theta, values.theta, i);
            lemma_read_exactly(r, m, values.m, i);
            lemma_read_exactly(r, v, values.v, i);
            lemma_read_exactly(r, g, values.g, i);
            assert(steps_to::<N>(values, f, n, wide, i));
            lemma_moments_exactly::<N>(
                r,
                f.beta1,
                values.m[i],
                f.one_minus_beta1,
                values.g[i],
                wide[i],
                wide[i],
            );
            lemma_moments_exactly::<N>(
                r,
                f.beta2,
                values.v[i],
                f.one_minus_beta2,
                values.g[i],
                wide[n + i],
                wide[n + i],
            );
            lemma_theta_exactly::<N>(
                r,
                values.theta[i],
                wide[i],
                wide[n + i],
                f,
                wide[2 * n + i],
                root,
            );
            lemma_stored_exactly(r, wide, out.data, i);
            lemma_stored_exactly(r, wide, out.data, n + i);
            lemma_stored_exactly(r, wide, out.data, 2 * n + i);
        },
        _ => {},
    }
}

/// A part holds the numbers of the whole.
proof fn lemma_segment<N: Scalars>(
    r: Reading<N>,
    whole: HostVec<N>,
    start: int,
    end: int,
    part: HostVec<N>,
    i: int,
)
    requires
        is_segment(whole, start, end, part),
        0 <= start,
        end <= crate::adamw::vec_len(whole),
        0 <= i < end - start,
    ensures
        r.stored(part, i) == r.stored(whole, start + i),
{
}

/// A step in place leaves each variable with its own row of the result: the averages in the
/// moments, and the moved number in the parameters.
pub proof fn variables_follow_the_formula<N: Scalars>(
    r: Reading<N>,
    theta: Tensor<N>,
    m: Tensor<N>,
    v: Tensor<N>,
    g: Tensor<N>,
    params: AdamWStepParams<N>,
    disabled: bool,
    state: AdamWState<N>,
    i: int,
    root: real,
)
    requires
        r.is_exact(),
        step_outcome(theta, m, v, g, params, disabled, StepOutcome::Host(state)),
        0 <= i < theta.count(),
        root >= 0real,
        root * root == averaged(
            (r.double)(params.beta2),
            r.at(v, i),
            r.at(g, i) * r.at(g, i),
        ) * (r.double)(params.scale_v),
        root + (r.double)(params.eps) != 0real,
    ensures
        r.of(state.first_moment, i) == averaged(
            (r.double)(params.beta1),
            r.at(m, i),
            r.at(g, i),
        ),
        r.of(state.second_moment, i) == averaged(
            (r.double)(params.beta2),
            r.at(v, i),
            r.at(g, i) * r.at(g, i),
        ),
        r.of(state.theta, i) * (root + (r.double)(params.eps)) == (1real - (r.double)(
            params.lr_lambda,
        )) * r.at(theta, i) * (root + (r.double)(params.eps)) - (r.double)(params.lr) * (r.of(
            state.first_moment,
            i,
        ) * (r.double)(params.scale_m)),
        state.first_moment.dims@ == theta.shape(),
        state.second_moment.dims@ == theta.shape(),
        state.theta.dims@ == theta.shape(),
{
    let n = theta.count() as int;
    let packed = choose|packed: HostTensor<N>| #[trigger]
        unpacks_state(packed, n, theta.shape(), state) && packed_result(
            theta,
            m,
            v,
            g,
            params,
            Outcome::Host(packed),
        );
    steps_follow_the_formula(r, theta, m, v, g, params, packed, i, root);
    lemma_packed_len(theta, m, v, g, params, packed);
    lemma_segment(r, packed.data, 0, n, state.first_moment.data, i);
    lemma_segment(r, packed.data, n, 2 * n, state.second_moment.data, i);
    lemma_segment(r, packed.data, 2 * n, 3 * n, state.theta.data, i);
}

proof fn lemma_packed_len<N: Scalars>(
    theta: Tensor<N>,
    m: Tensor<N>,
    v: Tensor<N>,
    g: Tensor<N>,
    params: AdamWStepParams<N>,
    out: HostTensor<N>,
)
    requires
        packed_result(theta, m, v, g, params, Outcome::Host(out)),
        theta.spec_dtype() == DType::F32 || theta.spec_dtype() == DType::F16 || theta.spec_dtype()
            == DType::BF16,
    ensures
        crate::adamw::vec_len(out.data) == 3 * theta.count(),
{
}

/// The kernel of a step is the one for the type of the parameters, which is the type of the
/// result too, and is told where parameters, moments and gradient begin, in that order.
pub proof fn steps_launch_the_kernel_of_their_type<N: Scalars>(
    theta: Tensor<N>,
    m: Tensor<N>,
    v: Tensor<N>,
    g: Tensor<N>,
    params: AdamWStepParams<N>,
    launch: Launch<N>,
    output: DeviceTensor,
)
    requires
        theta.valid(),
        m.valid(),
        v.valid(),
        g.valid(),
        packed_fault(theta, m, v, g) is None,
        packed_result(theta, m, v, g, params, Outcome::Launch(launch, output)),
    ensures
        theta.count() > 0,
        output.dtype == theta.spec_dtype(),
        output.dims@ == seq![3usize, theta.count() as usize],
        theta.spec_device() == crate::tensor::Device::Metal(launch.device),
        output.dtype == DType::F32 ==> launch.kernel@ == "adamw_pack_f32"@,
        output.dtype == DType::F16 ==> launch.kernel@ == "adamw_pack_f16"@,
        output.dtype == DType::BF16 ==> launch.kernel@ == "adamw_pack_bf16"@,
        output.dtype == DType::F32 || output.dtype == DType::F16 || output.dtype == DType::BF16,
        launch.grid == Grid::PerItem(theta.count() as usize),
        launch.label@ == "candelora_adamw_pack"@,
        launch.args@.len() == 13,
        launch.args@[0] == KernelArg::<N>::Size(theta.count() as usize),
        launch.args@[1] matches KernelArg::F32(x) && call_ensures(N::single, (params.beta1,), x),
        launch.args@[2] matches KernelArg::F32(x) && call_ensures(N::single, (params.beta2,), x),
        launch.args@[3] matches KernelArg::F32(x) && call_ensures(N::single, (params.scale_m,), x),
        launch.args@[4] matches KernelArg::F32(x) && call_ensures(N::single, (params.scale_v,), x),
        launch.args@[5] matches KernelArg::F32(x) && call_ensures(N::single, (params.eps,), x),
        launch.args@[6] matches KernelArg::F32(x) && call_ensures(N::single, (params.lr,), x),
        launch.args@[7] matches KernelArg::F32(x) && call_ensures(
            N::single,
            (params.lr_lambda,),
            x,
        ),
        forall|k: int|
            0 <= k < 4 ==> (#[trigger] launch.args@[8 + k] matches KernelArg::Buffer {
                operand,
                offset_in_bytes,
            } && operand == Operand::Argument(k as usize) && offset_in_bytes == (
            if output.dtype == DType::F32 {
                4int
            } else {
                2int
            }) * seq![theta, m, v, g][k].layout.start_offset),
        launch.args@[12] == (KernelArg::<N>::Buffer {
            operand: Operand::Output(0),
            offset_in_bytes: 0,
        }),
{
    reveal_strlit("adamw_pack_");
    reveal_strlit("f32");
    reveal_strlit("f16");
    reveal_strlit("bf16");
    reveal_strlit("adamw_pack_f32");
    reveal_strlit("adamw_pack_f16");
    reveal_strlit("adamw_pack_bf16");
    assert("adamw_pack_"@ + "f32"@ =~= "adamw_pack_f32"@);
    assert("adamw_pack_"@ + "f16"@ =~= "adamw_pack_f16"@);
    assert("adamw_pack_"@ + "bf16"@ =~= "adamw_pack_bf16"@);
    let l = crate::adamw::layouts_of(&theta, &m, &v, &g);
    let kernel = choose|kernel: KernelParams<N>| #[trigger]
        is_kernel_params::<N>(params, kernel) && launch.args@ == adamw_args::<N>(
            theta.spec_dtype(),
            l,
            kernel,
        );
    let tensors = seq![theta, m, v, g];
    assert forall|k: int| 0 <= k < 4 implies (#[trigger] launch.args@[8 + k] matches KernelArg::Buffer {
        operand,
        offset_in_bytes,
    } && operand == Operand::Argument(k as usize) && offset_in_bytes == (if output.dtype
        == DType::F32 {
        4int
    } else {
        2int
    }) * tensors[k].layout.start_offset) by {
        assert(k == 0 || k == 1 || k == 2 || k == 3);
    }
}

/// Steps on parameters of different types launch different kernels.
pub proof fn each_type_has_its_kernel<N: Scalars>(
    left: (Tensor<N>, Tensor<N>, Tensor<N>, Tensor<N>),
    right: (Tensor<N>, Tensor<N>, Tensor<N>, Tensor<N>),
    params: AdamWStepParams<N>,
    launches: (Launch<N>, Launch<N>),
    outputs: (DeviceTensor, DeviceTensor),
)
    requires
        left.0.valid() && left.1.valid() && left.2.valid() && left.3.valid(),
        right.0.valid() && right.1.valid() && right.2.valid() && right.3.valid(),
        packed_fault(left.0, left.1, left.2, left.3) is None,
        packed_fault(right.0, right.1, right.2, right.3) is None,
        packed_result(
            left.0,
            left.1,
            left.2,
            left.3,
            params,
            Outcome::Launch(launches.0, outputs.0),
        ),
        packed_result(
            right.0,
            right.1,
            right.2,
            right.3,
            params,
            Outcome::Launch(launches.1, outputs.1),
        ),
    ensures
        launches.0.kernel@ == launches.1.kernel@ <==> left.0.spec_dtype() == right.0.spec_dtype(),
{
    steps_launch_the_kernel_of_their_type(
        left.0,
        left.1,
        left.2,
        left.3,
        params,
        launches.0,
        outputs.0,
    );
    steps_launch_the_kernel_of_their_type(
        right.0,
        right.1,
        right.2,
        right.3,
        params,
        launches.1,
        outputs.1,
    );
    reveal_strlit("adamw_pack_f32");
    reveal_strlit("adamw_pack_f16");
    reveal_strlit("adamw_pack_bf16");
    assert("adamw_pack_f32"@[12] == '3');
    assert("adamw_pack_f16"@[12] == '1');
    assert("adamw_pack_bf16"@[11] == 'b');
    assert("adamw_pack_f32"@[11] == 'f');
    assert("adamw_pack_f16"@[11] == 'f');
}

/// A step is found for contiguous tensors with as many elements, of one floating-point format, on
/// the host or on one Metal device; without elements, every type will do on a Metal device.
pub proof fn steps_are_found_where_tensors_agree<N: Scalars>(
    theta: Tensor<N>,
    m: Tensor<N>,
    v: Tensor<N>,
    g: Tensor<N>,
)
    requires
        theta.valid(),
        m.valid(),
        v.valid(),
        g.valid(),
    ensures
        packed_fault(theta, m, v, g) is None <==> {
            &&& m.spec_device() == theta.spec_device() && v.spec_device() == theta.spec_device()
            &&& (theta.spec_device() is Cpu && g.spec_device() is Cpu) || (
            theta.spec_device() is Metal && g.spec_device() is Metal)
            &&& m.count() == theta.count() && v.count() == theta.count() && g.count()
                == theta.count()
            &&& theta.layout.contiguous() && m.layout.contiguous() && v.layout.contiguous()
                && g.layout.contiguous()
            &&& (theta.spec_device() is Metal && theta.count() == 0) || {
                &&& theta.spec_dtype() == DType::F32 || theta.spec_dtype() == DType::F16
                    || theta.spec_dtype() == DType::BF16
                &&& m.spec_dtype() == theta.spec_dtype() && v.spec_dtype() == theta.spec_dtype()
                    && g.spec_dtype() == theta.spec_dtype()
                &&& g.spec_device() == theta.spec_device()
            }
        },
{
}

/// A refusal names what is wrong.
pub proof fn refused_steps_name_the_fault<N: Scalars>(
    theta: Tensor<N>,
    m: Tensor<N>,
    v: Tensor<N>,
    g: Tensor<N>,
    e: AdamWError,
)
    requires
        theta.valid(),
        m.valid(),
        v.valid(),
        g.valid(),
        packed_fault(theta, m, v, g) == Some(e),
    ensures
        e is DeviceMismatch <==> m.spec_device() != theta.spec_device() || v.spec_device()
            != theta.spec_device(),
        e is NoCudaKernel ==> theta.spec_device() is Cuda,
        e is GradNotMetal ==> theta.spec_device() is Metal && !(g.spec_device() is Metal),
        e is Sizes ==> m.count() != theta.count() || v.count() != theta.count() || g.count()
            != theta.count(),
        e is Combination ==> theta.spec_device() is Cpu && (!(g.spec_device() is Cpu)
            || m.spec_dtype() != theta.spec_dtype() || v.spec_dtype() != theta.spec_dtype()
            || g.spec_dtype() != theta.spec_dtype() || (theta.spec_dtype() != DType::F32
            && theta.spec_dtype() != DType::F16 && theta.spec_dtype() != DType::BF16)),
        e == AdamWError::NotContiguous(AdamWOperand::Theta) ==> !theta.layout.contiguous(),
        e == AdamWError::NotContiguous(AdamWOperand::FirstMoment) ==> !m.layout.contiguous(),
        e == AdamWError::NotContiguous(AdamWOperand::SecondMoment) ==> !v.layout.contiguous(),
        e == AdamWError::NotContiguous(AdamWOperand::Grad) ==> !g.layout.contiguous(),
        e is LayoutsNotContiguous ==> theta.spec_device() is Metal && !(theta.layout.contiguous()
            && m.layout.contiguous() && v.layout.contiguous() && g.layout.contiguous()),
        e is DTypeMismatch ==> m.spec_dtype() != theta.spec_dtype() || v.spec_dtype()
            != theta.spec_dtype() || g.spec_dtype() != theta.spec_dtype(),
        e matches AdamWError::KernelDType(dtype) ==> dtype == theta.spec_dtype() && dtype
            != DType::F32 && dtype != DType::F16 && dtype != DType::BF16,
        e is MetalDeviceMismatch ==> theta.spec_device() is Metal && g.spec_device()
            != theta.spec_device(),
{
}

/// A step in place is taken, unless the setting forbids it, for contiguous tensors with as many
/// elements, of one floating-point format, on the host or on one Metal device: on the host it
/// gives new variables, on the device it plans a launch.
pub proof fn steps_are_taken_where_tensors_agree<N: Scalars>(
    theta: Tensor<N>,
    m: Tensor<N>,
    v: Tensor<N>,
    g: Tensor<N>,
    params: AdamWStepParams<N>,
    disabled: bool,
    outcome: StepOutcome<N>,
)
    requires
        theta.valid(),
        m.valid(),
        v.valid(),
        g.valid(),
        step_outcome(theta, m, v, g, params, disabled, outcome),
    ensures
        !(outcome is Skipped) <==> {
            &&& !disabled
            &&& theta.spec_dtype() == DType::F32 || theta.spec_dtype() == DType::F16
                || theta.spec_dtype() == DType::BF16
            &&& !(theta.spec_device() is Cuda)
            &&& m.spec_dtype() == theta.spec_dtype() && m.spec_device() == theta.spec_device()
                && m.count() == theta.count() && m.layout.contiguous()
            &&& v.spec_dtype() == theta.spec_dtype() && v.spec_device() == theta.spec_device()
                && v.count() == theta.count() && v.layout.contiguous()
            &&& g.spec_dtype() == theta.spec_dtype() && g.spec_device() == theta.spec_device()
                && g.count() == theta.count() && g.layout.contiguous()
            &&& theta.layout.contiguous()
        },
        outcome is Host ==> theta.spec_device() is Cpu,
        outcome is Device ==> theta.spec_device() is Metal,
{
    steps_are_found_where_tensors_agree(theta, m, v, g);
}

/// Without elements, a step on a Metal device is a result of the shape `[3, 0]`, in the type of the
/// parameters; with elements, it is launched; on the host, it is computed.
pub proof fn empty_steps_launch_nothing<N: Scalars>(
    theta: Tensor<N>,
    m: Tensor<N>,
    v: Tensor<N>,
    g: Tensor<N>,
    params: AdamWStepParams<N>,
    outcome: Outcome<N>,
)
    requires
        packed_fault(theta, m, v, g) is None,
        packed_result(theta, m, v, g, params, outcome),
    ensures
        outcome is Host <==> theta.spec_device() is Cpu,
        outcome is Empty <==> theta.spec_device() is Metal && theta.count() == 0,
        outcome matches Outcome::Empty(output) ==> output.dtype == theta.spec_dtype()
            && output.dims@ == seq![3usize, 0usize],
{
}

/// A step that is taken writes the first moments, the second moments and the parameters, in that
/// order, each where its variable has the shape of the parameters, and stops at the first that has
/// another.
pub proof fn writes_stop_at_the_first_other_shape(
    taken: bool,
    theta: Seq<usize>,
    first_moment: Seq<usize>,
    second_moment: Seq<usize>,
)
    ensures
        ({
            let writes = writes_of(taken, theta, first_moment, second_moment);
            &&& writes.first_moment <==> taken && first_moment == theta
            &&& writes.second_moment <==> taken && first_moment == theta && second_moment == theta
            &&& writes.theta <==> taken && first_moment == theta && second_moment == theta
            &&& writes.end == StepEnd::NotTaken <==> !taken
            &&& writes.end == StepEnd::Failed(AdamWOperand::FirstMoment) <==> taken && first_moment
                != theta
            &&& writes.end == StepEnd::Failed(AdamWOperand::SecondMoment) <==> taken
                && first_moment == theta && second_moment != theta
            &&& writes.end == StepEnd::Taken <==> writes.theta
        }),
{
}

} // verus!
