//! One AdamW step, in one pass over parameters, moments and gradient.
use crate::dtype::{is_kernel_float, DType};
use crate::host::{contiguous_wide, is_float, narrow_like, narrows, widens};
use crate::launch::{
    argument, argument_buffer, float_kernel, float_tag, own_buffer, DeviceTensor, Grid, KernelArg,
    Launch, Operand, Outcome,
};
use crate::layout::{copy_dims, same_dims, Layout};
use crate::scalar::Scalars;
use crate::setting::{adamw_disabled, is_adamw_disabled, text_of};
use crate::tensor::{
    addressable, same_format, HostData, HostTensor, HostVec, MetalData, Storage, Tensor,
};
use vstd::prelude::*;

verus! {

/// The hyper-parameters of a step. `scale_m` and `scale_v` correct the bias of the moments, and
/// `lr_lambda` is the learning rate times the weight decay.
pub struct AdamWStepParams<N: Scalars> {
    pub beta1: N::F64,
    pub beta2: N::F64,
    pub scale_m: N::F64,
    pub scale_v: N::F64,
    pub eps: N::F64,
    pub lr: N::F64,
    pub lr_lambda: N::F64,
}

/// The factors of a step, in single precision.
pub struct AdamWFactors<N: Scalars> {
    pub beta1: N::F32,
    pub beta2: N::F32,
    pub scale_m: N::F32,
    pub scale_v: N::F32,
    pub eps: N::F32,
    pub lr: N::F32,
    pub one_minus_lr_lambda: N::F32,
    pub one_minus_beta1: N::F32,
    pub one_minus_beta2: N::F32,
}

/// `factors` are those of `params`.
pub open spec fn is_factors<N: Scalars>(
    params: AdamWStepParams<N>,
    factors: AdamWFactors<N>,
) -> bool {
    &&& call_ensures(N::single, (params.beta1,), factors.beta1)
    &&& call_ensures(N::single, (params.beta2,), factors.beta2)
    &&& call_ensures(N::single, (params.scale_m,), factors.scale_m)
    &&& call_ensures(N::single, (params.scale_v,), factors.scale_v)
    &&& call_ensures(N::single, (params.eps,), factors.eps)
    &&& call_ensures(N::single, (params.lr,), factors.lr)
    &&& exists|kept: N::F64| #[trigger]
        call_ensures(N::one_minus, (params.lr_lambda,), kept) && call_ensures(
            N::single,
            (kept,),
            factors.one_minus_lr_lambda,
        )
    &&& one_less::<N>(factors.beta1, factors.one_minus_beta1)
    &&& one_less::<N>(factors.beta2, factors.one_minus_beta2)
}

/// `out` is `1 - a`.
pub open spec fn one_less<N: Scalars>(a: N::F32, out: N::F32) -> bool {
    exists|one: N::F32| #[trigger]
        call_ensures(N::from_i32, (1i32,), one) && call_ensures(N::minus, (one, a), out)
}

/// `next` is `beta * m + rest * g`.
pub open spec fn next_first_moment<N: Scalars>(
    beta: N::F32,
    m: N::F32,
    rest: N::F32,
    g: N::F32,
    next: N::F32,
) -> bool {
    exists|kept: N::F32, added: N::F32|
        #![trigger call_ensures(N::plus, (kept, added), next)]
        call_ensures(N::times, (beta, m), kept) && call_ensures(N::times, (rest, g), added)
            && call_ensures(N::plus, (kept, added), next)
}

/// `next` is `beta * v + rest * g * g`.
pub open spec fn next_second_moment<N: Scalars>(
    beta: N::F32,
    v: N::F32,
    rest: N::F32,
    g: N::F32,
    next: N::F32,
) -> bool {
    exists|kept: N::F32, once: N::F32, twice: N::F32|
        #![trigger call_ensures(N::times, (once, g), twice), call_ensures(
            N::plus,
            (kept, twice),
            next,
        )]
        call_ensures(N::times, (beta, v), kept) && call_ensures(N::times, (rest, g), once)
            && call_ensures(N::times, (once, g), twice) && call_ensures(
            N::plus,
            (kept, twice),
            next,
        )
}

/// `d` is `sqrt(v * scale) + eps`.
pub open spec fn denominator<N: Scalars>(
    v: N::F32,
    scale: N::F32,
    eps: N::F32,
    d: N::F32,
) -> bool {
    exists|hat: N::F32, root: N::F32|
        #![trigger call_ensures(N::root, (hat,), root), call_ensures(N::plus, (root, eps), d)]
        call_ensures(N::times, (v, scale), hat) && call_ensures(N::root, (hat,), root)
            && call_ensures(N::plus, (root, eps), d)
}

/// `ratio` is `m * scale / d`.
pub open spec fn bias_corrected<N: Scalars>(
    m: N::F32,
    scale: N::F32,
    d: N::F32,
    ratio: N::F32,
) -> bool {
    exists|hat: N::F32| #[trigger]
        call_ensures(N::times, (m, scale), hat) && call_ensures(N::divide, (hat, d), ratio)
}

/// `next` is `keep * theta - lr * ratio`.
pub open spec fn moved<N: Scalars>(
    theta: N::F32,
    keep: N::F32,
    lr: N::F32,
    ratio: N::F32,
    next: N::F32,
) -> bool {
    exists|kept: N::F32, step: N::F32|
        #![trigger call_ensures(N::minus, (kept, step), next)]
        call_ensures(N::times, (keep, theta), kept) && call_ensures(N::times, (lr, ratio), step)
            && call_ensures(N::minus, (kept, step), next)
}

/// `next` is `theta` after a step with the moments `m` and `v`.
pub open spec fn next_theta<N: Scalars>(
    theta: N::F32,
    m: N::F32,
    v: N::F32,
    f: AdamWFactors<N>,
    next: N::F32,
) -> bool {
    exists|d: N::F32, ratio: N::F32|
        #![trigger denominator::<N>(v, f.scale_v, f.eps, d), bias_corrected::<N>(
            m,
            f.scale_m,
            d,
            ratio,
        )]
        denominator::<N>(v, f.scale_v, f.eps, d) && bias_corrected::<N>(m, f.scale_m, d, ratio)
            && moved::<N>(theta, f.one_minus_lr_lambda, f.lr, ratio, next)
}

/// The values of parameters, moments and gradient before a step.
pub struct AdamWValues<N: Scalars> {
    pub theta: Seq<N::F32>,
    pub m: Seq<N::F32>,
    pub v: Seq<N::F32>,
    pub g: Seq<N::F32>,
}

/// Number `i` of the next first moments, second moments and parameters, which stand in `out`
/// behind each other, `n` of each.
pub open spec fn steps_to<N: Scalars>(
    before: AdamWValues<N>,
    f: AdamWFactors<N>,
    n: int,
    out: Seq<N::F32>,
    i: int,
) -> bool {
    &&& next_first_moment::<N>(f.beta1, before.m[i], f.one_minus_beta1, before.g[i], out[i])
    &&& next_second_moment::<N>(f.beta2, before.v[i], f.one_minus_beta2, before.g[i], out[n + i])
    &&& next_theta::<N>(before.theta[i], out[i], out[n + i], f, out[2 * n + i])
}

/// `out` holds the first moments, the second moments and the parameters after a step.
pub open spec fn is_step<N: Scalars>(
    before: AdamWValues<N>,
    f: AdamWFactors<N>,
    n: int,
    out: Seq<N::F32>,
) -> bool {
    &&& out.len() == 3 * n
    &&& forall|i: int| 0 <= i < n ==> #[trigger] steps_to::<N>(before, f, n, out, i)
}

fn find_one_less<N: Scalars>(a: N::F32) -> (out: N::F32)
    ensures
        one_less::<N>(a, out),
{
    let unit: i32 = 1;
    let one = N::from_i32(unit);
    let out = N::minus(one, a);
    proof {
        assert(unit == 1i32);
        assert(call_ensures(N::from_i32, (1i32,), one));
    }
    out
}

fn find_factors<N: Scalars>(params: &AdamWStepParams<N>) -> (factors: AdamWFactors<N>)
    ensures
        is_factors::<N>(*params, factors),
{
    let beta1 = N::single(params.beta1);
    let beta2 = N::single(params.beta2);
    let scale_m = N::single(params.scale_m);
    let scale_v = N::single(params.scale_v);
    let eps = N::single(params.eps);
    let lr = N::single(params.lr);
    let kept = N::one_minus(params.lr_lambda);
    let one_minus_lr_lambda = N::single(kept);
    let one_minus_beta1 = find_one_less::<N>(beta1);
    let one_minus_beta2 = find_one_less::<N>(beta2);
    AdamWFactors {
        beta1,
        beta2,
        scale_m,
        scale_v,
        eps,
        lr,
        one_minus_lr_lambda,
        one_minus_beta1,
        one_minus_beta2,
    }
}

fn step_first_moment<N: Scalars>(beta: N::F32, m: N::F32, rest: N::F32, g: N::F32) -> (next: N::F32)
    ensures
        next_first_moment::<N>(beta, m, rest, g, next),
{
    let kept = N::times(beta, m);
    let added = N::times(rest, g);
    N::plus(kept, added)
}

fn step_second_moment<N: Scalars>(beta: N::F32, v: N::F32, rest: N::F32, g: N::F32) -> (next: N::F32)
    ensures
        next_second_moment::<N>(beta, v, rest, g, next),
{
    let kept = N::times(beta, v);
    let once = N::times(rest, g);
    let twice = N::times(once, g);
    N::plus(kept, twice)
}

fn step_theta<N: Scalars>(theta: N::F32, m: N::F32, v: N::F32, f: &AdamWFactors<N>) -> (next: N::F32)
    ensures
        next_theta::<N>(theta, m, v, *f, next),
{
    let m_hat = N::times(m, f.scale_m);
    let v_hat = N::times(v, f.scale_v);
    let root = N::root(v_hat);
    let d = N::plus(root, f.eps);
    let ratio = N::divide(m_hat, d);
    let kept = N::times(f.one_minus_lr_lambda, theta);
    let step = N::times(f.lr, ratio);
    let next = N::minus(kept, step);
    proof {
        assert(denominator::<N>(v, f.scale_v, f.eps, d));
        assert(bias_corrected::<N>(m, f.scale_m, d, ratio));
        assert(moved::<N>(theta, f.one_minus_lr_lambda, f.lr, ratio, next));
    }
    next
}

/// Computes the first moments, the second moments and the parameters after a step.
pub fn cpu_pack<N: Scalars>(
    theta: &[N::F32],
    m: &[N::F32],
    v: &[N::F32],
    g: &[N::F32],
    f: &AdamWFactors<N>,
) -> (out: Vec<N::F32>)
    requires
        m@.len() == theta@.len(),
        v@.len() == theta@.len(),
        g@.len() == theta@.len(),
    ensures
        is_step::<N>(
            (AdamWValues { theta: theta@, m: m@, v: v@, g: g@ }),
            *f,
            theta@.len() as int,
            out@,
        ),
{
    let n: usize = theta.len();
    let mut next_m: Vec<N::F32> = Vec::new();
    let mut next_v: Vec<N::F32> = Vec::new();
    let mut next_t: Vec<N::F32> = Vec::new();
    let mut i: usize = 0;
    while i < n
        invariant
            n == theta@.len(),
            m@.len() == n,
            v@.len() == n,
            g@.len() == n,
            i <= n,
            next_m@.len() == i,
            next_v@.len() == i,
            next_t@.len() == i,
            forall|k: int|
                0 <= k < i ==> next_first_moment::<N>(
                    f.beta1,
                    m@[k],
                    f.one_minus_beta1,
                    g@[k],
                    #[trigger] next_m@[k],
                ),
            forall|k: int|
                0 <= k < i ==> next_second_moment::<N>(
                    f.beta2,
                    v@[k],
                    f.one_minus_beta2,
                    g@[k],
                    #[trigger] next_v@[k],
                ),
            forall|k: int|
                0 <= k < i ==> next_theta::<N>(
                    theta@[k],
                    next_m@[k],
                    next_v@[k],
                    *f,
                    #[trigger] next_t@[k],
                ),
        decreases n - i,
    {
        let mi = step_first_moment::<N>(f.beta1, m[i], f.one_minus_beta1, g[i]);
        let vi = step_second_moment::<N>(f.beta2, v[i], f.one_minus_beta2, g[i]);
        let ti = step_theta::<N>(theta[i], mi, vi, f);
        next_m.push(mi);
        next_v.push(vi);
        next_t.push(ti);
        i += 1;
    }
    let mut out: Vec<N::F32> = Vec::new();
    out.append(&mut next_m);
    out.append(&mut next_v);
    out.append(&mut next_t);
    out
}

/// A tensor that has to be contiguous.
#[derive(Clone, Copy, Debug, PartialEq, Eq, Structural)]
pub enum AdamWOperand {
    Theta,
    FirstMoment,
    SecondMoment,
    Grad,
}

/// Why a step is refused.
#[derive(Clone, Copy, Debug, PartialEq, Eq, Structural)]
pub enum AdamWError {
    DeviceMismatch,
    Sizes,
    /// The types, or the place of the gradient, do not go together.
    Combination,
    NotContiguous(AdamWOperand),
    GradNotMetal,
    LayoutsNotContiguous,
    DTypeMismatch,
    KernelDType(DType),
    MetalDeviceMismatch,
    NoCudaKernel,
}

/// The layouts of parameters, moments and gradient.
pub struct AdamWLayouts<'a> {
    pub theta: &'a Layout,
    pub m: &'a Layout,
    pub v: &'a Layout,
    pub g: &'a Layout,
}

impl<'a> AdamWLayouts<'a> {
    pub open spec fn valid(&self) -> bool {
        self.theta.valid() && self.m.valid() && self.v.valid() && self.g.valid()
    }

    /// All have as many elements as the parameters.
    pub open spec fn same_count(&self) -> bool {
        &&& self.m.count() == self.theta.count()
        &&& self.v.count() == self.theta.count()
        &&& self.g.count() == self.theta.count()
    }

    pub open spec fn contiguous(&self) -> bool {
        self.theta.contiguous() && self.m.contiguous() && self.v.contiguous()
            && self.g.contiguous()
    }

    fn have_same_count(&self) -> (same: bool)
        requires
            self.valid(),
        ensures
            same == self.same_count(),
    {
        let count: usize = self.theta.elem_count();
        self.m.elem_count() == count && self.v.elem_count() == count && self.g.elem_count()
            == count
    }

    fn are_contiguous(&self) -> (yes: bool)
        requires
            self.valid(),
        ensures
            yes == self.contiguous(),
    {
        self.theta.is_contiguous() && self.m.is_contiguous() && self.v.is_contiguous()
            && self.g.is_contiguous()
    }
}

/// The parameters, moments and gradient of a step on the host.
pub struct AdamWHost<'t, 'a, N: Scalars> {
    pub theta: &'t HostData<'a, N>,
    pub m: &'t HostData<'a, N>,
    pub v: &'t HostData<'a, N>,
    pub g: &'t HostData<'a, N>,
}

impl<'t, 'a, N: Scalars> AdamWHost<'t, 'a, N> {
    pub open spec fn fits(&self, l: AdamWLayouts) -> bool {
        &&& self.theta.valid() && l.theta.fits(self.theta.spec_len())
        &&& self.m.valid() && l.m.fits(self.m.spec_len())
        &&& self.v.valid() && l.v.fits(self.v.spec_len())
        &&& self.g.valid() && l.g.fits(self.g.spec_len())
    }

    /// All are numbers of one format.
    pub open spec fn one_format(&self) -> bool {
        &&& is_float(*self.theta)
        &&& self.m.spec_dtype() == self.theta.spec_dtype()
        &&& self.v.spec_dtype() == self.theta.spec_dtype()
        &&& self.g.spec_dtype() == self.theta.spec_dtype()
    }
}

/// `values` are the numbers of a step on the host, in single precision.
pub open spec fn reads_values<N: Scalars>(
    data: AdamWHost<N>,
    l: AdamWLayouts,
    values: AdamWValues<N>,
) -> bool {
    &&& widens::<N>(*data.theta, *l.theta, values.theta)
    &&& widens::<N>(*data.m, *l.m, values.m)
    &&& widens::<N>(*data.v, *l.v, values.v)
    &&& widens::<N>(*data.g, *l.g, values.g)
}

/// `wide` are the numbers after a step on the host, in single precision.
pub open spec fn step_values<N: Scalars>(
    data: AdamWHost<N>,
    l: AdamWLayouts,
    params: AdamWStepParams<N>,
    wide: Seq<N::F32>,
) -> bool {
    exists|values: AdamWValues<N>, factors: AdamWFactors<N>|
        #![trigger reads_values(data, l, values), is_factors::<N>(params, factors)]
        reads_values(data, l, values) && is_factors::<N>(params, factors) && is_step::<N>(
            values,
            factors,
            l.theta.count() as int,
            wide,
        )
}

/// `out` holds the first moments, the second moments and the parameters after a step, in the
/// shape `[3, n]` and in the format of the parameters.
pub open spec fn adamw_host_result<N: Scalars>(
    data: AdamWHost<N>,
    l: AdamWLayouts,
    params: AdamWStepParams<N>,
    out: HostTensor<N>,
) -> bool {
    &&& out.dims@ == seq![3usize, l.theta.count() as usize]
    &&& same_format(*data.theta, out.data)
    &&& exists|wide: Seq<N::F32>| #[trigger]
        step_values(data, l, params, wide) && narrows::<N>(wide, out.data)
}

/// What is wrong with a step whose parameters and moments are on the host.
pub open spec fn adamw_host_fault<N: Scalars>(
    theta: HostData<N>,
    m: HostData<N>,
    v: HostData<N>,
    grad: Tensor<N>,
    l: AdamWLayouts,
) -> Option<AdamWError> {
    if !l.same_count() {
        Some(AdamWError::Sizes)
    } else {
        match grad.storage {
            Storage::Host(g) => {
                let data = AdamWHost { theta: &theta, m: &m, v: &v, g: &g };
                if !data.one_format() {
                    Some(AdamWError::Combination)
                } else if !l.theta.contiguous() {
                    Some(AdamWError::NotContiguous(AdamWOperand::Theta))
                } else if !l.m.contiguous() {
                    Some(AdamWError::NotContiguous(AdamWOperand::FirstMoment))
                } else if !l.v.contiguous() {
                    Some(AdamWError::NotContiguous(AdamWOperand::SecondMoment))
                } else if !l.g.contiguous() {
                    Some(AdamWError::NotContiguous(AdamWOperand::Grad))
                } else {
                    None
                }
            },
            _ => Some(AdamWError::Combination),
        }
    }
}

/// The parameters, moments and gradient of a step on a Metal device.
pub struct AdamWMetal<'t> {
    pub theta: &'t MetalData,
    pub m: &'t MetalData,
    pub v: &'t MetalData,
    pub g: &'t MetalData,
}

impl<'t> AdamWMetal<'t> {
    pub open spec fn fits(&self, l: AdamWLayouts) -> bool {
        &&& addressable(l.theta.start_offset, self.theta.dtype)
        &&& addressable(l.m.start_offset, self.m.dtype)
        &&& addressable(l.v.start_offset, self.v.dtype)
        &&& addressable(l.g.start_offset, self.g.dtype)
    }

    pub open spec fn one_dtype(&self) -> bool {
        &&& self.m.dtype == self.theta.dtype
        &&& self.v.dtype == self.theta.dtype
        &&& self.g.dtype == self.theta.dtype
    }

    pub open spec fn one_device(&self) -> bool {
        &&& self.m.device == self.theta.device
        &&& self.v.device == self.theta.device
        &&& self.g.device == self.theta.device
    }
}

/// What is wrong with a step on a Metal device.
pub open spec fn adamw_metal_fault(data: AdamWMetal, l: AdamWLayouts) -> Option<AdamWError> {
    if !l.contiguous() {
        Some(AdamWError::LayoutsNotContiguous)
    } else if !l.same_count() {
        Some(AdamWError::Sizes)
    } else if l.theta.count() == 0 {
        None
    } else if !data.one_dtype() {
        Some(AdamWError::DTypeMismatch)
    } else if !is_kernel_float(data.theta.dtype) {
        Some(AdamWError::KernelDType(data.theta.dtype))
    } else if !data.one_device() {
        Some(AdamWError::MetalDeviceMismatch)
    } else {
        None
    }
}

/// The hyper-parameters in single precision, as the kernel takes them.
pub struct KernelParams<N: Scalars> {
    pub beta1: N::F32,
    pub beta2: N::F32,
    pub scale_m: N::F32,
    pub scale_v: N::F32,
    pub eps: N::F32,
    pub lr: N::F32,
    pub lr_lambda: N::F32,
}

/// `kernel` are the hyper-parameters `params`.
pub open spec fn is_kernel_params<N: Scalars>(
    params: AdamWStepParams<N>,
    kernel: KernelParams<N>,
) -> bool {
    &&& call_ensures(N::single, (params.beta1,), kernel.beta1)
    &&& call_ensures(N::single, (params.beta2,), kernel.beta2)
    &&& call_ensures(N::single, (params.scale_m,), kernel.scale_m)
    &&& call_ensures(N::single, (params.scale_v,), kernel.scale_v)
    &&& call_ensures(N::single, (params.eps,), kernel.eps)
    &&& call_ensures(N::single, (params.lr,), kernel.lr)
    &&& call_ensures(N::single, (params.lr_lambda,), kernel.lr_lambda)
}

/// The arguments of the launch.
pub open spec fn adamw_args<N: Scalars>(
    dtype: DType,
    l: AdamWLayouts,
    kernel: KernelParams<N>,
) -> Seq<KernelArg<N>> {
    seq![
        KernelArg::Size(l.theta.count() as usize),
        KernelArg::F32(kernel.beta1),
        KernelArg::F32(kernel.beta2),
        KernelArg::F32(kernel.scale_m),
        KernelArg::F32(kernel.scale_v),
        KernelArg::F32(kernel.eps),
        KernelArg::F32(kernel.lr),
        KernelArg::F32(kernel.lr_lambda),
        argument::<N>(*l.theta, 0, dtype),
        argument::<N>(*l.m, 1, dtype),
        argument::<N>(*l.v, 2, dtype),
        argument::<N>(*l.g, 3, dtype),
        own_buffer::<N>(Operand::Output(0)),
    ]
}

/// What a step on a Metal device comes to.
pub open spec fn adamw_metal_result<N: Scalars>(
    data: AdamWMetal,
    l: AdamWLayouts,
    params: AdamWStepParams<N>,
    outcome: Outcome<N>,
) -> bool {
    let n = l.theta.count();
    let dims = seq![3usize, n as usize];
    match outcome {
        Outcome::Host(_) => false,
        Outcome::Empty(output) => n == 0 && output.describes(data.theta.dtype, dims),
        Outcome::Launch(launch, output) => {
            &&& n > 0
            &&& output.describes(data.theta.dtype, dims)
            &&& exists|kernel: KernelParams<N>| #[trigger]
                is_kernel_params::<N>(params, kernel) && launch.describes(
                    data.theta.device,
                    "adamw_pack_"@ + float_tag(data.theta.dtype),
                    "candelora_adamw_pack"@,
                    adamw_args::<N>(data.theta.dtype, l, kernel),
                    Grid::PerItem(n as usize),
                )
        },
    }
}

/// One step for the gradient `grad`.
pub struct AdamWPackedUpdateOp<'t, 'a, N: Scalars> {
    pub grad: &'t Tensor<'a, N>,
    pub params: AdamWStepParams<N>,
}

impl<'t, 'a, N: Scalars> AdamWPackedUpdateOp<'t, 'a, N> {
    pub fn name(&self) -> (name: &'static str)
        ensures
            name@ == "candelora-adamw-packed-update"@,
    {
        "candelora-adamw-packed-update"
    }

    /// The step where the gradient is on the host too.
    fn cpu_step(&self, data: &AdamWHost<N>, l: &AdamWLayouts) -> (result: Result<
        HostTensor<N>,
        AdamWError,
    >)
        requires
            l.valid(),
            data.fits(*l),
            l.same_count(),
        ensures
            if !data.one_format() {
                result == Err::<HostTensor<N>, AdamWError>(AdamWError::Combination)
            } else if !l.theta.contiguous() {
                result == Err::<HostTensor<N>, AdamWError>(
                    AdamWError::NotContiguous(AdamWOperand::Theta),
                )
            } else if !l.m.contiguous() {
                result == Err::<HostTensor<N>, AdamWError>(
                    AdamWError::NotContiguous(AdamWOperand::FirstMoment),
                )
            } else if !l.v.contiguous() {
                result == Err::<HostTensor<N>, AdamWError>(
                    AdamWError::NotContiguous(AdamWOperand::SecondMoment),
                )
            } else if !l.g.contiguous() {
                result == Err::<HostTensor<N>, AdamWError>(
                    AdamWError::NotContiguous(AdamWOperand::Grad),
                )
            } else {
                result matches Ok(out) && adamw_host_result(*data, *l, self.params, out)
            },
    {
        match (data.theta, data.m, data.v, data.g) {
            (HostData::F32(_), HostData::F32(_), HostData::F32(_), HostData::F32(_)) => {},
            (HostData::F16(_), HostData::F16(_), HostData::F16(_), HostData::F16(_)) => {},
            (HostData::BF16(_), HostData::BF16(_), HostData::BF16(_), HostData::BF16(_)) => {},
            _ => {
                return Err(AdamWError::Combination);
            },
        }
        let theta = match contiguous_wide::<N>(data.theta, l.theta) {
            Some(wide) => wide,
            None => {
                return Err(AdamWError::NotContiguous(AdamWOperand::Theta));
            },
        };
        let m = match contiguous_wide::<N>(data.m, l.m) {
            Some(wide) => wide,
            None => {
                return Err(AdamWError::NotContiguous(AdamWOperand::FirstMoment));
            },
        };
        let v = match contiguous_wide::<N>(data.v, l.v) {
            Some(wide) => wide,
            None => {
                return Err(AdamWError::NotContiguous(AdamWOperand::SecondMoment));
            },
        };
        let g = match contiguous_wide::<N>(data.g, l.g) {
            Some(wide) => wide,
            None => {
                return Err(AdamWError::NotContiguous(AdamWOperand::Grad));
            },
        };
        let factors = find_factors::<N>(&self.params);
        let wide = cpu_pack::<N>(
            theta.as_slice(),
            m.as_slice(),
            v.as_slice(),
            g.as_slice(),
            &factors,
        );
        let n: usize = l.theta.elem_count();
        let dims: Vec<usize> = vec![3, n];
        proof {
            let values = AdamWValues::<N> { theta: theta@, m: m@, v: v@, g: g@ };
            assert(reads_values(*data, *l, values));
            assert(is_factors::<N>(self.params, factors));
            assert(step_values(*data, *l, self.params, wide@));
            assert(dims@ =~= seq![3usize, n]);
        }
        Ok(HostTensor { data: narrow_like::<N>(wide, data.theta), dims })
    }

    pub fn cpu_fwd(
        &self,
        theta: &HostData<N>,
        tl: &Layout,
        m: &HostData<N>,
        ml: &Layout,
        v: &HostData<N>,
        vl: &Layout,
    ) -> (result: Result<HostTensor<N>, AdamWError>)
        requires
            tl.valid() && theta.valid() && tl.fits(theta.spec_len()),
            ml.valid() && m.valid() && ml.fits(m.spec_len()),
            vl.valid() && v.valid() && vl.fits(v.spec_len()),
            self.grad.valid(),
        ensures
            match adamw_host_fault(
                *theta,
                *m,
                *v,
                *self.grad,
                (AdamWLayouts { theta: tl, m: ml, v: vl, g: &self.grad.layout }),
            ) {
                Some(e) => result == Err::<HostTensor<N>, AdamWError>(e),
                None => self.grad.storage matches Storage::Host(g) && result matches Ok(out)
                    && adamw_host_result(
                    (AdamWHost { theta, m, v, g: &g }),
                    (AdamWLayouts { theta: tl, m: ml, v: vl, g: &self.grad.layout }),
                    self.params,
                    out,
                ),
            },
    {
        let l = AdamWLayouts { theta: tl, m: ml, v: vl, g: &self.grad.layout };
        if !l.have_same_count() {
            return Err(AdamWError::Sizes);
        }
        match &self.grad.storage {
            Storage::Host(g) => self.cpu_step(&AdamWHost { theta, m, v, g }, &l),
            _ => Err(AdamWError::Combination),
        }
    }

    /// The step where the gradient is on a Metal device too.
    fn metal_step(&self, data: &AdamWMetal, l: &AdamWLayouts) -> (result: Result<
        Outcome<N>,
        AdamWError,
    >)
        requires
            l.valid(),
            data.fits(*l),
        ensures
            match adamw_metal_fault(*data, *l) {
                Some(e) => result == Err::<Outcome<N>, AdamWError>(e),
                None => result matches Ok(outcome) && adamw_metal_result(
                    *data,
                    *l,
                    self.params,
                    outcome,
                ),
            },
    {
        if !l.are_contiguous() {
            return Err(AdamWError::LayoutsNotContiguous);
        }
        if !l.have_same_count() {
            return Err(AdamWError::Sizes);
        }
        let n: usize = l.theta.elem_count();
        let dtype = data.theta.dtype;
        let device: usize = data.theta.device;
        let dims: Vec<usize> = vec![3, n];
        proof {
            assert(dims@ =~= seq![3usize, n]);
        }
        let output = DeviceTensor { dtype, dims };
        if n == 0 {
            return Ok(Outcome::Empty(output));
        }
        if data.m.dtype != dtype || data.v.dtype != dtype || data.g.dtype != dtype {
            return Err(AdamWError::DTypeMismatch);
        }
        if !dtype.is_kernel_float() {
            return Err(AdamWError::KernelDType(dtype));
        }
        if data.m.device != device || data.v.device != device || data.g.device != device {
            return Err(AdamWError::MetalDeviceMismatch);
        }
        let kernel = KernelParams::<N> {
            beta1: N::single(self.params.beta1),
            beta2: N::single(self.params.beta2),
            scale_m: N::single(self.params.scale_m),
            scale_v: N::single(self.params.scale_v),
            eps: N::single(self.params.eps),
            lr: N::single(self.params.lr),
            lr_lambda: N::single(self.params.lr_lambda),
        };
        let args: Vec<KernelArg<N>> = vec![
            KernelArg::Size(n),
            KernelArg::F32(kernel.beta1),
            KernelArg::F32(kernel.beta2),
            KernelArg::F32(kernel.scale_m),
            KernelArg::F32(kernel.scale_v),
            KernelArg::F32(kernel.eps),
            KernelArg::F32(kernel.lr),
            KernelArg::F32(kernel.lr_lambda),
            argument_buffer::<N>(l.theta, 0, dtype),
            argument_buffer::<N>(l.m, 1, dtype),
            argument_buffer::<N>(l.v, 2, dtype),
            argument_buffer::<N>(l.g, 3, dtype),
            KernelArg::Buffer { operand: Operand::Output(0), offset_in_bytes: 0 },
        ];
        proof {
            assert(is_kernel_params::<N>(self.params, kernel));
            assert(args@ =~= adamw_args::<N>(dtype, *l, kernel));
        }
        let launch = Launch {
            device,
            kernel: float_kernel("adamw_pack_", dtype),
            label: "candelora_adamw_pack",
            args,
            grid: Grid::PerItem(n),
        };
        Ok(Outcome::Launch(launch, output))
    }

    pub fn metal_fwd(
        &self,
        theta: &MetalData,
        tl: &Layout,
        m: &MetalData,
        ml: &Layout,
        v: &MetalData,
        vl: &Layout,
    ) -> (result: Result<Outcome<N>, AdamWError>)
        requires
            tl.valid() && addressable(tl.start_offset, theta.dtype),
            ml.valid() && addressable(ml.start_offset, m.dtype),
            vl.valid() && addressable(vl.start_offset, v.dtype),
            self.grad.valid(),
        ensures
            match self.grad.storage {
                Storage::Metal(g) => {
                    let data = AdamWMetal { theta, m, v, g: &g };
                    let l = AdamWLayouts { theta: tl, m: ml, v: vl, g: &self.grad.layout };
                    match adamw_metal_fault(data, l) {
                        Some(e) => result == Err::<Outcome<N>, AdamWError>(e),
                        None => result matches Ok(outcome) && adamw_metal_result(
                            data,
                            l,
                            self.params,
                            outcome,
                        ),
                    }
                },
                _ => result == Err::<Outcome<N>, AdamWError>(AdamWError::GradNotMetal),
            },
    {
        match &self.grad.storage {
            Storage::Metal(g) => self.metal_step(
                &AdamWMetal { theta, m, v, g },
                &AdamWLayouts { theta: tl, m: ml, v: vl, g: &self.grad.layout },
            ),
            _ => Err(AdamWError::GradNotMetal),
        }
    }
}

/// The layouts of four tensors.
pub open spec fn layouts_of<'t, 'a, N: Scalars>(
    theta: &'t Tensor<'a, N>,
    m: &'t Tensor<'a, N>,
    v: &'t Tensor<'a, N>,
    g: &'t Tensor<'a, N>,
) -> AdamWLayouts<'t> {
    AdamWLayouts { theta: &theta.layout, m: &m.layout, v: &v.layout, g: &g.layout }
}

/// What is wrong with a call of [`adamw_packed_update`].
pub open spec fn packed_fault<N: Scalars>(
    theta: Tensor<N>,
    first_moment: Tensor<N>,
    second_moment: Tensor<N>,
    grad: Tensor<N>,
) -> Option<AdamWError> {
    let l = layouts_of(&theta, &first_moment, &second_moment, &grad);
    if first_moment.spec_device() != theta.spec_device() || second_moment.spec_device()
        != theta.spec_device() {
        Some(AdamWError::DeviceMismatch)
    } else {
        match (theta.storage, first_moment.storage, second_moment.storage) {
            (Storage::Host(t), Storage::Host(m), Storage::Host(v)) => adamw_host_fault(
                t,
                m,
                v,
                grad,
                l,
            ),
            (Storage::Metal(t), Storage::Metal(m), Storage::Metal(v)) => match grad.storage {
                Storage::Metal(g) => adamw_metal_fault(
                    AdamWMetal { theta: &t, m: &m, v: &v, g: &g },
                    l,
                ),
                _ => Some(AdamWError::GradNotMetal),
            },
            _ => Some(AdamWError::NoCudaKernel),
        }
    }
}

/// What a call of [`adamw_packed_update`] with which nothing is wrong comes to.
pub open spec fn packed_result<N: Scalars>(
    theta: Tensor<N>,
    first_moment: Tensor<N>,
    second_moment: Tensor<N>,
    grad: Tensor<N>,
    params: AdamWStepParams<N>,
    outcome: Outcome<N>,
) -> bool {
    let l = layouts_of(&theta, &first_moment, &second_moment, &grad);
    match (theta.storage, first_moment.storage, second_moment.storage, grad.storage) {
        (Storage::Host(t), Storage::Host(m), Storage::Host(v), Storage::Host(g)) => {
            outcome matches Outcome::Host(out) && adamw_host_result(
                AdamWHost { theta: &t, m: &m, v: &v, g: &g },
                l,
                params,
                out,
            )
        },
        (Storage::Metal(t), Storage::Metal(m), Storage::Metal(v), Storage::Metal(g)) => {
            adamw_metal_result(
                AdamWMetal { theta: &t, m: &m, v: &v, g: &g },
                l,
                params,
                outcome,
            )
        },
        _ => false,
    }
}

/// Computes one AdamW step. The result has the shape `[3, n]`: the first moments, the second
/// moments and the parameters after the step.
pub fn adamw_packed_update<'a, N: Scalars>(
    theta: &Tensor<'a, N>,
    first_moment: &Tensor<'a, N>,
    second_moment: &Tensor<'a, N>,
    grad: &Tensor<'a, N>,
    params: AdamWStepParams<N>,
) -> (result: Result<Outcome<N>, AdamWError>)
    requires
        theta.valid(),
        first_moment.valid(),
        second_moment.valid(),
        grad.valid(),
    ensures
        match packed_fault(*theta, *first_moment, *second_moment, *grad) {
            Some(e) => result == Err::<Outcome<N>, AdamWError>(e),
            None => result matches Ok(outcome) && packed_result(
                *theta,
                *first_moment,
                *second_moment,
                *grad,
                params,
                outcome,
            ),
        },
{
    let device = theta.device();
    if first_moment.device() != device || second_moment.device() != device {
        return Err(AdamWError::DeviceMismatch);
    }
    let op = AdamWPackedUpdateOp { grad, params };
    match (&theta.storage, &first_moment.storage, &second_moment.storage) {
        (Storage::Host(t), Storage::Host(m), Storage::Host(v)) => match op.cpu_fwd(
            t,
            &theta.layout,
            m,
            &first_moment.layout,
            v,
            &second_moment.layout,
        ) {
            Ok(out) => Ok(Outcome::Host(out)),
            Err(e) => Err(e),
        },
        (Storage::Metal(t), Storage::Metal(m), Storage::Metal(v)) => op.metal_fwd(
            t,
            &theta.layout,
            m,
            &first_moment.layout,
            v,
            &second_moment.layout,
        ),
        _ => Err(AdamWError::NoCudaKernel),
    }
}

/// Parameters and moments on the host after a step, in the shape of the parameters.
pub struct AdamWState<N: Scalars> {
    pub first_moment: HostTensor<N>,
    pub second_moment: HostTensor<N>,
    pub theta: HostTensor<N>,
}

/// What a step in place comes to.
pub enum StepOutcome<N: Scalars> {
    /// Nothing is changed: the caller has to take the step by other means.
    Skipped,
    /// What the variables are set to.
    Host(AdamWState<N>),
    /// A result of the shape `[3, n]`, whose rows the first moments, the second moments and the
    /// parameters are set to.
    Device(Outcome<N>),
}

/// `part` is elements `start` to `end` of `whole`.
pub open spec fn is_segment<N: Scalars>(
    whole: HostVec<N>,
    start: int,
    end: int,
    part: HostVec<N>,
) -> bool {
    match (whole, part) {
        (HostVec::U8(w), HostVec::U8(p)) => p@ == w@.subrange(start, end),
        (HostVec::F16(w), HostVec::F16(p)) => p@ == w@.subrange(start, end),
        (HostVec::BF16(w), HostVec::BF16(p)) => p@ == w@.subrange(start, end),
        (HostVec::F32(w), HostVec::F32(p)) => p@ == w@.subrange(start, end),
        _ => false,
    }
}

/// `state` holds the three rows of `packed`, in the shape `dims`.
pub open spec fn unpacks_state<N: Scalars>(
    packed: HostTensor<N>,
    n: int,
    dims: Seq<usize>,
    state: AdamWState<N>,
) -> bool {
    &&& is_segment(packed.data, 0, n, state.first_moment.data)
    &&& is_segment(packed.data, n, 2 * n, state.second_moment.data)
    &&& is_segment(packed.data, 2 * n, 3 * n, state.theta.data)
    &&& state.first_moment.dims@ == dims
    &&& state.second_moment.dims@ == dims
    &&& state.theta.dims@ == dims
}

/// The fused step is not taken.
pub open spec fn step_skipped<N: Scalars>(
    theta: Tensor<N>,
    first_moment: Tensor<N>,
    second_moment: Tensor<N>,
    grad: Tensor<N>,
    disabled: bool,
) -> bool {
    ||| disabled
    ||| !layouts_of(&theta, &first_moment, &second_moment, &grad).same_count()
    ||| first_moment.spec_dtype() != theta.spec_dtype()
    ||| second_moment.spec_dtype() != theta.spec_dtype()
    ||| grad.spec_dtype() != theta.spec_dtype()
    ||| !is_kernel_float(theta.spec_dtype())
    ||| grad.spec_device() != theta.spec_device()
    ||| packed_fault(theta, first_moment, second_moment, grad) is Some
}

/// The outcome of [`adamw_step_in_place`].
pub open spec fn step_outcome<N: Scalars>(
    theta: Tensor<N>,
    first_moment: Tensor<N>,
    second_moment: Tensor<N>,
    grad: Tensor<N>,
    params: AdamWStepParams<N>,
    disabled: bool,
    outcome: StepOutcome<N>,
) -> bool {
    if step_skipped(theta, first_moment, second_moment, grad, disabled) {
        outcome is Skipped
    } else {
        match outcome {
            StepOutcome::Skipped => false,
            StepOutcome::Host(state) => exists|packed: HostTensor<N>| #[trigger]
                unpacks_state(packed, theta.count() as int, theta.shape(), state)
                    && packed_result(
                    theta,
                    first_moment,
                    second_moment,
                    grad,
                    params,
                    Outcome::Host(packed),
                ),
            StepOutcome::Device(packed) => theta.spec_device() is Metal && packed_result(
                theta,
                first_moment,
                second_moment,
                grad,
                params,
                packed,
            ),
        }
    }
}

/// A step on the host gives parameters and moments in the shape and the format of the parameters.
pub proof fn a_step_keeps_shape_and_format<N: Scalars>(
    theta: Tensor<N>,
    first_moment: Tensor<N>,
    second_moment: Tensor<N>,
    grad: Tensor<N>,
    params: AdamWStepParams<N>,
    state: AdamWState<N>,
)
    requires
        step_outcome(
            theta,
            first_moment,
            second_moment,
            grad,
            params,
            false,
            StepOutcome::Host(state),
        ),
    ensures
        theta.storage matches Storage::Host(data) && same_format(data, state.theta.data)
            && same_format(data, state.first_moment.data) && same_format(
            data,
            state.second_moment.data,
        ),
        state.theta.dims@ == theta.shape(),
        state.first_moment.dims@ == theta.shape(),
        state.second_moment.dims@ == theta.shape(),
{
}

/// `tensor` has the shape and the format of `out`, and row-major order.
pub open spec fn is_like<N: Scalars>(tensor: Tensor<N>, out: HostTensor<N>) -> bool {
    &&& tensor.shape() == out.dims@
    &&& tensor.layout.contiguous()
    &&& tensor.storage matches Storage::Host(data) && same_format(data, out.data)
}

/// Where a step was taken on the host, the next one can be taken from what it gave, with every
/// gradient on the host that has as many elements, the same format and row-major order.
pub proof fn a_step_can_follow_a_step<N: Scalars>(
    theta: Tensor<N>,
    first_moment: Tensor<N>,
    second_moment: Tensor<N>,
    grad: Tensor<N>,
    params: AdamWStepParams<N>,
    state: AdamWState<N>,
    next_theta: Tensor<N>,
    next_first: Tensor<N>,
    next_second: Tensor<N>,
    next_grad: Tensor<N>,
)
    requires
        step_outcome(
            theta,
            first_moment,
            second_moment,
            grad,
            params,
            false,
            StepOutcome::Host(state),
        ),
        is_like(next_theta, state.theta),
        is_like(next_first, state.first_moment),
        is_like(next_second, state.second_moment),
        next_grad.storage is Host,
        next_grad.count() == theta.count(),
        next_grad.spec_dtype() == theta.spec_dtype(),
        next_grad.layout.contiguous(),
    ensures
        !step_skipped(next_theta, next_first, next_second, next_grad, false),
        writes_of(true, next_theta.shape(), next_first.shape(), next_second.shape()).end
            == StepEnd::Taken,
{
    a_step_keeps_shape_and_format(theta, first_moment, second_moment, grad, params, state);
}

/// How a step in place ends.
#[derive(Clone, Copy, Debug, PartialEq, Eq, Structural)]
pub enum StepEnd {
    /// The fused step is not taken.
    NotTaken,
    /// The step is taken.
    Taken,
    /// The step fails at a variable, whose shape is not that of the parameters.
    Failed(AdamWOperand),
}

/// Which variables a step in place writes: the first moments, then the second moments, then the
/// parameters.
#[derive(Clone, Copy, Debug, PartialEq, Eq, Structural)]
pub struct StepWrites {
    pub first_moment: bool,
    pub second_moment: bool,
    pub theta: bool,
    pub end: StepEnd,
}

/// The writes of a step: each needs a variable of the shape of the parameters, and the first that
/// finds another shape ends the step.
pub open spec fn writes_of(
    taken: bool,
    theta: Seq<usize>,
    first_moment: Seq<usize>,
    second_moment: Seq<usize>,
) -> StepWrites {
    if !taken {
        StepWrites {
            first_moment: false,
            second_moment: false,
            theta: false,
            end: StepEnd::NotTaken,
        }
    } else if first_moment != theta {
        StepWrites {
            first_moment: false,
            second_moment: false,
            theta: false,
            end: StepEnd::Failed(AdamWOperand::FirstMoment),
        }
    } else if second_moment != theta {
        StepWrites {
            first_moment: true,
            second_moment: false,
            theta: false,
            end: StepEnd::Failed(AdamWOperand::SecondMoment),
        }
    } else {
        StepWrites { first_moment: true, second_moment: true, theta: true, end: StepEnd::Taken }
    }
}

/// The writes of a step for variables of the given shapes.
pub fn step_writes(
    taken: bool,
    theta: &Vec<usize>,
    first_moment: &Vec<usize>,
    second_moment: &Vec<usize>,
) -> (writes: StepWrites)
    ensures
        writes == writes_of(taken, theta@, first_moment@, second_moment@),
{
    let first: bool = taken && same_dims(first_moment, theta);
    let second: bool = first && same_dims(second_moment, theta);
    let end = if !taken {
        StepEnd::NotTaken
    } else if !first {
        StepEnd::Failed(AdamWOperand::FirstMoment)
    } else if !second {
        StepEnd::Failed(AdamWOperand::SecondMoment)
    } else {
        StepEnd::Taken
    };
    StepWrites { first_moment: first, second_moment: second, theta: second, end }
}

/// The parameters change only in a step that succeeds, and what is written before a failure is
/// the first moments, and nothing else.
pub proof fn failed_steps_keep_parameters(
    taken: bool,
    theta: Seq<usize>,
    first_moment: Seq<usize>,
    second_moment: Seq<usize>,
)
    ensures
        ({
            let writes = writes_of(taken, theta, first_moment, second_moment);
            &&& writes.theta <==> writes.end == StepEnd::Taken
            &&& writes.second_moment <==> writes.end == StepEnd::Taken
            &&& writes.first_moment <==> taken && first_moment == theta
        }),
{
}

/// A step in place: what it comes to, and what of it is written.
pub struct AdamWStep<N: Scalars> {
    pub outcome: StepOutcome<N>,
    pub writes: StepWrites,
}

/// The number of elements of a result.
pub open spec fn vec_len<N: Scalars>(data: HostVec<N>) -> nat {
    match data {
        HostVec::U8(v) => v@.len(),
        HostVec::F16(v) => v@.len(),
        HostVec::BF16(v) => v@.len(),
        HostVec::F32(v) => v@.len(),
    }
}

/// Cuts three rows of `n` elements apart.
fn split_rows<T>(values: Vec<T>, n: usize) -> (rows: (Vec<T>, Vec<T>, Vec<T>))
    requires
        values@.len() == 3 * n,
    ensures
        rows.0@ == values@.subrange(0, n as int),
        rows.1@ == values@.subrange(n as int, 2 * n),
        rows.2@ == values@.subrange(2 * n, 3 * n),
{
    let mut first = values;
    let mut second = first.split_off(n);
    let third = second.split_off(n);
    proof {
        assert(first@ =~= values@.subrange(0, n as int));
        assert(second@ =~= values@.subrange(n as int, 2 * n));
        assert(third@ =~= values@.subrange(2 * n, 3 * n));
    }
    (first, second, third)
}

fn split_state<N: Scalars>(packed: HostTensor<N>, n: usize, dims: &Vec<usize>) -> (state: AdamWState<
    N,
>)
    requires
        vec_len(packed.data) == 3 * n,
    ensures
        unpacks_state(packed, n as int, dims@, state),
{
    let (m, v, t) = match packed.data {
        HostVec::U8(values) => {
            let (m, v, t) = split_rows(values, n);
            (HostVec::U8(m), HostVec::U8(v), HostVec::U8(t))
        },
        HostVec::F16(values) => {
            let (m, v, t) = split_rows(values, n);
            (HostVec::F16(m), HostVec::F16(v), HostVec::F16(t))
        },
        HostVec::BF16(values) => {
            let (m, v, t) = split_rows(values, n);
            (HostVec::BF16(m), HostVec::BF16(v), HostVec::BF16(t))
        },
        HostVec::F32(values) => {
            let (m, v, t) = split_rows(values, n);
            (HostVec::F32(m), HostVec::F32(v), HostVec::F32(t))
        },
    };
    AdamWState {
        first_moment: HostTensor { data: m, dims: copy_dims(dims) },
        second_moment: HostTensor { data: v, dims: copy_dims(dims) },
        theta: HostTensor { data: t, dims: copy_dims(dims) },
    }
}

/// What a step in place comes to.
fn run_step<'a, N: Scalars>(
    theta: &Tensor<'a, N>,
    first_moment: &Tensor<'a, N>,
    second_moment: &Tensor<'a, N>,
    grad: &Tensor<'a, N>,
    params: AdamWStepParams<N>,
    setting: Option<&str>,
) -> (outcome: StepOutcome<N>)
    requires
        theta.valid(),
        first_moment.valid(),
        second_moment.valid(),
        grad.valid(),
    ensures
        step_outcome(
            *theta,
            *first_moment,
            *second_moment,
            *grad,
            params,
            adamw_disabled(text_of(setting)),
            outcome,
        ),
{
    if is_adamw_disabled(setting) {
        return StepOutcome::Skipped;
    }
    let l = AdamWLayouts {
        theta: &theta.layout,
        m: &first_moment.layout,
        v: &second_moment.layout,
        g: &grad.layout,
    };
    if !l.have_same_count() {
        return StepOutcome::Skipped;
    }
    let dtype = theta.dtype();
    if first_moment.dtype() != dtype || second_moment.dtype() != dtype || grad.dtype() != dtype {
        return StepOutcome::Skipped;
    }
    if !dtype.is_kernel_float() {
        return StepOutcome::Skipped;
    }
    let device = theta.device();
    if first_moment.device() != device || second_moment.device() != device || grad.device()
        != device {
        return StepOutcome::Skipped;
    }
    let packed = match adamw_packed_update(theta, first_moment, second_moment, grad, params) {
        Ok(packed) => packed,
        Err(_) => {
            return StepOutcome::Skipped;
        },
    };
    match packed {
        Outcome::Host(packed) => {
            let n: usize = theta.elem_count();
            let state = split_state::<N>(packed, n, &theta.layout.dims);
            proof {
                assert(unpacks_state(packed, theta.count() as int, theta.shape(), state));
            }
            StepOutcome::Host(state)
        },
        _ => StepOutcome::Device(packed),
    }
}

/// Takes one AdamW step, unless the tensors, or the setting, do not allow the fused step. The
/// variables are written one after the other, as [`AdamWStep::writes`] says.
/// `setting` is the text of `CANDLORA_DISABLE_FUSED_ADAMW_METAL`.
pub fn adamw_step_in_place<'a, N: Scalars>(
    theta: &Tensor<'a, N>,
    first_moment: &Tensor<'a, N>,
    second_moment: &Tensor<'a, N>,
    grad: &Tensor<'a, N>,
    params: AdamWStepParams<N>,
    setting: Option<&str>,
) -> (step: AdamWStep<N>)
    requires
        theta.valid(),
        first_moment.valid(),
        second_moment.valid(),
        grad.valid(),
    ensures
        step_outcome(
            *theta,
            *first_moment,
            *second_moment,
            *grad,
            params,
            adamw_disabled(text_of(setting)),
            step.outcome,
        ),
        step.writes == writes_of(
            !(step.outcome is Skipped),
            theta.shape(),
            first_moment.shape(),
            second_moment.shape(),
        ),
{
    let outcome = run_step::<N>(theta, first_moment, second_moment, grad, params, setting);
    let taken: bool = !matches!(outcome, StepOutcome::Skipped);
    let writes = step_writes(
        taken,
        &theta.layout.dims,
        &first_moment.layout.dims,
        &second_moment.layout.dims,
    );
    AdamWStep { outcome, writes }
}

} // verus!
