//! `y + alpha * x`.
use crate::dtype::{is_kernel_float, DType};
use crate::host::{contiguous_wide, is_float, narrow_like, narrows, widens};
use crate::launch::{
    argument, argument_buffer, float_kernel, float_tag, own_buffer, DeviceTensor, Grid, KernelArg,
    Launch, Operand, Outcome,
};
use crate::layout::{copy_dims, Layout};
use crate::scalar::{add_product, adds_product, Scalars};
use crate::tensor::{
    addressable, same_format, HostData, HostTensor, MetalData, Storage, Tensor,
};
use vstd::prelude::*;

verus! {

/// A tensor that has to be contiguous.
#[derive(Clone, Copy, Debug, PartialEq, Eq, Structural)]
pub enum AxpyOperand {
    Y,
    X,
}

/// Why `y + alpha * x` is refused.
#[derive(Clone, Copy, Debug, PartialEq, Eq, Structural)]
pub enum AxpyError {
    Sizes { y: usize, x: usize },
    /// The types of `y` and `x`.
    DTypeMismatch(DType, DType),
    DeviceMismatch,
    DTypes,
    NotContiguous(AxpyOperand),
    LayoutsNotContiguous,
    MetalDeviceMismatch,
    KernelDType(DType),
    NoCudaKernel,
}

/// The operation, over a factor.
pub struct AxpyOp<N: Scalars> {
    pub alpha: N::F64,
}

/// Element `i` of `out` is that of `y` plus `alpha` times that of `x`.
pub open spec fn axpy_at<N: Scalars>(
    y: Seq<N::F32>,
    x: Seq<N::F32>,
    alpha: N::F32,
    out: Seq<N::F32>,
    i: int,
) -> bool {
    adds_product::<N>(alpha, x[i], y[i], out[i])
}

/// `out` is `y + alpha * x`.
pub open spec fn is_axpy<N: Scalars>(
    y: Seq<N::F32>,
    x: Seq<N::F32>,
    alpha: N::F32,
    out: Seq<N::F32>,
) -> bool {
    &&& out.len() == y.len()
    &&& forall|i: int| 0 <= i < y.len() ==> #[trigger] axpy_at::<N>(y, x, alpha, out, i)
}

pub fn cpu_axpy<N: Scalars>(y: &[N::F32], x: &[N::F32], alpha: N::F32) -> (out: Vec<N::F32>)
    requires
        y@.len() == x@.len(),
    ensures
        is_axpy::<N>(y@, x@, alpha, out@),
{
    let mut out: Vec<N::F32> = Vec::new();
    let mut i: usize = 0;
    while i < y.len()
        invariant
            y@.len() == x@.len(),
            i <= y@.len(),
            out@.len() == i,
            forall|k: int| 0 <= k < i ==> #[trigger] axpy_at::<N>(y@, x@, alpha, out@, k),
        decreases y@.len() - i,
    {
        let ghost before = out@;
        out.push(add_product::<N>(alpha, x[i], y[i]));
        proof {
            assert forall|k: int| 0 <= k < i + 1 implies #[trigger] axpy_at::<N>(
                y@,
                x@,
                alpha,
                out@,
                k,
            ) by {
                if k < i {
                    assert(axpy_at::<N>(y@, x@, alpha, before, k));
                }
            }
        }
        i += 1;
    }
    out
}

/// What is wrong with the operation on the host.
pub open spec fn axpy_host_fault<N: Scalars>(
    y: HostData<N>,
    yl: Layout,
    x: HostData<N>,
    xl: Layout,
) -> Option<AxpyError> {
    if yl.count() != xl.count() {
        Some(AxpyError::Sizes { y: yl.count() as usize, x: xl.count() as usize })
    } else if !is_float(y) || x.spec_dtype() != y.spec_dtype() {
        Some(AxpyError::DTypes)
    } else if !yl.contiguous() {
        Some(AxpyError::NotContiguous(AxpyOperand::Y))
    } else if !xl.contiguous() {
        Some(AxpyError::NotContiguous(AxpyOperand::X))
    } else {
        None
    }
}

/// What the operation on the host reads and computes.
pub struct AxpyValues<N: Scalars> {
    pub y: Seq<N::F32>,
    pub x: Seq<N::F32>,
    pub alpha: N::F32,
    pub out: Seq<N::F32>,
}

/// `values` are those of the tensors, of the factor and of their sum, in single precision.
pub open spec fn axpy_values<N: Scalars>(
    y: HostData<N>,
    yl: Layout,
    x: HostData<N>,
    xl: Layout,
    alpha: N::F64,
    values: AxpyValues<N>,
) -> bool {
    &&& widens::<N>(y, yl, values.y)
    &&& widens::<N>(x, xl, values.x)
    &&& call_ensures(N::single, (alpha,), values.alpha)
    &&& is_axpy::<N>(values.y, values.x, values.alpha, values.out)
}

/// `out` is `y + alpha * x`, in the shape and the format of `y`.
pub open spec fn axpy_host_result<N: Scalars>(
    y: HostData<N>,
    yl: Layout,
    x: HostData<N>,
    xl: Layout,
    alpha: N::F64,
    out: HostTensor<N>,
) -> bool {
    &&& out.dims@ == yl.dims@
    &&& same_format(y, out.data)
    &&& exists|values: AxpyValues<N>| #[trigger]
        axpy_values(y, yl, x, xl, alpha, values) && narrows::<N>(values.out, out.data)
}

/// What is wrong with the operation on a Metal device.
pub open spec fn axpy_metal_fault(
    y: MetalData,
    yl: Layout,
    x: MetalData,
    xl: Layout,
) -> Option<AxpyError> {
    if !yl.contiguous() || !xl.contiguous() {
        Some(AxpyError::LayoutsNotContiguous)
    } else if yl.count() != xl.count() {
        Some(AxpyError::Sizes { y: yl.count() as usize, x: xl.count() as usize })
    } else if yl.count() == 0 {
        None
    } else if y.dtype != x.dtype {
        Some(AxpyError::DTypeMismatch(y.dtype, x.dtype))
    } else if y.device != x.device {
        Some(AxpyError::MetalDeviceMismatch)
    } else if !is_kernel_float(y.dtype) {
        Some(AxpyError::KernelDType(y.dtype))
    } else {
        None
    }
}

/// The launch of the operation.
pub open spec fn is_axpy_launch<N: Scalars>(
    y: MetalData,
    yl: Layout,
    xl: Layout,
    alpha: N::F64,
    launch: Launch<N>,
) -> bool {
    exists|single: N::F32| #[trigger]
        call_ensures(N::single, (alpha,), single) && launch.describes(
            y.device,
            "axpy_"@ + float_tag(y.dtype),
            "candelora_axpy"@,
            seq![
                KernelArg::Size(yl.count() as usize),
                KernelArg::F32(single),
                argument::<N>(yl, 0, y.dtype),
                argument::<N>(xl, 1, y.dtype),
                own_buffer::<N>(Operand::Output(0)),
            ],
            Grid::PerItem(yl.count() as usize),
        )
}

/// What the operation on a Metal device comes to.
pub open spec fn axpy_metal_result<N: Scalars>(
    y: MetalData,
    yl: Layout,
    xl: Layout,
    alpha: N::F64,
    outcome: Outcome<N>,
) -> bool {
    match outcome {
        Outcome::Host(_) => false,
        Outcome::Empty(output) => yl.count() == 0 && output.describes(y.dtype, yl.dims@),
        Outcome::Launch(launch, output) => yl.count() > 0 && output.describes(y.dtype, yl.dims@)
            && is_axpy_launch(y, yl, xl, alpha, launch),
    }
}

impl<N: Scalars> AxpyOp<N> {
    pub fn name(&self) -> (name: &'static str)
        ensures
            name@ == "candelora-axpy-fused"@,
    {
        "candelora-axpy-fused"
    }

    pub fn cpu_fwd(&self, y: &HostData<N>, yl: &Layout, x: &HostData<N>, xl: &Layout) -> (result:
        Result<HostTensor<N>, AxpyError>)
        requires
            yl.valid(),
            xl.valid(),
            yl.fits(y.spec_len()),
            xl.fits(x.spec_len()),
            y.valid(),
            x.valid(),
        ensures
            match axpy_host_fault(*y, *yl, *x, *xl) {
                Some(e) => result == Err::<HostTensor<N>, AxpyError>(e),
                None => result matches Ok(out) && axpy_host_result(
                    *y,
                    *yl,
                    *x,
                    *xl,
                    self.alpha,
                    out,
                ),
            },
    {
        let y_count: usize = yl.elem_count();
        let x_count: usize = xl.elem_count();
        if y_count != x_count {
            return Err(AxpyError::Sizes { y: y_count, x: x_count });
        }
        match (y, x) {
            (HostData::F32(_), HostData::F32(_)) => {},
            (HostData::F16(_), HostData::F16(_)) => {},
            (HostData::BF16(_), HostData::BF16(_)) => {},
            _ => {
                return Err(AxpyError::DTypes);
            },
        }
        let wide_y = match contiguous_wide::<N>(y, yl) {
            Some(wide) => wide,
            None => {
                return Err(AxpyError::NotContiguous(AxpyOperand::Y));
            },
        };
        let wide_x = match contiguous_wide::<N>(x, xl) {
            Some(wide) => wide,
            None => {
                return Err(AxpyError::NotContiguous(AxpyOperand::X));
            },
        };
        let alpha = N::single(self.alpha);
        let sums = cpu_axpy::<N>(wide_y.as_slice(), wide_x.as_slice(), alpha);
        proof {
            let values = AxpyValues::<N> { y: wide_y@, x: wide_x@, alpha, out: sums@ };
            assert(axpy_values(*y, *yl, *x, *xl, self.alpha, values));
        }
        let dims = copy_dims(&yl.dims);
        Ok(HostTensor { data: narrow_like::<N>(sums, y), dims })
    }

    pub fn metal_fwd(&self, y: &MetalData, yl: &Layout, x: &MetalData, xl: &Layout) -> (result:
        Result<Outcome<N>, AxpyError>)
        requires
            yl.valid(),
            xl.valid(),
            addressable(yl.start_offset, y.dtype),
            addressable(xl.start_offset, x.dtype),
        ensures
            match axpy_metal_fault(*y, *yl, *x, *xl) {
                Some(e) => result == Err::<Outcome<N>, AxpyError>(e),
                None => result matches Ok(outcome) && axpy_metal_result(
                    *y,
                    *yl,
                    *xl,
                    self.alpha,
                    outcome,
                ),
            },
    {
        if !yl.is_contiguous() || !xl.is_contiguous() {
            return Err(AxpyError::LayoutsNotContiguous);
        }
        let count: usize = yl.elem_count();
        let x_count: usize = xl.elem_count();
        if count != x_count {
            return Err(AxpyError::Sizes { y: count, x: x_count });
        }
        let output = DeviceTensor { dtype: y.dtype, dims: copy_dims(&yl.dims) };
        if count == 0 {
            return Ok(Outcome::Empty(output));
        }
        if y.dtype != x.dtype {
            return Err(AxpyError::DTypeMismatch(y.dtype, x.dtype));
        }
        if y.device != x.device {
            return Err(AxpyError::MetalDeviceMismatch);
        }
        if !y.dtype.is_kernel_float() {
            return Err(AxpyError::KernelDType(y.dtype));
        }
        let alpha = N::single(self.alpha);
        let args: Vec<KernelArg<N>> = vec![
            KernelArg::Size(count),
            KernelArg::F32(alpha),
            argument_buffer::<N>(yl, 0, y.dtype),
            argument_buffer::<N>(xl, 1, y.dtype),
            KernelArg::Buffer { operand: Operand::Output(0), offset_in_bytes: 0 },
        ];
        proof {
            assert(args@ =~= seq![
                KernelArg::Size(count),
                KernelArg::F32(alpha),
                argument::<N>(*yl, 0, y.dtype),
                argument::<N>(*xl, 1, y.dtype),
                own_buffer::<N>(Operand::Output(0)),
            ]);
        }
        let launch = Launch {
            device: y.device,
            kernel: float_kernel("axpy_", y.dtype),
            label: "candelora_axpy",
            args,
            grid: Grid::PerItem(count),
        };
        Ok(Outcome::Launch(launch, output))
    }
}

/// What is wrong with a call of [`axpy`] before a kernel is chosen.
pub open spec fn axpy_call_fault<N: Scalars>(y: Tensor<N>, x: Tensor<N>) -> Option<AxpyError> {
    if y.count() != x.count() {
        Some(AxpyError::Sizes { y: y.count() as usize, x: x.count() as usize })
    } else if y.spec_dtype() != x.spec_dtype() {
        Some(AxpyError::DTypeMismatch(y.spec_dtype(), x.spec_dtype()))
    } else if y.spec_device() != x.spec_device() {
        Some(AxpyError::DeviceMismatch)
    } else {
        None
    }
}

/// The outcome of [`axpy`].
pub open spec fn axpy_outcome<N: Scalars>(
    y: Tensor<N>,
    x: Tensor<N>,
    alpha: N::F64,
    result: Result<Outcome<N>, AxpyError>,
) -> bool {
    if let Some(e) = axpy_call_fault(y, x) {
        result == Err::<Outcome<N>, AxpyError>(e)
    } else {
        match (y.storage, x.storage) {
            (Storage::Host(ys), Storage::Host(xs)) => match axpy_host_fault(
                ys,
                y.layout,
                xs,
                x.layout,
            ) {
                Some(e) => result == Err::<Outcome<N>, AxpyError>(e),
                None => result matches Ok(Outcome::Host(out)) && axpy_host_result(
                    ys,
                    y.layout,
                    xs,
                    x.layout,
                    alpha,
                    out,
                ),
            },
            (Storage::Metal(ys), Storage::Metal(xs)) => match axpy_metal_fault(
                ys,
                y.layout,
                xs,
                x.layout,
            ) {
                Some(e) => result == Err::<Outcome<N>, AxpyError>(e),
                None => result matches Ok(outcome) && axpy_metal_result(
                    ys,
                    y.layout,
                    x.layout,
                    alpha,
                    outcome,
                ),
            },
            _ => result == Err::<Outcome<N>, AxpyError>(AxpyError::NoCudaKernel),
        }
    }
}

/// Computes `y + alpha * x`, in the shape and the type of `y`.
pub fn axpy<N: Scalars>(y: &Tensor<N>, x: &Tensor<N>, alpha: N::F64) -> (result: Result<
    Outcome<N>,
    AxpyError,
>)
    requires
        y.valid(),
        x.valid(),
    ensures
        axpy_outcome(*y, *x, alpha, result),
{
    let y_count: usize = y.elem_count();
    let x_count: usize = x.elem_count();
    if y_count != x_count {
        return Err(AxpyError::Sizes { y: y_count, x: x_count });
    }
    if y.dtype() != x.dtype() {
        return Err(AxpyError::DTypeMismatch(y.dtype(), x.dtype()));
    }
    if y.device() != x.device() {
        return Err(AxpyError::DeviceMismatch);
    }
    let op = AxpyOp::<N> { alpha };
    match (&y.storage, &x.storage) {
        (Storage::Host(ys), Storage::Host(xs)) => match op.cpu_fwd(ys, &y.layout, xs, &x.layout) {
            Ok(out) => Ok(Outcome::Host(out)),
            Err(e) => Err(e),
        },
        (Storage::Metal(ys), Storage::Metal(xs)) => op.metal_fwd(ys, &y.layout, xs, &x.layout),
        _ => Err(AxpyError::NoCudaKernel),
    }
}

} // verus!
