//! What `y + alpha * x` comes to, when it is refused, and what it launches.
use crate::axpy::{axpy_at, axpy_outcome, axpy_values, AxpyError, AxpyOperand, AxpyValues};
use crate::dtype::DType;
use crate::exact::{lemma_product_exactly, lemma_read_exactly, lemma_stored_exactly, Reading};
use crate::host::narrows;
use crate::launch::{DeviceTensor, Grid, KernelArg, Launch, Operand, Outcome};
use crate::scalar::Scalars;
use crate::tensor::{Device, HostTensor, Storage, Tensor};
use vstd::prelude::*;

verus! {

/// On the host, every number of the result is that of `y` plus `alpha` times that of `x`.
pub proof fn sums_are_exact<N: Scalars>(
    r: Reading<N>,
    y: Tensor<N>,
    x: Tensor<N>,
    alpha: N::F64,
    out: HostTensor<N>,
    i: int,
)
    requires
        r.is_exact(),
        axpy_outcome(y, x, alpha, Ok(Outcome::Host(out))),
        0 <= i < y.count(),
    ensures
        out.dims@ == y.shape(),
        out.data is F32 <==> y.spec_dtype() == DType::F32,
        out.data is F16 <==> y.spec_dtype() == DType::F16,
        out.data is BF16 <==> y.spec_dtype() == DType::BF16,
        r.of(out, i) == r.at(y, i) + (r.double)(alpha) * r.at(x, i),
{
    match (y.storage, x.storage) {
        (Storage::Host(ys), Storage::Host(xs)) => {
            let values = choose|values: AxpyValues<N>| #[trigger]
                axpy_values(ys, y.layout, xs, x.layout, alpha, values) && narrows::<N>(
                    values.out,
                    out.data,
                );
            lemma_read_exactly(r, y, values.y, i);
            lemma_read_exactly(r, x, values.x, i);
            assert(axpy_at::<N>(values.y, values.x, values.alpha, values.out, i));
            lemma_product_exactly::<N>(
                r,
                values.alpha,
                values.x[i],
                values.y[i],
                values.out[i],
            );
            lemma_stored_exactly(r, values.out, out.data, i);
        },
        _ => {},
    }
}

/// The operation succeeds for contiguous tensors with as many elements, of one floating-point
/// format, on one device that is not a CUDA device; without elements, every type will do on a
/// Metal device.
pub proof fn sums_are_found_where_tensors_agree<N: Scalars>(
    y: Tensor<N>,
    x: Tensor<N>,
    alpha: N::F64,
    result: Result<Outcome<N>, AxpyError>,
)
    requires
        y.valid(),
        x.valid(),
        axpy_outcome(y, x, alpha, result),
    ensures
        result is Ok <==> y.count() == x.count() && y.spec_dtype() == x.spec_dtype()
            && y.spec_device() == x.spec_device() && !(y.spec_device() is Cuda)
            && y.layout.contiguous() && x.layout.contiguous() && (y.spec_dtype() == DType::F32
            || y.spec_dtype() == DType::F16 || y.spec_dtype() == DType::BF16 || (y.count() == 0
            && y.spec_device() is Metal)),
        result matches Ok(outcome) ==> (outcome is Host <==> y.spec_device() is Cpu) && (
        outcome is Empty <==> y.spec_device() is Metal && y.count() == 0),
        result matches Ok(Outcome::Empty(output)) ==> output.dtype == y.spec_dtype()
            && output.dims@ == y.shape(),
{
}

/// A refusal names what is wrong.
pub proof fn refusals_name_the_fault<N: Scalars>(
    y: Tensor<N>,
    x: Tensor<N>,
    alpha: N::F64,
    e: AxpyError,
)
    requires
        y.valid(),
        x.valid(),
        axpy_outcome(y, x, alpha, Err(e)),
    ensures
        y.count() != x.count() <==> e is Sizes,
        e matches AxpyError::Sizes { y: left, x: right } ==> left == y.count() && right
            == x.count(),
        e matches AxpyError::DTypeMismatch(left, right) ==> left == y.spec_dtype() && right
            == x.spec_dtype() && left != right,
        e is DeviceMismatch ==> y.spec_device() != x.spec_device(),
        e is DTypes ==> y.spec_device() is Cpu && y.spec_dtype() != DType::F32 && y.spec_dtype()
            != DType::F16 && y.spec_dtype() != DType::BF16,
        e == AxpyError::NotContiguous(AxpyOperand::Y) ==> !y.layout.contiguous(),
        e == AxpyError::NotContiguous(AxpyOperand::X) ==> y.layout.contiguous()
            && !x.layout.contiguous(),
        e is LayoutsNotContiguous ==> y.spec_device() is Metal && !(y.layout.contiguous()
            && x.layout.contiguous()),
        e matches AxpyError::KernelDType(dtype) ==> dtype == y.spec_dtype() && dtype != DType::F32
            && dtype != DType::F16 && dtype != DType::BF16,
        e is NoCudaKernel ==> y.spec_device() is Cuda,
        !(e is MetalDeviceMismatch),
{
    assert(y.shape().take(y.shape().len() as int) =~= y.shape());
    assert(x.shape().take(x.shape().len() as int) =~= x.shape());
}

/// The kernel is the one for the type of `y`, which is the type of the result, and is told where
/// `y` and `x` begin.
pub proof fn sums_launch_the_kernel_of_their_type<N: Scalars>(
    y: Tensor<N>,
    x: Tensor<N>,
    alpha: N::F64,
    launch: Launch<N>,
    output: DeviceTensor,
)
    requires
        y.valid(),
        x.valid(),
        axpy_outcome(y, x, alpha, Ok(Outcome::Launch(launch, output))),
    ensures
        output.dtype == y.spec_dtype(),
        output.dims@ == y.shape(),
        y.spec_device() == Device::Metal(launch.device),
        output.dtype == DType::F32 ==> launch.kernel@ == "axpy_f32"@,
        output.dtype == DType::F16 ==> launch.kernel@ == "axpy_f16"@,
        output.dtype == DType::BF16 ==> launch.kernel@ == "axpy_bf16"@,
        output.dtype == DType::F32 || output.dtype == DType::F16 || output.dtype == DType::BF16,
        launch.grid == Grid::PerItem(y.count() as usize),
        launch.label@ == "candelora_axpy"@,
        launch.args@.len() == 5,
        launch.args@[0] == KernelArg::<N>::Size(y.count() as usize),
        launch.args@[1] matches KernelArg::F32(single) && call_ensures(
            N::single,
            (alpha,),
            single,
        ),
        launch.args@[2] matches KernelArg::Buffer { operand, offset_in_bytes } && operand
            == Operand::Argument(0) && offset_in_bytes == (if output.dtype == DType::F32 {
            4int
        } else {
            2int
        }) * y.layout.start_offset,
        launch.args@[3] matches KernelArg::Buffer { operand, offset_in_bytes } && operand
            == Operand::Argument(1) && offset_in_bytes == (if output.dtype == DType::F32 {
            4int
        } else {
            2int
        }) * x.layout.start_offset,
        launch.args@[4] == (KernelArg::<N>::Buffer {
            operand: Operand::Output(0),
            offset_in_bytes: 0,
        }),
{
    reveal_strlit("axpy_");
    reveal_strlit("f32");
    reveal_strlit("f16");
    reveal_strlit("bf16");
    reveal_strlit("axpy_f32");
    reveal_strlit("axpy_f16");
    reveal_strlit("axpy_bf16");
    assert("axpy_"@ + "f32"@ =~= "axpy_f32"@);
    assert("axpy_"@ + "f16"@ =~= "axpy_f16"@);
    assert("axpy_"@ + "bf16"@ =~= "axpy_bf16"@);
}

} // verus!
