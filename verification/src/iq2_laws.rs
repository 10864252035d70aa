//! When products with IQ2 weights are refused, and what they launch.
use crate::arith::lemma_ceil_div;
use crate::dtype::DType;
use crate::iq2_matmul::{iq2_outcome, x_rows, Iq2Error, Iq2MatmulVariant, Iq2Product};
use crate::launch::{DeviceTensor, Grid, Launch, Outcome};
use crate::launch_laws::{begins, counts, reads, sizes_fit_in_32_bits, writes};
use crate::scalar::Scalars;
use crate::tensor::Device;
use vstd::prelude::*;

verus! {

/// The rows of an input: one where it has one dimension.
pub open spec fn input_rows(x: Seq<usize>) -> int {
    if x.len() == 2 {
        x[0] as int
    } else {
        1
    }
}

/// The blocks of one row of weights: one for every 256 weights that are begun.
pub open spec fn blocks_of(in_dim: int) -> int {
    (in_dim + 255) / 256
}

/// The bytes of the codes of one block, and those of its scales.
pub open spec fn block_of(variant: Iq2MatmulVariant) -> (int, int) {
    match variant {
        Iq2MatmulVariant::Iq2Xxs => (64, 2),
        Iq2MatmulVariant::Iq2Xs => (64, 10),
        Iq2MatmulVariant::Iq2S => (72, 10),
    }
}

/// The kernel of a product is the one for the format of the weights and the type of the input. It
/// gets the rows, the two dimensions and the blocks of a row, and is told where input, codes and
/// scales begin.
pub proof fn products_launch_the_kernel_of_their_format<N: Scalars>(
    p: Iq2Product<N>,
    launch: Launch<N>,
    output: DeviceTensor,
)
    requires
        p.valid(),
        iq2_outcome(p, Ok(Outcome::Launch(launch, output))),
    ensures
        p.x.spec_device() == Device::Metal(launch.device),
        output.dtype == DType::F32,
        p.x.shape().len() == 1 ==> output.dims@ == seq![p.out_dim],
        p.x.shape().len() == 2 ==> output.dims@ == seq![p.x.shape()[0], p.out_dim],
        p.variant == Iq2MatmulVariant::Iq2Xxs && p.x.spec_dtype() == DType::F32 ==> launch.kernel@
            == "iq2_xxs_matmul_f32"@,
        p.variant == Iq2MatmulVariant::Iq2Xxs && p.x.spec_dtype() == DType::F16 ==> launch.kernel@
            == "iq2_xxs_matmul_f16"@,
        p.variant == Iq2MatmulVariant::Iq2Xxs && p.x.spec_dtype() == DType::BF16 ==> launch.kernel@
            == "iq2_xxs_matmul_bf16"@,
        p.variant == Iq2MatmulVariant::Iq2Xs && p.x.spec_dtype() == DType::F32 ==> launch.kernel@
            == "iq2_xs_matmul_f32"@,
        p.variant == Iq2MatmulVariant::Iq2Xs && p.x.spec_dtype() == DType::F16 ==> launch.kernel@
            == "iq2_xs_matmul_f16"@,
        p.variant == Iq2MatmulVariant::Iq2Xs && p.x.spec_dtype() == DType::BF16 ==> launch.kernel@
            == "iq2_xs_matmul_bf16"@,
        p.variant == Iq2MatmulVariant::Iq2S && p.x.spec_dtype() == DType::F32 ==> launch.kernel@
            == "iq2_s_matmul_f32"@,
        p.variant == Iq2MatmulVariant::Iq2S && p.x.spec_dtype() == DType::F16 ==> launch.kernel@
            == "iq2_s_matmul_f16"@,
        p.variant == Iq2MatmulVariant::Iq2S && p.x.spec_dtype() == DType::BF16 ==> launch.kernel@
            == "iq2_s_matmul_bf16"@,
        p.x.spec_dtype() == DType::F32 || p.x.spec_dtype() == DType::F16 || p.x.spec_dtype()
            == DType::BF16,
        launch.grid matches Grid::PerItem(items) && items == input_rows(p.x.shape()) * p.out_dim,
        launch.label@ == "candelora_iq2_matmul"@,
        launch.args@.len() == 8,
        counts(launch.args@[0], input_rows(p.x.shape())),
        counts(launch.args@[1], p.out_dim as int),
        counts(launch.args@[2], p.in_dim as int),
        counts(launch.args@[3], blocks_of(p.in_dim as int)),
        reads(launch.args@[4], 0, p.x.layout, p.x.spec_dtype()),
        begins(launch.args@[5], 1, p.weight_bytes.layout.start_offset as int),
        begins(launch.args@[6], 2, p.weight_scales.layout.start_offset as int),
        writes(launch.args@[7], 0),
{
    reveal_strlit("bf16");
    reveal_strlit("f16");
    reveal_strlit("f32");
    reveal_strlit("iq2_s_matmul_");
    reveal_strlit("iq2_s_matmul_bf16");
    reveal_strlit("iq2_s_matmul_f16");
    reveal_strlit("iq2_s_matmul_f32");
    reveal_strlit("iq2_xs_matmul_");
    reveal_strlit("iq2_xs_matmul_bf16");
    reveal_strlit("iq2_xs_matmul_f16");
    reveal_strlit("iq2_xs_matmul_f32");
    reveal_strlit("iq2_xxs_matmul_");
    reveal_strlit("iq2_xxs_matmul_bf16");
    reveal_strlit("iq2_xxs_matmul_f16");
    reveal_strlit("iq2_xxs_matmul_f32");
    assert("iq2_xxs_matmul_"@ + "f32"@ =~= "iq2_xxs_matmul_f32"@);
    assert("iq2_xxs_matmul_"@ + "f16"@ =~= "iq2_xxs_matmul_f16"@);
    assert("iq2_xxs_matmul_"@ + "bf16"@ =~= "iq2_xxs_matmul_bf16"@);
    assert("iq2_xs_matmul_"@ + "f32"@ =~= "iq2_xs_matmul_f32"@);
    assert("iq2_xs_matmul_"@ + "f16"@ =~= "iq2_xs_matmul_f16"@);
    assert("iq2_xs_matmul_"@ + "bf16"@ =~= "iq2_xs_matmul_bf16"@);
    assert("iq2_s_matmul_"@ + "f32"@ =~= "iq2_s_matmul_f32"@);
    assert("iq2_s_matmul_"@ + "f16"@ =~= "iq2_s_matmul_f16"@);
    assert("iq2_s_matmul_"@ + "bf16"@ =~= "iq2_s_matmul_bf16"@);
    lemma_ceil_div(p.in_dim as int, 256);
    let sizes = p.sizes();
    sizes_fit_in_32_bits(sizes);
    assert(sizes[0].0 <= 0xffff_ffff && sizes[1].0 <= 0xffff_ffff && sizes[2].0 <= 0xffff_ffff
        && sizes[3].0 <= 0xffff_ffff);
}

/// A product is found for an input `[in_dim]` or `[m, in_dim]`, and for codes and scales in `U8`
/// that are long enough, all on one Metal device; where there is a result, codes and scales are
/// contiguous, the input is in a floating-point format and sizes have 32 bits.
pub proof fn products_are_found_where_tensors_agree<N: Scalars>(
    p: Iq2Product<N>,
    result: Result<Outcome<N>, Iq2Error>,
)
    requires
        p.valid(),
        iq2_outcome(p, result),
    ensures
        result is Ok <==> {
            let rows = input_rows(p.x.shape());
            let blocks = blocks_of(p.in_dim as int);
            &&& p.out_dim > 0 && p.in_dim > 0
            &&& p.x.spec_device() is Metal && p.weight_bytes.spec_device() == p.x.spec_device()
                && p.weight_scales.spec_device() == p.x.spec_device()
            &&& p.weight_bytes.spec_dtype() == DType::U8 && p.weight_scales.spec_dtype()
                == DType::U8
            &&& p.x.shape().len() == 1 || p.x.shape().len() == 2
            &&& p.x.shape().last() == p.in_dim
            &&& p.out_dim * blocks * block_of(p.variant).0 <= p.weight_bytes.count()
            &&& p.out_dim * blocks * block_of(p.variant).1 <= p.weight_scales.count()
            &&& rows * p.out_dim <= usize::MAX
            &&& rows * p.out_dim > 0 ==> {
                &&& p.weight_bytes.layout.contiguous() && p.weight_scales.layout.contiguous()
                &&& p.x.spec_dtype() == DType::F32 || p.x.spec_dtype() == DType::F16
                    || p.x.spec_dtype() == DType::BF16
                &&& rows <= 0xffff_ffff && p.out_dim <= 0xffff_ffff && p.in_dim <= 0xffff_ffff
            }
        },
        result matches Ok(outcome) ==> (outcome is Empty <==> input_rows(p.x.shape()) * p.out_dim
            == 0) && !(outcome is Host),
        result matches Ok(Outcome::Empty(output)) ==> output.dtype == DType::F32 && output.dims@
            == seq![p.x.shape()[0], p.out_dim],
{
    lemma_ceil_div(p.in_dim as int, 256);
    let sizes = p.sizes();
    sizes_fit_in_32_bits(sizes);
    assert(p.weight_bytes.shape().take(p.weight_bytes.shape().len() as int)
        =~= p.weight_bytes.shape());
    let (m, o) = (input_rows(p.x.shape()), p.out_dim as int);
    assert(m * o >= 0) by (nonlinear_arith)
        requires
            m >= 0,
            o >= 0,
    ;
    assert(sizes[0].0 == x_rows(p.x.shape()) && sizes[1].0 == p.out_dim && sizes[2].0 == p.in_dim);
    assert(sizes[3].0 == blocks_of(p.in_dim as int));
}

/// Refused products name what is wrong.
pub proof fn refused_products_name_the_fault<N: Scalars>(p: Iq2Product<N>, e: Iq2Error)
    requires
        p.valid(),
        iq2_outcome(p, Err(e)),
    ensures
        e is ZeroDims <==> p.out_dim == 0 || p.in_dim == 0,
        e is NotMetal ==> !(p.x.spec_device() is Metal),
        e is DeviceMismatch ==> p.weight_bytes.spec_device() != p.x.spec_device()
            || p.weight_scales.spec_device() != p.x.spec_device(),
        e matches Iq2Error::WeightDTypes { bytes, scales } ==> bytes == p.weight_bytes.spec_dtype()
            && scales == p.weight_scales.spec_dtype() && !(bytes == DType::U8 && scales
            == DType::U8),
        e matches Iq2Error::InputDim { got, expected } ==> p.x.shape().len() == 1 && got
            == p.x.shape()[0] && expected == p.in_dim && got != expected,
        e matches Iq2Error::InputLastDim { got, expected } ==> p.x.shape().len() == 2 && got
            == p.x.shape()[1] && expected == p.in_dim && got != expected,
        e is InputRank ==> p.x.shape().len() != 1 && p.x.shape().len() != 2,
        e is BytesOverflow ==> p.out_dim * blocks_of(p.in_dim as int) * block_of(p.variant).0
            > usize::MAX,
        e matches Iq2Error::BytesTooSmall { got, expected } ==> got == p.weight_bytes.count()
            && expected == p.out_dim * blocks_of(p.in_dim as int) * block_of(p.variant).0 && got
            < expected,
        e matches Iq2Error::ScalesTooSmall { got, expected } ==> got == p.weight_scales.count()
            && expected == p.out_dim * blocks_of(p.in_dim as int) * block_of(p.variant).1 && got
            < expected,
        e is OutputOverflow ==> input_rows(p.x.shape()) * p.out_dim > usize::MAX,
        e is LayoutsNotContiguous ==> !p.weight_bytes.layout.contiguous()
            || !p.weight_scales.layout.contiguous(),
        e matches Iq2Error::XDType(dtype) ==> dtype == p.x.spec_dtype() && dtype != DType::F32
            && dtype != DType::F16 && dtype != DType::BF16,
        !(e is ScalesOverflow) && !(e is ActivationQuant),
{
    lemma_ceil_div(p.in_dim as int, 256);
    assert(p.weight_bytes.shape().take(p.weight_bytes.shape().len() as int)
        =~= p.weight_bytes.shape());
    assert(p.weight_scales.shape().take(p.weight_scales.shape().len() as int)
        =~= p.weight_scales.shape());
    let rows = p.out_dim * blocks_of(p.in_dim as int);
    assert(0 <= rows * block_of(p.variant).1 <= rows * block_of(p.variant).0) by (nonlinear_arith)
        requires
            rows == p.out_dim * blocks_of(p.in_dim as int),
            blocks_of(p.in_dim as int) >= 0,
            0 <= block_of(p.variant).1 <= block_of(p.variant).0,
    ;
}

} // verus!
