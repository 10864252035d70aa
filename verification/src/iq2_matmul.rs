//! Products with weights in the two-bit IQ2 formats, on a Metal device.
use crate::activation_quant::{ActivationQuantConfig, ActivationQuantMode};
use crate::arith::{ceil_div, div_ceil, lemma_ceil_div};
use crate::dtype::{is_kernel_float, DType};
use crate::launch::{
    argument, argument_buffer, collect_size_args, compact_arg, compact_buffer, first_oversize,
    float_kernel, float_tag, own_buffer, size_args, DeviceTensor, Grid, KernelArg, Launch, Operand,
    Outcome, Quantity,
};
use crate::scalar::Scalars;
use crate::tensor::{Device, Tensor};
use vstd::prelude::*;

verus! {

/// The weights of one block.
pub const IQ2_QK: usize = 256;

pub const IQ2_XXS_BYTES_PER_BLOCK: usize = 64;

pub const IQ2_XXS_SCALES_PER_BLOCK: usize = 2;

pub const IQ2_XS_BYTES_PER_BLOCK: usize = 64;

pub const IQ2_XS_SCALES_PER_BLOCK: usize = 10;

pub const IQ2_S_BYTES_PER_BLOCK: usize = 72;

pub const IQ2_S_SCALES_PER_BLOCK: usize = 10;

/// The IQ2 formats.
#[derive(Clone, Copy, Debug, PartialEq, Eq, Structural)]
pub enum Iq2MatmulVariant {
    Iq2Xxs,
    Iq2Xs,
    Iq2S,
}

/// Why a product is refused.
#[derive(Clone, Copy, Debug, PartialEq, Eq, Structural)]
pub enum Iq2Error {
    ZeroDims,
    NotMetal,
    DeviceMismatch,
    WeightDTypes { bytes: DType, scales: DType },
    /// The one dimension of `x` is not the input dimension.
    InputDim { got: usize, expected: usize },
    /// The last of two dimensions of `x` is not the input dimension.
    InputLastDim { got: usize, expected: usize },
    InputRank,
    BytesOverflow,
    ScalesOverflow,
    BytesTooSmall { got: usize, expected: usize },
    ScalesTooSmall { got: usize, expected: usize },
    OutputOverflow,
    LayoutsNotContiguous,
    XDType(DType),
    TooLarge(Quantity),
    /// Activations cannot be quantized, and the caller insists on it.
    ActivationQuant(ActivationQuantMode),
}

impl Iq2MatmulVariant {
    /// The bytes of the codes of one block.
    pub open spec fn block_bytes(self) -> nat {
        match self {
            Iq2MatmulVariant::Iq2Xxs => 64,
            Iq2MatmulVariant::Iq2Xs => 64,
            Iq2MatmulVariant::Iq2S => 72,
        }
    }

    /// The bytes of the scales of one block.
    pub open spec fn block_scales(self) -> nat {
        match self {
            Iq2MatmulVariant::Iq2Xxs => 2,
            Iq2MatmulVariant::Iq2Xs => 10,
            Iq2MatmulVariant::Iq2S => 10,
        }
    }

    /// What the kernel names of a format begin with.
    pub open spec fn kernel_prefix(self) -> Seq<char> {
        match self {
            Iq2MatmulVariant::Iq2Xxs => "iq2_xxs_matmul_"@,
            Iq2MatmulVariant::Iq2Xs => "iq2_xs_matmul_"@,
            Iq2MatmulVariant::Iq2S => "iq2_s_matmul_"@,
        }
    }

    pub fn bytes_per_block(self) -> (bytes: usize)
        ensures
            bytes == self.block_bytes(),
    {
        match self {
            Iq2MatmulVariant::Iq2Xxs => IQ2_XXS_BYTES_PER_BLOCK,
            Iq2MatmulVariant::Iq2Xs => IQ2_XS_BYTES_PER_BLOCK,
            Iq2MatmulVariant::Iq2S => IQ2_S_BYTES_PER_BLOCK,
        }
    }

    pub fn scales_per_block(self) -> (scales: usize)
        ensures
            scales == self.block_scales(),
    {
        match self {
            Iq2MatmulVariant::Iq2Xxs => IQ2_XXS_SCALES_PER_BLOCK,
            Iq2MatmulVariant::Iq2Xs => IQ2_XS_SCALES_PER_BLOCK,
            Iq2MatmulVariant::Iq2S => IQ2_S_SCALES_PER_BLOCK,
        }
    }

    pub fn kernel_name(self, dtype: DType) -> (name: Result<String, Iq2Error>)
        ensures
            match name {
                Ok(name) => is_kernel_float(dtype) && name@ == self.kernel_prefix() + float_tag(
                    dtype,
                ),
                Err(e) => !is_kernel_float(dtype) && e == Iq2Error::XDType(dtype),
            },
    {
        if !dtype.is_kernel_float() {
            return Err(Iq2Error::XDType(dtype));
        }
        let prefix: &str = match self {
            Iq2MatmulVariant::Iq2Xxs => "iq2_xxs_matmul_",
            Iq2MatmulVariant::Iq2Xs => "iq2_xs_matmul_",
            Iq2MatmulVariant::Iq2S => "iq2_s_matmul_",
        };
        Ok(float_kernel(prefix, dtype))
    }
}

/// What is wrong with the shape of `x`.
pub open spec fn x_shape_fault(x: Seq<usize>, in_dim: usize) -> Option<Iq2Error> {
    if x.len() == 1 {
        if x[0] != in_dim {
            Some(Iq2Error::InputDim { got: x[0], expected: in_dim })
        } else {
            None
        }
    } else if x.len() == 2 {
        if x[1] != in_dim {
            Some(Iq2Error::InputLastDim { got: x[1], expected: in_dim })
        } else {
            None
        }
    } else {
        Some(Iq2Error::InputRank)
    }
}

/// The rows of `x`: one where it has one dimension.
pub open spec fn x_rows(x: Seq<usize>) -> usize {
    if x.len() == 1 {
        1
    } else {
        x[0]
    }
}

/// The rows of `x`, and whether the result has one dimension.
pub fn parse_x_shape(x: &Vec<usize>, in_dim: usize) -> (parsed: Result<(usize, bool), Iq2Error>)
    ensures
        match x_shape_fault(x@, in_dim) {
            Some(e) => parsed == Err::<(usize, bool), Iq2Error>(e),
            None => parsed == Ok::<(usize, bool), Iq2Error>((x_rows(x@), x@.len() == 1)),
        },
{
    let rank: usize = x.len();
    if rank == 1 {
        if x[0] != in_dim {
            return Err(Iq2Error::InputDim { got: x[0], expected: in_dim });
        }
        Ok((1, true))
    } else if rank == 2 {
        if x[1] != in_dim {
            return Err(Iq2Error::InputLastDim { got: x[1], expected: in_dim });
        }
        Ok((x[0], false))
    } else {
        Err(Iq2Error::InputRank)
    }
}

/// The tensors and sizes of a product.
pub struct Iq2Product<'t, 'a, N: Scalars> {
    pub x: &'t Tensor<'a, N>,
    pub weight_bytes: &'t Tensor<'a, N>,
    pub weight_scales: &'t Tensor<'a, N>,
    pub out_dim: usize,
    pub in_dim: usize,
    pub variant: Iq2MatmulVariant,
}

impl<'t, 'a, N: Scalars> Iq2Product<'t, 'a, N> {
    pub open spec fn valid(&self) -> bool {
        &&& self.x.valid()
        &&& self.weight_bytes.valid()
        &&& self.weight_scales.valid()
    }

    /// The blocks of one row of weights.
    pub open spec fn row_blocks(&self) -> int {
        ceil_div(self.in_dim as int, IQ2_QK as int)
    }

    /// The bytes of all codes.
    pub open spec fn code_bytes(&self) -> int {
        self.out_dim * self.row_blocks() * self.variant.block_bytes()
    }

    /// The bytes of all scales.
    pub open spec fn scale_bytes(&self) -> int {
        self.out_dim * self.row_blocks() * self.variant.block_scales()
    }

    /// The sizes that the kernel takes.
    pub open spec fn sizes(&self) -> Seq<(usize, Quantity)> {
        seq![
            (x_rows(self.x.shape()), Quantity::M),
            (self.out_dim, Quantity::OutDim),
            (self.in_dim, Quantity::InDim),
            (self.row_blocks() as usize, Quantity::BlocksPerRow),
        ]
    }

    /// The shape of the result: without rows where `x` has one dimension.
    pub open spec fn out_dims(&self) -> Seq<usize> {
        if self.x.shape().len() == 1 {
            seq![self.out_dim]
        } else {
            seq![x_rows(self.x.shape()), self.out_dim]
        }
    }
}

/// What is wrong with a product.
pub open spec fn iq2_fault<N: Scalars>(p: Iq2Product<N>) -> Option<Iq2Error> {
    let device = p.x.spec_device();
    let m = x_rows(p.x.shape());
    if p.out_dim == 0 || p.in_dim == 0 {
        Some(Iq2Error::ZeroDims)
    } else if !(device is Metal) {
        Some(Iq2Error::NotMetal)
    } else if p.weight_bytes.spec_device() != device || p.weight_scales.spec_device() != device {
        Some(Iq2Error::DeviceMismatch)
    } else if p.weight_bytes.spec_dtype() != DType::U8 || p.weight_scales.spec_dtype()
        != DType::U8 {
        Some(
            Iq2Error::WeightDTypes {
                bytes: p.weight_bytes.spec_dtype(),
                scales: p.weight_scales.spec_dtype(),
            },
        )
    } else if let Some(e) = x_shape_fault(p.x.shape(), p.in_dim) {
        Some(e)
    } else if p.code_bytes() > usize::MAX {
        Some(Iq2Error::BytesOverflow)
    } else if p.weight_bytes.count() < p.code_bytes() {
        Some(
            Iq2Error::BytesTooSmall {
                got: p.weight_bytes.count() as usize,
                expected: p.code_bytes() as usize,
            },
        )
    } else if p.weight_scales.count() < p.scale_bytes() {
        Some(
            Iq2Error::ScalesTooSmall {
                got: p.weight_scales.count() as usize,
                expected: p.scale_bytes() as usize,
            },
        )
    } else if m * p.out_dim > usize::MAX {
        Some(Iq2Error::OutputOverflow)
    } else if m * p.out_dim == 0 {
        None
    } else if !p.weight_bytes.layout.contiguous() || !p.weight_scales.layout.contiguous() {
        Some(Iq2Error::LayoutsNotContiguous)
    } else if !is_kernel_float(p.x.spec_dtype()) {
        Some(Iq2Error::XDType(p.x.spec_dtype()))
    } else {
        match first_oversize(p.sizes()) {
            Some(quantity) => Some(Iq2Error::TooLarge(quantity)),
            None => None,
        }
    }
}

/// What a product comes to.
pub open spec fn iq2_result<N: Scalars>(p: Iq2Product<N>, outcome: Outcome<N>) -> bool {
    let items = x_rows(p.x.shape()) * p.out_dim;
    match outcome {
        Outcome::Host(_) => false,
        Outcome::Empty(output) => items == 0 && output.describes(DType::F32, p.out_dims()),
        Outcome::Launch(launch, output) => {
            &&& items > 0
            &&& output.describes(DType::F32, p.out_dims())
            &&& launch.describes(
                p.x.spec_device()->Metal_0,
                p.variant.kernel_prefix() + float_tag(p.x.spec_dtype()),
                "candelora_iq2_matmul"@,
                size_args::<N>(p.sizes()) + seq![
                    compact_arg::<N>(p.x.layout, 0, p.x.spec_dtype()),
                    argument::<N>(p.weight_bytes.layout, 1, DType::U8),
                    argument::<N>(p.weight_scales.layout, 2, DType::U8),
                    own_buffer::<N>(Operand::Output(0)),
                ],
                Grid::PerItem(items as usize),
            )
        },
    }
}

/// The outcome of a product.
pub open spec fn iq2_outcome<N: Scalars>(
    p: Iq2Product<N>,
    result: Result<Outcome<N>, Iq2Error>,
) -> bool {
    match iq2_fault(p) {
        Some(e) => result == Err::<Outcome<N>, Iq2Error>(e),
        None => result matches Ok(outcome) && iq2_result(p, outcome),
    }
}

/// The bytes that `out_dim` rows of `blocks` blocks take, where they can be counted.
fn weight_size(out_dim: usize, blocks: usize, per_block: usize) -> (size: Option<usize>)
    requires
        per_block > 0,
    ensures
        match size {
            Some(size) => size == out_dim * blocks * per_block,
            None => out_dim * blocks * per_block > usize::MAX,
        },
{
    match out_dim.checked_mul(blocks) {
        Some(rows) => rows.checked_mul(per_block),
        None => {
            proof {
                let rows = out_dim * blocks;
                assert(rows <= rows * per_block) by (nonlinear_arith)
                    requires
                        rows >= 0,
                        per_block >= 1,
                ;
            }
            None
        },
    }
}

/// The scales of a product take no more bytes than its codes.
pub proof fn scales_fit_where_codes_do<N: Scalars>(p: Iq2Product<N>)
    requires
        p.in_dim > 0,
    ensures
        0 <= p.scale_bytes() <= p.code_bytes(),
{
    lemma_ceil_div(p.in_dim as int, IQ2_QK as int);
    let rows = p.out_dim * p.row_blocks();
    let scales = p.variant.block_scales() as int;
    let bytes = p.variant.block_bytes() as int;
    assert(0 <= rows) by (nonlinear_arith)
        requires
            rows == p.out_dim * p.row_blocks(),
            0 <= p.out_dim,
            0 <= p.row_blocks(),
    ;
    assert(0 <= rows * scales <= rows * bytes) by (nonlinear_arith)
        requires
            0 <= rows,
            0 <= scales <= bytes,
    ;
}

/// Plans a product.
fn iq2_matmul_metal<N: Scalars>(p: &Iq2Product<N>) -> (result: Result<Outcome<N>, Iq2Error>)
    requires
        p.valid(),
    ensures
        iq2_outcome(*p, result),
{
    if p.out_dim == 0 || p.in_dim == 0 {
        return Err(Iq2Error::ZeroDims);
    }
    let device = p.x.device();
    let metal: usize = match device {
        Device::Metal(metal) => metal,
        _ => {
            return Err(Iq2Error::NotMetal);
        },
    };
    if p.weight_bytes.device() != device || p.weight_scales.device() != device {
        return Err(Iq2Error::DeviceMismatch);
    }
    if p.weight_bytes.dtype() != DType::U8 || p.weight_scales.dtype() != DType::U8 {
        return Err(
            Iq2Error::WeightDTypes {
                bytes: p.weight_bytes.dtype(),
                scales: p.weight_scales.dtype(),
            },
        );
    }
    let (m, squeeze_out): (usize, bool) = match parse_x_shape(&p.x.layout.dims, p.in_dim) {
        Ok(parsed) => parsed,
        Err(e) => {
            return Err(e);
        },
    };
    let blocks: usize = div_ceil(p.in_dim, IQ2_QK);
    proof {
        scales_fit_where_codes_do(*p);
    }
    let expected_bytes: usize = match weight_size(
        p.out_dim,
        blocks,
        p.variant.bytes_per_block(),
    ) {
        Some(size) => size,
        None => {
            return Err(Iq2Error::BytesOverflow);
        },
    };
    let expected_scales: usize = match weight_size(
        p.out_dim,
        blocks,
        p.variant.scales_per_block(),
    ) {
        Some(size) => size,
        None => {
            return Err(Iq2Error::ScalesOverflow);
        },
    };
    let got_bytes: usize = p.weight_bytes.elem_count();
    if got_bytes < expected_bytes {
        return Err(Iq2Error::BytesTooSmall { got: got_bytes, expected: expected_bytes });
    }
    let got_scales: usize = p.weight_scales.elem_count();
    if got_scales < expected_scales {
        return Err(Iq2Error::ScalesTooSmall { got: got_scales, expected: expected_scales });
    }
    let total: usize = match m.checked_mul(p.out_dim) {
        Some(total) => total,
        None => {
            return Err(Iq2Error::OutputOverflow);
        },
    };
    let dims: Vec<usize> = if squeeze_out {
        vec![p.out_dim]
    } else {
        vec![m, p.out_dim]
    };
    proof {
        assert(dims@ =~= p.out_dims());
    }
    let output = DeviceTensor { dtype: DType::F32, dims };
    if total == 0 {
        return Ok(Outcome::Empty(output));
    }
    if !p.weight_bytes.layout.is_contiguous() || !p.weight_scales.layout.is_contiguous() {
        return Err(Iq2Error::LayoutsNotContiguous);
    }
    let kernel = match p.variant.kernel_name(p.x.dtype()) {
        Ok(kernel) => kernel,
        Err(e) => {
            return Err(e);
        },
    };
    let sizes: Vec<(usize, Quantity)> = vec![
        (m, Quantity::M),
        (p.out_dim, Quantity::OutDim),
        (p.in_dim, Quantity::InDim),
        (blocks, Quantity::BlocksPerRow),
    ];
    proof {
        assert(sizes@ =~= p.sizes());
    }
    let mut args = match collect_size_args::<N>(sizes.as_slice()) {
        Ok(args) => args,
        Err(quantity) => {
            return Err(Iq2Error::TooLarge(quantity));
        },
    };
    args.push(compact_buffer::<N>(&p.x.layout, 0, p.x.dtype()));
    args.push(argument_buffer::<N>(&p.weight_bytes.layout, 1, DType::U8));
    args.push(argument_buffer::<N>(&p.weight_scales.layout, 2, DType::U8));
    args.push(KernelArg::Buffer { operand: Operand::Output(0), offset_in_bytes: 0 });
    let launch = Launch {
        device: metal,
        kernel,
        label: "candelora_iq2_matmul",
        args,
        grid: Grid::PerItem(total),
    };
    proof {
        assert(launch.args@ =~= size_args::<N>(p.sizes()) + seq![
            compact_arg::<N>(p.x.layout, 0, p.x.spec_dtype()),
            argument::<N>(p.weight_bytes.layout, 1, DType::U8),
            argument::<N>(p.weight_scales.layout, 2, DType::U8),
            own_buffer::<N>(Operand::Output(0)),
        ]);
    }
    Ok(Outcome::Launch(launch, output))
}

/// The product of `x` and weights in one of the IQ2 formats.
pub open spec fn iq2_product<'t, 'a, N: Scalars>(
    x: &'t Tensor<'a, N>,
    weight_bytes: &'t Tensor<'a, N>,
    weight_scales: &'t Tensor<'a, N>,
    out_dim: usize,
    in_dim: usize,
    variant: Iq2MatmulVariant,
) -> Iq2Product<'t, 'a, N> {
    Iq2Product { x, weight_bytes, weight_scales, out_dim, in_dim, variant }
}

/// Multiplies `x` by weights in one of the IQ2 formats.
///
/// Shapes:
/// - `x`: `[in_dim]` or `[m, in_dim]`
/// - `weight_bytes` and `weight_scales`: at least the codes and the scales of `out_dim` rows, in
///   `U8`
///
/// The product has the shape `[out_dim]` or `[m, out_dim]` and the type `F32`.
pub fn iq2_matmul<'a, N: Scalars>(
    x: &Tensor<'a, N>,
    weight_bytes: &Tensor<'a, N>,
    weight_scales: &Tensor<'a, N>,
    out_dim: usize,
    in_dim: usize,
    variant: Iq2MatmulVariant,
) -> (result: Result<Outcome<N>, Iq2Error>)
    requires
        x.valid(),
        weight_bytes.valid(),
        weight_scales.valid(),
    ensures
        iq2_outcome(
            iq2_product(x, weight_bytes, weight_scales, out_dim, in_dim, variant),
            result,
        ),
{
    iq2_matmul_metal::<N>(
        &Iq2Product { x, weight_bytes, weight_scales, out_dim, in_dim, variant },
    )
}

/// [`iq2_matmul`] with weights in the format `Iq2Xxs`.
pub fn iq2_xxs_matmul<'a, N: Scalars>(
    x: &Tensor<'a, N>,
    weight_bytes: &Tensor<'a, N>,
    weight_scales: &Tensor<'a, N>,
    out_dim: usize,
    in_dim: usize,
) -> (result: Result<Outcome<N>, Iq2Error>)
    requires
        x.valid(),
        weight_bytes.valid(),
        weight_scales.valid(),
    ensures
        iq2_outcome(
            iq2_product(
                x,
                weight_bytes,
                weight_scales,
                out_dim,
                in_dim,
                Iq2MatmulVariant::Iq2Xxs,
            ),
            result,
        ),
{
    iq2_matmul(x, weight_bytes, weight_scales, out_dim, in_dim, Iq2MatmulVariant::Iq2Xxs)
}

/// [`iq2_matmul`] with weights in the format `Iq2Xs`.
pub fn iq2_xs_matmul<'a, N: Scalars>(
    x: &Tensor<'a, N>,
    weight_bytes: &Tensor<'a, N>,
    weight_scales: &Tensor<'a, N>,
    out_dim: usize,
    in_dim: usize,
) -> (result: Result<Outcome<N>, Iq2Error>)
    requires
        x.valid(),
        weight_bytes.valid(),
        weight_scales.valid(),
    ensures
        iq2_outcome(
            iq2_product(
                x,
                weight_bytes,
                weight_scales,
                out_dim,
                in_dim,
                Iq2MatmulVariant::Iq2Xs,
            ),
            result,
        ),
{
    iq2_matmul(x, weight_bytes, weight_scales, out_dim, in_dim, Iq2MatmulVariant::Iq2Xs)
}

/// [`iq2_matmul`] with weights in the format `Iq2S`.
pub fn iq2_s_matmul<'a, N: Scalars>(
    x: &Tensor<'a, N>,
    weight_bytes: &Tensor<'a, N>,
    weight_scales: &Tensor<'a, N>,
    out_dim: usize,
    in_dim: usize,
) -> (result: Result<Outcome<N>, Iq2Error>)
    requires
        x.valid(),
        weight_bytes.valid(),
        weight_scales.valid(),
    ensures
        iq2_outcome(
            iq2_product(
                x,
                weight_bytes,
                weight_scales,
                out_dim,
                in_dim,
                Iq2MatmulVariant::Iq2S,
            ),
            result,
        ),
{
    iq2_matmul(x, weight_bytes, weight_scales, out_dim, in_dim, Iq2MatmulVariant::Iq2S)
}

/// [`iq2_matmul`] for a caller that asks for quantized activations: there are no kernels for
/// them yet, so the activations stay as they are, unless the caller insists.
pub fn iq2_matmul_with_activation_quant<'a, N: Scalars>(
    x: &Tensor<'a, N>,
    weight_bytes: &Tensor<'a, N>,
    weight_scales: &Tensor<'a, N>,
    out_dim: usize,
    in_dim: usize,
    variant: Iq2MatmulVariant,
    activation_quant: &ActivationQuantConfig,
) -> (result: Result<Outcome<N>, Iq2Error>)
    requires
        x.valid(),
        weight_bytes.valid(),
        weight_scales.valid(),
    ensures
        if activation_quant.strict && activation_quant.mode != ActivationQuantMode::Off {
            result == Err::<Outcome<N>, Iq2Error>(Iq2Error::ActivationQuant(activation_quant.mode))
        } else {
            iq2_outcome(
                iq2_product(x, weight_bytes, weight_scales, out_dim, in_dim, variant),
                result,
            )
        },
{
    if activation_quant.strict && activation_quant.is_enabled() {
        return Err(Iq2Error::ActivationQuant(activation_quant.mode));
    }
    iq2_matmul(x, weight_bytes, weight_scales, out_dim, in_dim, variant)
}

} // verus!
