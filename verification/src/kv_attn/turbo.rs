//! Scores against TurboQuant keys.
use crate::arith::{ceil_div, div_ceil, product_fits};
use crate::dtype::{is_kernel_float, DType};
use crate::host::{gather_wide, widens};
use crate::kv_attn::bits::{unpack_packed_u8_values, unpacking_is_unique, unpacks};
use crate::kv_attn::heads::{lemma_kv_rows, Heads};
use crate::kv_attn::turbo_kernel::{
    cpu_qk_scores_turboquant_impl, turbo_scores, KeyModel, TurboKeys, TurboQuantKind, TurboShape,
};
use crate::launch::{
    collect_size_args, compact_arg, compact_buffer, first_oversize, float_kernel, float_tag,
    float_tag_of, own_buffer, size_args, DeviceTensor, Grid, KernelArg, Launch, Operand, Quantity,
};
use crate::layout::{dims_are_1, dims_are_2, has_dims_1, has_dims_2};
use crate::scalar::Scalars;
use crate::tensor::{Device, HostData, HostTensor, HostVec, Storage, Tensor};
use vstd::prelude::*;

verus! {

/// Why scores against TurboQuant keys are refused.
#[derive(Clone, Copy, Debug, PartialEq, Eq, Structural)]
pub enum TurboError {
    RepeatFactorZero,
    HeadDimZero,
    SubvectorDimZero,
    ScaleBlockDimZero,
    CodeBits(usize),
    OddHeadDim(usize),
    /// The subvectors do not divide a key.
    SubvectorSplit { head_dim: usize, subvector_dim: usize },
    /// The scale blocks do not divide a key.
    ScaleBlockSplit { head_dim: usize, scale_block_dim: usize },
    /// The subvectors do not divide a scale block.
    SubvectorAcrossBlocks { scale_block_dim: usize, subvector_dim: usize },
    /// One of the two residual tensors is missing.
    UnpairedResidual,
    QueryRank,
    QueryHeadDim { got: usize, expected: usize },
    HeadConfig { full_heads: usize, kv_heads: usize, repeat_factor: usize },
    CodesShape { rows: usize, head_dim: usize },
    CodesSize { got: usize, expected: usize },
    CodesDType(DType),
    ScalesShape { rows: usize, blocks: usize },
    ScalesDType(DType),
    PairSignsShape { pairs: usize },
    PairSignsDType(DType),
    DeviceMismatch,
    ResidualSignsShape { rows: usize, head_dim: usize },
    ResidualSignsSize { got: usize, expected: usize },
    ResidualSignsDType(DType),
    ResidualScalesShape { rows: usize, blocks: usize },
    ResidualScalesDType(DType),
    ResidualScalesDTypeMismatch { scales: DType, residual_scales: DType },
    ResidualDeviceMismatch,
    RotationDType(DType),
    KernelDTypes { q: DType, scales: DType },
    TooLarge(Quantity),
}

/// The tensors of one call.
pub struct TurboInputs<'t, 'a, N: Scalars> {
    pub q: &'t Tensor<'a, N>,
    pub codes: &'t Tensor<'a, N>,
    pub scales: &'t Tensor<'a, N>,
    pub pair_signs: &'t Tensor<'a, N>,
    pub residual_signs: Option<&'t Tensor<'a, N>>,
    pub residual_scales: Option<&'t Tensor<'a, N>>,
}

/// The numbers of one call. Codes of `code_bits` bits are packed into bytes; without `code_bits`
/// every code, and every residual sign, has a byte of its own.
#[derive(Clone, Copy, Debug)]
pub struct TurboRequest {
    pub kv_heads: usize,
    pub repeat_factor: usize,
    pub tokens: usize,
    pub head_dim: usize,
    pub subvector_dim: usize,
    pub scale_block_dim: usize,
    pub code_bits: Option<usize>,
    pub kind: TurboQuantKind,
}

impl<'t, 'a, N: Scalars> TurboInputs<'t, 'a, N> {
    pub open spec fn valid(&self) -> bool {
        &&& self.q.valid()
        &&& self.codes.valid()
        &&& self.scales.valid()
        &&& self.pair_signs.valid()
        &&& self.residual_signs matches Some(t) ==> t.valid()
        &&& self.residual_scales matches Some(t) ==> t.valid()
    }

    pub open spec fn paired(&self) -> bool {
        self.residual_signs is Some <==> self.residual_scales is Some
    }
}

impl TurboRequest {
    /// The sizes of the call, for a query of rank three.
    pub open spec fn shape(&self, q: Seq<usize>) -> TurboShape {
        TurboShape {
            heads: Heads {
                batch: q[0],
                full_heads: q[1],
                kv_heads: self.kv_heads,
                repeat_factor: self.repeat_factor,
                tokens: self.tokens,
                head_dim: self.head_dim,
            },
            subvector_dim: self.subvector_dim,
            scale_block_dim: self.scale_block_dim,
            kind: self.kind,
        }
    }
}

/// What is wrong with the numbers alone.
pub open spec fn parameter_fault(r: TurboRequest, paired: bool) -> Option<TurboError> {
    if r.repeat_factor == 0 {
        Some(TurboError::RepeatFactorZero)
    } else if r.head_dim == 0 {
        Some(TurboError::HeadDimZero)
    } else if r.subvector_dim == 0 {
        Some(TurboError::SubvectorDimZero)
    } else if r.scale_block_dim == 0 {
        Some(TurboError::ScaleBlockDimZero)
    } else if r.code_bits matches Some(bits) && !(0 < bits <= 8) {
        Some(TurboError::CodeBits(r.code_bits->0))
    } else if r.head_dim % 2 != 0 {
        Some(TurboError::OddHeadDim(r.head_dim))
    } else if r.head_dim % r.subvector_dim != 0 {
        Some(
            TurboError::SubvectorSplit { head_dim: r.head_dim, subvector_dim: r.subvector_dim },
        )
    } else if r.head_dim % r.scale_block_dim != 0 {
        Some(
            TurboError::ScaleBlockSplit {
                head_dim: r.head_dim,
                scale_block_dim: r.scale_block_dim,
            },
        )
    } else if r.scale_block_dim % r.subvector_dim != 0 {
        Some(
            TurboError::SubvectorAcrossBlocks {
                scale_block_dim: r.scale_block_dim,
                subvector_dim: r.subvector_dim,
            },
        )
    } else if !paired {
        Some(TurboError::UnpairedResidual)
    } else {
        None
    }
}

/// What is wrong with the query.
pub open spec fn query_fault(q: Seq<usize>, r: TurboRequest) -> Option<TurboError> {
    if q.len() != 3 {
        Some(TurboError::QueryRank)
    } else if q[2] != r.head_dim {
        Some(TurboError::QueryHeadDim { got: q[2], expected: r.head_dim })
    } else if !r.shape(q).heads.grouped() {
        Some(
            TurboError::HeadConfig {
                full_heads: q[1],
                kv_heads: r.kv_heads,
                repeat_factor: r.repeat_factor,
            },
        )
    } else {
        None
    }
}

/// The bytes that `count` values of `bits` bits each take.
pub open spec fn packed_bytes(count: int, bits: int) -> int {
    ceil_div(count * bits, 8)
}

/// What is wrong with the codes, the scales or the signs of the rotation.
pub open spec fn cache_fault<N: Scalars>(t: TurboInputs<N>, r: TurboRequest) -> Option<
    TurboError,
> {
    let shape = r.shape(t.q.shape());
    let rows = shape.heads.cache_rows();
    let pairs = r.head_dim as int / 2;
    if r.code_bits is None && !dims_are_2(t.codes.shape(), rows, r.head_dim as int) {
        Some(TurboError::CodesShape { rows: rows as usize, head_dim: r.head_dim })
    } else if r.code_bits matches Some(bits) && t.codes.count() != packed_bytes(
        shape.code_count(),
        bits as int,
    ) {
        Some(
            TurboError::CodesSize {
                got: t.codes.count() as usize,
                expected: packed_bytes(shape.code_count(), r.code_bits->0 as int) as usize,
            },
        )
    } else if t.codes.spec_dtype() != DType::U8 {
        Some(TurboError::CodesDType(t.codes.spec_dtype()))
    } else if !dims_are_2(t.scales.shape(), rows, shape.blocks()) {
        Some(TurboError::ScalesShape { rows: rows as usize, blocks: shape.blocks() as usize })
    } else if t.scales.spec_dtype() != DType::F32 && t.scales.spec_dtype() != DType::F16 {
        Some(TurboError::ScalesDType(t.scales.spec_dtype()))
    } else if !dims_are_1(t.pair_signs.shape(), pairs) {
        Some(TurboError::PairSignsShape { pairs: pairs as usize })
    } else if t.pair_signs.spec_dtype() != DType::F32 {
        Some(TurboError::PairSignsDType(t.pair_signs.spec_dtype()))
    } else if t.codes.spec_device() != t.q.spec_device() || t.scales.spec_device()
        != t.q.spec_device() || t.pair_signs.spec_device() != t.q.spec_device() {
        Some(TurboError::DeviceMismatch)
    } else {
        None
    }
}

/// What is wrong with the residual, where there is one.
pub open spec fn residual_fault<N: Scalars>(t: TurboInputs<N>, r: TurboRequest) -> Option<
    TurboError,
> {
    let shape = r.shape(t.q.shape());
    let rows = shape.heads.cache_rows();
    match (t.residual_signs, t.residual_scales) {
        (Some(signs), Some(scales)) => {
            if r.code_bits is None && !dims_are_2(signs.shape(), rows, r.head_dim as int) {
                Some(TurboError::ResidualSignsShape { rows: rows as usize, head_dim: r.head_dim })
            } else if r.code_bits is Some && signs.count() != packed_bytes(shape.code_count(), 1) {
                Some(
                    TurboError::ResidualSignsSize {
                        got: signs.count() as usize,
                        expected: packed_bytes(shape.code_count(), 1) as usize,
                    },
                )
            } else if signs.spec_dtype() != DType::U8 {
                Some(TurboError::ResidualSignsDType(signs.spec_dtype()))
            } else if !dims_are_2(scales.shape(), rows, shape.blocks()) {
                Some(
                    TurboError::ResidualScalesShape {
                        rows: rows as usize,
                        blocks: shape.blocks() as usize,
                    },
                )
            } else if scales.spec_dtype() != DType::F32 && scales.spec_dtype() != DType::F16 {
                Some(TurboError::ResidualScalesDType(scales.spec_dtype()))
            } else if scales.spec_dtype() != t.scales.spec_dtype() {
                Some(
                    TurboError::ResidualScalesDTypeMismatch {
                        scales: t.scales.spec_dtype(),
                        residual_scales: scales.spec_dtype(),
                    },
                )
            } else if signs.spec_device() != t.q.spec_device() || scales.spec_device()
                != t.q.spec_device() {
                Some(TurboError::ResidualDeviceMismatch)
            } else {
                None
            }
        },
        _ => None,
    }
}

/// The first thing that is wrong with a call.
pub open spec fn turbo_fault<N: Scalars>(t: TurboInputs<N>, r: TurboRequest) -> Option<
    TurboError,
> {
    if let Some(e) = parameter_fault(r, t.paired()) {
        Some(e)
    } else if let Some(e) = query_fault(t.q.shape(), r) {
        Some(e)
    } else if let Some(e) = cache_fault(t, r) {
        Some(e)
    } else {
        residual_fault(t, r)
    }
}

/// The rows of the cache, and the bits of its codes, can be counted.
pub open spec fn rows_countable(shape: TurboShape, code_bits: Option<usize>) -> bool {
    &&& shape.heads.cache_rows() <= usize::MAX
    &&& code_bits matches Some(bits) ==> shape.code_count() * bits <= usize::MAX
}

/// The sizes that a call has to compute can be counted: rows and bits once the query is found
/// to be right, and scores once everything is.
pub open spec fn turbo_countable<N: Scalars>(t: TurboInputs<N>, r: TurboRequest) -> bool {
    let shape = r.shape(t.q.shape());
    &&& parameter_fault(r, t.paired()) is None && query_fault(t.q.shape(), r) is None
        ==> rows_countable(shape, r.code_bits)
    &&& turbo_fault(t, r) is None ==> shape.heads.query_rows() * r.tokens <= usize::MAX
}

fn check_parameters(r: &TurboRequest, paired: bool) -> (checked: Result<(), TurboError>)
    ensures
        match parameter_fault(*r, paired) {
            Some(e) => checked == Err::<(), TurboError>(e),
            None => checked is Ok,
        },
{
    if r.repeat_factor == 0 {
        return Err(TurboError::RepeatFactorZero);
    }
    if r.head_dim == 0 {
        return Err(TurboError::HeadDimZero);
    }
    if r.subvector_dim == 0 {
        return Err(TurboError::SubvectorDimZero);
    }
    if r.scale_block_dim == 0 {
        return Err(TurboError::ScaleBlockDimZero);
    }
    if let Some(bits) = r.code_bits {
        if bits == 0 || bits > 8 {
            return Err(TurboError::CodeBits(bits));
        }
    }
    if r.head_dim % 2 != 0 {
        return Err(TurboError::OddHeadDim(r.head_dim));
    }
    if r.head_dim % r.subvector_dim != 0 {
        return Err(
            TurboError::SubvectorSplit { head_dim: r.head_dim, subvector_dim: r.subvector_dim },
        );
    }
    if r.head_dim % r.scale_block_dim != 0 {
        return Err(
            TurboError::ScaleBlockSplit {
                head_dim: r.head_dim,
                scale_block_dim: r.scale_block_dim,
            },
        );
    }
    if r.scale_block_dim % r.subvector_dim != 0 {
        return Err(
            TurboError::SubvectorAcrossBlocks {
                scale_block_dim: r.scale_block_dim,
                subvector_dim: r.subvector_dim,
            },
        );
    }
    if !paired {
        return Err(TurboError::UnpairedResidual);
    }
    Ok(())
}

/// The sizes of the call, where the query fits them.
fn check_query(q: &Vec<usize>, r: &TurboRequest) -> (checked: Result<TurboShape, TurboError>)
    requires
        parameter_fault(*r, true) is None,
    ensures
        match query_fault(q@, *r) {
            Some(e) => checked == Err::<TurboShape, TurboError>(e),
            None => checked == Ok::<TurboShape, TurboError>(r.shape(q@)),
        },
{
    if q.len() != 3 {
        return Err(TurboError::QueryRank);
    }
    if q[2] != r.head_dim {
        return Err(TurboError::QueryHeadDim { got: q[2], expected: r.head_dim });
    }
    let full_heads: usize = q[1];
    if full_heads % r.repeat_factor != 0 || full_heads / r.repeat_factor != r.kv_heads {
        return Err(
            TurboError::HeadConfig {
                full_heads,
                kv_heads: r.kv_heads,
                repeat_factor: r.repeat_factor,
            },
        );
    }
    Ok(
        TurboShape {
            heads: Heads {
                batch: q[0],
                full_heads,
                kv_heads: r.kv_heads,
                repeat_factor: r.repeat_factor,
                tokens: r.tokens,
                head_dim: r.head_dim,
            },
            subvector_dim: r.subvector_dim,
            scale_block_dim: r.scale_block_dim,
            kind: r.kind,
        },
    )
}

/// The numbers of the call are right, the query fits them, and the cache can be counted.
pub open spec fn query_accepted<N: Scalars>(t: TurboInputs<N>, r: TurboRequest) -> bool {
    &&& t.valid()
    &&& parameter_fault(r, t.paired()) is None
    &&& query_fault(t.q.shape(), r) is None
    &&& rows_countable(r.shape(t.q.shape()), r.code_bits)
}

proof fn lemma_shape_valid<N: Scalars>(t: TurboInputs<N>, r: TurboRequest)
    requires
        query_accepted(t, r),
    ensures
        r.shape(t.q.shape()).valid(),
        r.shape(t.q.shape()).heads.query_rows() <= usize::MAX,
        t.q.shape()[0] * r.kv_heads <= usize::MAX,
        t.q.count() == r.shape(t.q.shape()).heads.query_rows() * r.head_dim,
        0 <= r.shape(t.q.shape()).heads.cache_rows(),
        0 <= r.shape(t.q.shape()).code_count(),
        r.code_bits is Some ==> r.shape(t.q.shape()).code_count() <= usize::MAX,
{
    let dims = t.q.shape();
    crate::layout::lemma_rank_3(dims);
    let heads = r.shape(dims).heads;
    let batch = dims[0] as int;
    let full = dims[1] as int;
    let kv = r.kv_heads as int;
    let repeat = r.repeat_factor as int;
    assert(kv <= full) by (nonlinear_arith)
        requires
            kv == full / repeat,
            repeat > 0,
            full >= 0,
    ;
    assert(batch * kv <= batch * full && 0 <= batch * kv) by (nonlinear_arith)
        requires
            0 <= kv <= full,
            batch >= 0,
    ;
    let rows = heads.cache_rows();
    assert(0 <= (batch * kv) * r.tokens) by (nonlinear_arith)
        requires
            0 <= batch * kv,
            0 <= r.tokens,
    ;
    assert(0 <= rows * r.head_dim) by (nonlinear_arith)
        requires
            0 <= rows,
            0 <= r.head_dim,
    ;
    if let Some(bits) = r.code_bits {
        let count = r.shape(dims).code_count();
        assert(count <= count * bits) by (nonlinear_arith)
            requires
                0 <= count,
                1 <= bits,
        ;
    }
}

fn check_cache<N: Scalars>(t: &TurboInputs<N>, r: &TurboRequest, shape: &TurboShape) -> (checked:
    Result<(), TurboError>)
    requires
        query_accepted(*t, *r),
        *shape == r.shape(t.q.shape()),
    ensures
        match cache_fault(*t, *r) {
            Some(e) => checked == Err::<(), TurboError>(e),
            None => checked is Ok,
        },
{
    proof {
        lemma_shape_valid(*t, *r);
    }
    let rows: usize = shape.heads.batch * r.kv_heads * r.tokens;
    let blocks: usize = r.head_dim / r.scale_block_dim;
    match r.code_bits {
        None => {
            if !has_dims_2(&t.codes.layout.dims, rows, r.head_dim) {
                return Err(TurboError::CodesShape { rows, head_dim: r.head_dim });
            }
        },
        Some(bits) => {
            let count: usize = rows * r.head_dim;
            let expected: usize = div_ceil(count * bits, 8);
            let got: usize = t.codes.elem_count();
            if got != expected {
                return Err(TurboError::CodesSize { got, expected });
            }
        },
    }
    let codes_dtype = t.codes.dtype();
    if codes_dtype != DType::U8 {
        return Err(TurboError::CodesDType(codes_dtype));
    }
    if !has_dims_2(&t.scales.layout.dims, rows, blocks) {
        return Err(TurboError::ScalesShape { rows, blocks });
    }
    let scales_dtype = t.scales.dtype();
    if scales_dtype != DType::F32 && scales_dtype != DType::F16 {
        return Err(TurboError::ScalesDType(scales_dtype));
    }
    let pairs: usize = r.head_dim / 2;
    if !has_dims_1(&t.pair_signs.layout.dims, pairs) {
        return Err(TurboError::PairSignsShape { pairs });
    }
    let signs_dtype = t.pair_signs.dtype();
    if signs_dtype != DType::F32 {
        return Err(TurboError::PairSignsDType(signs_dtype));
    }
    let device = t.q.device();
    if t.codes.device() != device || t.scales.device() != device || t.pair_signs.device()
        != device {
        return Err(TurboError::DeviceMismatch);
    }
    Ok(())
}

fn check_residual<N: Scalars>(t: &TurboInputs<N>, r: &TurboRequest, shape: &TurboShape) -> (checked:
    Result<(), TurboError>)
    requires
        query_accepted(*t, *r),
        *shape == r.shape(t.q.shape()),
    ensures
        match residual_fault(*t, *r) {
            Some(e) => checked == Err::<(), TurboError>(e),
            None => checked is Ok,
        },
{
    proof {
        lemma_shape_valid(*t, *r);
    }
    if let (Some(signs), Some(scales)) = (t.residual_signs, t.residual_scales) {
        let rows: usize = shape.heads.batch * r.kv_heads * r.tokens;
        let blocks: usize = r.head_dim / r.scale_block_dim;
        match r.code_bits {
            None => {
                if !has_dims_2(&signs.layout.dims, rows, r.head_dim) {
                    return Err(TurboError::ResidualSignsShape { rows, head_dim: r.head_dim });
                }
            },
            Some(_) => {
                let expected: usize = div_ceil(rows * r.head_dim, 8);
                let got: usize = signs.elem_count();
                if got != expected {
                    return Err(TurboError::ResidualSignsSize { got, expected });
                }
            },
        }
        let signs_dtype = signs.dtype();
        if signs_dtype != DType::U8 {
            return Err(TurboError::ResidualSignsDType(signs_dtype));
        }
        if !has_dims_2(&scales.layout.dims, rows, blocks) {
            return Err(TurboError::ResidualScalesShape { rows, blocks });
        }
        let residual_dtype = scales.dtype();
        if residual_dtype != DType::F32 && residual_dtype != DType::F16 {
            return Err(TurboError::ResidualScalesDType(residual_dtype));
        }
        let scales_dtype = t.scales.dtype();
        if residual_dtype != scales_dtype {
            return Err(
                TurboError::ResidualScalesDTypeMismatch {
                    scales: scales_dtype,
                    residual_scales: residual_dtype,
                },
            );
        }
        let device = t.q.device();
        if signs.device() != device || scales.device() != device {
            return Err(TurboError::ResidualDeviceMismatch);
        }
    }
    Ok(())
}

/// Whether the rows of the cache, and the bits of its codes, can be counted.
fn are_rows_countable(shape: &TurboShape, code_bits: Option<usize>) -> (countable: bool)
    requires
        shape.heads.grouped(),
        shape.heads.query_rows() <= usize::MAX,
        code_bits matches Some(bits) ==> 0 < bits,
    ensures
        countable == rows_countable(*shape, code_bits),
{
    let heads = shape.heads;
    proof {
        lemma_kv_rows(heads);
    }
    let lead: usize = heads.batch * heads.kv_heads;
    if !product_fits(lead, heads.tokens) {
        return false;
    }
    match code_bits {
        None => true,
        Some(bits) => {
            let rows: usize = lead * heads.tokens;
            if !product_fits(rows, heads.head_dim) {
                proof {
                    let count = shape.code_count();
                    assert(count <= count * bits) by (nonlinear_arith)
                        requires
                            0 <= count,
                            1 <= bits,
                    ;
                }
                return false;
            }
            product_fits(rows * heads.head_dim, bits)
        },
    }
}

/// Whether the sizes of a call can be counted.
pub fn is_turboquant_countable<N: Scalars>(t: &TurboInputs<N>, r: &TurboRequest) -> (countable:
    bool)
    requires
        t.valid(),
    ensures
        countable == turbo_countable(*t, *r),
{
    let paired: bool = t.residual_signs.is_some() == t.residual_scales.is_some();
    if check_parameters(r, paired).is_err() {
        return true;
    }
    let shape = match check_query(&t.q.layout.dims, r) {
        Ok(shape) => shape,
        Err(_) => {
            return true;
        },
    };
    proof {
        crate::layout::lemma_rank_3(t.q.shape());
    }
    if !are_rows_countable(&shape, r.code_bits) {
        return false;
    }
    product_fits(shape.heads.batch * shape.heads.full_heads, r.tokens) || check_cache::<N>(
        t,
        r,
        &shape,
    ).is_err() || check_residual::<N>(t, r, &shape).is_err()
}

/// The bytes of a host tensor, in row-major order.
pub open spec fn byte_elements<N: Scalars>(t: Tensor<N>) -> Seq<u8> {
    match t.storage {
        Storage::Host(HostData::U8(bytes)) => t.layout.elements(bytes@),
        _ => Seq::empty(),
    }
}

/// `wide` are the elements of a host tensor, in row-major order and single precision.
pub open spec fn reads_numbers<N: Scalars>(t: Tensor<N>, wide: Seq<N::F32>) -> bool {
    match t.storage {
        Storage::Host(data) => widens::<N>(data, t.layout, wide),
        _ => false,
    }
}

/// `values` are the `count` values that `bytes` hold, packed or one per byte.
pub open spec fn reads_values(
    bytes: Seq<u8>,
    bits: Option<int>,
    count: int,
    values: Seq<u8>,
) -> bool {
    match bits {
        None => values == bytes,
        Some(bits) => values.len() == count && unpacks(bytes, bits, values),
    }
}

/// How many bits a code takes, where codes are packed.
pub open spec fn bits_of_code(r: TurboRequest) -> Option<int> {
    match r.code_bits {
        Some(bits) => Some(bits as int),
        None => None,
    }
}

/// How many bits a residual sign takes, where codes are packed.
pub open spec fn bits_of_sign(r: TurboRequest) -> Option<int> {
    match r.code_bits {
        Some(_) => Some(1),
        None => None,
    }
}

/// `keys` are the keys that the tensors hold.
pub open spec fn reads_keys<N: Scalars>(
    t: TurboInputs<N>,
    r: TurboRequest,
    keys: KeyModel<N>,
) -> bool {
    let count = r.shape(t.q.shape()).code_count();
    &&& reads_values(byte_elements(*t.codes), bits_of_code(r), count, keys.codes)
    &&& reads_numbers(*t.scales, keys.scales)
    &&& match (t.residual_signs, t.residual_scales, keys.residual) {
        (Some(signs), Some(scales), Some((key_signs, key_scales))) => {
            &&& reads_values(byte_elements(*signs), bits_of_sign(r), count, key_signs)
            &&& reads_numbers(*scales, key_scales)
        },
        (None, None, None) => true,
        _ => false,
    }
}

/// What a call on the host computes with.
pub struct TurboOperands<N: Scalars> {
    pub q: Seq<N::F32>,
    pub keys: KeyModel<N>,
    pub pair_signs: Seq<N::F32>,
    pub scale: N::F32,
}

/// `ops` are the values of the tensors and of the scale.
pub open spec fn reads_operands<N: Scalars>(
    t: TurboInputs<N>,
    r: TurboRequest,
    scale: N::F64,
    ops: TurboOperands<N>,
) -> bool {
    &&& reads_numbers(*t.q, ops.q)
    &&& reads_keys(t, r, ops.keys)
    &&& reads_numbers(*t.pair_signs, ops.pair_signs)
    &&& call_ensures(N::single, (scale,), ops.scale)
}

/// `out` holds the scores of every query head and token.
pub open spec fn host_scores<N: Scalars>(
    t: TurboInputs<N>,
    r: TurboRequest,
    scale: N::F64,
    out: HostTensor<N>,
) -> bool {
    let shape = r.shape(t.q.shape());
    &&& out.dims@ == seq![t.q.shape()[0], t.q.shape()[1], r.tokens]
    &&& out.data matches HostVec::F32(scores) && exists|ops: TurboOperands<N>| #[trigger]
        reads_operands(t, r, scale, ops) && turbo_scores::<N>(
            ops.q,
            ops.keys,
            ops.pair_signs,
            shape,
            ops.scale,
            scores@,
        )
}

/// The call is right in every respect, and its scores can be counted.
pub open spec fn accepted<N: Scalars>(t: TurboInputs<N>, r: TurboRequest) -> bool {
    &&& query_accepted(t, r)
    &&& r.shape(t.q.shape()).heads.query_rows() * r.tokens <= usize::MAX
    &&& cache_fault(t, r) is None
    &&& residual_fault(t, r) is None
}

/// The values in a host tensor of bytes.
fn read_values<N: Scalars>(t: &Tensor<N>, bits: Option<usize>, count: usize) -> (values: Vec<u8>)
    requires
        t.valid(),
        t.spec_dtype() == DType::U8,
        t.storage is Host,
        bits matches Some(b) ==> 0 < b <= 8 && count * b <= usize::MAX,
    ensures
        match bits {
            None => values@ == byte_elements(*t),
            Some(b) => values@.len() == count && unpacks(byte_elements(*t), b as int, values@),
        },
{
    match &t.storage {
        Storage::Host(HostData::U8(bytes)) => {
            let stored = t.layout.gather(bytes);
            match bits {
                None => stored,
                Some(b) => unpack_packed_u8_values(stored.as_slice(), b, count),
            }
        },
        _ => Vec::new(),
    }
}

/// The numbers in a host tensor.
fn read_numbers<N: Scalars>(t: &Tensor<N>) -> (wide: Vec<N::F32>)
    requires
        t.valid(),
        t.storage matches Storage::Host(data) && !(data is Other),
    ensures
        reads_numbers(*t, wide@),
        wide@.len() == t.count(),
{
    match &t.storage {
        Storage::Host(data) => gather_wide::<N>(data, &t.layout),
        _ => Vec::new(),
    }
}

/// Where a call is right, the sequences behind its tensors fit its sizes.
proof fn lemma_counts<N: Scalars>(t: TurboInputs<N>, r: TurboRequest)
    requires
        accepted(t, r),
    ensures
        r.shape(t.q.shape()).heads.countable(),
        r.code_bits is None ==> t.codes.count() == r.shape(t.q.shape()).code_count(),
        t.scales.count() == r.shape(t.q.shape()).scale_count(),
        2 * t.pair_signs.count() == r.head_dim,
        r.code_bits is None && t.residual_signs is Some ==> t.residual_signs->0.count() == r.shape(
            t.q.shape(),
        ).code_count(),
        t.residual_scales is Some ==> t.residual_scales->0.count() == r.shape(
            t.q.shape(),
        ).scale_count(),
        r.shape(t.q.shape()).code_count() <= usize::MAX,
{
    lemma_shape_valid(t, r);
    let shape = r.shape(t.q.shape());
    if r.code_bits is None {
        crate::layout::lemma_rank_2(t.codes.shape());
        crate::layout::lemma_countable(t.codes.shape());
        if let Some(signs) = t.residual_signs {
            crate::layout::lemma_rank_2(signs.shape());
        }
    }
    crate::layout::lemma_rank_2(t.scales.shape());
    crate::layout::lemma_rank_1(t.pair_signs.shape());
    if let Some(scales) = t.residual_scales {
        crate::layout::lemma_rank_2(scales.shape());
    }
}

/// Computes the scores of a call on the host.
fn cpu_qk_scores_turboquant<N: Scalars>(
    t: &TurboInputs<N>,
    r: &TurboRequest,
    shape: &TurboShape,
    scale: N::F64,
) -> (out: HostTensor<N>)
    requires
        accepted(*t, *r),
        *shape == r.shape(t.q.shape()),
        t.q.storage matches Storage::Host(data) && !(data is Other),
    ensures
        host_scores(*t, *r, scale, out),
{
    proof {
        lemma_shape_valid(*t, *r);
        lemma_counts(*t, *r);
    }
    let rows: usize = shape.heads.batch * r.kv_heads * r.tokens;
    let count: usize = rows * r.head_dim;
    let q = read_numbers::<N>(t.q);
    let codes = read_values::<N>(t.codes, r.code_bits, count);
    let scales = read_numbers::<N>(t.scales);
    let pair_signs = read_numbers::<N>(t.pair_signs);
    let single = N::single(scale);
    let dims: Vec<usize> = vec![shape.heads.batch, shape.heads.full_heads, r.tokens];
    let scores = match (t.residual_signs, t.residual_scales) {
        (Some(signs), Some(residual_scales)) => {
            let sign_bits: Option<usize> = match r.code_bits {
                Some(_) => Some(1),
                None => None,
            };
            let signs = read_values::<N>(signs, sign_bits, count);
            let residual_scales = read_numbers::<N>(residual_scales);
            let keys = TurboKeys::<N> {
                codes: codes.as_slice(),
                scales: scales.as_slice(),
                residual: Some((signs.as_slice(), residual_scales.as_slice())),
            };
            let out = cpu_qk_scores_turboquant_impl::<N>(
                q.as_slice(),
                &keys,
                pair_signs.as_slice(),
                shape,
                single,
            );
            proof {
                let ops = TurboOperands::<N> {
                    q: q@,
                    keys: keys@,
                    pair_signs: pair_signs@,
                    scale: single,
                };
                assert(reads_operands(*t, *r, scale, ops));
            }
            out
        },
        _ => {
            let keys = TurboKeys::<N> {
                codes: codes.as_slice(),
                scales: scales.as_slice(),
                residual: None,
            };
            let out = cpu_qk_scores_turboquant_impl::<N>(
                q.as_slice(),
                &keys,
                pair_signs.as_slice(),
                shape,
                single,
            );
            proof {
                let ops = TurboOperands::<N> {
                    q: q@,
                    keys: keys@,
                    pair_signs: pair_signs@,
                    scale: single,
                };
                assert(reads_operands(*t, *r, scale, ops));
            }
            out
        },
    };
    HostTensor { data: HostVec::F32(scores), dims }
}

/// The codes have a kernel of their own for this width of scales, codes and query.
pub open spec fn is_fast(
    q: DType,
    scales: DType,
    subvector_dim: usize,
    packed: bool,
    code_bits: Option<usize>,
) -> bool {
    &&& packed
    &&& q == DType::F16
    &&& scales == DType::F16
    &&& subvector_dim == 4 || subvector_dim == 8
    &&& code_bits == Some(3usize) || code_bits == Some(4usize)
}

/// What the name of a kernel says of the subvectors and codes that it is made for.
pub open spec fn turbo_variant(
    q: DType,
    scales: DType,
    subvector_dim: usize,
    packed: bool,
    code_bits: Option<usize>,
    has_residual: bool,
) -> Seq<char> {
    let width = if subvector_dim == 4 {
        "_sv4"@
    } else if subvector_dim == 8 {
        "_sv8"@
    } else {
        ""@
    };
    if is_fast(q, scales, subvector_dim, packed, code_bits) {
        "_fast"@ + width + (if code_bits == Some(3usize) {
            "c3"@
        } else {
            "c4"@
        }) + (if has_residual {
            "_res"@
        } else {
            "_nr"@
        })
    } else {
        width
    }
}

/// The name of the kernel that computes scores; `None` where there is none for these formats.
pub open spec fn turbo_kernel(
    q: DType,
    scales: DType,
    subvector_dim: usize,
    packed: bool,
    code_bits: Option<usize>,
    has_residual: bool,
) -> Option<Seq<char>> {
    if !is_kernel_float(q) || (scales != DType::F32 && scales != DType::F16) {
        None
    } else {
        Some(
            "qk_scores_turbo"@ + (if packed {
                "_packed"@
            } else {
                ""@
            }) + turbo_variant(q, scales, subvector_dim, packed, code_bits, has_residual) + "_q"@
                + float_tag(q) + "_s"@ + float_tag(scales),
        )
    }
}

pub fn turboquant_kernel_name(
    q: DType,
    scales: DType,
    subvector_dim: usize,
    packed: bool,
    code_bits: Option<usize>,
    has_residual: bool,
) -> (name: Option<String>)
    ensures
        match name {
            Some(name) => turbo_kernel(q, scales, subvector_dim, packed, code_bits, has_residual)
                == Some(name@),
            None => turbo_kernel(q, scales, subvector_dim, packed, code_bits, has_residual) is None,
        },
{
    if !q.is_kernel_float() || (scales != DType::F32 && scales != DType::F16) {
        return None;
    }
    let layout: &str = if packed {
        "_packed"
    } else {
        ""
    };
    let width: &str = if subvector_dim == 4 {
        "_sv4"
    } else if subvector_dim == 8 {
        "_sv8"
    } else {
        ""
    };
    let code: Option<&str> = match code_bits {
        Some(3) => Some("c3"),
        Some(4) => Some("c4"),
        _ => None,
    };
    let fast: bool = packed && q == DType::F16 && scales == DType::F16 && (subvector_dim == 4
        || subvector_dim == 8);
    let variant = match code {
        Some(code) if fast => {
            let residual: &str = if has_residual {
                "_res"
            } else {
                "_nr"
            };
            "_fast".to_owned().concat(width).concat(code).concat(residual)
        },
        _ => width.to_owned(),
    };
    let name = "qk_scores_turbo".to_owned().concat(layout).concat(variant.as_str()).concat(
        "_q",
    ).concat(float_tag_of(q)).concat("_s").concat(float_tag_of(scales));
    Some(name)
}

/// The kernel that gives every query row a thread group of its own is used.
pub open spec fn is_grouped(r: TurboRequest) -> bool {
    (r.subvector_dim == 4 || r.subvector_dim == 8) && r.head_dim <= 256
}

/// The launches of a call on a Metal device, in order.
pub struct TurboPlan<N: Scalars> {
    /// Rotates the query into a tensor of its shape and type.
    pub rotation: Option<Launch<N>>,
    /// Fills the output.
    pub scores: Option<Launch<N>>,
    pub output: DeviceTensor,
}

/// The sizes that the rotation takes.
pub open spec fn rotation_sizes(heads: Heads) -> Seq<(usize, Quantity)> {
    seq![
        (heads.query_rows() as usize, Quantity::BhFull),
        (heads.head_dim, Quantity::HeadDim),
    ]
}

/// What is wrong with rotating the query on the device.
pub open spec fn rotation_fault<N: Scalars>(q: Tensor<N>, heads: Heads) -> Option<TurboError> {
    if heads.query_rows() == 0 {
        None
    } else if !is_kernel_float(q.spec_dtype()) {
        Some(TurboError::RotationDType(q.spec_dtype()))
    } else {
        match first_oversize(rotation_sizes(heads)) {
            Some(quantity) => Some(TurboError::TooLarge(quantity)),
            None => None,
        }
    }
}

/// The launch that rotates the query.
pub open spec fn is_rotation<N: Scalars>(
    q: Tensor<N>,
    pair_signs: Tensor<N>,
    heads: Heads,
    launch: Launch<N>,
) -> bool {
    launch.describes(
        q.spec_device()->Metal_0,
        "rotate_pairwise_query_"@ + float_tag(q.spec_dtype()),
        "candelora_kv_attn_turbo_rotate_q"@,
        size_args::<N>(rotation_sizes(heads)) + seq![
            compact_arg::<N>(q.layout, 0, q.spec_dtype()),
            compact_arg::<N>(pair_signs.layout, 3, DType::F32),
            own_buffer::<N>(Operand::Output(0)),
        ],
        Grid::PerItem((heads.query_rows() * (heads.head_dim as int / 2)) as usize),
    )
}

/// Plans the rotation of the query; `None` where there is nothing to rotate.
fn try_rotate_pairwise_query_metal<N: Scalars>(
    q: &Tensor<N>,
    pair_signs: &Tensor<N>,
    heads: &Heads,
) -> (launch: Result<Option<Launch<N>>, TurboError>)
    requires
        q.valid(),
        pair_signs.valid(),
        q.spec_device() is Metal,
        pair_signs.spec_dtype() == DType::F32,
        heads.query_rows() <= usize::MAX,
        heads.query_rows() * heads.head_dim <= usize::MAX,
        pair_signs.spec_device() == q.spec_device(),
    ensures
        match rotation_fault(*q, *heads) {
            Some(e) => launch == Err::<Option<Launch<N>>, TurboError>(e),
            None => match launch {
                Ok(Some(launch)) => heads.query_rows() > 0 && is_rotation(
                    *q,
                    *pair_signs,
                    *heads,
                    launch,
                ),
                Ok(None) => heads.query_rows() == 0,
                Err(_) => false,
            },
        },
{
    let rows: usize = heads.batch * heads.full_heads;
    if rows == 0 {
        return Ok(None);
    }
    let dtype = q.dtype();
    if !dtype.is_kernel_float() {
        return Err(TurboError::RotationDType(dtype));
    }
    let sizes: Vec<(usize, Quantity)> = vec![
        (rows, Quantity::BhFull),
        (heads.head_dim, Quantity::HeadDim),
    ];
    proof {
        assert(sizes@ =~= rotation_sizes(*heads));
        let half = heads.head_dim as int / 2;
        assert(0 <= rows * half <= rows * heads.head_dim) by (nonlinear_arith)
            requires
                0 <= half <= heads.head_dim,
                rows >= 0,
        ;
    }
    let mut args = match collect_size_args::<N>(sizes.as_slice()) {
        Ok(args) => args,
        Err(quantity) => {
            return Err(TurboError::TooLarge(quantity));
        },
    };
    args.push(compact_buffer::<N>(&q.layout, 0, dtype));
    args.push(compact_buffer::<N>(&pair_signs.layout, 3, DType::F32));
    args.push(KernelArg::Buffer { operand: Operand::Output(0), offset_in_bytes: 0 });
    let items: usize = rows * (heads.head_dim / 2);
    let device: usize = match q.device() {
        Device::Metal(device) => device,
        _ => 0,
    };
    let launch = Launch {
        device,
        kernel: float_kernel("rotate_pairwise_query_", dtype),
        label: "candelora_kv_attn_turbo_rotate_q",
        args,
        grid: Grid::PerItem(items),
    };
    proof {
        assert(launch.args@ =~= size_args::<N>(rotation_sizes(*heads)) + seq![
            compact_arg::<N>(q.layout, 0, q.spec_dtype()),
            compact_arg::<N>(pair_signs.layout, 3, DType::F32),
            own_buffer::<N>(Operand::Output(0)),
        ]);
    }
    Ok(Some(launch))
}

/// The sizes that the scores take.
pub open spec fn score_sizes(shape: TurboShape, code_bits: Option<usize>) -> Seq<
    (usize, Quantity),
> {
    let heads = shape.heads;
    let common = seq![
        (heads.query_rows() as usize, Quantity::BhFull),
        (heads.full_heads, Quantity::FullHeads),
        (heads.kv_heads, Quantity::KvHeads),
        (heads.repeat_factor, Quantity::RepeatFactor),
        (heads.tokens, Quantity::Tokens),
        (heads.head_dim, Quantity::HeadDim),
        (shape.subvector_dim, Quantity::SubvectorDim),
    ];
    match code_bits {
        None => common,
        Some(bits) => common + seq![
            (shape.scale_block_dim, Quantity::ScaleBlockDim),
            (bits, Quantity::CodeBits),
        ],
    }
}

/// What is wrong with computing the scores on the device.
pub open spec fn device_fault<N: Scalars>(t: TurboInputs<N>, r: TurboRequest) -> Option<
    TurboError,
> {
    let shape = r.shape(t.q.shape());
    if !is_grouped(r) && rotation_fault(*t.q, shape.heads) is Some {
        rotation_fault(*t.q, shape.heads)
    } else if shape.heads.query_rows() * r.tokens == 0 {
        None
    } else if turbo_kernel(
        t.q.spec_dtype(),
        t.scales.spec_dtype(),
        r.subvector_dim,
        r.code_bits is Some,
        r.code_bits,
        t.residual_signs is Some,
    ) is None {
        Some(
            TurboError::KernelDTypes { q: t.q.spec_dtype(), scales: t.scales.spec_dtype() },
        )
    } else {
        match first_oversize(score_sizes(shape, r.code_bits)) {
            Some(quantity) => Some(TurboError::TooLarge(quantity)),
            None => None,
        }
    }
}

/// The query as the scores take it: rotated before, unless the kernel rotates it.
pub open spec fn query_arg<N: Scalars>(t: TurboInputs<N>, r: TurboRequest) -> KernelArg<N> {
    if is_grouped(r) {
        compact_arg::<N>(t.q.layout, 0, t.q.spec_dtype())
    } else {
        own_buffer::<N>(Operand::Staged)
    }
}

/// The signs and scales of the residual as the scores take them.
pub open spec fn residual_args<N: Scalars>(t: TurboInputs<N>) -> Seq<KernelArg<N>> {
    match (t.residual_signs, t.residual_scales) {
        (Some(signs), Some(scales)) => seq![
            compact_arg::<N>(signs.layout, 4, DType::U8),
            compact_arg::<N>(scales.layout, 5, scales.spec_dtype()),
        ],
        _ => seq![
            own_buffer::<N>(Operand::Placeholder(DType::U8)),
            own_buffer::<N>(Operand::Placeholder(t.scales.spec_dtype())),
        ],
    }
}

/// The arguments of the scores.
pub open spec fn score_args<N: Scalars>(
    t: TurboInputs<N>,
    r: TurboRequest,
    scale: N::F32,
) -> Seq<KernelArg<N>> {
    let shape = r.shape(t.q.shape());
    size_args::<N>(score_sizes(shape, r.code_bits)) + seq![
        KernelArg::I32(r.kind.max_value() as i32),
        KernelArg::U32(
            if t.residual_signs is Some {
                1
            } else {
                0
            },
        ),
        KernelArg::F32(scale),
        query_arg::<N>(t, r),
        compact_arg::<N>(t.codes.layout, 1, DType::U8),
        compact_arg::<N>(t.scales.layout, 2, t.scales.spec_dtype()),
        compact_arg::<N>(t.pair_signs.layout, 3, DType::F32),
    ] + residual_args::<N>(t) + seq![own_buffer::<N>(Operand::Output(0))]
}

/// The launch that computes the scores.
pub open spec fn is_score_launch<N: Scalars>(
    t: TurboInputs<N>,
    r: TurboRequest,
    scale: N::F64,
    launch: Launch<N>,
) -> bool {
    let heads = r.shape(t.q.shape()).heads;
    exists|single: N::F32| #[trigger]
        call_ensures(N::single, (scale,), single) && launch.describes(
            t.q.spec_device()->Metal_0,
            turbo_kernel(
                t.q.spec_dtype(),
                t.scales.spec_dtype(),
                r.subvector_dim,
                r.code_bits is Some,
                r.code_bits,
                t.residual_signs is Some,
            )->0,
            if r.code_bits is Some {
                "candelora_kv_attn_turbo_qk_packed"@
            } else {
                "candelora_kv_attn_turbo_qk"@
            },
            score_args::<N>(t, r, single),
            if is_grouped(r) {
                Grid::PerGroup(heads.query_rows() as usize)
            } else {
                Grid::PerItem((heads.query_rows() * r.tokens) as usize)
            },
        )
}

/// What a call on a Metal device launches: the rotation, where there is a query and the kernel
/// does not rotate it, and the scores, where there are any.
pub open spec fn is_device_plan<N: Scalars>(
    t: TurboInputs<N>,
    r: TurboRequest,
    scale: N::F64,
    plan: TurboPlan<N>,
) -> bool {
    let heads = r.shape(t.q.shape()).heads;
    &&& plan.output.describes(DType::F32, seq![heads.batch, heads.full_heads, r.tokens])
    &&& match plan.rotation {
        Some(launch) => !is_grouped(r) && heads.query_rows() > 0 && is_rotation(
            *t.q,
            *t.pair_signs,
            heads,
            launch,
        ),
        None => is_grouped(r) || heads.query_rows() == 0,
    }
    &&& match plan.scores {
        Some(launch) => heads.query_rows() * r.tokens > 0 && is_score_launch(t, r, scale, launch),
        None => heads.query_rows() * r.tokens == 0,
    }
}

/// Where there are scores, there are residual signs for them.
proof fn lemma_residual_present<N: Scalars>(t: TurboInputs<N>, r: TurboRequest)
    requires
        accepted(t, r),
        r.shape(t.q.shape()).heads.query_rows() * r.tokens > 0,
        r.code_bits is None,
        t.residual_signs is Some,
    ensures
        t.residual_signs->0.count() > 1,
{
    lemma_shape_valid(t, r);
    lemma_counts(t, r);
    let heads = r.shape(t.q.shape()).heads;
    let batch = heads.batch as int;
    let full = heads.full_heads as int;
    let tokens = r.tokens as int;
    let repeat = r.repeat_factor as int;
    let kv = r.kv_heads as int;
    let d = r.head_dim as int;
    assert(batch * full > 0 && tokens > 0) by (nonlinear_arith)
        requires
            (batch * full) * tokens > 0,
            batch * full >= 0,
            tokens >= 0,
    ;
    assert(batch > 0 && full > 0) by (nonlinear_arith)
        requires
            batch * full > 0,
            batch >= 0,
            full >= 0,
    ;
    assert(kv > 0) by (nonlinear_arith)
        requires
            full > 0,
            repeat > 0,
            full % repeat == 0,
            kv == full / repeat,
    ;
    assert(batch * kv > 0) by (nonlinear_arith)
        requires
            batch > 0,
            kv > 0,
    ;
    assert((batch * kv) * tokens > 0) by (nonlinear_arith)
        requires
            batch * kv > 0,
            tokens > 0,
    ;
    let rows = heads.cache_rows();
    assert(rows * d > 1) by (nonlinear_arith)
        requires
            rows > 0,
            d >= 2,
    ;
}

/// The sizes that the scores take, with their names.
fn collect_score_sizes(shape: &TurboShape, rows: usize, code_bits: Option<usize>) -> (sizes: Vec<
    (usize, Quantity),
>)
    requires
        rows == shape.heads.query_rows(),
    ensures
        sizes@ == score_sizes(*shape, code_bits),
{
    let heads = shape.heads;
    let mut sizes: Vec<(usize, Quantity)> = vec![
        (rows, Quantity::BhFull),
        (heads.full_heads, Quantity::FullHeads),
        (heads.kv_heads, Quantity::KvHeads),
        (heads.repeat_factor, Quantity::RepeatFactor),
        (heads.tokens, Quantity::Tokens),
        (heads.head_dim, Quantity::HeadDim),
        (shape.subvector_dim, Quantity::SubvectorDim),
    ];
    if let Some(bits) = code_bits {
        sizes.push((shape.scale_block_dim, Quantity::ScaleBlockDim));
        sizes.push((bits, Quantity::CodeBits));
    }
    proof {
        assert(sizes@ =~= score_sizes(*shape, code_bits));
    }
    sizes
}

/// Plans the launch that computes the scores.
fn plan_scores<N: Scalars>(
    t: &TurboInputs<N>,
    r: &TurboRequest,
    shape: &TurboShape,
    scale: N::F64,
) -> (launch: Result<Launch<N>, TurboError>)
    requires
        accepted(*t, *r),
        *shape == r.shape(t.q.shape()),
        t.q.spec_device() is Metal,
        shape.heads.query_rows() * r.tokens > 0,
        is_grouped(*r) || rotation_fault(*t.q, shape.heads) is None,
    ensures
        match device_fault(*t, *r) {
            Some(e) => launch == Err::<Launch<N>, TurboError>(e),
            None => launch matches Ok(launch) && is_score_launch(*t, *r, scale, launch),
        },
{
    proof {
        lemma_shape_valid(*t, *r);
        lemma_counts(*t, *r);
        if t.residual_signs is Some && r.code_bits is None {
            lemma_residual_present(*t, *r);
        }
    }
    let has_residual: bool = match (t.residual_signs, r.code_bits) {
        (Some(_), Some(_)) => true,
        (Some(signs), None) => signs.elem_count() > 1,
        (None, _) => false,
    };
    let q_dtype = t.q.dtype();
    let scales_dtype = t.scales.dtype();
    let packed: bool = r.code_bits.is_some();
    let kernel = match turboquant_kernel_name(
        q_dtype,
        scales_dtype,
        r.subvector_dim,
        packed,
        r.code_bits,
        has_residual,
    ) {
        Some(kernel) => kernel,
        None => {
            return Err(TurboError::KernelDTypes { q: q_dtype, scales: scales_dtype });
        },
    };
    let rows: usize = shape.heads.batch * shape.heads.full_heads;
    let items: usize = rows * r.tokens;
    let sizes = collect_score_sizes(shape, rows, r.code_bits);
    let mut args = match collect_size_args::<N>(sizes.as_slice()) {
        Ok(args) => args,
        Err(quantity) => {
            return Err(TurboError::TooLarge(quantity));
        },
    };
    let grouped: bool = (r.subvector_dim == 4 || r.subvector_dim == 8) && r.head_dim <= 256;
    let single = N::single(scale);
    args.push(KernelArg::I32(r.kind.signed_max()));
    args.push(
        KernelArg::U32(
            if has_residual {
                1
            } else {
                0
            },
        ),
    );
    args.push(KernelArg::F32(single));
    if grouped {
        args.push(compact_buffer::<N>(&t.q.layout, 0, q_dtype));
    } else {
        args.push(KernelArg::Buffer { operand: Operand::Staged, offset_in_bytes: 0 });
    }
    args.push(compact_buffer::<N>(&t.codes.layout, 1, DType::U8));
    args.push(compact_buffer::<N>(&t.scales.layout, 2, scales_dtype));
    args.push(compact_buffer::<N>(&t.pair_signs.layout, 3, DType::F32));
    match (t.residual_signs, t.residual_scales) {
        (Some(signs), Some(scales)) => {
            args.push(compact_buffer::<N>(&signs.layout, 4, DType::U8));
            args.push(compact_buffer::<N>(&scales.layout, 5, scales.dtype()));
        },
        _ => {
            args.push(
                KernelArg::Buffer {
                    operand: Operand::Placeholder(DType::U8),
                    offset_in_bytes: 0,
                },
            );
            args.push(
                KernelArg::Buffer {
                    operand: Operand::Placeholder(scales_dtype),
                    offset_in_bytes: 0,
                },
            );
        },
    }
    args.push(KernelArg::Buffer { operand: Operand::Output(0), offset_in_bytes: 0 });
    let device: usize = match t.q.device() {
        Device::Metal(device) => device,
        _ => 0,
    };
    let label: &'static str = if packed {
        "candelora_kv_attn_turbo_qk_packed"
    } else {
        "candelora_kv_attn_turbo_qk"
    };
    let grid = if grouped {
        Grid::PerGroup(rows)
    } else {
        Grid::PerItem(items)
    };
    let launch = Launch { device, kernel, label, args, grid };
    proof {
        assert(launch.args@ =~= score_args::<N>(*t, *r, single));
    }
    Ok(launch)
}

/// Plans a call on a Metal device.
fn try_qk_scores_turboquant_metal<N: Scalars>(
    t: &TurboInputs<N>,
    r: &TurboRequest,
    shape: &TurboShape,
    scale: N::F64,
) -> (plan: Result<TurboPlan<N>, TurboError>)
    requires
        accepted(*t, *r),
        *shape == r.shape(t.q.shape()),
        t.q.spec_device() is Metal,
    ensures
        match device_fault(*t, *r) {
            Some(e) => plan == Err::<TurboPlan<N>, TurboError>(e),
            None => plan matches Ok(plan) && is_device_plan(*t, *r, scale, plan),
        },
{
    proof {
        lemma_shape_valid(*t, *r);
        lemma_counts(*t, *r);
        crate::layout::lemma_countable(t.q.shape());
    }
    let grouped: bool = (r.subvector_dim == 4 || r.subvector_dim == 8) && r.head_dim <= 256;
    let rotation = if grouped {
        None
    } else {
        match try_rotate_pairwise_query_metal::<N>(t.q, t.pair_signs, &shape.heads) {
            Ok(rotation) => rotation,
            Err(e) => {
                return Err(e);
            },
        }
    };
    let dims: Vec<usize> = vec![shape.heads.batch, shape.heads.full_heads, r.tokens];
    let output = DeviceTensor { dtype: DType::F32, dims };
    let rows: usize = shape.heads.batch * shape.heads.full_heads;
    if rows * r.tokens == 0 {
        return Ok(TurboPlan { rotation, scores: None, output });
    }
    match plan_scores::<N>(t, r, shape, scale) {
        Ok(launch) => Ok(TurboPlan { rotation, scores: Some(launch), output }),
        Err(e) => Err(e),
    }
}

/// The two calls differ in how codes and residual signs are stored, and in nothing else: `plain`
/// holds one per byte what `packed` holds in few bits.
pub open spec fn stores_packed<N: Scalars>(
    plain: TurboInputs<N>,
    plain_request: TurboRequest,
    packed: TurboInputs<N>,
    packed_request: TurboRequest,
) -> bool {
    let count = plain_request.shape(plain.q.shape()).code_count();
    &&& plain_request.code_bits is None
    &&& packed_request.code_bits is Some
    &&& packed_request == (TurboRequest { code_bits: packed_request.code_bits, ..plain_request })
    &&& packed.q == plain.q
    &&& packed.scales == plain.scales
    &&& packed.pair_signs == plain.pair_signs
    &&& packed.residual_scales == plain.residual_scales
    &&& byte_elements(*plain.codes).len() == count
    &&& unpacks(
        byte_elements(*packed.codes),
        packed_request.code_bits->0 as int,
        byte_elements(*plain.codes),
    )
    &&& match (plain.residual_signs, packed.residual_signs) {
        (Some(bytes), Some(bits)) => byte_elements(*bytes).len() == count && unpacks(
            byte_elements(*bits),
            1,
            byte_elements(*bytes),
        ),
        (None, None) => true,
        _ => false,
    }
}

/// Where codes and residual signs are packed, the same keys are read.
proof fn lemma_same_keys<N: Scalars>(
    plain: TurboInputs<N>,
    plain_request: TurboRequest,
    packed: TurboInputs<N>,
    packed_request: TurboRequest,
    keys: KeyModel<N>,
)
    requires
        stores_packed(plain, plain_request, packed, packed_request),
    ensures
        reads_keys(plain, plain_request, keys) <==> reads_keys(packed, packed_request, keys),
{
    let bits = packed_request.code_bits->0 as int;
    let codes = byte_elements(*plain.codes);
    let packed_codes = byte_elements(*packed.codes);
    if keys.codes.len() == codes.len() && unpacks(packed_codes, bits, keys.codes) {
        unpacking_is_unique(packed_codes, bits, codes, keys.codes);
    }
    if let (Some(bytes), Some(packed_bits)) = (plain.residual_signs, packed.residual_signs) {
        if let Some((signs, _)) = keys.residual {
            let stored = byte_elements(*bytes);
            let stream = byte_elements(*packed_bits);
            if signs.len() == stored.len() && unpacks(stream, 1, signs) {
                unpacking_is_unique(stream, 1, stored, signs);
            }
        }
    }
}

/// Scores over packed codes are the scores over the same codes stored one per byte.
pub proof fn packed_scores_are_plain_scores<N: Scalars>(
    plain: TurboInputs<N>,
    plain_request: TurboRequest,
    packed: TurboInputs<N>,
    packed_request: TurboRequest,
    scale: N::F64,
    out: HostTensor<N>,
)
    requires
        stores_packed(plain, plain_request, packed, packed_request),
    ensures
        host_scores(plain, plain_request, scale, out) <==> host_scores(
            packed,
            packed_request,
            scale,
            out,
        ),
{
    assert forall|ops: TurboOperands<N>| #[trigger]
        reads_operands(plain, plain_request, scale, ops) == reads_operands(
            packed,
            packed_request,
            scale,
            ops,
        ) by {
        lemma_same_keys(plain, plain_request, packed, packed_request, ops.keys);
    }
    if host_scores(packed, packed_request, scale, out) {
        let shape = packed_request.shape(packed.q.shape());
        let scores = out.data->F32_0;
        let ops = choose|ops: TurboOperands<N>| #[trigger]
            reads_operands(packed, packed_request, scale, ops) && turbo_scores::<N>(
                ops.q,
                ops.keys,
                ops.pair_signs,
                shape,
                ops.scale,
                scores@,
            );
        assert(reads_operands(plain, plain_request, scale, ops));
    }
}

/// What a call comes to.
pub enum TurboOutcome<N: Scalars> {
    /// The scores, computed on the host.
    Host(HostTensor<N>),
    /// The launches that compute the scores.
    Device(TurboPlan<N>),
    /// The tensors are on a device without kernels: the scores are those of their copies on the
    /// host.
    MoveToHost,
    /// The query is in a format that the host kernels do not read: the scores are those of the
    /// query in single precision.
    CastQuery,
}

/// The outcome of a call.
pub open spec fn turbo_outcome<N: Scalars>(
    t: TurboInputs<N>,
    r: TurboRequest,
    scale: N::F64,
    result: Result<TurboOutcome<N>, TurboError>,
) -> bool {
    if let Some(e) = turbo_fault(t, r) {
        result == Err::<TurboOutcome<N>, TurboError>(e)
    } else {
        match t.q.storage {
            Storage::Metal(_) => match device_fault(t, r) {
                Some(e) => result == Err::<TurboOutcome<N>, TurboError>(e),
                None => result matches Ok(TurboOutcome::Device(plan)) && is_device_plan(
                    t,
                    r,
                    scale,
                    plan,
                ),
            },
            Storage::Cuda { .. } => result matches Ok(TurboOutcome::MoveToHost),
            Storage::Host(HostData::Other { .. }) => result matches Ok(TurboOutcome::CastQuery),
            Storage::Host(_) => result matches Ok(TurboOutcome::Host(out)) && host_scores(
                t,
                r,
                scale,
                out,
            ),
        }
    }
}

fn run_turboquant<N: Scalars>(t: &TurboInputs<N>, r: &TurboRequest, scale: N::F64) -> (result: Result<
    TurboOutcome<N>,
    TurboError,
>)
    requires
        t.valid(),
        turbo_countable(*t, *r),
    ensures
        turbo_outcome(*t, *r, scale, result),
{
    let paired: bool = t.residual_signs.is_some() == t.residual_scales.is_some();
    if let Err(e) = check_parameters(r, paired) {
        return Err(e);
    }
    let shape = match check_query(&t.q.layout.dims, r) {
        Ok(shape) => shape,
        Err(e) => {
            return Err(e);
        },
    };
    if let Err(e) = check_cache::<N>(t, r, &shape) {
        return Err(e);
    }
    if let Err(e) = check_residual::<N>(t, r, &shape) {
        return Err(e);
    }
    match &t.q.storage {
        Storage::Metal(_) => match try_qk_scores_turboquant_metal::<N>(t, r, &shape, scale) {
            Ok(plan) => Ok(TurboOutcome::Device(plan)),
            Err(e) => Err(e),
        },
        Storage::Cuda { .. } => Ok(TurboOutcome::MoveToHost),
        Storage::Host(HostData::Other { .. }) => Ok(TurboOutcome::CastQuery),
        Storage::Host(_) => Ok(
            TurboOutcome::Host(cpu_qk_scores_turboquant::<N>(t, r, &shape, scale)),
        ),
    }
}

/// The request of a call whose codes have a byte each, and a scale per subvector.
pub open spec fn plain_request(
    kv_heads: usize,
    repeat_factor: usize,
    tokens: usize,
    head_dim: usize,
    subvector_dim: usize,
    kind: TurboQuantKind,
) -> TurboRequest {
    TurboRequest {
        kv_heads,
        repeat_factor,
        tokens,
        head_dim,
        subvector_dim,
        scale_block_dim: subvector_dim,
        code_bits: None,
        kind,
    }
}

/// The tensors of a call.
pub open spec fn turbo_inputs<'t, 'a, N: Scalars>(
    q: &'t Tensor<'a, N>,
    codes: &'t Tensor<'a, N>,
    scales: &'t Tensor<'a, N>,
    pair_signs: &'t Tensor<'a, N>,
    residual_signs: Option<&'t Tensor<'a, N>>,
    residual_scales: Option<&'t Tensor<'a, N>>,
) -> TurboInputs<'t, 'a, N> {
    TurboInputs { q, codes, scales, pair_signs, residual_signs, residual_scales }
}

/// Computes scores against TurboQuant keys.
///
/// Shapes:
/// - `q`: `[batch, full_heads, head_dim]`
/// - `codes`: `[rows, head_dim]` in `U8`, with `rows = batch * kv_heads * tokens`
/// - `scales`: `[rows, head_dim / subvector_dim]` in `F32` or `F16`
/// - `pair_signs`: `[head_dim / 2]` in `F32`
/// - `residual_signs`: optional `[rows, head_dim]` in `U8`
/// - `residual_scales`: optional, of the shape and type of `scales`
///
/// The scores have the shape `[batch, full_heads, tokens]` and the type `F32`.
pub fn qk_scores_turboquant<'a, N: Scalars>(
    q: &Tensor<'a, N>,
    codes: &Tensor<'a, N>,
    scales: &Tensor<'a, N>,
    pair_signs: &Tensor<'a, N>,
    residual_signs: Option<&Tensor<'a, N>>,
    residual_scales: Option<&Tensor<'a, N>>,
    kv_heads: usize,
    repeat_factor: usize,
    tokens: usize,
    head_dim: usize,
    subvector_dim: usize,
    kind: TurboQuantKind,
    scale: N::F64,
) -> (result: Result<TurboOutcome<N>, TurboError>)
    requires
        turbo_inputs(q, codes, scales, pair_signs, residual_signs, residual_scales).valid(),
        turbo_countable(
            turbo_inputs(q, codes, scales, pair_signs, residual_signs, residual_scales),
            plain_request(kv_heads, repeat_factor, tokens, head_dim, subvector_dim, kind),
        ),
    ensures
        turbo_outcome(
            turbo_inputs(q, codes, scales, pair_signs, residual_signs, residual_scales),
            plain_request(kv_heads, repeat_factor, tokens, head_dim, subvector_dim, kind),
            scale,
            result,
        ),
{
    let t = TurboInputs { q, codes, scales, pair_signs, residual_signs, residual_scales };
    let r = TurboRequest {
        kv_heads,
        repeat_factor,
        tokens,
        head_dim,
        subvector_dim,
        scale_block_dim: subvector_dim,
        code_bits: None,
        kind,
    };
    run_turboquant::<N>(&t, &r, scale)
}

/// The request of a call whose codes are packed, with a scale per block.
pub open spec fn packed_request(
    kv_heads: usize,
    repeat_factor: usize,
    tokens: usize,
    head_dim: usize,
    subvector_dim: usize,
    scale_block_dim: usize,
    code_bits: usize,
    kind: TurboQuantKind,
) -> TurboRequest {
    TurboRequest {
        kv_heads,
        repeat_factor,
        tokens,
        head_dim,
        subvector_dim,
        scale_block_dim,
        code_bits: Some(code_bits),
        kind,
    }
}

/// Computes scores against TurboQuant keys whose codes are packed.
///
/// Shapes:
/// - `q`: `[batch, full_heads, head_dim]`
/// - `packed_codes`: `ceil(rows * head_dim * code_bits / 8)` bytes, with
///   `rows = batch * kv_heads * tokens`
/// - `scales`: `[rows, head_dim / scale_block_dim]` in `F32` or `F16`
/// - `pair_signs`: `[head_dim / 2]` in `F32`
/// - `packed_residual_signs`: optional, `ceil(rows * head_dim / 8)` bytes
/// - `residual_scales`: optional, of the shape and type of `scales`
///
/// The scores have the shape `[batch, full_heads, tokens]` and the type `F32`.
pub fn qk_scores_turboquant_packed<'a, N: Scalars>(
    q: &Tensor<'a, N>,
    packed_codes: &Tensor<'a, N>,
    scales: &Tensor<'a, N>,
    pair_signs: &Tensor<'a, N>,
    packed_residual_signs: Option<&Tensor<'a, N>>,
    residual_scales: Option<&Tensor<'a, N>>,
    kv_heads: usize,
    repeat_factor: usize,
    tokens: usize,
    head_dim: usize,
    subvector_dim: usize,
    scale_block_dim: usize,
    code_bits: usize,
    kind: TurboQuantKind,
    scale: N::F64,
) -> (result: Result<TurboOutcome<N>, TurboError>)
    requires
        turbo_inputs(
            q,
            packed_codes,
            scales,
            pair_signs,
            packed_residual_signs,
            residual_scales,
        ).valid(),
        turbo_countable(
            turbo_inputs(
                q,
                packed_codes,
                scales,
                pair_signs,
                packed_residual_signs,
                residual_scales,
            ),
            packed_request(
                kv_heads,
                repeat_factor,
                tokens,
                head_dim,
                subvector_dim,
                scale_block_dim,
                code_bits,
                kind,
            ),
        ),
    ensures
        turbo_outcome(
            turbo_inputs(
                q,
                packed_codes,
                scales,
                pair_signs,
                packed_residual_signs,
                residual_scales,
            ),
            packed_request(
                kv_heads,
                repeat_factor,
                tokens,
                head_dim,
                subvector_dim,
                scale_block_dim,
                code_bits,
                kind,
            ),
            scale,
            result,
        ),
{
    let t = TurboInputs {
        q,
        codes: packed_codes,
        scales,
        pair_signs,
        residual_signs: packed_residual_signs,
        residual_scales,
    };
    let r = TurboRequest {
        kv_heads,
        repeat_factor,
        tokens,
        head_dim,
        subvector_dim,
        scale_block_dim,
        code_bits: Some(code_bits),
        kind,
    };
    run_turboquant::<N>(&t, &r, scale)
}

} // verus!
