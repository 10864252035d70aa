//! When attention over packed rows is refused, and what it launches.
use crate::arith::lemma_ceil_div;
use crate::dtype::DType;
use crate::kv_attn::codes::RowwiseQuantKind;
use crate::kv_attn::rowwise::{
    rowwise_qk_countable, rowwise_qk_outcome, rowwise_sizes, rowwise_sum_countable,
    rowwise_sum_outcome, RowwiseError, RowwiseOperand,
    RowwiseShape,
};
use crate::launch::{DeviceTensor, Grid, KernelArg, Launch, Outcome};
use crate::launch_laws::{begins, counts, sizes_fit_in_32_bits, width, writes};
use crate::layout::{countable, lemma_rank_2, lemma_rank_3, product};
use crate::scalar::Scalars;
use crate::tensor::{Device, Tensor};
use vstd::prelude::*;

verus! {

/// The bytes of one packed row: a byte per number, or one for every two that are begun.
pub open spec fn row_bytes(shape: RowwiseShape) -> int {
    match shape.kind {
        RowwiseQuantKind::Int8 => shape.head_dim as int,
        RowwiseQuantKind::Int4 => (shape.head_dim + 1) / 2,
    }
}

/// The sizes of a step whose first tensor has the shape `first` fit in 32 bits.
pub open spec fn fits_32_bits(shape: RowwiseShape, first: Seq<usize>) -> bool {
    &&& first[0] * first[1] <= 0xffff_ffff
    &&& first[1] <= 0xffff_ffff
    &&& shape.kv_heads <= 0xffff_ffff
    &&& shape.repeat_factor <= 0xffff_ffff
    &&& shape.tokens <= 0xffff_ffff
    &&& shape.head_dim <= 0xffff_ffff
}

/// Heads fall into groups where they are as many as the groups have.
pub proof fn lemma_groups(full: int, repeat: int, kv: int)
    requires
        0 <= full,
        0 <= repeat,
        0 <= kv,
    ensures
        repeat > 0 ==> (full % repeat == 0 && full / repeat == kv <==> full == kv * repeat),
{
    if repeat > 0 {
        if full == kv * repeat {
            assert(full % repeat == 0 && full / repeat == kv) by (nonlinear_arith)
                requires
                    full == kv * repeat,
                    repeat > 0,
            ;
        }
        if full % repeat == 0 && full / repeat == kv {
            assert(full == kv * repeat) by (nonlinear_arith)
                requires
                    full % repeat == 0,
                    full / repeat == kv,
                    repeat > 0,
            ;
        }
    }
}

/// The rows of a countable tensor of rank three can be counted.
pub proof fn lemma_two(dims: Seq<usize>)
    requires
        dims.len() == 3,
        countable(dims),
    ensures
        0 <= dims[0] * dims[1] <= usize::MAX,
{
    let two = dims.take(2);
    assert(product(two) <= usize::MAX);
    lemma_rank_2(two);
}

/// The kernel of scores is the one for the width of the integers and the types of query and
/// scales. It gets the sizes of the step and the scale, and is told where query, packed rows and
/// scales begin.
pub proof fn packed_scores_launch_the_kernel_of_their_types<N: Scalars>(
    q: Tensor<N>,
    packed_k: Tensor<N>,
    k_scales: Tensor<N>,
    shape: RowwiseShape,
    scale: N::F64,
    launch: Launch<N>,
    output: DeviceTensor,
)
    requires
        q.valid(),
        packed_k.valid(),
        k_scales.valid(),
        q.shape()[0] * q.shape()[1] * shape.tokens <= usize::MAX,
        rowwise_qk_outcome(
            q,
            packed_k,
            k_scales,
            shape,
            scale,
            Ok(Outcome::Launch(launch, output)),
        ),
    ensures
        q.spec_device() == Device::Metal(launch.device),
        output.dtype == DType::F32,
        output.dims@ == seq![q.shape()[0], q.shape()[1], shape.tokens],
        shape.kind == RowwiseQuantKind::Int8 && q.spec_dtype() == DType::F32 && k_scales.spec_dtype()
            == DType::F32 ==> launch.kernel@ == "qk_scores_rowwise_q8_f32"@,
        shape.kind == RowwiseQuantKind::Int8 && q.spec_dtype() == DType::F32 && k_scales.spec_dtype()
            == DType::F16 ==> launch.kernel@ == "qk_scores_rowwise_q8_f32_sf16"@,
        shape.kind == RowwiseQuantKind::Int8 && q.spec_dtype() == DType::F16 && k_scales.spec_dtype()
            == DType::F32 ==> launch.kernel@ == "qk_scores_rowwise_q8_f16"@,
        shape.kind == RowwiseQuantKind::Int8 && q.spec_dtype() == DType::F16 && k_scales.spec_dtype()
            == DType::F16 ==> launch.kernel@ == "qk_scores_rowwise_q8_f16_sf16"@,
        shape.kind == RowwiseQuantKind::Int8 && q.spec_dtype() == DType::BF16 && k_scales.spec_dtype()
            == DType::F32 ==> launch.kernel@ == "qk_scores_rowwise_q8_bf16"@,
        shape.kind == RowwiseQuantKind::Int8 && q.spec_dtype() == DType::BF16 && k_scales.spec_dtype()
            == DType::F16 ==> launch.kernel@ == "qk_scores_rowwise_q8_bf16_sf16"@,
        shape.kind == RowwiseQuantKind::Int4 && q.spec_dtype() == DType::F32 && k_scales.spec_dtype()
            == DType::F32 ==> launch.kernel@ == "qk_scores_rowwise_q4_f32"@,
        shape.kind == RowwiseQuantKind::Int4 && q.spec_dtype() == DType::F32 && k_scales.spec_dtype()
            == DType::F16 ==> launch.kernel@ == "qk_scores_rowwise_q4_f32_sf16"@,
        shape.kind == RowwiseQuantKind::Int4 && q.spec_dtype() == DType::F16 && k_scales.spec_dtype()
            == DType::F32 ==> launch.kernel@ == "qk_scores_rowwise_q4_f16"@,
        shape.kind == RowwiseQuantKind::Int4 && q.spec_dtype() == DType::F16 && k_scales.spec_dtype()
            == DType::F16 ==> launch.kernel@ == "qk_scores_rowwise_q4_f16_sf16"@,
        shape.kind == RowwiseQuantKind::Int4 && q.spec_dtype() == DType::BF16 && k_scales.spec_dtype()
            == DType::F32 ==> launch.kernel@ == "qk_scores_rowwise_q4_bf16"@,
        shape.kind == RowwiseQuantKind::Int4 && q.spec_dtype() == DType::BF16 && k_scales.spec_dtype()
            == DType::F16 ==> launch.kernel@ == "qk_scores_rowwise_q4_bf16_sf16"@,
        q.spec_dtype() == DType::F32 || q.spec_dtype() == DType::F16 || q.spec_dtype()
            == DType::BF16,
        k_scales.spec_dtype() == DType::F32 || k_scales.spec_dtype() == DType::F16,
        launch.grid matches Grid::PerItem(items) && items == q.shape()[0] * q.shape()[1]
            * shape.tokens,
        launch.label@ == "candelora_kv_attn_rowwise_qk"@,
        launch.args@.len() == 11,
        counts(launch.args@[0], q.shape()[0] * q.shape()[1]),
        counts(launch.args@[1], q.shape()[1] as int),
        counts(launch.args@[2], shape.kv_heads as int),
        counts(launch.args@[3], shape.repeat_factor as int),
        counts(launch.args@[4], shape.tokens as int),
        counts(launch.args@[5], shape.head_dim as int),
        launch.args@[6] matches KernelArg::F32(single) && call_ensures(
            N::single,
            (scale,),
            single,
        ),
        begins(launch.args@[7], 0, q.layout.start_offset * width(q.spec_dtype())),
        begins(launch.args@[8], 1, packed_k.layout.start_offset as int),
        begins(launch.args@[9], 2, k_scales.layout.start_offset * width(k_scales.spec_dtype())),
        writes(launch.args@[10], 0),
{
    reveal_strlit("");
    reveal_strlit("_");
    reveal_strlit("_sf16");
    reveal_strlit("bf16");
    reveal_strlit("f16");
    reveal_strlit("f32");
    reveal_strlit("q4");
    reveal_strlit("q8");
    reveal_strlit("qk_scores_rowwise_");
    reveal_strlit("qk_scores_rowwise_q4_bf16");
    reveal_strlit("qk_scores_rowwise_q4_bf16_sf16");
    reveal_strlit("qk_scores_rowwise_q4_f16");
    reveal_strlit("qk_scores_rowwise_q4_f16_sf16");
    reveal_strlit("qk_scores_rowwise_q4_f32");
    reveal_strlit("qk_scores_rowwise_q4_f32_sf16");
    reveal_strlit("qk_scores_rowwise_q8_bf16");
    reveal_strlit("qk_scores_rowwise_q8_bf16_sf16");
    reveal_strlit("qk_scores_rowwise_q8_f16");
    reveal_strlit("qk_scores_rowwise_q8_f16_sf16");
    reveal_strlit("qk_scores_rowwise_q8_f32");
    reveal_strlit("qk_scores_rowwise_q8_f32_sf16");
    assert("qk_scores_rowwise_"@ + "q8"@ + "_"@ + "f32"@ + ""@ =~= "qk_scores_rowwise_q8_f32"@);
    assert("qk_scores_rowwise_"@ + "q8"@ + "_"@ + "f32"@ + "_sf16"@ =~= "qk_scores_rowwise_q8_f32_sf16"@);
    assert("qk_scores_rowwise_"@ + "q8"@ + "_"@ + "f16"@ + ""@ =~= "qk_scores_rowwise_q8_f16"@);
    assert("qk_scores_rowwise_"@ + "q8"@ + "_"@ + "f16"@ + "_sf16"@ =~= "qk_scores_rowwise_q8_f16_sf16"@);
    assert("qk_scores_rowwise_"@ + "q8"@ + "_"@ + "bf16"@ + ""@ =~= "qk_scores_rowwise_q8_bf16"@);
    assert("qk_scores_rowwise_"@ + "q8"@ + "_"@ + "bf16"@ + "_sf16"@ =~= "qk_scores_rowwise_q8_bf16_sf16"@);
    assert("qk_scores_rowwise_"@ + "q4"@ + "_"@ + "f32"@ + ""@ =~= "qk_scores_rowwise_q4_f32"@);
    assert("qk_scores_rowwise_"@ + "q4"@ + "_"@ + "f32"@ + "_sf16"@ =~= "qk_scores_rowwise_q4_f32_sf16"@);
    assert("qk_scores_rowwise_"@ + "q4"@ + "_"@ + "f16"@ + ""@ =~= "qk_scores_rowwise_q4_f16"@);
    assert("qk_scores_rowwise_"@ + "q4"@ + "_"@ + "f16"@ + "_sf16"@ =~= "qk_scores_rowwise_q4_f16_sf16"@);
    assert("qk_scores_rowwise_"@ + "q4"@ + "_"@ + "bf16"@ + ""@ =~= "qk_scores_rowwise_q4_bf16"@);
    assert("qk_scores_rowwise_"@ + "q4"@ + "_"@ + "bf16"@ + "_sf16"@ =~= "qk_scores_rowwise_q4_bf16_sf16"@);
    let heads = shape.heads(q.shape()[0], q.shape()[1]);
    let sizes = rowwise_sizes(heads);
    sizes_fit_in_32_bits(sizes);
    let (rows, each) = (heads.query_rows(), shape.tokens as int);
    assert(0 <= rows <= usize::MAX) by (nonlinear_arith)
        requires
            0 < rows * each <= usize::MAX,
            each >= 0,
    ;
    assert(sizes[0].0 <= 0xffff_ffff && sizes[1].0 <= 0xffff_ffff && sizes[2].0 <= 0xffff_ffff
        && sizes[3].0 <= 0xffff_ffff && sizes[4].0 <= 0xffff_ffff && sizes[5].0 <= 0xffff_ffff);
}

/// The kernel of weighted sums is the one for the width of the integers and the type of the
/// scales. It gets the sizes of the step, and is told where probabilities, packed rows and scales
/// begin.
pub proof fn packed_sums_launch_the_kernel_of_their_types<N: Scalars>(
    attn_probs: Tensor<N>,
    packed_v: Tensor<N>,
    v_scales: Tensor<N>,
    shape: RowwiseShape,
    launch: Launch<N>,
    output: DeviceTensor,
)
    requires
        attn_probs.valid(),
        packed_v.valid(),
        v_scales.valid(),
        attn_probs.shape()[0] * attn_probs.shape()[1] * shape.head_dim <= usize::MAX,
        rowwise_sum_outcome(
            attn_probs,
            packed_v,
            v_scales,
            shape,
            Ok(Outcome::Launch(launch, output)),
        ),
    ensures
        attn_probs.spec_device() == Device::Metal(launch.device),
        output.dtype == DType::F32,
        output.dims@ == seq![attn_probs.shape()[0], attn_probs.shape()[1], shape.head_dim],
        shape.kind == RowwiseQuantKind::Int8 && v_scales.spec_dtype() == DType::F32 ==> launch.kernel@
            == "attn_weighted_sum_rowwise_q8"@,
        shape.kind == RowwiseQuantKind::Int8 && v_scales.spec_dtype() == DType::F16 ==> launch.kernel@
            == "attn_weighted_sum_rowwise_q8_sf16"@,
        shape.kind == RowwiseQuantKind::Int4 && v_scales.spec_dtype() == DType::F32 ==> launch.kernel@
            == "attn_weighted_sum_rowwise_q4"@,
        shape.kind == RowwiseQuantKind::Int4 && v_scales.spec_dtype() == DType::F16 ==> launch.kernel@
            == "attn_weighted_sum_rowwise_q4_sf16"@,
        v_scales.spec_dtype() == DType::F32 || v_scales.spec_dtype() == DType::F16,
        launch.grid matches Grid::PerItem(items) && items == attn_probs.shape()[0]
            * attn_probs.shape()[1] * shape.head_dim,
        launch.label@ == "candelora_kv_attn_rowwise_weighted_sum"@,
        launch.args@.len() == 10,
        counts(launch.args@[0], attn_probs.shape()[0] * attn_probs.shape()[1]),
        counts(launch.args@[1], attn_probs.shape()[1] as int),
        counts(launch.args@[2], shape.kv_heads as int),
        counts(launch.args@[3], shape.repeat_factor as int),
        counts(launch.args@[4], shape.tokens as int),
        counts(launch.args@[5], shape.head_dim as int),
        begins(launch.args@[6], 0, attn_probs.layout.start_offset * 4),
        begins(launch.args@[7], 1, packed_v.layout.start_offset as int),
        begins(launch.args@[8], 2, v_scales.layout.start_offset * width(v_scales.spec_dtype())),
        writes(launch.args@[9], 0),
{
    reveal_strlit("");
    reveal_strlit("_sf16");
    reveal_strlit("attn_weighted_sum_rowwise_");
    reveal_strlit("attn_weighted_sum_rowwise_q4");
    reveal_strlit("attn_weighted_sum_rowwise_q4_sf16");
    reveal_strlit("attn_weighted_sum_rowwise_q8");
    reveal_strlit("attn_weighted_sum_rowwise_q8_sf16");
    reveal_strlit("q4");
    reveal_strlit("q8");
    assert("attn_weighted_sum_rowwise_"@ + "q8"@ + ""@ =~= "attn_weighted_sum_rowwise_q8"@);
    assert("attn_weighted_sum_rowwise_"@ + "q8"@ + "_sf16"@ =~= "attn_weighted_sum_rowwise_q8_sf16"@);
    assert("attn_weighted_sum_rowwise_"@ + "q4"@ + ""@ =~= "attn_weighted_sum_rowwise_q4"@);
    assert("attn_weighted_sum_rowwise_"@ + "q4"@ + "_sf16"@ =~= "attn_weighted_sum_rowwise_q4_sf16"@);
    let heads = shape.heads(attn_probs.shape()[0], attn_probs.shape()[1]);
    let sizes = rowwise_sizes(heads);
    sizes_fit_in_32_bits(sizes);
    let (rows, each) = (heads.query_rows(), shape.head_dim as int);
    assert(0 <= rows <= usize::MAX) by (nonlinear_arith)
        requires
            0 < rows * each <= usize::MAX,
            each >= 0,
    ;
    assert(sizes[0].0 <= 0xffff_ffff && sizes[1].0 <= 0xffff_ffff && sizes[2].0 <= 0xffff_ffff
        && sizes[3].0 <= 0xffff_ffff && sizes[4].0 <= 0xffff_ffff && sizes[5].0 <= 0xffff_ffff);
}

/// Scores are found for a contiguous query `[b, kv_heads * repeat_factor, head_dim]` in a
/// floating-point format, contiguous rows in `U8` and contiguous scales in `F32` or `F16`, with a
/// row for every entry, cached head and token, on one device that is not a CUDA device; on a Metal
/// device with sizes of 32 bits, where there is a score.
pub proof fn packed_scores_are_found_where_tensors_agree<N: Scalars>(
    q: Tensor<N>,
    packed_k: Tensor<N>,
    k_scales: Tensor<N>,
    shape: RowwiseShape,
    scale: N::F64,
    result: Result<Outcome<N>, RowwiseError>,
)
    requires
        q.valid(),
        packed_k.valid(),
        k_scales.valid(),
        rowwise_qk_outcome(q, packed_k, k_scales, shape, scale, result),
    ensures
        result is Ok <==> {
            &&& shape.repeat_factor > 0
            &&& !(q.spec_device() is Cuda)
            &&& packed_k.spec_device() == q.spec_device()
            &&& k_scales.spec_device() == q.spec_device()
            &&& q.shape().len() == 3 && q.shape()[2] == shape.head_dim
            &&& q.shape()[1] == shape.kv_heads * shape.repeat_factor
            &&& packed_k.shape().len() == 2 && packed_k.shape()[0] == q.shape()[0] * shape.kv_heads
                * shape.tokens && packed_k.shape()[1] == row_bytes(shape)
            &&& k_scales.shape().len() == 1 && k_scales.shape()[0] == q.shape()[0] * shape.kv_heads
                * shape.tokens
            &&& q.spec_dtype() == DType::F32 || q.spec_dtype() == DType::F16 || q.spec_dtype()
                == DType::BF16
            &&& packed_k.spec_dtype() == DType::U8
            &&& k_scales.spec_dtype() == DType::F32 || k_scales.spec_dtype() == DType::F16
            &&& q.layout.contiguous() && packed_k.layout.contiguous()
                && k_scales.layout.contiguous()
            &&& q.spec_device() is Metal && q.shape()[0] * q.shape()[1] * shape.tokens > 0
                ==> fits_32_bits(shape, q.shape())
        },
        result matches Ok(outcome) ==> (outcome is Host <==> q.spec_device() is Cpu) && (
        outcome is Empty <==> q.spec_device() is Metal && q.shape()[0]
            * q.shape()[1] * shape.tokens == 0),
        result matches Ok(Outcome::Empty(output)) ==> output.dtype == DType::F32 && output.dims@
            == seq![q.shape()[0], q.shape()[1], shape.tokens],
{
    let heads = shape.heads(q.shape()[0], q.shape()[1]);
    let sizes = rowwise_sizes(heads);
    sizes_fit_in_32_bits(sizes);
    lemma_groups(q.shape()[1] as int, shape.repeat_factor as int, shape.kv_heads as int);
    lemma_ceil_div(shape.head_dim as int, 2);
    if q.shape().len() == 3 {
        lemma_rank_3(q.shape());
        lemma_two(q.shape());
        assert(sizes[0].0 == q.shape()[0] * q.shape()[1]);
    }
    assert(sizes[1].0 == heads.full_heads && sizes[2].0 == heads.kv_heads && sizes[3].0
        == heads.repeat_factor && sizes[4].0 == heads.tokens && sizes[5].0 == heads.head_dim);
    assert(heads.query_rows() * shape.tokens >= 0) by (nonlinear_arith)
        requires
            heads.query_rows() == heads.batch * heads.full_heads,
    ;
}

/// Weighted sums are found for contiguous probabilities `[b, kv_heads * repeat_factor, tokens]` in
/// `F32`, contiguous rows in `U8` and contiguous scales in `F32` or `F16`, with a row for every
/// entry, cached head and token, on one device that is not a CUDA device; on a Metal device with
/// sizes of 32 bits, where there is a sum.
pub proof fn packed_sums_are_found_where_tensors_agree<N: Scalars>(
    attn_probs: Tensor<N>,
    packed_v: Tensor<N>,
    v_scales: Tensor<N>,
    shape: RowwiseShape,
    result: Result<Outcome<N>, RowwiseError>,
)
    requires
        attn_probs.valid(),
        packed_v.valid(),
        v_scales.valid(),
        rowwise_sum_outcome(attn_probs, packed_v, v_scales, shape, result),
    ensures
        result is Ok <==> {
            &&& shape.repeat_factor > 0
            &&& !(attn_probs.spec_device() is Cuda)
            &&& packed_v.spec_device() == attn_probs.spec_device()
            &&& v_scales.spec_device() == attn_probs.spec_device()
            &&& attn_probs.shape().len() == 3 && attn_probs.shape()[2] == shape.tokens
            &&& attn_probs.shape()[1] == shape.kv_heads * shape.repeat_factor
            &&& packed_v.shape().len() == 2 && packed_v.shape()[0] == attn_probs.shape()[0] * shape.kv_heads
                * shape.tokens && packed_v.shape()[1] == row_bytes(shape)
            &&& v_scales.shape().len() == 1 && v_scales.shape()[0] == attn_probs.shape()[0] * shape.kv_heads
                * shape.tokens
            &&& attn_probs.spec_dtype() == DType::F32
            &&& packed_v.spec_dtype() == DType::U8
            &&& v_scales.spec_dtype() == DType::F32 || v_scales.spec_dtype() == DType::F16
            &&& attn_probs.layout.contiguous() && packed_v.layout.contiguous()
                && v_scales.layout.contiguous()
            &&& attn_probs.spec_device() is Metal && attn_probs.shape()[0] * attn_probs.shape()[1] * shape.head_dim > 0
                ==> fits_32_bits(shape, attn_probs.shape())
        },
        result matches Ok(outcome) ==> (outcome is Host <==> attn_probs.spec_device() is Cpu) && (
        outcome is Empty <==> attn_probs.spec_device() is Metal && attn_probs.shape()[0]
            * attn_probs.shape()[1] * shape.head_dim == 0),
        result matches Ok(Outcome::Empty(output)) ==> output.dtype == DType::F32 && output.dims@
            == seq![attn_probs.shape()[0], attn_probs.shape()[1], shape.head_dim],
{
    let heads = shape.heads(attn_probs.shape()[0], attn_probs.shape()[1]);
    let sizes = rowwise_sizes(heads);
    sizes_fit_in_32_bits(sizes);
    lemma_groups(attn_probs.shape()[1] as int, shape.repeat_factor as int, shape.kv_heads as int);
    lemma_ceil_div(shape.head_dim as int, 2);
    if attn_probs.shape().len() == 3 {
        lemma_rank_3(attn_probs.shape());
        lemma_two(attn_probs.shape());
        assert(sizes[0].0 == attn_probs.shape()[0] * attn_probs.shape()[1]);
    }
    assert(sizes[1].0 == heads.full_heads && sizes[2].0 == heads.kv_heads && sizes[3].0
        == heads.repeat_factor && sizes[4].0 == heads.tokens && sizes[5].0 == heads.head_dim);
    assert(heads.query_rows() * shape.head_dim >= 0) by (nonlinear_arith)
        requires
            heads.query_rows() == heads.batch * heads.full_heads,
    ;
}

/// Refused scores name what is wrong.
pub proof fn refused_packed_scores_name_the_fault<N: Scalars>(
    q: Tensor<N>,
    packed_k: Tensor<N>,
    k_scales: Tensor<N>,
    shape: RowwiseShape,
    scale: N::F64,
    e: RowwiseError,
)
    requires
        q.valid(),
        packed_k.valid(),
        k_scales.valid(),
        q.shape()[0] * shape.kv_heads * shape.tokens <= usize::MAX,
        rowwise_qk_outcome(q, packed_k, k_scales, shape, scale, Err(e)),
    ensures
        e is RepeatFactorZero <==> shape.repeat_factor == 0,
        e is FirstRank ==> q.shape().len() != 3,
        e matches RowwiseError::HeadDim { got, expected } ==> got == q.shape()[2] && expected
            == shape.head_dim && got != expected,
        e matches RowwiseError::Tokens { got, expected } ==> got == q.shape()[2] && expected
            == shape.tokens && got != expected,
        e is DeviceMismatch ==> packed_k.spec_device() != q.spec_device() || k_scales.spec_device()
            != q.spec_device(),
        e matches RowwiseError::HeadSplit { full_heads, repeat_factor } ==> full_heads
            == q.shape()[1] && repeat_factor == shape.repeat_factor && full_heads as int
            % (repeat_factor as int) != 0,
        e matches RowwiseError::KvHeads { derived, expected } ==> derived as int
            * shape.repeat_factor == q.shape()[1] && expected == shape.kv_heads && derived
            != expected,
        e matches RowwiseError::HeadConfig { full_heads, kv_heads, repeat_factor } ==> full_heads
            == q.shape()[1] && kv_heads == shape.kv_heads && repeat_factor == shape.repeat_factor
            && full_heads != kv_heads * repeat_factor,
        e is PackedRank ==> packed_k.shape().len() != 2,
        e matches RowwiseError::PackedShape { rows, cols } ==> rows == q.shape()[0]
            * shape.kv_heads * shape.tokens && cols == row_bytes(shape) && !(packed_k.shape().len() == 2
            && packed_k.shape()[0] == rows && packed_k.shape()[1] == cols),
        e matches RowwiseError::ScalesShape { rows } ==> rows == q.shape()[0] * shape.kv_heads
            * shape.tokens && !(k_scales.shape().len() == 1 && k_scales.shape()[0] == rows),
        e matches RowwiseError::FirstDType(dtype) ==> dtype == q.spec_dtype(),
        e matches RowwiseError::PackedDType(dtype) ==> dtype == packed_k.spec_dtype() && dtype
            != DType::U8,
        e matches RowwiseError::ScalesDType(dtype) ==> dtype == k_scales.spec_dtype() && dtype
            != DType::F32 && dtype != DType::F16,
        e matches RowwiseError::NotContiguous(operand) ==> match operand {
            RowwiseOperand::Packed => !packed_k.layout.contiguous(),
            RowwiseOperand::Scales => !k_scales.layout.contiguous(),
            _ => !q.layout.contiguous(),
        },
        e is LayoutsNotContiguous ==> q.spec_device() is Metal && !(q.layout.contiguous()
            && packed_k.layout.contiguous() && k_scales.layout.contiguous()),
        e matches RowwiseError::KernelDTypes { q: left, scales: right } ==> left == q.spec_dtype()
            && right == k_scales.spec_dtype(),
        e is NoCudaKernel ==> q.spec_device() is Cuda,
        !(e is MetalDeviceMismatch),
{
    lemma_groups(q.shape()[1] as int, shape.repeat_factor as int, shape.kv_heads as int);
    lemma_ceil_div(shape.head_dim as int, 2);
    if let RowwiseError::KvHeads { derived, expected } = e {
        lemma_groups(q.shape()[1] as int, shape.repeat_factor as int, derived as int);
    }
}

/// Refused sums name what is wrong.
pub proof fn refused_packed_sums_name_the_fault<N: Scalars>(
    attn_probs: Tensor<N>,
    packed_v: Tensor<N>,
    v_scales: Tensor<N>,
    shape: RowwiseShape,
    e: RowwiseError,
)
    requires
        attn_probs.valid(),
        packed_v.valid(),
        v_scales.valid(),
        attn_probs.shape()[0] * shape.kv_heads * shape.tokens <= usize::MAX,
        rowwise_sum_outcome(attn_probs, packed_v, v_scales, shape, Err(e)),
    ensures
        e is RepeatFactorZero <==> shape.repeat_factor == 0,
        e is FirstRank ==> attn_probs.shape().len() != 3,
        e matches RowwiseError::HeadDim { got, expected } ==> got == attn_probs.shape()[2] && expected
            == shape.head_dim && got != expected,
        e matches RowwiseError::Tokens { got, expected } ==> got == attn_probs.shape()[2] && expected
            == shape.tokens && got != expected,
        e is DeviceMismatch ==> packed_v.spec_device() != attn_probs.spec_device() || v_scales.spec_device()
            != attn_probs.spec_device(),
        e matches RowwiseError::HeadSplit { full_heads, repeat_factor } ==> full_heads
            == attn_probs.shape()[1] && repeat_factor == shape.repeat_factor && full_heads as int
            % (repeat_factor as int) != 0,
        e matches RowwiseError::KvHeads { derived, expected } ==> derived as int
            * shape.repeat_factor == attn_probs.shape()[1] && expected == shape.kv_heads && derived
            != expected,
        e matches RowwiseError::HeadConfig { full_heads, kv_heads, repeat_factor } ==> full_heads
            == attn_probs.shape()[1] && kv_heads == shape.kv_heads && repeat_factor == shape.repeat_factor
            && full_heads != kv_heads * repeat_factor,
        e is PackedRank ==> packed_v.shape().len() != 2,
        e matches RowwiseError::PackedShape { rows, cols } ==> rows == attn_probs.shape()[0]
            * shape.kv_heads * shape.tokens && cols == row_bytes(shape) && !(packed_v.shape().len() == 2
            && packed_v.shape()[0] == rows && packed_v.shape()[1] == cols),
        e matches RowwiseError::ScalesShape { rows } ==> rows == attn_probs.shape()[0] * shape.kv_heads
            * shape.tokens && !(v_scales.shape().len() == 1 && v_scales.shape()[0] == rows),
        e matches RowwiseError::FirstDType(dtype) ==> dtype == attn_probs.spec_dtype() && dtype != DType::F32,
        e matches RowwiseError::PackedDType(dtype) ==> dtype == packed_v.spec_dtype() && dtype
            != DType::U8,
        e matches RowwiseError::ScalesDType(dtype) ==> dtype == v_scales.spec_dtype() && dtype
            != DType::F32 && dtype != DType::F16,
        e matches RowwiseError::NotContiguous(operand) ==> match operand {
            RowwiseOperand::Packed => !packed_v.layout.contiguous(),
            RowwiseOperand::Scales => !v_scales.layout.contiguous(),
            _ => !attn_probs.layout.contiguous(),
        },
        e is LayoutsNotContiguous ==> attn_probs.spec_device() is Metal && !(attn_probs.layout.contiguous()
            && packed_v.layout.contiguous() && v_scales.layout.contiguous()),
        e matches RowwiseError::KernelDTypes { q: left, scales: right } ==> left == attn_probs.spec_dtype()
            && right == v_scales.spec_dtype(),
        e is NoCudaKernel ==> attn_probs.spec_device() is Cuda,
        !(e is MetalDeviceMismatch),
{
    lemma_groups(attn_probs.shape()[1] as int, shape.repeat_factor as int, shape.kv_heads as int);
    lemma_ceil_div(shape.head_dim as int, 2);
    if let RowwiseError::KvHeads { derived, expected } = e {
        lemma_groups(attn_probs.shape()[1] as int, shape.repeat_factor as int, derived as int);
    }
}


/// Scores and sums are counted where there is room to count them, and the rows of the cache.
pub proof fn steps_are_countable_where_they_fit<N: Scalars>(
    first: Tensor<N>,
    packed: Tensor<N>,
    scales: Tensor<N>,
    shape: RowwiseShape,
)
    requires
        first.shape()[0] * shape.kv_heads * shape.tokens <= usize::MAX,
    ensures
        first.shape()[0] * first.shape()[1] * shape.tokens <= usize::MAX ==> rowwise_qk_countable(
            first,
            packed,
            scales,
            shape,
        ),
        first.shape()[0] * first.shape()[1] * shape.head_dim <= usize::MAX
            ==> rowwise_sum_countable(first, packed, scales, shape),
{
}

} // verus!
