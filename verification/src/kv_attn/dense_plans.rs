//! When attention over numbers is refused, and what it launches.
use crate::dtype::DType;
use crate::kv_attn::dense::{
    dense_heads, dense_sizes, lemma_dense_countable, qk_outcome, sum_countable, sum_outcome, DenseError,
    DenseOperand,
};
use crate::launch::{DeviceTensor, Grid, KernelArg, Launch, Outcome, Quantity};
use crate::launch_laws::{begins, counts, sizes_fit_in_32_bits, width, writes};
use crate::scalar::Scalars;
use crate::tensor::{Device, Tensor};
use vstd::prelude::*;

verus! {

/// The kernel of scores is the one for the type of the query. It gets the number of query rows,
/// the tokens, the length of a row and the scale, and is told where query and keys begin.
pub proof fn scores_launch_the_kernel_of_their_type<N: Scalars>(
    q: Tensor<N>,
    k: Tensor<N>,
    scale: N::F64,
    launch: Launch<N>,
    output: DeviceTensor,
)
    requires
        q.valid(),
        k.valid(),
        qk_outcome(q, k, scale, Ok(Outcome::Launch(launch, output))),
    ensures
        q.spec_device() == Device::Metal(launch.device),
        output.dtype == DType::F32,
        output.dims@ == seq![q.shape()[0], q.shape()[1], k.shape()[2]],
        q.spec_dtype() == DType::F32 ==> launch.kernel@ == "qk_scores_f32"@,
        q.spec_dtype() == DType::F16 ==> launch.kernel@ == "qk_scores_f16"@,
        q.spec_dtype() == DType::BF16 ==> launch.kernel@ == "qk_scores_bf16"@,
        q.spec_dtype() == DType::F32 || q.spec_dtype() == DType::F16 || q.spec_dtype()
            == DType::BF16,
        launch.grid matches Grid::PerItem(items) && items == q.shape()[0] * q.shape()[1]
            * k.shape()[2],
        launch.label@ == "candelora_kv_attn_qk"@,
        launch.args@.len() == 7,
        counts(launch.args@[0], q.shape()[0] * q.shape()[1]),
        counts(launch.args@[1], k.shape()[2] as int),
        counts(launch.args@[2], q.shape()[2] as int),
        launch.args@[3] matches KernelArg::F32(single) && call_ensures(
            N::single,
            (scale,),
            single,
        ),
        begins(launch.args@[4], 0, q.layout.start_offset * width(q.spec_dtype())),
        begins(launch.args@[5], 1, k.layout.start_offset * width(q.spec_dtype())),
        writes(launch.args@[6], 0),
{
    reveal_strlit("qk_scores_");
    reveal_strlit("f32");
    reveal_strlit("f16");
    reveal_strlit("bf16");
    reveal_strlit("qk_scores_f32");
    reveal_strlit("qk_scores_f16");
    reveal_strlit("qk_scores_bf16");
    assert("qk_scores_"@ + "f32"@ =~= "qk_scores_f32"@);
    assert("qk_scores_"@ + "f16"@ =~= "qk_scores_f16"@);
    assert("qk_scores_"@ + "bf16"@ =~= "qk_scores_bf16"@);
    let heads = dense_heads(q.shape()[0], q.shape()[1], k.shape()[2], q.shape()[2]);
    assert(k.shape() =~= seq![heads.batch, heads.full_heads, heads.tokens, heads.head_dim]);
    lemma_dense_countable(q.layout, k.layout, heads);
    let sizes = dense_sizes(heads);
    sizes_fit_in_32_bits(sizes);
    assert(sizes[0].0 <= 0xffff_ffff && sizes[1].0 <= 0xffff_ffff && sizes[2].0 <= 0xffff_ffff);
}

/// The kernel of weighted sums is the one for the type of the values. It gets the number of rows,
/// the tokens and the length of a row, and is told where probabilities and values begin.
pub proof fn sums_launch_the_kernel_of_their_type<N: Scalars>(
    attn_probs: Tensor<N>,
    v: Tensor<N>,
    launch: Launch<N>,
    output: DeviceTensor,
)
    requires
        attn_probs.valid(),
        v.valid(),
        attn_probs.shape()[0] * attn_probs.shape()[1] * v.shape()[3] <= usize::MAX,
        sum_outcome(attn_probs, v, Ok(Outcome::Launch(launch, output))),
    ensures
        attn_probs.spec_device() == Device::Metal(launch.device),
        output.dtype == DType::F32,
        output.dims@ == seq![attn_probs.shape()[0], attn_probs.shape()[1], v.shape()[3]],
        v.spec_dtype() == DType::F32 ==> launch.kernel@ == "attn_weighted_sum_v_f32"@,
        v.spec_dtype() == DType::F16 ==> launch.kernel@ == "attn_weighted_sum_v_f16"@,
        v.spec_dtype() == DType::BF16 ==> launch.kernel@ == "attn_weighted_sum_v_bf16"@,
        v.spec_dtype() == DType::F32 || v.spec_dtype() == DType::F16 || v.spec_dtype()
            == DType::BF16,
        launch.grid matches Grid::PerItem(items) && items == attn_probs.shape()[0]
            * attn_probs.shape()[1] * v.shape()[3],
        launch.label@ == "candelora_kv_attn_weighted_sum"@,
        launch.args@.len() == 6,
        counts(launch.args@[0], attn_probs.shape()[0] * attn_probs.shape()[1]),
        counts(launch.args@[1], attn_probs.shape()[2] as int),
        counts(launch.args@[2], v.shape()[3] as int),
        begins(launch.args@[3], 0, attn_probs.layout.start_offset * 4),
        begins(launch.args@[4], 1, v.layout.start_offset * width(v.spec_dtype())),
        writes(launch.args@[5], 0),
{
    reveal_strlit("attn_weighted_sum_v_");
    reveal_strlit("f32");
    reveal_strlit("f16");
    reveal_strlit("bf16");
    reveal_strlit("attn_weighted_sum_v_f32");
    reveal_strlit("attn_weighted_sum_v_f16");
    reveal_strlit("attn_weighted_sum_v_bf16");
    assert("attn_weighted_sum_v_"@ + "f32"@ =~= "attn_weighted_sum_v_f32"@);
    assert("attn_weighted_sum_v_"@ + "f16"@ =~= "attn_weighted_sum_v_f16"@);
    assert("attn_weighted_sum_v_"@ + "bf16"@ =~= "attn_weighted_sum_v_bf16"@);
    let heads = dense_heads(
        attn_probs.shape()[0],
        attn_probs.shape()[1],
        attn_probs.shape()[2],
        v.shape()[3],
    );
    assert(v.shape() =~= seq![heads.batch, heads.full_heads, heads.tokens, heads.head_dim]);
    lemma_dense_countable(attn_probs.layout, v.layout, heads);
    let sizes = dense_sizes(heads);
    sizes_fit_in_32_bits(sizes);
    assert(sizes[0].0 <= 0xffff_ffff && sizes[1].0 <= 0xffff_ffff && sizes[2].0 <= 0xffff_ffff);
}

/// Scores are found for a contiguous query `[b, h, d]` and contiguous keys `[b, h, t, d]` of one
/// type on one device, the host or a Metal device: on the host in a floating-point format, on the
/// device too, with sizes of 32 bits, unless there is no score.
pub proof fn scores_are_found_where_tensors_agree<N: Scalars>(
    q: Tensor<N>,
    k: Tensor<N>,
    scale: N::F64,
    result: Result<Outcome<N>, DenseError>,
)
    requires
        q.valid(),
        k.valid(),
        qk_outcome(q, k, scale, result),
    ensures
        result is Ok <==> {
            &&& q.spec_device() == k.spec_device() && !(q.spec_device() is Cuda)
            &&& q.spec_dtype() == k.spec_dtype()
            &&& q.shape().len() == 3 && k.shape().len() == 4
            &&& q.shape()[0] == k.shape()[0] && q.shape()[1] == k.shape()[1] && q.shape()[2]
                == k.shape()[3]
            &&& q.layout.contiguous() && k.layout.contiguous()
            &&& {
                ||| q.spec_device() is Metal && q.shape()[0] * q.shape()[1] * k.shape()[2] == 0
                ||| {
                    &&& q.spec_dtype() == DType::F32 || q.spec_dtype() == DType::F16
                        || q.spec_dtype() == DType::BF16
                    &&& q.spec_device() is Metal ==> q.shape()[0] * q.shape()[1] <= 0xffff_ffff
                        && k.shape()[2] <= 0xffff_ffff && q.shape()[2] <= 0xffff_ffff
                }
            }
        },
        result matches Ok(outcome) ==> (outcome is Host <==> q.spec_device() is Cpu) && (
        outcome is Empty <==> q.spec_device() is Metal && q.shape()[0] * q.shape()[1]
            * k.shape()[2] == 0),
        result matches Ok(Outcome::Empty(output)) ==> output.dtype == DType::F32 && output.dims@
            == seq![q.shape()[0], q.shape()[1], k.shape()[2]],
        result matches Err(DenseError::NotContiguous(DenseOperand::Q)) ==> !q.layout.contiguous(),
        result matches Err(DenseError::NotContiguous(DenseOperand::K)) ==> !k.layout.contiguous(),
{
    let heads = dense_heads(q.shape()[0], q.shape()[1], k.shape()[2], q.shape()[2]);
    let sizes = dense_sizes(heads);
    sizes_fit_in_32_bits(sizes);
    if q.shape().len() == 3 && k.shape().len() == 4 && q.shape()[0] == k.shape()[0]
        && q.shape()[1] == k.shape()[1] && q.shape()[2] == k.shape()[3] {
        assert(k.shape() =~= seq![heads.batch, heads.full_heads, heads.tokens, heads.head_dim]);
        lemma_dense_countable(q.layout, k.layout, heads);
        assert(sizes[0].0 == q.shape()[0] * q.shape()[1]);
        assert(sizes[1].0 == k.shape()[2]);
        assert(sizes[2].0 == q.shape()[2]);
    }
}

/// Weighted sums are found for contiguous probabilities `[b, h, t]` in `F32` and contiguous values
/// `[b, h, t, d]` on one device, the host or a Metal device: on the host for values in a
/// floating-point format, on the device too, with sizes of 32 bits, unless there is no sum.
pub proof fn sums_are_found_where_tensors_agree<N: Scalars>(
    attn_probs: Tensor<N>,
    v: Tensor<N>,
    result: Result<Outcome<N>, DenseError>,
)
    requires
        attn_probs.valid(),
        v.valid(),
        sum_outcome(attn_probs, v, result),
    ensures
        result is Ok <==> {
            &&& attn_probs.spec_device() == v.spec_device() && !(v.spec_device() is Cuda)
            &&& attn_probs.spec_dtype() == DType::F32
            &&& attn_probs.shape().len() == 3 && v.shape().len() == 4
            &&& attn_probs.shape()[0] == v.shape()[0] && attn_probs.shape()[1] == v.shape()[1]
                && attn_probs.shape()[2] == v.shape()[2]
            &&& attn_probs.layout.contiguous() && v.layout.contiguous()
            &&& {
                ||| v.spec_device() is Metal && v.shape()[0] * v.shape()[1] * v.shape()[3] == 0
                ||| {
                    &&& v.spec_dtype() == DType::F32 || v.spec_dtype() == DType::F16
                        || v.spec_dtype() == DType::BF16
                    &&& v.spec_device() is Metal ==> v.shape()[0] * v.shape()[1] <= 0xffff_ffff
                        && v.shape()[2] <= 0xffff_ffff && v.shape()[3] <= 0xffff_ffff
                }
            }
        },
        result matches Ok(outcome) ==> (outcome is Host <==> v.spec_device() is Cpu) && (
        outcome is Empty <==> v.spec_device() is Metal && v.shape()[0] * v.shape()[1]
            * v.shape()[3] == 0),
        result matches Ok(Outcome::Empty(output)) ==> output.dtype == DType::F32 && output.dims@
            == seq![v.shape()[0], v.shape()[1], v.shape()[3]],
        result matches Err(DenseError::NotContiguous(DenseOperand::AttnProbs))
            ==> !attn_probs.layout.contiguous(),
        result matches Err(DenseError::NotContiguous(DenseOperand::V)) ==> !v.layout.contiguous(),
{
    if attn_probs.shape().len() == 3 && v.shape().len() == 4 && attn_probs.shape()[0]
        == v.shape()[0] && attn_probs.shape()[1] == v.shape()[1] && attn_probs.shape()[2]
        == v.shape()[2] {
        let heads = dense_heads(
            attn_probs.shape()[0],
            attn_probs.shape()[1],
            attn_probs.shape()[2],
            v.shape()[3],
        );
        let sizes = dense_sizes(heads);
        sizes_fit_in_32_bits(sizes);
        assert(v.shape() =~= seq![heads.batch, heads.full_heads, heads.tokens, heads.head_dim]);
        lemma_dense_countable(attn_probs.layout, v.layout, heads);
        assert(sizes[0].0 == v.shape()[0] * v.shape()[1]);
        assert(sizes[1].0 == v.shape()[2]);
        assert(sizes[2].0 == v.shape()[3]);
    }
}

/// Refused scores name what is wrong.
pub proof fn refused_scores_name_the_fault<N: Scalars>(
    q: Tensor<N>,
    k: Tensor<N>,
    scale: N::F64,
    e: DenseError,
)
    requires
        q.valid(),
        k.valid(),
        qk_outcome(q, k, scale, Err(e)),
    ensures
        e is DeviceMismatch <==> q.spec_device() != k.spec_device(),
        e matches DenseError::DTypeMismatch { q: left, k: right } ==> left == q.spec_dtype()
            && right == k.spec_dtype() && left != right,
        e is Ranks ==> q.shape().len() != 3 || k.shape().len() != 4,
        e is ShapeMismatch ==> q.shape()[0] != k.shape()[0] || q.shape()[1] != k.shape()[1]
            || q.shape()[2] != k.shape()[3],
        e is DTypes ==> q.spec_device() is Cpu && q.spec_dtype() != DType::F32 && q.spec_dtype()
            != DType::F16 && q.spec_dtype() != DType::BF16,
        e matches DenseError::KernelDType(dtype) ==> q.spec_device() is Metal && dtype
            == q.spec_dtype() && dtype != DType::F32 && dtype != DType::F16 && dtype
            != DType::BF16,
        e is LayoutsNotContiguous ==> q.spec_device() is Metal && !(q.layout.contiguous()
            && k.layout.contiguous()),
        e matches DenseError::TooLarge(quantity) ==> {
            ||| quantity == Quantity::Bh && q.shape()[0] * q.shape()[1] > 0xffff_ffff
            ||| quantity == Quantity::T && k.shape()[2] > 0xffff_ffff
            ||| quantity == Quantity::D && q.shape()[2] > 0xffff_ffff
        },
        e is NoCudaKernel ==> q.spec_device() is Cuda,
        !(e is AttnDType) && !(e is FirstRank) && !(e is SecondRank) && !(e is MetalDeviceMismatch),
{
    if let DenseError::TooLarge(_) = e {
        let heads = dense_heads(q.shape()[0], q.shape()[1], k.shape()[2], q.shape()[2]);
        assert(k.shape() =~= seq![heads.batch, heads.full_heads, heads.tokens, heads.head_dim]);
        lemma_dense_countable(q.layout, k.layout, heads);
        sizes_fit_in_32_bits(dense_sizes(heads));
    }
}

/// Refused sums name what is wrong.
pub proof fn refused_sums_name_the_fault<N: Scalars>(
    attn_probs: Tensor<N>,
    v: Tensor<N>,
    e: DenseError,
)
    requires
        attn_probs.valid(),
        v.valid(),
        sum_outcome(attn_probs, v, Err(e)),
    ensures
        e is DeviceMismatch <==> attn_probs.spec_device() != v.spec_device(),
        e matches DenseError::AttnDType(dtype) ==> dtype == attn_probs.spec_dtype() && dtype
            != DType::F32,
        e is Ranks ==> attn_probs.shape().len() != 3 || v.shape().len() != 4,
        e is ShapeMismatch ==> attn_probs.shape()[0] != v.shape()[0] || attn_probs.shape()[1]
            != v.shape()[1] || attn_probs.shape()[2] != v.shape()[2],
        e is DTypes ==> v.spec_device() is Cpu && v.spec_dtype() != DType::F32 && v.spec_dtype()
            != DType::F16 && v.spec_dtype() != DType::BF16,
        e matches DenseError::KernelDType(dtype) ==> v.spec_device() is Metal && dtype
            == v.spec_dtype() && dtype != DType::F32 && dtype != DType::F16 && dtype
            != DType::BF16,
        e is LayoutsNotContiguous ==> v.spec_device() is Metal && !(attn_probs.layout.contiguous()
            && v.layout.contiguous()),
        e matches DenseError::TooLarge(quantity) ==> {
            ||| quantity == Quantity::Bh && v.shape()[0] * v.shape()[1] > 0xffff_ffff
            ||| quantity == Quantity::T && v.shape()[2] > 0xffff_ffff
            ||| quantity == Quantity::D && v.shape()[3] > 0xffff_ffff
        },
        e is NoCudaKernel ==> v.spec_device() is Cuda,
        !(e is DTypeMismatch) && !(e is FirstRank) && !(e is SecondRank)
            && !(e is MetalDeviceMismatch),
{
    if let DenseError::TooLarge(_) = e {
        let heads = dense_heads(
            attn_probs.shape()[0],
            attn_probs.shape()[1],
            attn_probs.shape()[2],
            v.shape()[3],
        );
        assert(v.shape() =~= seq![heads.batch, heads.full_heads, heads.tokens, heads.head_dim]);
        lemma_dense_countable(attn_probs.layout, v.layout, heads);
        sizes_fit_in_32_bits(dense_sizes(heads));
    }
}

/// Sums are counted where there is room to count them.
pub proof fn sums_are_countable_where_they_fit<N: Scalars>(attn_probs: Tensor<N>, v: Tensor<N>)
    ensures
        attn_probs.shape()[0] * attn_probs.shape()[1] * v.shape()[3] <= usize::MAX ==> sum_countable(
            attn_probs,
            v,
        ),
{
}

} // verus!
