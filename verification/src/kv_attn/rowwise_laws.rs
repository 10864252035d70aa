//! What holds of attention over packed rows whatever the arithmetic: the same rows may be written
//! out as numbers, and scales in half precision may be brought to single precision.
use crate::dtype::DType;
use crate::host::widens;
use crate::kv_attn::attend::{dense_model, rowwise_model, scores, weighted_sums};
use crate::kv_attn::attend_laws::{
    lemma_packed_cells_agree, lemma_scores_follow, lemma_weighted_sums_follow, lemma_written_cells,
    scores_of_related_caches, sums_of_related_caches, writes_out,
};
use crate::kv_attn::dense::{
    dense_heads, qk_host_result, qk_outcome, sum_host_result, sum_outcome, DenseError,
};
use crate::kv_attn::rowwise::{
    rowwise_qk_host_result, rowwise_qk_outcome, rowwise_sum_host_result, rowwise_sum_outcome,
    RowwiseError, RowwiseQkScoresOp, RowwiseShape,
};
use crate::launch::Outcome;
use crate::layout::{dims_are_1, lemma_rank_1, lemma_rank_3};
use crate::relation::{
    all_same, is_widened, lemma_same_reading, respected, same_tensors, Relation,
};
use crate::scalar::Scalars;
use crate::tensor::{HostData, HostTensor, Storage, Tensor};
use vstd::prelude::*;

verus! {

/// `out` holds the scores of tensors on the host, with the factor `scale`.
pub open spec fn host_scores<N: Scalars>(
    shape: RowwiseShape,
    scale: N::F32,
    q: Tensor<N>,
    packed: Tensor<N>,
    scales: Tensor<N>,
    out: HostTensor<N>,
) -> bool {
    match (q.storage, packed.storage, scales.storage) {
        (Storage::Host(first), Storage::Host(rows), Storage::Host(data)) => rowwise_qk_host_result(
            RowwiseQkScoresOp { shape, scale },
            first,
            q.layout,
            rows,
            packed.layout,
            data,
            scales.layout,
            out,
        ),
        _ => false,
    }
}

/// `out` holds the weighted sums of tensors on the host.
pub open spec fn host_sums<N: Scalars>(
    shape: RowwiseShape,
    attn: Tensor<N>,
    packed: Tensor<N>,
    scales: Tensor<N>,
    out: HostTensor<N>,
) -> bool {
    match (attn.storage, packed.storage, scales.storage) {
        (Storage::Host(first), Storage::Host(rows), Storage::Host(data)) => rowwise_sum_host_result(
            shape,
            first,
            attn.layout,
            rows,
            packed.layout,
            data,
            scales.layout,
            out,
        ),
        _ => false,
    }
}

/// The three tensors fit each other: `first` has rank three, its heads fall into groups, and
/// every row of the cache has a scale.
pub open spec fn fits_cache<N: Scalars>(
    shape: RowwiseShape,
    first: Tensor<N>,
    scales: Tensor<N>,
) -> bool {
    let heads = shape.heads(first.shape()[0], first.shape()[1]);
    &&& first.shape().len() == 3
    &&& heads.grouped()
    &&& dims_are_1(scales.shape(), heads.cache_rows())
}

/// Every two readings of two host tensors are related.
pub open spec fn readings_agree<N: Scalars>(
    same: Relation<N::F32>,
    left: Tensor<N>,
    right: Tensor<N>,
) -> bool {
    left.storage matches Storage::Host(here) && right.storage matches Storage::Host(there)
        && forall|a: Seq<N::F32>, b: Seq<N::F32>|
        #![trigger widens::<N>(here, left.layout, a), widens::<N>(there, right.layout, b)]
        widens::<N>(here, left.layout, a) && widens::<N>(there, right.layout, b) ==> all_same(
            same,
            a,
            b,
        )
}

/// Scores of one query over one packed cache, under scales that are read as related numbers.
proof fn lemma_same_scores<N: Scalars>(
    same: Relation<N::F32>,
    shape: RowwiseShape,
    q: Tensor<N>,
    packed: Tensor<N>,
    left_scales: Tensor<N>,
    right_scales: Tensor<N>,
    left_scale: N::F32,
    right_scale: N::F32,
    left: HostTensor<N>,
    right: HostTensor<N>,
)
    requires
        respected::<N>(same),
        fits_cache(shape, q, left_scales),
        q.shape()[2] == shape.head_dim,
        readings_agree(same, left_scales, right_scales),
        same(left_scale, right_scale),
        host_scores(shape, left_scale, q, packed, left_scales, left),
        host_scores(shape, right_scale, q, packed, right_scales, right),
    ensures
        same_tensors(same, left, right),
{
    let heads = shape.heads(q.shape()[0], q.shape()[1]);
    let first = q.storage->Host_0;
    let here = left_scales.storage->Host_0;
    let there = right_scales.storage->Host_0;
    let d = shape.head_dim as int;
    let bytes = packed.layout.elements(packed.storage->Host_0->U8_0@);
    let (q1, s1) = choose|wide_q: Seq<N::F32>, wide_scales: Seq<N::F32>|
        #![trigger widens::<N>(first, q.layout, wide_q), widens::<N>(
            here,
            left_scales.layout,
            wide_scales,
        )]
        widens::<N>(first, q.layout, wide_q) && widens::<N>(here, left_scales.layout, wide_scales)
            && scores::<N>(
            wide_q,
            rowwise_model::<N>(bytes, wide_scales, d, shape.kind),
            heads,
            left_scale,
            left.data->F32_0@,
        );
    let (q2, s2) = choose|wide_q: Seq<N::F32>, wide_scales: Seq<N::F32>|
        #![trigger widens::<N>(first, q.layout, wide_q), widens::<N>(
            there,
            right_scales.layout,
            wide_scales,
        )]
        widens::<N>(first, q.layout, wide_q) && widens::<N>(there, right_scales.layout, wide_scales)
            && scores::<N>(
            wide_q,
            rowwise_model::<N>(bytes, wide_scales, d, shape.kind),
            heads,
            right_scale,
            right.data->F32_0@,
        );
    lemma_rank_3(q.shape());
    lemma_rank_1(left_scales.shape());
    lemma_same_reading::<N>(same, first, q.layout, q1, q2);
    lemma_packed_cells_agree::<N>(same, bytes, s1, s2, heads, shape.kind);
    scores_of_related_caches::<N>(
        same,
        q1,
        q2,
        rowwise_model::<N>(bytes, s1, d, shape.kind),
        heads,
        rowwise_model::<N>(bytes, s2, d, shape.kind),
        heads,
        left_scale,
        right_scale,
        left.data->F32_0@,
        right.data->F32_0@,
    );
}

/// Weighted sums over one packed cache, under scales that are read as related numbers.
proof fn lemma_same_weighted_sums<N: Scalars>(
    same: Relation<N::F32>,
    shape: RowwiseShape,
    attn: Tensor<N>,
    packed: Tensor<N>,
    left_scales: Tensor<N>,
    right_scales: Tensor<N>,
    left: HostTensor<N>,
    right: HostTensor<N>,
)
    requires
        respected::<N>(same),
        fits_cache(shape, attn, left_scales),
        attn.shape()[2] == shape.tokens,
        readings_agree(same, left_scales, right_scales),
        host_sums(shape, attn, packed, left_scales, left),
        host_sums(shape, attn, packed, right_scales, right),
    ensures
        same_tensors(same, left, right),
{
    let heads = shape.heads(attn.shape()[0], attn.shape()[1]);
    let first = attn.storage->Host_0;
    let here = left_scales.storage->Host_0;
    let there = right_scales.storage->Host_0;
    let d = shape.head_dim as int;
    let bytes = packed.layout.elements(packed.storage->Host_0->U8_0@);
    let (w1, s1) = choose|weights: Seq<N::F32>, wide_scales: Seq<N::F32>|
        #![trigger widens::<N>(first, attn.layout, weights), widens::<N>(
            here,
            left_scales.layout,
            wide_scales,
        )]
        widens::<N>(first, attn.layout, weights) && widens::<N>(
            here,
            left_scales.layout,
            wide_scales,
        ) && weighted_sums::<N>(
            weights,
            rowwise_model::<N>(bytes, wide_scales, d, shape.kind),
            heads,
            left.data->F32_0@,
        );
    let (w2, s2) = choose|weights: Seq<N::F32>, wide_scales: Seq<N::F32>|
        #![trigger widens::<N>(first, attn.layout, weights), widens::<N>(
            there,
            right_scales.layout,
            wide_scales,
        )]
        widens::<N>(first, attn.layout, weights) && widens::<N>(
            there,
            right_scales.layout,
            wide_scales,
        ) && weighted_sums::<N>(
            weights,
            rowwise_model::<N>(bytes, wide_scales, d, shape.kind),
            heads,
            right.data->F32_0@,
        );
    lemma_rank_3(attn.shape());
    lemma_rank_1(left_scales.shape());
    lemma_same_reading::<N>(same, first, attn.layout, w1, w2);
    lemma_packed_cells_agree::<N>(same, bytes, s1, s2, heads, shape.kind);
    sums_of_related_caches::<N>(
        same,
        w1,
        w2,
        rowwise_model::<N>(bytes, s1, d, shape.kind),
        heads,
        rowwise_model::<N>(bytes, s2, d, shape.kind),
        heads,
        left.data->F32_0@,
        right.data->F32_0@,
    );
}

/// One host tensor is read as related numbers every time.
proof fn lemma_one_tensor<N: Scalars>(same: Relation<N::F32>, t: Tensor<N>)
    requires
        respected::<N>(same),
        t.storage is Host,
    ensures
        readings_agree(same, t, t),
{
    let data = t.storage->Host_0;
    assert forall|a: Seq<N::F32>, b: Seq<N::F32>|
        #![trigger widens::<N>(data, t.layout, a), widens::<N>(data, t.layout, b)]
        widens::<N>(data, t.layout, a) && widens::<N>(data, t.layout, b) implies all_same(
        same,
        a,
        b,
    ) by {
        lemma_same_reading::<N>(same, data, t.layout, a, b);
    }
}

/// A tensor and the tensor brought to single precision are read as related numbers.
proof fn lemma_widened_tensor<N: Scalars>(same: Relation<N::F32>, half: Tensor<N>, wide: Tensor<N>)
    requires
        respected::<N>(same),
        is_widened(half, wide),
    ensures
        readings_agree(same, half, wide),
{
    let narrow = half.storage->Host_0;
    let data = wide.storage->Host_0;
    assert forall|a: Seq<N::F32>, b: Seq<N::F32>|
        #![trigger widens::<N>(narrow, half.layout, a), widens::<N>(data, wide.layout, b)]
        widens::<N>(narrow, half.layout, a) && widens::<N>(data, wide.layout, b) implies all_same(
        same,
        a,
        b,
    ) by {
        assert(widens::<N>(narrow, half.layout, b));
        lemma_same_reading::<N>(same, narrow, half.layout, a, b);
    }
}

/// `dense` holds the rows of a packed cache as numbers, with a head for every query head.
/// `first` is the shape of the query or of the probabilities.
pub open spec fn is_written_out<N: Scalars>(
    first: Seq<usize>,
    packed: Tensor<N>,
    scales: Tensor<N>,
    shape: RowwiseShape,
    dense: Tensor<N>,
) -> bool {
    let heads = shape.heads(first[0], first[1]);
    &&& dense.shape() == seq![heads.batch, heads.full_heads, heads.tokens, heads.head_dim]
    &&& dense.layout.contiguous()
    &&& match (packed.storage, scales.storage, dense.storage) {
        (
            Storage::Host(HostData::U8(bytes)),
            Storage::Host(data),
            Storage::Host(HostData::F32(values)),
        ) => exists|wide: Seq<N::F32>| #[trigger]
            widens::<N>(data, scales.layout, wide) && writes_out::<N>(
                packed.layout.elements(bytes@),
                wide,
                heads,
                shape.kind,
                dense.layout.elements(values@),
            ),
        _ => false,
    }
}

/// A query in single precision is scored against packed keys as it is against those keys written
/// out: where the call on packed keys succeeds, so does the call on dense keys, what the second
/// returns is a result of the first, and any two results are related by every relation that the
/// operations respect.
pub proof fn packed_scores_are_dense_scores<N: Scalars>(
    q: Tensor<N>,
    packed_k: Tensor<N>,
    k_scales: Tensor<N>,
    shape: RowwiseShape,
    k: Tensor<N>,
    scale: N::F64,
    left: HostTensor<N>,
    right: Result<Outcome<N>, DenseError>,
)
    requires
        q.spec_dtype() == DType::F32,
        is_written_out(q.shape(), packed_k, k_scales, shape, k),
        rowwise_qk_outcome(q, packed_k, k_scales, shape, scale, Ok(Outcome::Host(left))),
        qk_outcome(q, k, scale, right),
    ensures
        right matches Ok(Outcome::Host(out)) && {
            &&& rowwise_qk_outcome(q, packed_k, k_scales, shape, scale, Ok(Outcome::Host(out)))
            &&& forall|same: Relation<N::F32>| #[trigger]
                respected::<N>(same) ==> same_tensors(same, left, out)
        },
{
    let heads = shape.heads(q.shape()[0], q.shape()[1]);
    let d = shape.head_dim as int;
    let first = q.storage->Host_0;
    let data = k_scales.storage->Host_0;
    let bytes = packed_k.layout.elements(packed_k.storage->Host_0->U8_0@);
    let dense = k.layout.elements(k.storage->Host_0->F32_0@);
    assert(heads.grouped());
    assert(heads.ungrouped() == dense_heads(
        q.shape()[0],
        q.shape()[1],
        k.shape()[2],
        q.shape()[2],
    ));
    let out = right->Ok_0->Host_0;
    let single = choose|single: N::F32| #[trigger]
        call_ensures(N::single, (scale,), single) && qk_host_result(
            first,
            q.layout,
            k.storage->Host_0,
            k.layout,
            single,
            out,
        );
    let factor = choose|single: N::F32| #[trigger]
        call_ensures(N::single, (scale,), single) && host_scores(
            shape,
            single,
            q,
            packed_k,
            k_scales,
            left,
        );
    let wide = choose|wide: Seq<N::F32>| #[trigger]
        widens::<N>(data, k_scales.layout, wide) && writes_out::<N>(
            bytes,
            wide,
            heads,
            shape.kind,
            dense,
        );
    let wide_q = first->F32_0@;
    lemma_written_cells::<N>(bytes, wide, heads, shape.kind, dense);
    lemma_scores_follow::<N>(
        q.layout.elements(wide_q),
        dense_model::<N>(dense, d),
        heads.ungrouped(),
        rowwise_model::<N>(bytes, wide, d, shape.kind),
        heads,
        single,
        out.data->F32_0@,
    );
    assert(widens::<N>(first, q.layout, q.layout.elements(wide_q)));
    assert(host_scores(shape, single, q, packed_k, k_scales, out));
    assert forall|same: Relation<N::F32>| #[trigger] respected::<N>(same) implies same_tensors(
        same,
        left,
        out,
    ) by {
        lemma_one_tensor::<N>(same, k_scales);
        lemma_same_scores::<N>(
            same,
            shape,
            q,
            packed_k,
            k_scales,
            k_scales,
            factor,
            single,
            left,
            out,
        );
    }
}

/// Packed values are summed as those values written out are: where the call on packed values
/// succeeds, so does the call on dense values, what the second returns is a result of the first,
/// and any two results are related by every relation that the operations respect.
pub proof fn packed_sums_are_dense_sums<N: Scalars>(
    attn_probs: Tensor<N>,
    packed_v: Tensor<N>,
    v_scales: Tensor<N>,
    shape: RowwiseShape,
    v: Tensor<N>,
    left: HostTensor<N>,
    right: Result<Outcome<N>, DenseError>,
)
    requires
        is_written_out(attn_probs.shape(), packed_v, v_scales, shape, v),
        rowwise_sum_outcome(attn_probs, packed_v, v_scales, shape, Ok(Outcome::Host(left))),
        sum_outcome(attn_probs, v, right),
    ensures
        right matches Ok(Outcome::Host(out)) && {
            &&& rowwise_sum_outcome(attn_probs, packed_v, v_scales, shape, Ok(Outcome::Host(out)))
            &&& forall|same: Relation<N::F32>| #[trigger]
                respected::<N>(same) ==> same_tensors(same, left, out)
        },
{
    let heads = shape.heads(attn_probs.shape()[0], attn_probs.shape()[1]);
    let d = shape.head_dim as int;
    let first = attn_probs.storage->Host_0;
    let data = v_scales.storage->Host_0;
    let bytes = packed_v.layout.elements(packed_v.storage->Host_0->U8_0@);
    let dense = v.layout.elements(v.storage->Host_0->F32_0@);
    assert(heads.grouped());
    assert(heads.ungrouped() == dense_heads(
        attn_probs.shape()[0],
        attn_probs.shape()[1],
        attn_probs.shape()[2],
        v.shape()[3],
    ));
    let out = right->Ok_0->Host_0;
    assert(sum_host_result(first, attn_probs.layout, v.storage->Host_0, v.layout, out));
    let wide = choose|wide: Seq<N::F32>| #[trigger]
        widens::<N>(data, v_scales.layout, wide) && writes_out::<N>(
            bytes,
            wide,
            heads,
            shape.kind,
            dense,
        );
    let weights = attn_probs.layout.elements(first->F32_0@);
    lemma_written_cells::<N>(bytes, wide, heads, shape.kind, dense);
    lemma_weighted_sums_follow::<N>(
        weights,
        dense_model::<N>(dense, d),
        heads.ungrouped(),
        rowwise_model::<N>(bytes, wide, d, shape.kind),
        heads,
        out.data->F32_0@,
    );
    assert(widens::<N>(first, attn_probs.layout, weights));
    assert(host_sums(shape, attn_probs, packed_v, v_scales, out));
    assert forall|same: Relation<N::F32>| #[trigger] respected::<N>(same) implies same_tensors(
        same,
        left,
        out,
    ) by {
        lemma_one_tensor::<N>(same, v_scales);
        lemma_same_weighted_sums::<N>(
            same,
            shape,
            attn_probs,
            packed_v,
            v_scales,
            v_scales,
            left,
            out,
        );
    }
}

/// Two calls on the host are refused for one reason, or return related tensors.
pub open spec fn same_outcomes<N: Scalars>(
    same: Relation<N::F32>,
    left: Result<Outcome<N>, RowwiseError>,
    right: Result<Outcome<N>, RowwiseError>,
) -> bool {
    match (left, right) {
        (Ok(Outcome::Host(a)), Ok(Outcome::Host(b))) => same_tensors(same, a, b),
        (Err(a), Err(b)) => a == b,
        _ => false,
    }
}

/// Keys with scales in half precision are scored as with those scales brought to single
/// precision: what the second call returns is a result of the first, and any two results are
/// related by every relation that the operations respect.
pub proof fn half_scales_score_as_single_scales<N: Scalars>(
    q: Tensor<N>,
    packed_k: Tensor<N>,
    half: Tensor<N>,
    wide: Tensor<N>,
    shape: RowwiseShape,
    scale: N::F64,
    left: Result<Outcome<N>, RowwiseError>,
    right: Result<Outcome<N>, RowwiseError>,
)
    requires
        is_widened(half, wide),
        half.layout.contiguous() == wide.layout.contiguous(),
        rowwise_qk_outcome(q, packed_k, half, shape, scale, left),
        rowwise_qk_outcome(q, packed_k, wide, shape, scale, right),
    ensures
        rowwise_qk_outcome(q, packed_k, half, shape, scale, right),
        forall|same: Relation<N::F32>| #[trigger]
            respected::<N>(same) ==> same_outcomes(same, left, right),
{
    if let Ok(Outcome::Host(b)) = right {
        let a = left->Ok_0->Host_0;
        let here = choose|single: N::F32| #[trigger]
            call_ensures(N::single, (scale,), single) && host_scores(
                shape,
                single,
                q,
                packed_k,
                half,
                a,
            );
        let there = choose|single: N::F32| #[trigger]
            call_ensures(N::single, (scale,), single) && host_scores(
                shape,
                single,
                q,
                packed_k,
                wide,
                b,
            );
        assert(host_scores(shape, there, q, packed_k, half, b)) by {
            let data = wide.storage->Host_0;
            assert forall|numbers: Seq<N::F32>| #[trigger]
                widens::<N>(data, wide.layout, numbers) implies widens::<N>(
                half.storage->Host_0,
                half.layout,
                numbers,
            ) by {}
        }
        assert forall|same: Relation<N::F32>| #[trigger] respected::<N>(same) implies same_outcomes(
            same,
            left,
            right,
        ) by {
            lemma_widened_tensor::<N>(same, half, wide);
            lemma_same_scores::<N>(same, shape, q, packed_k, half, wide, here, there, a, b);
        }
    }
}

/// Values with scales in half precision are summed as with those scales brought to single
/// precision: what the second call returns is a result of the first, and any two results are
/// related by every relation that the operations respect.
pub proof fn half_scales_sum_as_single_scales<N: Scalars>(
    attn_probs: Tensor<N>,
    packed_v: Tensor<N>,
    half: Tensor<N>,
    wide: Tensor<N>,
    shape: RowwiseShape,
    left: Result<Outcome<N>, RowwiseError>,
    right: Result<Outcome<N>, RowwiseError>,
)
    requires
        is_widened(half, wide),
        half.layout.contiguous() == wide.layout.contiguous(),
        rowwise_sum_outcome(attn_probs, packed_v, half, shape, left),
        rowwise_sum_outcome(attn_probs, packed_v, wide, shape, right),
    ensures
        rowwise_sum_outcome(attn_probs, packed_v, half, shape, right),
        forall|same: Relation<N::F32>| #[trigger]
            respected::<N>(same) ==> same_outcomes(same, left, right),
{
    if let Ok(Outcome::Host(b)) = right {
        let a = left->Ok_0->Host_0;
        assert(host_sums(shape, attn_probs, packed_v, half, a));
        assert(host_sums(shape, attn_probs, packed_v, wide, b));
        assert(host_sums(shape, attn_probs, packed_v, half, b)) by {
            let data = wide.storage->Host_0;
            assert forall|numbers: Seq<N::F32>| #[trigger]
                widens::<N>(data, wide.layout, numbers) implies widens::<N>(
                half.storage->Host_0,
                half.layout,
                numbers,
            ) by {}
        }
        assert forall|same: Relation<N::F32>| #[trigger] respected::<N>(same) implies same_outcomes(
            same,
            left,
            right,
        ) by {
            lemma_widened_tensor::<N>(same, half, wide);
            lemma_same_weighted_sums::<N>(same, shape, attn_probs, packed_v, half, wide, a, b);
        }
    }
}

} // verus!
