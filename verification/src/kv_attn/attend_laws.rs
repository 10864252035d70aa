//! Scores and weighted sums over caches that hold the same values, however they are stored.
use crate::arith::lemma_place;
use crate::kv_attn::attend::{
    dequantizes, dense_model, rowwise_model, score_at, score_steps, scores, sum_at, weight_steps,
    weighted_sums, CellModel,
};
use crate::kv_attn::codes::{code_at, RowwiseQuantKind};
use crate::kv_attn::heads::{rows_in_cache, ungrouped_rows_in_order, Heads};
use crate::relation::{
    all_same, lemma_same_product, lemma_same_sums, respected, steps_agree, Relation,
};
use crate::scalar::{accumulates, accumulates_mono, adds_product, Scalars};
use vstd::prelude::*;

verus! {

/// Queries of one shape over as many tokens, whatever the heads of the caches.
pub open spec fn same_queries(left: Heads, right: Heads) -> bool {
    &&& left.batch == right.batch
    &&& left.full_heads == right.full_heads
    &&& left.tokens == right.tokens
    &&& left.head_dim == right.head_dim
}

/// What `left` may hold where a query row reads it, `right` may hold there.
pub open spec fn cells_follow<F>(
    left: CellModel<F>,
    left_heads: Heads,
    right: CellModel<F>,
    right_heads: Heads,
) -> bool {
    forall|query: int, token: int, col: int, value: F| #[trigger]
        left(left_heads.cache_row(query, token), col, value) && 0 <= query
            < left_heads.query_rows() && 0 <= token < left_heads.tokens && 0 <= col
            < left_heads.head_dim ==> right(right_heads.cache_row(query, token), col, value)
}

/// What the two caches hold where a query row reads them is related.
pub open spec fn cells_agree<F>(
    same: Relation<F>,
    left: CellModel<F>,
    left_heads: Heads,
    right: CellModel<F>,
    right_heads: Heads,
) -> bool {
    forall|query: int, token: int, col: int, a: F, b: F|
        #![trigger left(left_heads.cache_row(query, token), col, a), right(
            right_heads.cache_row(query, token),
            col,
            b,
        )]
        0 <= query < left_heads.query_rows() && 0 <= token < left_heads.tokens && 0 <= col
            < left_heads.head_dim && left(left_heads.cache_row(query, token), col, a) && right(
            right_heads.cache_row(query, token),
            col,
            b,
        ) ==> same(a, b)
}

/// Where cells follow, scores do.
pub proof fn lemma_scores_follow<N: Scalars>(
    q: Seq<N::F32>,
    left: CellModel<N::F32>,
    left_heads: Heads,
    right: CellModel<N::F32>,
    right_heads: Heads,
    scale: N::F32,
    out: Seq<N::F32>,
)
    requires
        same_queries(left_heads, right_heads),
        cells_follow(left, left_heads, right, right_heads),
        scores::<N>(q, left, left_heads, scale, out),
    ensures
        scores::<N>(q, right, right_heads, scale, out),
{
    let heads = left_heads;
    assert forall|query: int, token: int|
        0 <= query < right_heads.query_rows() && 0 <= token
            < right_heads.tokens implies #[trigger] score_at::<N>(
        q,
        right,
        right_heads,
        scale,
        query,
        token,
        out,
    ) by {
        assert(score_at::<N>(q, left, left_heads, scale, query, token, out));
        let base = query * heads.head_dim;
        let n = heads.head_dim as nat;
        let here = score_steps::<N>(q, base, left, left_heads.cache_row(query, token));
        let there = score_steps::<N>(q, base, right, right_heads.cache_row(query, token));
        let acc = choose|acc: N::F32| #[trigger]
            accumulates::<N>(here, n, acc) && call_ensures(
                N::times,
                (acc, scale),
                out[query * heads.tokens + token],
            );
        assert forall|i: int, from: N::F32, to: N::F32|
            0 <= i < n && #[trigger] here(i, from, to) implies there(i, from, to) by {
            let value = choose|value: N::F32| #[trigger]
                left(left_heads.cache_row(query, token), i, value) && adds_product::<N>(
                    q[base + i],
                    value,
                    from,
                    to,
                );
            assert(right(right_heads.cache_row(query, token), i, value));
        }
        accumulates_mono::<N>(here, there, n, acc);
        assert(accumulates::<N>(
            score_steps::<N>(
                q,
                query * right_heads.head_dim,
                right,
                right_heads.cache_row(query, token),
            ),
            right_heads.head_dim as nat,
            acc,
        ));
    }
}

/// Where cells follow, weighted sums do.
pub proof fn lemma_weighted_sums_follow<N: Scalars>(
    weights: Seq<N::F32>,
    left: CellModel<N::F32>,
    left_heads: Heads,
    right: CellModel<N::F32>,
    right_heads: Heads,
    out: Seq<N::F32>,
)
    requires
        same_queries(left_heads, right_heads),
        cells_follow(left, left_heads, right, right_heads),
        weighted_sums::<N>(weights, left, left_heads, out),
    ensures
        weighted_sums::<N>(weights, right, right_heads, out),
{
    let heads = left_heads;
    assert forall|query: int, dim: int|
        0 <= query < right_heads.query_rows() && 0 <= dim
            < right_heads.head_dim implies #[trigger] sum_at::<N>(
        weights,
        right,
        right_heads,
        query,
        dim,
        out,
    ) by {
        assert(sum_at::<N>(weights, left, left_heads, query, dim, out));
        let n = heads.tokens as nat;
        let here = weight_steps::<N>(weights, left, left_heads, query, dim);
        let there = weight_steps::<N>(weights, right, right_heads, query, dim);
        assert forall|token: int, from: N::F32, to: N::F32|
            0 <= token < n && #[trigger] here(token, from, to) implies there(token, from, to) by {
            let value = choose|value: N::F32| #[trigger]
                left(left_heads.cache_row(query, token), dim, value) && adds_product::<N>(
                    weights[query * heads.tokens + token],
                    value,
                    from,
                    to,
                );
            assert(right(right_heads.cache_row(query, token), dim, value));
        }
        accumulates_mono::<N>(here, there, n, out[query * heads.head_dim + dim]);
    }
}

/// Scores of related queries, over caches that hold related values, are related.
pub proof fn scores_of_related_caches<N: Scalars>(
    same: Relation<N::F32>,
    left_q: Seq<N::F32>,
    right_q: Seq<N::F32>,
    left: CellModel<N::F32>,
    left_heads: Heads,
    right: CellModel<N::F32>,
    right_heads: Heads,
    left_scale: N::F32,
    right_scale: N::F32,
    left_out: Seq<N::F32>,
    right_out: Seq<N::F32>,
)
    requires
        respected::<N>(same),
        same_queries(left_heads, right_heads),
        left_q.len() == left_heads.query_rows() * left_heads.head_dim,
        all_same(same, left_q, right_q),
        same(left_scale, right_scale),
        cells_agree(same, left, left_heads, right, right_heads),
        scores::<N>(left_q, left, left_heads, left_scale, left_out),
        scores::<N>(right_q, right, right_heads, right_scale, right_out),
    ensures
        all_same(same, left_out, right_out),
{
    let heads = left_heads;
    let tokens = heads.tokens as int;
    let d = heads.head_dim as int;
    assert forall|i: int| 0 <= i < left_out.len() implies same(
        #[trigger] left_out[i],
        right_out[i],
    ) by {
        lemma_place(i, heads.query_rows(), tokens);
        let query = i / tokens;
        let token = i % tokens;
        assert(score_at::<N>(left_q, left, left_heads, left_scale, query, token, left_out));
        assert(score_at::<N>(right_q, right, right_heads, right_scale, query, token, right_out));
        let base = query * d;
        let n = d as nat;
        let here = score_steps::<N>(left_q, base, left, left_heads.cache_row(query, token));
        let there = score_steps::<N>(right_q, base, right, right_heads.cache_row(query, token));
        let a = choose|acc: N::F32| #[trigger]
            accumulates::<N>(here, n, acc) && call_ensures(
                N::times,
                (acc, left_scale),
                left_out[query * tokens + token],
            );
        let b = choose|acc: N::F32| #[trigger]
            accumulates::<N>(there, n, acc) && call_ensures(
                N::times,
                (acc, right_scale),
                right_out[query * tokens + token],
            );
        assert(steps_agree::<N>(same, here, there, n)) by {
            assert forall|k: int, from: N::F32, to: N::F32, other: N::F32, next: N::F32|
                #![trigger here(k, from, to), there(k, other, next)]
                0 <= k < n && same(from, other) && here(k, from, to) && there(
                    k,
                    other,
                    next,
                ) implies same(to, next) by {
                let v = choose|value: N::F32| #[trigger]
                    left(left_heads.cache_row(query, token), k, value) && adds_product::<N>(
                        left_q[base + k],
                        value,
                        from,
                        to,
                    );
                let w = choose|value: N::F32| #[trigger]
                    right(right_heads.cache_row(query, token), k, value) && adds_product::<N>(
                        right_q[base + k],
                        value,
                        other,
                        next,
                    );
                assert(same(v, w));
                assert(0 <= base + k < heads.query_rows() * d) by (nonlinear_arith)
                    requires
                        base == query * d,
                        0 <= query < heads.query_rows(),
                        0 <= k < d,
                ;
                assert(same(left_q[base + k], right_q[base + k]));
                lemma_same_product::<N>(
                    same,
                    left_q[base + k],
                    v,
                    from,
                    to,
                    right_q[base + k],
                    w,
                    other,
                    next,
                );
            }
        }
        lemma_same_sums::<N>(same, here, there, n, a, b);
    }
}

/// Weighted sums with related weights, over caches that hold related values, are related.
pub proof fn sums_of_related_caches<N: Scalars>(
    same: Relation<N::F32>,
    left_weights: Seq<N::F32>,
    right_weights: Seq<N::F32>,
    left: CellModel<N::F32>,
    left_heads: Heads,
    right: CellModel<N::F32>,
    right_heads: Heads,
    left_out: Seq<N::F32>,
    right_out: Seq<N::F32>,
)
    requires
        respected::<N>(same),
        same_queries(left_heads, right_heads),
        left_weights.len() == left_heads.query_rows() * left_heads.tokens,
        all_same(same, left_weights, right_weights),
        cells_agree(same, left, left_heads, right, right_heads),
        weighted_sums::<N>(left_weights, left, left_heads, left_out),
        weighted_sums::<N>(right_weights, right, right_heads, right_out),
    ensures
        all_same(same, left_out, right_out),
{
    let heads = left_heads;
    let tokens = heads.tokens as int;
    let d = heads.head_dim as int;
    assert forall|i: int| 0 <= i < left_out.len() implies same(
        #[trigger] left_out[i],
        right_out[i],
    ) by {
        lemma_place(i, heads.query_rows(), d);
        let query = i / d;
        let dim = i % d;
        assert(sum_at::<N>(left_weights, left, left_heads, query, dim, left_out));
        assert(sum_at::<N>(right_weights, right, right_heads, query, dim, right_out));
        let n = tokens as nat;
        let here = weight_steps::<N>(left_weights, left, left_heads, query, dim);
        let there = weight_steps::<N>(right_weights, right, right_heads, query, dim);
        assert(steps_agree::<N>(same, here, there, n)) by {
            assert forall|k: int, from: N::F32, to: N::F32, other: N::F32, next: N::F32|
                #![trigger here(k, from, to), there(k, other, next)]
                0 <= k < n && same(from, other) && here(k, from, to) && there(
                    k,
                    other,
                    next,
                ) implies same(to, next) by {
                let place = query * tokens + k;
                let v = choose|value: N::F32| #[trigger]
                    left(left_heads.cache_row(query, k), dim, value) && adds_product::<N>(
                        left_weights[place],
                        value,
                        from,
                        to,
                    );
                let w = choose|value: N::F32| #[trigger]
                    right(right_heads.cache_row(query, k), dim, value) && adds_product::<N>(
                        right_weights[place],
                        value,
                        other,
                        next,
                    );
                assert(same(v, w));
                assert(0 <= place < heads.query_rows() * tokens) by (nonlinear_arith)
                    requires
                        place == query * tokens + k,
                        0 <= query < heads.query_rows(),
                        0 <= k < tokens,
                ;
                assert(same(left_weights[place], right_weights[place]));
                lemma_same_product::<N>(
                    same,
                    left_weights[place],
                    v,
                    from,
                    to,
                    right_weights[place],
                    w,
                    other,
                    next,
                );
            }
        }
        lemma_same_sums::<N>(same, here, there, n, left_out[i], right_out[i]);
    }
}

/// Small integers under related scales stand for related numbers.
pub proof fn lemma_packed_cells_agree<N: Scalars>(
    same: Relation<N::F32>,
    packed: Seq<u8>,
    left_scales: Seq<N::F32>,
    right_scales: Seq<N::F32>,
    heads: Heads,
    kind: RowwiseQuantKind,
)
    requires
        respected::<N>(same),
        heads.grouped(),
        left_scales.len() == heads.cache_rows(),
        all_same(same, left_scales, right_scales),
    ensures
        cells_agree(
            same,
            rowwise_model::<N>(packed, left_scales, heads.head_dim as int, kind),
            heads,
            rowwise_model::<N>(packed, right_scales, heads.head_dim as int, kind),
            heads,
        ),
{
    let d = heads.head_dim as int;
    let left = rowwise_model::<N>(packed, left_scales, d, kind);
    let right = rowwise_model::<N>(packed, right_scales, d, kind);
    assert forall|query: int, token: int, col: int, a: N::F32, b: N::F32|
        #![trigger left(heads.cache_row(query, token), col, a), right(
            heads.cache_row(query, token),
            col,
            b,
        )]
        0 <= query < heads.query_rows() && 0 <= token < heads.tokens && 0 <= col < heads.head_dim
            && left(heads.cache_row(query, token), col, a) && right(
            heads.cache_row(query, token),
            col,
            b,
        ) implies same(a, b) by {
        rows_in_cache(heads, query, token);
        lemma_same_value::<N>(
            same,
            packed,
            left_scales,
            right_scales,
            heads.cache_row(query, token),
            col,
            d,
            kind,
            a,
            b,
        );
    }
}

/// One small integer under related scales stands for related numbers.
proof fn lemma_same_value<N: Scalars>(
    same: Relation<N::F32>,
    packed: Seq<u8>,
    left_scales: Seq<N::F32>,
    right_scales: Seq<N::F32>,
    row: int,
    col: int,
    head_dim: int,
    kind: RowwiseQuantKind,
    a: N::F32,
    b: N::F32,
)
    requires
        respected::<N>(same),
        0 <= row < left_scales.len(),
        all_same(same, left_scales, right_scales),
        dequantizes::<N>(packed, left_scales, row, col, head_dim, kind, a),
        dequantizes::<N>(packed, right_scales, row, col, head_dim, kind, b),
    ensures
        same(a, b),
{
    let code = code_at(packed, row, col, head_dim, kind) as i32;
    let n = choose|number: N::F32| #[trigger]
        call_ensures(N::from_i32, (code,), number) && call_ensures(
            N::times,
            (number, left_scales[row]),
            a,
        );
    let m = choose|number: N::F32| #[trigger]
        call_ensures(N::from_i32, (code,), number) && call_ensures(
            N::times,
            (number, right_scales[row]),
            b,
        );
    assert(same(n, m));
    assert(same(left_scales[row], right_scales[row]));
}

/// `dense` is the cache of small integers written out: one row of numbers per query row and
/// token.
pub open spec fn writes_out<N: Scalars>(
    packed: Seq<u8>,
    scales: Seq<N::F32>,
    heads: Heads,
    kind: RowwiseQuantKind,
    dense: Seq<N::F32>,
) -> bool {
    forall|query: int, token: int, col: int|
        #![trigger dense[(query * heads.tokens + token) * heads.head_dim + col]]
        0 <= query < heads.query_rows() && 0 <= token < heads.tokens && 0 <= col < heads.head_dim
            ==> dequantizes::<N>(
            packed,
            scales,
            heads.cache_row(query, token),
            col,
            heads.head_dim as int,
            kind,
            dense[(query * heads.tokens + token) * heads.head_dim + col],
        )
}

/// The numbers written out are numbers that the packed cache may hold.
pub proof fn lemma_written_cells<N: Scalars>(
    packed: Seq<u8>,
    scales: Seq<N::F32>,
    heads: Heads,
    kind: RowwiseQuantKind,
    dense: Seq<N::F32>,
)
    requires
        heads.grouped(),
        writes_out::<N>(packed, scales, heads, kind, dense),
    ensures
        cells_follow(
            dense_model::<N>(dense, heads.head_dim as int),
            heads.ungrouped(),
            rowwise_model::<N>(packed, scales, heads.head_dim as int, kind),
            heads,
        ),
{
    let d = heads.head_dim as int;
    let wide = heads.ungrouped();
    let many = dense_model::<N>(dense, d);
    let few = rowwise_model::<N>(packed, scales, d, kind);
    assert forall|query: int, token: int, col: int, value: N::F32| #[trigger]
        many(wide.cache_row(query, token), col, value) && 0 <= query < wide.query_rows() && 0
            <= token < wide.tokens && 0 <= col < wide.head_dim implies few(
        heads.cache_row(query, token),
        col,
        value,
    ) by {
        ungrouped_rows_in_order(heads, query, token);
        assert(value == dense[(query * heads.tokens + token) * heads.head_dim + col]);
    }
}

} // verus!
