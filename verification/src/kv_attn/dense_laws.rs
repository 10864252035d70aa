//! What attention over numbers computes, and that every head is attended to on its own.
use crate::arith::lemma_pair;
use crate::exact::{lemma_product_exactly, lemma_read_exactly, lemma_sum_exactly, Reading};
use crate::host::{widens, widens_bf16, widens_f16};
use crate::kv_attn::attend::{
    dense_model, score_at, score_steps, scores, sum_at, weight_steps, weighted_sums,
};
use crate::kv_attn::dense::{
    dense_heads, qk_host_result, qk_outcome, sum_host_result, sum_outcome,
};
use crate::kv_attn::heads::ungrouped_rows_in_order;
use crate::launch::Outcome;
use crate::layout::{lemma_contiguous_place, lemma_rank_3, lemma_rank_4};
use crate::scalar::{accumulates, accumulates_mono, adds_product, Scalars};
use crate::tensor::{HostData, HostTensor, HostVec, Storage, Tensor};
use vstd::prelude::*;

verus! {

/// `left[from] * right[other] + left[from + 1] * right[other + 1] + ..`, `n` products.
pub open spec fn dot<N: Scalars>(
    r: Reading<N>,
    left: Tensor<N>,
    from: int,
    right: Tensor<N>,
    other: int,
    n: int,
) -> real
    decreases n,
{
    if n <= 0 {
        0real
    } else {
        dot(r, left, from, right, other, n - 1) + r.at(left, from + n - 1) * r.at(
            right,
            other + n - 1,
        )
    }
}

/// `weights[from] * v[place] + weights[from + 1] * v[place + step] + ..`, `n` products.
pub open spec fn weighted<N: Scalars>(
    r: Reading<N>,
    weights: Tensor<N>,
    from: int,
    v: Tensor<N>,
    place: int,
    step: int,
    n: int,
) -> real
    decreases n,
{
    if n <= 0 {
        0real
    } else {
        weighted(r, weights, from, v, place, step, n - 1) + r.at(weights, from + n - 1) * r.at(
            v,
            place + (n - 1) * step,
        )
    }
}

/// The score of head `h` of batch entry `b` and token `t` is the scale times the product of the
/// query of that entry and head, and of the key of that entry, head and token. The scale comes last.
pub proof fn scores_are_scaled_products<N: Scalars>(
    r: Reading<N>,
    q: Tensor<N>,
    k: Tensor<N>,
    scale: N::F64,
    out: HostTensor<N>,
    b: int,
    h: int,
    t: int,
)
    requires
        r.is_exact(),
        qk_outcome(q, k, scale, Ok(Outcome::Host(out))),
        0 <= b < q.shape()[0],
        0 <= h < q.shape()[1],
        0 <= t < k.shape()[2],
    ensures
        q.shape().len() == 3,
        k.shape() == seq![q.shape()[0], q.shape()[1], k.shape()[2], q.shape()[2]],
        out.dims@ == seq![q.shape()[0], q.shape()[1], k.shape()[2]],
        out.data matches HostVec::F32(values) && values@.len() == q.shape()[0] * q.shape()[1]
            * k.shape()[2],
        r.of(out, (b * q.shape()[1] + h) * k.shape()[2] + t) == (r.double)(scale) * dot(
            r,
            q,
            (b * q.shape()[1] + h) * q.shape()[2],
            k,
            ((b * q.shape()[1] + h) * k.shape()[2] + t) * q.shape()[2],
            q.shape()[2] as int,
        ),
        exists|acc: N::F32, single: N::F32|
            #![trigger call_ensures(N::single, (scale,), single), call_ensures(
                N::times,
                (acc, single),
                out.data->F32_0@[(b * q.shape()[1] + h) * k.shape()[2] + t],
            )]
            call_ensures(N::single, (scale,), single) && call_ensures(
                N::times,
                (acc, single),
                out.data->F32_0@[(b * q.shape()[1] + h) * k.shape()[2] + t],
            ),
{
    let heads = dense_heads(q.shape()[0], q.shape()[1], k.shape()[2], q.shape()[2]);
    let d = heads.head_dim as int;
    let tokens = heads.tokens as int;
    let query = b * heads.full_heads + h;
    let row = query * tokens + t;
    let values = out.data->F32_0@;
    let qs = q.storage->Host_0;
    let ks = k.storage->Host_0;
    let single = choose|single: N::F32| #[trigger]
        call_ensures(N::single, (scale,), single) && qk_host_result(
            qs,
            q.layout,
            ks,
            k.layout,
            single,
            out,
        );
    let (wide_q, wide_k) = choose|wide_q: Seq<N::F32>, wide_k: Seq<N::F32>|
        #![trigger widens::<N>(qs, q.layout, wide_q), widens::<N>(ks, k.layout, wide_k)]
        widens::<N>(qs, q.layout, wide_q) && widens::<N>(ks, k.layout, wide_k) && scores::<N>(
            wide_q,
            dense_model::<N>(wide_k, d),
            heads,
            single,
            values,
        );
    lemma_pair(b, h, heads.batch as int, heads.full_heads as int);
    lemma_pair(query, t, heads.query_rows(), tokens);
    lemma_rank_3(q.shape());
    lemma_rank_4(k.shape());
    assert(heads.ungrouped() == heads);
    ungrouped_rows_in_order(heads, query, t);
    let cells = dense_model::<N>(wide_k, d);
    assert(score_at::<N>(wide_q, cells, heads, single, query, t, values));
    let steps = score_steps::<N>(wide_q, query * d, cells, row);
    let acc = choose|acc: N::F32| #[trigger]
        accumulates::<N>(steps, d as nat, acc) && call_ensures(
            N::times,
            (acc, single),
            values[row],
        );
    let total = |n: int| dot(r, q, query * d, k, row * d, n);
    assert forall|i: int, from: N::F32, to: N::F32|
        0 <= i < d && #[trigger] steps(i, from, to) implies (r.single)(to) - (r.single)(from)
        == total(i + 1) - total(i) by {
        let value = choose|value: N::F32| #[trigger]
            cells(row, i, value) && adds_product::<N>(wide_q[query * d + i], value, from, to);
        lemma_pair(query, i, heads.query_rows(), d);
        lemma_pair(row, i, heads.query_rows() * tokens, d);
        lemma_read_exactly(r, q, wide_q, query * d + i);
        lemma_read_exactly(r, k, wide_k, row * d + i);
        lemma_product_exactly::<N>(r, wide_q[query * d + i], value, from, to);
    }
    lemma_sum_exactly::<N>(r, steps, total, d as nat, acc);
    assert((r.single)(acc) * (r.single)(single) == (r.single)(single) * (r.single)(acc))
        by (nonlinear_arith);
}

/// Column `d` of the sum of head `h` of batch entry `b` is the sum over the tokens of the
/// probability of that entry, head and token, times column `d` of the value of that entry, head
/// and token.
pub proof fn sums_are_weighted_values<N: Scalars>(
    r: Reading<N>,
    attn_probs: Tensor<N>,
    v: Tensor<N>,
    out: HostTensor<N>,
    b: int,
    h: int,
    d: int,
)
    requires
        r.is_exact(),
        sum_outcome(attn_probs, v, Ok(Outcome::Host(out))),
        0 <= b < attn_probs.shape()[0],
        0 <= h < attn_probs.shape()[1],
        0 <= d < v.shape()[3],
    ensures
        attn_probs.shape().len() == 3,
        v.shape() == attn_probs.shape().push(v.shape()[3]),
        out.dims@ == seq![attn_probs.shape()[0], attn_probs.shape()[1], v.shape()[3]],
        out.data matches HostVec::F32(values) && values@.len() == attn_probs.shape()[0]
            * attn_probs.shape()[1] * v.shape()[3],
        r.of(out, (b * attn_probs.shape()[1] + h) * v.shape()[3] + d) == weighted(
            r,
            attn_probs,
            (b * attn_probs.shape()[1] + h) * attn_probs.shape()[2],
            v,
            ((b * attn_probs.shape()[1] + h) * attn_probs.shape()[2]) * v.shape()[3] + d,
            v.shape()[3] as int,
            attn_probs.shape()[2] as int,
        ),
{
    let dims = attn_probs.shape();
    let heads = dense_heads(dims[0], dims[1], dims[2], v.shape()[3]);
    let cols = heads.head_dim as int;
    let tokens = heads.tokens as int;
    let query = b * heads.full_heads + h;
    let values = out.data->F32_0@;
    let a = attn_probs.storage->Host_0;
    let vs = v.storage->Host_0;
    assert(sum_host_result(a, attn_probs.layout, vs, v.layout, out));
    let (weights, wide) = choose|weights: Seq<N::F32>, wide_v: Seq<N::F32>|
        #![trigger widens::<N>(a, attn_probs.layout, weights), widens::<N>(vs, v.layout, wide_v)]
        widens::<N>(a, attn_probs.layout, weights) && widens::<N>(vs, v.layout, wide_v)
            && weighted_sums::<N>(weights, dense_model::<N>(wide_v, cols), heads, values);
    lemma_pair(b, h, heads.batch as int, heads.full_heads as int);
    lemma_pair(query, d, heads.query_rows(), cols);
    lemma_rank_3(dims);
    lemma_rank_4(v.shape());
    assert(heads.ungrouped() == heads);
    let cells = dense_model::<N>(wide, cols);
    assert(sum_at::<N>(weights, cells, heads, query, d, values));
    let steps = weight_steps::<N>(weights, cells, heads, query, d);
    let place = (query * tokens) * cols + d;
    let total = |n: int| weighted(r, attn_probs, query * tokens, v, place, cols, n);
    assert forall|i: int, from: N::F32, to: N::F32|
        0 <= i < tokens && #[trigger] steps(i, from, to) implies (r.single)(to) - (r.single)(from)
        == total(i + 1) - total(i) by {
        let row = query * tokens + i;
        ungrouped_rows_in_order(heads, query, i);
        let value = choose|value: N::F32| #[trigger]
            cells(heads.cache_row(query, i), d, value) && adds_product::<N>(
                weights[row],
                value,
                from,
                to,
            );
        lemma_pair(query, i, heads.query_rows(), tokens);
        lemma_pair(row, d, heads.query_rows() * tokens, cols);
        lemma_read_exactly(r, attn_probs, weights, row);
        lemma_read_exactly(r, v, wide, row * cols + d);
        assert(row * cols + d == place + i * cols) by (nonlinear_arith)
            requires
                row == query * tokens + i,
                place == (query * tokens) * cols + d,
        ;
        lemma_product_exactly::<N>(r, weights[row], value, from, to);
    }
    lemma_sum_exactly::<N>(r, steps, total, tokens as nat, values[query * cols + d]);
}

/// `part` holds the `n` elements of `whole` from element `start` on, in row-major order and in the
/// same format. Both lie in row-major order.
pub open spec fn holds_part<N: Scalars>(
    part: Tensor<N>,
    whole: Tensor<N>,
    start: int,
    n: int,
) -> bool {
    &&& part.layout.contiguous()
    &&& whole.layout.contiguous()
    &&& part.count() == n
    &&& match (part.storage, whole.storage) {
        (Storage::Host(HostData::F16(p)), Storage::Host(HostData::F16(w))) => forall|i: int|
            0 <= i < n ==> p@[part.layout.start_offset + i] == #[trigger] w@[
            whole.layout.start_offset + start + i],
        (Storage::Host(HostData::BF16(p)), Storage::Host(HostData::BF16(w))) => forall|i: int|
            0 <= i < n ==> p@[part.layout.start_offset + i] == #[trigger] w@[
            whole.layout.start_offset + start + i],
        (Storage::Host(HostData::F32(p)), Storage::Host(HostData::F32(w))) => forall|i: int|
            0 <= i < n ==> p@[part.layout.start_offset + i] == #[trigger] w@[
            whole.layout.start_offset + start + i],
        (Storage::Host(HostData::U8(p)), Storage::Host(HostData::U8(w))) => forall|i: int|
            0 <= i < n ==> p@[part.layout.start_offset + i] == #[trigger] w@[
            whole.layout.start_offset + start + i],
        _ => false,
    }
}

/// The elements of two contiguous layouts, where one storage holds a part of the other.
pub proof fn lemma_part_elements<T>(
    part: crate::layout::Layout,
    p: Seq<T>,
    whole: crate::layout::Layout,
    w: Seq<T>,
    start: int,
    n: int,
)
    requires
        part.contiguous(),
        whole.contiguous(),
        part.count() == n,
        0 <= start,
        start + n <= whole.count(),
        forall|i: int|
            0 <= i < n ==> p[part.start_offset + i] == #[trigger] w[whole.start_offset + start + i],
    ensures
        part.elements(p) == whole.elements(w).subrange(start, start + n),
{
    assert forall|i: int| 0 <= i < n implies part.elements(p)[i] == whole.elements(w).subrange(
        start,
        start + n,
    )[i] by {
        lemma_contiguous_place(part, i);
        lemma_contiguous_place(whole, start + i);
        assert(w[whole.start_offset + start + i] == p[part.start_offset + i]);
    }
    assert(part.elements(p) =~= whole.elements(w).subrange(start, start + n));
}

/// What is read of a part is the part of what is read.
pub proof fn lemma_read_part<N: Scalars>(
    part: Tensor<N>,
    whole: Tensor<N>,
    start: int,
    n: int,
    wide: Seq<N::F32>,
)
    requires
        holds_part(part, whole, start, n),
        0 <= start,
        start + n <= whole.count(),
        widens::<N>(whole.storage->Host_0, whole.layout, wide),
    ensures
        widens::<N>(part.storage->Host_0, part.layout, wide.subrange(start, start + n)),
        wide.len() == whole.count(),
{
    let cut = wide.subrange(start, start + n);
    match (part.storage, whole.storage) {
        (Storage::Host(HostData::F16(p)), Storage::Host(HostData::F16(w))) => {
            lemma_part_elements(part.layout, p@, whole.layout, w@, start, n);
            let stored = whole.layout.elements(w@);
            assert(widens_f16::<N>(stored, wide));
            assert forall|i: int| 0 <= i < n implies call_ensures(
                N::widen_f16,
                (stored.subrange(start, start + n)[i],),
                #[trigger] cut[i],
            ) by {
                assert(call_ensures(N::widen_f16, (stored[start + i],), wide[start + i]));
            }
        },
        (Storage::Host(HostData::BF16(p)), Storage::Host(HostData::BF16(w))) => {
            lemma_part_elements(part.layout, p@, whole.layout, w@, start, n);
            let stored = whole.layout.elements(w@);
            assert(widens_bf16::<N>(stored, wide));
            assert forall|i: int| 0 <= i < n implies call_ensures(
                N::widen_bf16,
                (stored.subrange(start, start + n)[i],),
                #[trigger] cut[i],
            ) by {
                assert(call_ensures(N::widen_bf16, (stored[start + i],), wide[start + i]));
            }
        },
        (Storage::Host(HostData::F32(p)), Storage::Host(HostData::F32(w))) => {
            lemma_part_elements(part.layout, p@, whole.layout, w@, start, n);
        },
        (Storage::Host(HostData::U8(p)), Storage::Host(HostData::U8(w))) => {
            lemma_part_elements(part.layout, p@, whole.layout, w@, start, n);
            let stored = whole.layout.elements(w@);
            assert forall|i: int| 0 <= i < n implies call_ensures(
                N::from_i32,
                (stored.subrange(start, start + n)[i] as i32,),
                #[trigger] cut[i],
            ) by {
                assert(call_ensures(N::from_i32, (stored[start + i] as i32,), wide[start + i]));
            }
        },
        _ => {},
    }
}

/// `part` holds the `n` numbers of `whole` from number `start` on.
pub open spec fn is_part<N: Scalars>(
    part: HostTensor<N>,
    whole: HostTensor<N>,
    start: int,
    n: int,
) -> bool {
    part.data matches HostVec::F32(p) && whole.data matches HostVec::F32(w) && p@ == w@.subrange(
        start,
        start + n,
    )
}

/// Every head is scored on its own: the scores of head `h` of batch entry `b` are scores of the
/// query of that entry and head, alone, and the keys of that entry and head, alone.
pub proof fn heads_are_scored_alone<N: Scalars>(
    q: Tensor<N>,
    k: Tensor<N>,
    scale: N::F64,
    out: HostTensor<N>,
    b: int,
    h: int,
    one_q: Tensor<N>,
    one_k: Tensor<N>,
    one_out: HostTensor<N>,
)
    requires
        qk_outcome(q, k, scale, Ok(Outcome::Host(out))),
        0 <= b < q.shape()[0],
        0 <= h < q.shape()[1],
        one_q.shape() == seq![1usize, 1usize, q.shape()[2]],
        one_k.shape() == seq![1usize, 1usize, k.shape()[2], q.shape()[2]],
        one_out.dims@ == seq![1usize, 1usize, k.shape()[2]],
        holds_part(one_q, q, (b * q.shape()[1] + h) * q.shape()[2], q.shape()[2] as int),
        holds_part(
            one_k,
            k,
            (b * q.shape()[1] + h) * (k.shape()[2] * q.shape()[2]),
            k.shape()[2] * q.shape()[2],
        ),
        is_part(
            one_out,
            out,
            (b * q.shape()[1] + h) * k.shape()[2],
            k.shape()[2] as int,
        ),
    ensures
        qk_outcome(one_q, one_k, scale, Ok(Outcome::Host(one_out))),
{
    let heads = dense_heads(q.shape()[0], q.shape()[1], k.shape()[2], q.shape()[2]);
    let one = dense_heads(1, 1, k.shape()[2], q.shape()[2]);
    let d = heads.head_dim as int;
    let tokens = heads.tokens as int;
    let query = b * heads.full_heads + h;
    let values = out.data->F32_0@;
    let qs = q.storage->Host_0;
    let ks = k.storage->Host_0;
    let single = choose|single: N::F32| #[trigger]
        call_ensures(N::single, (scale,), single) && qk_host_result(
            qs,
            q.layout,
            ks,
            k.layout,
            single,
            out,
        );
    let (wide_q, wide_k) = choose|wide_q: Seq<N::F32>, wide_k: Seq<N::F32>|
        #![trigger widens::<N>(qs, q.layout, wide_q), widens::<N>(ks, k.layout, wide_k)]
        widens::<N>(qs, q.layout, wide_q) && widens::<N>(ks, k.layout, wide_k) && scores::<N>(
            wide_q,
            dense_model::<N>(wide_k, d),
            heads,
            single,
            values,
        );
    lemma_pair(b, h, heads.batch as int, heads.full_heads as int);
    lemma_rank_3(q.shape());
    lemma_rank_4(k.shape());
    let rows = heads.query_rows();
    lemma_block(query, rows, d);
    lemma_block(query, rows, tokens * d);
    lemma_block(query, rows, tokens);
    assert(rows * (tokens * d) == (rows * tokens) * d) by (nonlinear_arith);
    assert(query * (tokens * d) == (query * tokens) * d) by (nonlinear_arith);
    lemma_read_part(one_q, q, query * d, d, wide_q);
    lemma_read_part(one_k, k, query * (tokens * d), tokens * d, wide_k);
    let one_wide_q = wide_q.subrange(query * d, query * d + d);
    let one_wide_k = wide_k.subrange(
        query * (tokens * d),
        query * (tokens * d) + tokens * d,
    );
    let one_values = one_out.data->F32_0@;
    assert(heads.ungrouped() == heads && one.ungrouped() == one);
    assert(one.query_rows() == 1) by (nonlinear_arith)
        requires
            one.query_rows() == one.batch * one.full_heads,
            one.batch == 1,
            one.full_heads == 1,
    ;
    assert(scores::<N>(one_wide_q, dense_model::<N>(one_wide_k, d), one, single, one_values)) by {
        assert(one.query_rows() * one.tokens == tokens) by (nonlinear_arith)
            requires
                one.query_rows() == 1,
                one.tokens == tokens,
        ;
        assert forall|row: int, t: int|
            0 <= row < one.query_rows() && 0 <= t < one.tokens implies #[trigger] score_at::<N>(
            one_wide_q,
            dense_model::<N>(one_wide_k, d),
            one,
            single,
            row,
            t,
            one_values,
        ) by {
            assert(row == 0);
            ungrouped_rows_in_order(heads, query, t);
            ungrouped_rows_in_order(one, 0, t);
            let cells = dense_model::<N>(wide_k, d);
            let one_cells = dense_model::<N>(one_wide_k, d);
            assert(score_at::<N>(wide_q, cells, heads, single, query, t, values));
            let place = query * tokens + t;
            let here = score_steps::<N>(wide_q, query * d, cells, place);
            let there = score_steps::<N>(one_wide_q, 0, one_cells, t);
            let acc = choose|acc: N::F32| #[trigger]
                accumulates::<N>(here, d as nat, acc) && call_ensures(
                    N::times,
                    (acc, single),
                    values[place],
                );
            assert forall|i: int, from: N::F32, to: N::F32|
                0 <= i < d as nat && #[trigger] here(i, from, to) implies there(i, from, to) by {
                let value = choose|value: N::F32| #[trigger]
                    cells(place, i, value) && adds_product::<N>(
                        wide_q[query * d + i],
                        value,
                        from,
                        to,
                    );
                lemma_pair(t, i, tokens, d);
                assert(place * d + i == query * (tokens * d) + (t * d + i)) by (nonlinear_arith)
                    requires
                        place == query * tokens + t,
                ;
                assert(one_cells(t, i, value));
            }
            accumulates_mono::<N>(here, there, d as nat, acc);
            assert(0 * one.head_dim == 0) by (nonlinear_arith);
            assert(one_values[0 * one.tokens + t] == values[place]);
            assert(accumulates::<N>(
                score_steps::<N>(one_wide_q, 0 * one.head_dim, one_cells, one.cache_row(0, t)),
                one.head_dim as nat,
                acc,
            ));
        }
    }
    assert(qk_host_result(
        one_q.storage->Host_0,
        one_q.layout,
        one_k.storage->Host_0,
        one_k.layout,
        single,
        one_out,
    ));
}

/// A block of a whole number of blocks lies within them.
pub proof fn lemma_block(i: int, n: int, size: int)
    requires
        0 <= i < n,
        0 <= size,
    ensures
        0 <= i * size,
        i * size + size <= n * size,
{
    assert(0 <= i * size && i * size + size <= n * size) by (nonlinear_arith)
        requires
            0 <= i,
            i + 1 <= n,
            0 <= size,
    ;
}

/// Every head is summed on its own: the sums of head `h` of batch entry `b` are sums of the
/// probabilities of that entry and head, alone, and the values of that entry and head, alone.
pub proof fn heads_are_summed_alone<N: Scalars>(
    attn_probs: Tensor<N>,
    v: Tensor<N>,
    out: HostTensor<N>,
    b: int,
    h: int,
    one_attn: Tensor<N>,
    one_v: Tensor<N>,
    one_out: HostTensor<N>,
)
    requires
        sum_outcome(attn_probs, v, Ok(Outcome::Host(out))),
        0 <= b < attn_probs.shape()[0],
        0 <= h < attn_probs.shape()[1],
        one_attn.shape() == seq![1usize, 1usize, attn_probs.shape()[2]],
        one_v.shape() == seq![1usize, 1usize, attn_probs.shape()[2], v.shape()[3]],
        one_out.dims@ == seq![1usize, 1usize, v.shape()[3]],
        holds_part(
            one_attn,
            attn_probs,
            (b * attn_probs.shape()[1] + h) * attn_probs.shape()[2],
            attn_probs.shape()[2] as int,
        ),
        holds_part(
            one_v,
            v,
            (b * attn_probs.shape()[1] + h) * (attn_probs.shape()[2] * v.shape()[3]),
            attn_probs.shape()[2] * v.shape()[3],
        ),
        is_part(
            one_out,
            out,
            (b * attn_probs.shape()[1] + h) * v.shape()[3],
            v.shape()[3] as int,
        ),
    ensures
        sum_outcome(one_attn, one_v, Ok(Outcome::Host(one_out))),
{
    let dims = attn_probs.shape();
    let heads = dense_heads(dims[0], dims[1], dims[2], v.shape()[3]);
    let one = dense_heads(1, 1, dims[2], v.shape()[3]);
    let d = heads.head_dim as int;
    let tokens = heads.tokens as int;
    let query = b * heads.full_heads + h;
    let values = out.data->F32_0@;
    let a = attn_probs.storage->Host_0;
    let vs = v.storage->Host_0;
    assert(sum_host_result(a, attn_probs.layout, vs, v.layout, out));
    let (weights, wide) = choose|weights: Seq<N::F32>, wide_v: Seq<N::F32>|
        #![trigger widens::<N>(a, attn_probs.layout, weights), widens::<N>(vs, v.layout, wide_v)]
        widens::<N>(a, attn_probs.layout, weights) && widens::<N>(vs, v.layout, wide_v)
            && weighted_sums::<N>(weights, dense_model::<N>(wide_v, d), heads, values);
    lemma_pair(b, h, heads.batch as int, heads.full_heads as int);
    lemma_rank_3(dims);
    lemma_rank_4(v.shape());
    let rows = heads.query_rows();
    lemma_block(query, rows, d);
    lemma_block(query, rows, tokens * d);
    lemma_block(query, rows, tokens);
    assert(rows * (tokens * d) == (rows * tokens) * d) by (nonlinear_arith);
    lemma_read_part(one_attn, attn_probs, query * tokens, tokens, weights);
    lemma_read_part(one_v, v, query * (tokens * d), tokens * d, wide);
    let one_weights = weights.subrange(query * tokens, query * tokens + tokens);
    let one_wide = wide.subrange(query * (tokens * d), query * (tokens * d) + tokens * d);
    let one_values = one_out.data->F32_0@;
    let cells = dense_model::<N>(wide, d);
    let one_cells = dense_model::<N>(one_wide, d);
    assert(heads.ungrouped() == heads && one.ungrouped() == one);
    assert(one.query_rows() == 1) by (nonlinear_arith)
        requires
            one.query_rows() == one.batch * one.full_heads,
            one.batch == 1,
            one.full_heads == 1,
    ;
    assert(weighted_sums::<N>(one_weights, one_cells, one, one_values)) by {
        assert(one.query_rows() * one.head_dim == d) by (nonlinear_arith)
            requires
                one.query_rows() == 1,
                one.head_dim == d,
        ;
        assert forall|row: int, col: int|
            0 <= row < one.query_rows() && 0 <= col < one.head_dim implies #[trigger] sum_at::<N>(
            one_weights,
            one_cells,
            one,
            row,
            col,
            one_values,
        ) by {
            assert(row == 0);
            assert(sum_at::<N>(weights, cells, heads, query, col, values));
            let here = weight_steps::<N>(weights, cells, heads, query, col);
            let there = weight_steps::<N>(one_weights, one_cells, one, 0, col);
            assert forall|t: int, from: N::F32, to: N::F32|
                0 <= t < tokens as nat && #[trigger] here(t, from, to) implies there(
                t,
                from,
                to,
            ) by {
                let place = query * tokens + t;
                ungrouped_rows_in_order(heads, query, t);
                ungrouped_rows_in_order(one, 0, t);
                let value = choose|value: N::F32| #[trigger]
                    cells(heads.cache_row(query, t), col, value) && adds_product::<N>(
                        weights[place],
                        value,
                        from,
                        to,
                    );
                lemma_pair(t, col, tokens, d);
                assert(place * d + col == query * (tokens * d) + (t * d + col))
                    by (nonlinear_arith)
                    requires
                        place == query * tokens + t,
                ;
                assert(one_cells(one.cache_row(0, t), col, value));
                assert(0 * one.tokens + t == t) by (nonlinear_arith);
                assert(one_weights[0 * one.tokens + t] == weights[place]);
            }
            accumulates_mono::<N>(here, there, tokens as nat, values[query * d + col]);
            assert(0 * one.head_dim + col == col) by (nonlinear_arith);
            assert(one_values[0 * one.head_dim + col] == values[query * d + col]);
        }
    }
    assert(sum_host_result(
        one_attn.storage->Host_0,
        one_attn.layout,
        one_v.storage->Host_0,
        one_v.layout,
        one_out,
    ));
}

} // verus!
