//! What attention over packed rows computes, and that every head is attended to on its own.
use crate::arith::{lemma_ceil_div, lemma_pair};
use crate::exact::{lemma_product_exactly, lemma_read_exactly, lemma_sum_exactly, Reading};
use crate::host::widens;
use crate::kv_attn::attend::{
    dequantizes, rowwise_model, score_at, score_steps, scores, sum_at, weight_steps, weighted_sums,
};
use crate::kv_attn::codes::{code_at, code_place, lemma_code_in_bounds, RowwiseQuantKind};
use crate::kv_attn::dense_laws::{
    holds_part, is_part, lemma_block, lemma_part_elements, lemma_read_part,
};
use crate::kv_attn::heads::{rows_in_cache, Heads};
use crate::kv_attn::rowwise::{
    rowwise_qk_host_result, rowwise_qk_outcome, rowwise_sum_host_result, rowwise_sum_outcome,
    RowwiseQkScoresOp, RowwiseShape,
};
use crate::launch::Outcome;
use crate::layout::{lemma_contiguous_place, lemma_rank_1, lemma_rank_2, lemma_rank_3};
use crate::scalar::{accumulates, accumulates_mono, adds_product, Scalars};
use crate::tensor::{HostData, HostTensor, HostVec, Storage, Tensor};
use vstd::arithmetic::div_mod::lemma_fundamental_div_mod_converse;
use vstd::prelude::*;

verus! {

/// The row that head `h` of batch entry `b` reads for token `t`: the cached heads of an entry lie
/// behind each other, `tokens` rows each, and `repeat_factor` query heads share one.
pub open spec fn row_of(shape: RowwiseShape, b: int, h: int, t: int) -> int {
    (b * shape.kv_heads + h / shape.repeat_factor as int) * shape.tokens + t
}

/// The integer in column `col` of row `row`: a byte less 128, or four bits in two's complement,
/// of which the even columns have the low half of a byte.
pub open spec fn integer_at<N: Scalars>(
    packed: Tensor<N>,
    kind: RowwiseQuantKind,
    head_dim: int,
    row: int,
    col: int,
) -> int {
    let bytes = match packed.storage {
        Storage::Host(HostData::U8(bytes)) => bytes@,
        _ => Seq::empty(),
    };
    match kind {
        RowwiseQuantKind::Int8 => bytes[packed.layout.start_offset + row * head_dim + col] - 128,
        RowwiseQuantKind::Int4 => {
            let byte = bytes[packed.layout.start_offset + row * ((head_dim + 1) / 2) + col
                / 2] as int;
            let half = if col % 2 == 0 {
                byte % 16
            } else {
                byte / 16
            };
            if half < 8 {
                half
            } else {
                half - 16
            }
        },
    }
}

/// The number in column `col` of row `row`: its integer times the scale of the row.
pub open spec fn number_at<N: Scalars>(
    r: Reading<N>,
    packed: Tensor<N>,
    scales: Tensor<N>,
    shape: RowwiseShape,
    row: int,
    col: int,
) -> real {
    integer_at(packed, shape.kind, shape.head_dim as int, row, col) as real * r.at(scales, row)
}

/// The product of `n` numbers of `q` from number `from` on, and the first `n` numbers of a row.
pub open spec fn row_dot<N: Scalars>(
    r: Reading<N>,
    q: Tensor<N>,
    from: int,
    packed: Tensor<N>,
    scales: Tensor<N>,
    shape: RowwiseShape,
    row: int,
    n: int,
) -> real
    decreases n,
{
    if n <= 0 {
        0real
    } else {
        row_dot(r, q, from, packed, scales, shape, row, n - 1) + r.at(q, from + n - 1) * number_at(
            r,
            packed,
            scales,
            shape,
            row,
            n - 1,
        )
    }
}

/// Column `col` of `n` rows from row `row` on, weighted by `n` numbers of `weights` from number
/// `from` on.
pub open spec fn weighted_rows<N: Scalars>(
    r: Reading<N>,
    weights: Tensor<N>,
    from: int,
    packed: Tensor<N>,
    scales: Tensor<N>,
    shape: RowwiseShape,
    row: int,
    col: int,
    n: int,
) -> real
    decreases n,
{
    if n <= 0 {
        0real
    } else {
        weighted_rows(r, weights, from, packed, scales, shape, row, col, n - 1) + r.at(
            weights,
            from + n - 1,
        ) * number_at(r, packed, scales, shape, row + n - 1, col)
    }
}

/// Query row `b * full_heads + h` reads the rows of batch entry `b` and the group of head `h`.
pub proof fn lemma_cache_row(heads: Heads, b: int, h: int, t: int)
    requires
        0 <= b < heads.batch,
        0 <= h < heads.full_heads,
        heads.repeat_factor > 0,
    ensures
        heads.cache_row(b * heads.full_heads + h, t) == (b * heads.kv_heads + h
            / heads.repeat_factor as int) * heads.tokens + t,
        0 <= b * heads.full_heads + h < heads.query_rows(),
{
    let full = heads.full_heads as int;
    lemma_pair(b, h, heads.batch as int, full);
    lemma_fundamental_div_mod_converse(b * full + h, full, b, h);
}

/// What a packed cache holds stands for integers times scales.
proof fn lemma_cell_exactly<N: Scalars>(
    r: Reading<N>,
    packed: Tensor<N>,
    scales: Tensor<N>,
    shape: RowwiseShape,
    rows: int,
    wide_scales: Seq<N::F32>,
    row: int,
    col: int,
    value: N::F32,
)
    requires
        r.is_exact(),
        packed.storage matches Storage::Host(HostData::U8(_)),
        packed.layout.contiguous(),
        packed.count() == rows * shape.cols(),
        scales.storage matches Storage::Host(data) && widens::<N>(
            data,
            scales.layout,
            wide_scales,
        ),
        scales.layout.contiguous(),
        scales.count() == rows,
        0 <= row < rows,
        0 <= col < shape.head_dim,
        dequantizes::<N>(
            packed.layout.elements(packed.storage->Host_0->U8_0@),
            wide_scales,
            row,
            col,
            shape.head_dim as int,
            shape.kind,
            value,
        ),
    ensures
        (r.single)(value) == number_at(r, packed, scales, shape, row, col),
{
    let d = shape.head_dim as int;
    let bytes = packed.layout.elements(packed.storage->Host_0->U8_0@);
    let code = code_at(bytes, row, col, d, shape.kind);
    lemma_code_in_bounds(rows, row, col, d, shape.kind);
    lemma_contiguous_place(packed.layout, code_place(row, col, d, shape.kind));
    lemma_read_exactly(r, scales, wide_scales, row);
    assert(code == integer_at(packed, shape.kind, d, row, col));
    assert(-128 <= code <= 127);
    let number = choose|number: N::F32| #[trigger]
        call_ensures(N::from_i32, (code as i32,), number) && call_ensures(
            N::times,
            (number, wide_scales[row]),
            value,
        );
}

/// The score of head `h` of batch entry `b` and token `t` is the scale times the product of the
/// query of that entry and head, and of the packed row that they read for that token. The scale
/// comes last.
pub proof fn packed_scores_are_scaled_products<N: Scalars>(
    r: Reading<N>,
    q: Tensor<N>,
    packed_k: Tensor<N>,
    k_scales: Tensor<N>,
    shape: RowwiseShape,
    scale: N::F64,
    out: HostTensor<N>,
    b: int,
    h: int,
    t: int,
)
    requires
        r.is_exact(),
        rowwise_qk_outcome(q, packed_k, k_scales, shape, scale, Ok(Outcome::Host(out))),
        0 <= b < q.shape()[0],
        0 <= h < q.shape()[1],
        0 <= t < shape.tokens,
    ensures
        out.dims@ == seq![q.shape()[0], q.shape()[1], shape.tokens],
        out.data matches HostVec::F32(values) && values@.len() == q.shape()[0] * q.shape()[1]
            * shape.tokens,
        r.of(out, (b * q.shape()[1] + h) * shape.tokens + t) == (r.double)(scale) * row_dot(
            r,
            q,
            (b * q.shape()[1] + h) * shape.head_dim,
            packed_k,
            k_scales,
            shape,
            row_of(shape, b, h, t),
            shape.head_dim as int,
        ),
        exists|acc: N::F32, single: N::F32|
            #![trigger call_ensures(N::single, (scale,), single), call_ensures(
                N::times,
                (acc, single),
                out.data->F32_0@[(b * q.shape()[1] + h) * shape.tokens + t],
            )]
            call_ensures(N::single, (scale,), single) && call_ensures(
                N::times,
                (acc, single),
                out.data->F32_0@[(b * q.shape()[1] + h) * shape.tokens + t],
            ),
{
    let heads = shape.heads(q.shape()[0], q.shape()[1]);
    let d = heads.head_dim as int;
    let tokens = heads.tokens as int;
    let query = b * heads.full_heads + h;
    let row = row_of(shape, b, h, t);
    let values = out.data->F32_0@;
    let first = q.storage->Host_0;
    let data = k_scales.storage->Host_0;
    let bytes = packed_k.layout.elements(packed_k.storage->Host_0->U8_0@);
    let single = choose|single: N::F32| #[trigger]
        call_ensures(N::single, (scale,), single) && rowwise_qk_host_result(
            RowwiseQkScoresOp { shape, scale: single },
            first,
            q.layout,
            packed_k.storage->Host_0,
            packed_k.layout,
            data,
            k_scales.layout,
            out,
        );
    let (wide_q, wide_scales) = choose|wide_q: Seq<N::F32>, wide_scales: Seq<N::F32>|
        #![trigger widens::<N>(first, q.layout, wide_q), widens::<N>(
            data,
            k_scales.layout,
            wide_scales,
        )]
        widens::<N>(first, q.layout, wide_q) && widens::<N>(data, k_scales.layout, wide_scales)
            && scores::<N>(
            wide_q,
            rowwise_model::<N>(bytes, wide_scales, d, shape.kind),
            heads,
            single,
            values,
        );
    lemma_cache_row(heads, b, h, t);
    lemma_pair(query, t, heads.query_rows(), tokens);
    lemma_rank_3(q.shape());
    lemma_rank_2(packed_k.shape());
    lemma_rank_1(k_scales.shape());
    rows_in_cache(heads, query, t);
    let cells = rowwise_model::<N>(bytes, wide_scales, d, shape.kind);
    assert(score_at::<N>(wide_q, cells, heads, single, query, t, values));
    let steps = score_steps::<N>(wide_q, query * d, cells, row);
    let acc = choose|acc: N::F32| #[trigger]
        accumulates::<N>(steps, d as nat, acc) && call_ensures(
            N::times,
            (acc, single),
            values[query * tokens + t],
        );
    let total = |n: int| row_dot(r, q, query * d, packed_k, k_scales, shape, row, n);
    assert forall|i: int, from: N::F32, to: N::F32|
        0 <= i < d && #[trigger] steps(i, from, to) implies (r.single)(to) - (r.single)(from)
        == total(i + 1) - total(i) by {
        let value = choose|value: N::F32| #[trigger]
            cells(row, i, value) && adds_product::<N>(wide_q[query * d + i], value, from, to);
        lemma_pair(query, i, heads.query_rows(), d);
        lemma_read_exactly(r, q, wide_q, query * d + i);
        lemma_cell_exactly(
            r,
            packed_k,
            k_scales,
            shape,
            heads.cache_rows(),
            wide_scales,
            row,
            i,
            value,
        );
        lemma_product_exactly::<N>(r, wide_q[query * d + i], value, from, to);
    }
    lemma_sum_exactly::<N>(r, steps, total, d as nat, acc);
    assert((r.single)(acc) * (r.single)(single) == (r.single)(single) * (r.single)(acc))
        by (nonlinear_arith);
}

/// Column `col` of the sum of head `h` of batch entry `b` is the sum over the tokens of the
/// probability of that entry, head and token, times column `col` of the packed row that they read
/// for that token.
pub proof fn packed_sums_are_weighted_rows<N: Scalars>(
    r: Reading<N>,
    attn_probs: Tensor<N>,
    packed_v: Tensor<N>,
    v_scales: Tensor<N>,
    shape: RowwiseShape,
    out: HostTensor<N>,
    b: int,
    h: int,
    col: int,
)
    requires
        r.is_exact(),
        rowwise_sum_outcome(attn_probs, packed_v, v_scales, shape, Ok(Outcome::Host(out))),
        0 <= b < attn_probs.shape()[0],
        0 <= h < attn_probs.shape()[1],
        0 <= col < shape.head_dim,
    ensures
        out.dims@ == seq![attn_probs.shape()[0], attn_probs.shape()[1], shape.head_dim],
        out.data matches HostVec::F32(values) && values@.len() == attn_probs.shape()[0]
            * attn_probs.shape()[1] * shape.head_dim,
        r.of(out, (b * attn_probs.shape()[1] + h) * shape.head_dim + col) == weighted_rows(
            r,
            attn_probs,
            (b * attn_probs.shape()[1] + h) * shape.tokens,
            packed_v,
            v_scales,
            shape,
            row_of(shape, b, h, 0),
            col,
            shape.tokens as int,
        ),
{
    let heads = shape.heads(attn_probs.shape()[0], attn_probs.shape()[1]);
    let d = heads.head_dim as int;
    let tokens = heads.tokens as int;
    let query = b * heads.full_heads + h;
    let row = row_of(shape, b, h, 0);
    let values = out.data->F32_0@;
    let first = attn_probs.storage->Host_0;
    let data = v_scales.storage->Host_0;
    let bytes = packed_v.layout.elements(packed_v.storage->Host_0->U8_0@);
    assert(rowwise_sum_host_result(
        shape,
        first,
        attn_probs.layout,
        packed_v.storage->Host_0,
        packed_v.layout,
        data,
        v_scales.layout,
        out,
    ));
    let (weights, wide_scales) = choose|weights: Seq<N::F32>, wide_scales: Seq<N::F32>|
        #![trigger widens::<N>(first, attn_probs.layout, weights), widens::<N>(
            data,
            v_scales.layout,
            wide_scales,
        )]
        widens::<N>(first, attn_probs.layout, weights) && widens::<N>(
            data,
            v_scales.layout,
            wide_scales,
        ) && weighted_sums::<N>(
            weights,
            rowwise_model::<N>(bytes, wide_scales, d, shape.kind),
            heads,
            values,
        );
    lemma_cache_row(heads, b, h, 0);
    lemma_pair(query, col, heads.query_rows(), d);
    lemma_rank_3(attn_probs.shape());
    lemma_rank_2(packed_v.shape());
    lemma_rank_1(v_scales.shape());
    let cells = rowwise_model::<N>(bytes, wide_scales, d, shape.kind);
    assert(sum_at::<N>(weights, cells, heads, query, col, values));
    let steps = weight_steps::<N>(weights, cells, heads, query, col);
    let total = |n: int|
        weighted_rows(r, attn_probs, query * tokens, packed_v, v_scales, shape, row, col, n);
    assert forall|i: int, from: N::F32, to: N::F32|
        0 <= i < tokens && #[trigger] steps(i, from, to) implies (r.single)(to) - (r.single)(from)
        == total(i + 1) - total(i) by {
        lemma_cache_row(heads, b, h, i);
        rows_in_cache(heads, query, i);
        let value = choose|value: N::F32| #[trigger]
            cells(heads.cache_row(query, i), col, value) && adds_product::<N>(
                weights[query * tokens + i],
                value,
                from,
                to,
            );
        lemma_pair(query, i, heads.query_rows(), tokens);
        lemma_read_exactly(r, attn_probs, weights, query * tokens + i);
        lemma_cell_exactly(
            r,
            packed_v,
            v_scales,
            shape,
            heads.cache_rows(),
            wide_scales,
            row + i,
            col,
            value,
        );
        lemma_product_exactly::<N>(r, weights[query * tokens + i], value, from, to);
    }
    lemma_sum_exactly::<N>(r, steps, total, tokens as nat, values[query * d + col]);
}

/// The step of one query head alone, with the cached head that it reads alone.
pub open spec fn one_head(shape: RowwiseShape) -> RowwiseShape {
    RowwiseShape { kv_heads: 1, repeat_factor: 1, ..shape }
}

/// `one_packed` and `one_scales` are the rows that head `h` of batch entry `b` reads, and nothing
/// else.
pub open spec fn holds_rows<N: Scalars>(
    one_packed: Tensor<N>,
    one_scales: Tensor<N>,
    packed: Tensor<N>,
    scales: Tensor<N>,
    shape: RowwiseShape,
    b: int,
    h: int,
) -> bool {
    &&& one_packed.shape() == seq![shape.tokens, packed.shape()[1]]
    &&& one_scales.shape() == seq![shape.tokens]
    &&& packed.storage matches Storage::Host(HostData::U8(_))
    &&& holds_part(
        one_packed,
        packed,
        row_of(shape, b, h, 0) * packed.shape()[1],
        shape.tokens * packed.shape()[1],
    )
    &&& holds_part(one_scales, scales, row_of(shape, b, h, 0), shape.tokens as int)
}

/// The rows of one head, alone, are read as they are read among the others.
proof fn lemma_one_head<N: Scalars>(
    one_packed: Tensor<N>,
    one_scales: Tensor<N>,
    packed: Tensor<N>,
    scales: Tensor<N>,
    shape: RowwiseShape,
    heads: Heads,
    b: int,
    h: int,
    wide_scales: Seq<N::F32>,
)
    requires
        holds_rows(one_packed, one_scales, packed, scales, shape, b, h),
        heads == shape.heads(heads.batch, heads.full_heads),
        heads.grouped(),
        0 <= b < heads.batch,
        0 <= h < heads.full_heads,
        packed.shape().len() == 2,
        packed.shape()[0] == heads.cache_rows(),
        packed.shape()[1] == shape.cols(),
        scales.shape().len() == 1,
        scales.shape()[0] == heads.cache_rows(),
        widens::<N>(scales.storage->Host_0, scales.layout, wide_scales),
    ensures
        0 <= row_of(shape, b, h, 0),
        row_of(shape, b, h, 0) + shape.tokens <= wide_scales.len(),
        widens::<N>(
            one_scales.storage->Host_0,
            one_scales.layout,
            wide_scales.subrange(
                row_of(shape, b, h, 0),
                row_of(shape, b, h, 0) + shape.tokens,
            ),
        ),
        forall|t: int, col: int, value: N::F32|
            0 <= t < shape.tokens && 0 <= col < shape.head_dim && #[trigger] dequantizes::<N>(
                packed.layout.elements(packed.storage->Host_0->U8_0@),
                wide_scales,
                row_of(shape, b, h, 0) + t,
                col,
                shape.head_dim as int,
                shape.kind,
                value,
            ) ==> dequantizes::<N>(
                one_packed.layout.elements(one_packed.storage->Host_0->U8_0@),
                wide_scales.subrange(
                    row_of(shape, b, h, 0),
                    row_of(shape, b, h, 0) + shape.tokens,
                ),
                t,
                col,
                shape.head_dim as int,
                shape.kind,
                value,
            ),
{
    let tokens = shape.tokens as int;
    let d = shape.head_dim as int;
    let cols = shape.cols();
    let rows = heads.cache_rows();
    let first = row_of(shape, b, h, 0);
    if tokens > 0 {
        lemma_cache_row(heads, b, h, 0);
        lemma_cache_row(heads, b, h, tokens - 1);
        rows_in_cache(heads, b * heads.full_heads + h, 0);
        rows_in_cache(heads, b * heads.full_heads + h, tokens - 1);
    } else {
        let lead = b * shape.kv_heads + h / shape.repeat_factor as int;
        let all = heads.batch * heads.kv_heads;
        assert(lead * tokens == 0 && all * tokens == 0) by (nonlinear_arith)
            requires
                tokens == 0,
        ;
    }
    assert(0 <= first && first + tokens <= rows);
    lemma_rank_2(packed.shape());
    lemma_rank_1(scales.shape());
    lemma_rank_2(one_packed.shape());
    lemma_rank_1(one_scales.shape());
    lemma_ceil_div(d, 2);
    assert(0 <= first * cols && first * cols + tokens * cols <= rows * cols) by (nonlinear_arith)
        requires
            0 <= first,
            first + tokens <= rows,
            0 <= cols,
    ;
    lemma_read_part(one_scales, scales, first, tokens, wide_scales);
    let bytes = packed.layout.elements(packed.storage->Host_0->U8_0@);
    let one_bytes = one_packed.layout.elements(one_packed.storage->Host_0->U8_0@);
    lemma_part_elements(
        one_packed.layout,
        one_packed.storage->Host_0->U8_0@,
        packed.layout,
        packed.storage->Host_0->U8_0@,
        first * cols,
        tokens * cols,
    );
    let cut = wide_scales.subrange(first, first + tokens);
    assert forall|t: int, col: int, value: N::F32|
        0 <= t < shape.tokens && 0 <= col < shape.head_dim && #[trigger] dequantizes::<N>(
            bytes,
            wide_scales,
            first + t,
            col,
            d,
            shape.kind,
            value,
        ) implies dequantizes::<N>(one_bytes, cut, t, col, d, shape.kind, value) by {
        lemma_code_in_bounds(tokens, t, col, d, shape.kind);
        assert((first + t) * cols == first * cols + t * cols) by (nonlinear_arith);
        assert(one_bytes[code_place(t, col, d, shape.kind)] == bytes[code_place(
            first + t,
            col,
            d,
            shape.kind,
        )]);
        assert(cut[t] == wide_scales[first + t]);
        assert(code_at(one_bytes, t, col, d, shape.kind) == code_at(
            bytes,
            first + t,
            col,
            d,
            shape.kind,
        ));
        let number = choose|number: N::F32| #[trigger]
            call_ensures(
                N::from_i32,
                (code_at(bytes, first + t, col, d, shape.kind) as i32,),
                number,
            ) && call_ensures(N::times, (number, wide_scales[first + t]), value);
        assert(call_ensures(
            N::from_i32,
            (code_at(one_bytes, t, col, d, shape.kind) as i32,),
            number,
        ));
    }
}

/// Every head is scored on its own: the scores of head `h` of batch entry `b` are scores of the
/// query of that entry and head, alone, over the rows that they read, alone.
pub proof fn packed_heads_are_scored_alone<N: Scalars>(
    q: Tensor<N>,
    packed_k: Tensor<N>,
    k_scales: Tensor<N>,
    shape: RowwiseShape,
    scale: N::F64,
    out: HostTensor<N>,
    b: int,
    h: int,
    one_q: Tensor<N>,
    one_packed: Tensor<N>,
    one_scales: Tensor<N>,
    one_out: HostTensor<N>,
)
    requires
        rowwise_qk_outcome(q, packed_k, k_scales, shape, scale, Ok(Outcome::Host(out))),
        0 <= b < q.shape()[0],
        0 <= h < q.shape()[1],
        one_q.shape() == seq![1usize, 1usize, shape.head_dim],
        one_out.dims@ == seq![1usize, 1usize, shape.tokens],
        holds_part(
            one_q,
            q,
            (b * q.shape()[1] + h) * shape.head_dim,
            shape.head_dim as int,
        ),
        holds_rows(one_packed, one_scales, packed_k, k_scales, shape, b, h),
        is_part(
            one_out,
            out,
            (b * q.shape()[1] + h) * shape.tokens,
            shape.tokens as int,
        ),
    ensures
        rowwise_qk_outcome(
            one_q,
            one_packed,
            one_scales,
            one_head(shape),
            scale,
            Ok(Outcome::Host(one_out)),
        ),
{
    let heads = shape.heads(q.shape()[0], q.shape()[1]);
    let one = one_head(shape).heads(1, 1);
    let d = heads.head_dim as int;
    let tokens = heads.tokens as int;
    let query = b * heads.full_heads + h;
    let start = row_of(shape, b, h, 0);
    let values = out.data->F32_0@;
    let one_values = one_out.data->F32_0@;
    let first = q.storage->Host_0;
    let data = k_scales.storage->Host_0;
    let bytes = packed_k.layout.elements(packed_k.storage->Host_0->U8_0@);
    let one_bytes = one_packed.layout.elements(one_packed.storage->Host_0->U8_0@);
    let single = choose|single: N::F32| #[trigger]
        call_ensures(N::single, (scale,), single) && rowwise_qk_host_result(
            RowwiseQkScoresOp { shape, scale: single },
            first,
            q.layout,
            packed_k.storage->Host_0,
            packed_k.layout,
            data,
            k_scales.layout,
            out,
        );
    let (wide_q, wide_scales) = choose|wide_q: Seq<N::F32>, wide_scales: Seq<N::F32>|
        #![trigger widens::<N>(first, q.layout, wide_q), widens::<N>(
            data,
            k_scales.layout,
            wide_scales,
        )]
        widens::<N>(first, q.layout, wide_q) && widens::<N>(data, k_scales.layout, wide_scales)
            && scores::<N>(
            wide_q,
            rowwise_model::<N>(bytes, wide_scales, d, shape.kind),
            heads,
            single,
            values,
        );
    lemma_cache_row(heads, b, h, 0);
    lemma_rank_3(q.shape());
    lemma_block(query, heads.query_rows(), d);
    lemma_block(query, heads.query_rows(), tokens);
    lemma_read_part(one_q, q, query * d, d, wide_q);
    lemma_one_head(
        one_packed,
        one_scales,
        packed_k,
        k_scales,
        shape,
        heads,
        b,
        h,
        wide_scales,
    );
    let one_wide_q = wide_q.subrange(query * d, query * d + d);
    let one_wide_scales = wide_scales.subrange(start, start + tokens);
    let cells = rowwise_model::<N>(bytes, wide_scales, d, shape.kind);
    let one_cells = rowwise_model::<N>(one_bytes, one_wide_scales, d, shape.kind);
    lemma_one_step(one);
    assert(scores::<N>(one_wide_q, one_cells, one, single, one_values)) by {
        assert forall|row: int, t: int|
            0 <= row < one.query_rows() && 0 <= t < one.tokens implies #[trigger] score_at::<N>(
            one_wide_q,
            one_cells,
            one,
            single,
            row,
            t,
            one_values,
        ) by {
            assert(row == 0);
            lemma_cache_row(heads, b, h, t);
            lemma_cache_row(one, 0, 0, t);
            assert(score_at::<N>(wide_q, cells, heads, single, query, t, values));
            let here = score_steps::<N>(wide_q, query * d, cells, start + t);
            let there = score_steps::<N>(one_wide_q, 0, one_cells, t);
            let acc = choose|acc: N::F32| #[trigger]
                accumulates::<N>(here, d as nat, acc) && call_ensures(
                    N::times,
                    (acc, single),
                    values[query * tokens + t],
                );
            assert forall|i: int, from: N::F32, to: N::F32|
                0 <= i < d as nat && #[trigger] here(i, from, to) implies there(i, from, to) by {
                let value = choose|value: N::F32| #[trigger]
                    cells(start + t, i, value) && adds_product::<N>(
                        wide_q[query * d + i],
                        value,
                        from,
                        to,
                    );
                assert(one_cells(t, i, value));
            }
            accumulates_mono::<N>(here, there, d as nat, acc);
            assert(0 * one.head_dim == 0 && 0 * one.tokens == 0) by (nonlinear_arith);
            assert(one.cache_row(0, t) == t);
            assert(one_values[0 * one.tokens + t] == values[query * tokens + t]);
            assert(accumulates::<N>(
                score_steps::<N>(one_wide_q, 0 * one.head_dim, one_cells, one.cache_row(0, t)),
                one.head_dim as nat,
                acc,
            ));
        }
    }
    assert(rowwise_qk_host_result(
        RowwiseQkScoresOp { shape: one_head(shape), scale: single },
        one_q.storage->Host_0,
        one_q.layout,
        one_packed.storage->Host_0,
        one_packed.layout,
        one_scales.storage->Host_0,
        one_scales.layout,
        one_out,
    ));
}

/// The sizes of the step of one head.
proof fn lemma_one_step(one: Heads)
    requires
        one.batch == 1,
        one.full_heads == 1,
        one.kv_heads == 1,
        one.repeat_factor == 1,
    ensures
        one.query_rows() == 1,
        one.query_rows() * one.tokens == one.tokens,
        one.query_rows() * one.head_dim == one.head_dim,
        one.cache_rows() == one.tokens,
        one.grouped(),
        forall|t: int| #[trigger] one.cache_row(0, t) == t,
{
    let (tokens, d) = (one.tokens as int, one.head_dim as int);
    assert(1 * 1 == 1 && 1 * tokens == tokens && 1 * d == d && 0 * tokens == 0)
        by (nonlinear_arith);
    assert(one.query_rows() == 1) by (nonlinear_arith)
        requires
            one.query_rows() == one.batch * one.full_heads,
            one.batch == 1,
            one.full_heads == 1,
    ;
    assert(one.cache_rows() == tokens) by (nonlinear_arith)
        requires
            one.cache_rows() == one.batch * one.kv_heads * one.tokens,
            one.batch == 1,
            one.kv_heads == 1,
            one.tokens == tokens,
    ;
    assert forall|t: int| #[trigger] one.cache_row(0, t) == t by {
        lemma_cache_row(one, 0, 0, t);
        assert((0 * one.kv_heads + 0int / 1) * one.tokens + t == t) by (nonlinear_arith);
        assert(0 * one.full_heads + 0 == 0) by (nonlinear_arith);
    }
}

/// Every head is summed on its own: the sums of head `h` of batch entry `b` are sums of the
/// probabilities of that entry and head, alone, over the rows that they read, alone.
pub proof fn packed_heads_are_summed_alone<N: Scalars>(
    attn_probs: Tensor<N>,
    packed_v: Tensor<N>,
    v_scales: Tensor<N>,
    shape: RowwiseShape,
    out: HostTensor<N>,
    b: int,
    h: int,
    one_attn: Tensor<N>,
    one_packed: Tensor<N>,
    one_scales: Tensor<N>,
    one_out: HostTensor<N>,
)
    requires
        rowwise_sum_outcome(attn_probs, packed_v, v_scales, shape, Ok(Outcome::Host(out))),
        0 <= b < attn_probs.shape()[0],
        0 <= h < attn_probs.shape()[1],
        one_attn.shape() == seq![1usize, 1usize, shape.tokens],
        one_out.dims@ == seq![1usize, 1usize, shape.head_dim],
        holds_part(
            one_attn,
            attn_probs,
            (b * attn_probs.shape()[1] + h) * shape.tokens,
            shape.tokens as int,
        ),
        holds_rows(one_packed, one_scales, packed_v, v_scales, shape, b, h),
        is_part(
            one_out,
            out,
            (b * attn_probs.shape()[1] + h) * shape.head_dim,
            shape.head_dim as int,
        ),
    ensures
        rowwise_sum_outcome(
            one_attn,
            one_packed,
            one_scales,
            one_head(shape),
            Ok(Outcome::Host(one_out)),
        ),
{
    let heads = shape.heads(attn_probs.shape()[0], attn_probs.shape()[1]);
    let one = one_head(shape).heads(1, 1);
    let d = heads.head_dim as int;
    let tokens = heads.tokens as int;
    let query = b * heads.full_heads + h;
    let start = row_of(shape, b, h, 0);
    let values = out.data->F32_0@;
    let one_values = one_out.data->F32_0@;
    let first = attn_probs.storage->Host_0;
    let data = v_scales.storage->Host_0;
    let bytes = packed_v.layout.elements(packed_v.storage->Host_0->U8_0@);
    let one_bytes = one_packed.layout.elements(one_packed.storage->Host_0->U8_0@);
    assert(rowwise_sum_host_result(
        shape,
        first,
        attn_probs.layout,
        packed_v.storage->Host_0,
        packed_v.layout,
        data,
        v_scales.layout,
        out,
    ));
    let (weights, wide_scales) = choose|weights: Seq<N::F32>, wide_scales: Seq<N::F32>|
        #![trigger widens::<N>(first, attn_probs.layout, weights), widens::<N>(
            data,
            v_scales.layout,
            wide_scales,
        )]
        widens::<N>(first, attn_probs.layout, weights) && widens::<N>(
            data,
            v_scales.layout,
            wide_scales,
        ) && weighted_sums::<N>(
            weights,
            rowwise_model::<N>(bytes, wide_scales, d, shape.kind),
            heads,
            values,
        );
    lemma_cache_row(heads, b, h, 0);
    lemma_rank_3(attn_probs.shape());
    lemma_block(query, heads.query_rows(), d);
    lemma_block(query, heads.query_rows(), tokens);
    lemma_read_part(one_attn, attn_probs, query * tokens, tokens, weights);
    lemma_one_head(
        one_packed,
        one_scales,
        packed_v,
        v_scales,
        shape,
        heads,
        b,
        h,
        wide_scales,
    );
    let one_weights = weights.subrange(query * tokens, query * tokens + tokens);
    let one_wide_scales = wide_scales.subrange(start, start + tokens);
    let cells = rowwise_model::<N>(bytes, wide_scales, d, shape.kind);
    let one_cells = rowwise_model::<N>(one_bytes, one_wide_scales, d, shape.kind);
    lemma_one_step(one);
    assert(weighted_sums::<N>(one_weights, one_cells, one, one_values)) by {
        assert forall|row: int, col: int|
            0 <= row < one.query_rows() && 0 <= col < one.head_dim implies #[trigger] sum_at::<N>(
            one_weights,
            one_cells,
            one,
            row,
            col,
            one_values,
        ) by {
            assert(row == 0);
            assert(sum_at::<N>(weights, cells, heads, query, col, values));
            let here = weight_steps::<N>(weights, cells, heads, query, col);
            let there = weight_steps::<N>(one_weights, one_cells, one, 0, col);
            assert forall|t: int, from: N::F32, to: N::F32|
                0 <= t < tokens as nat && #[trigger] here(t, from, to) implies there(
                t,
                from,
                to,
            ) by {
                lemma_cache_row(heads, b, h, t);
                let value = choose|value: N::F32| #[trigger]
                    cells(heads.cache_row(query, t), col, value) && adds_product::<N>(
                        weights[query * tokens + t],
                        value,
                        from,
                        to,
                    );
                assert(cells(start + t, col, value));
                assert(one_cells(t, col, value));
                assert(one.cache_row(0, t) == t);
                assert(0 * one.tokens + t == t) by (nonlinear_arith);
                assert(one_weights[0 * one.tokens + t] == weights[query * tokens + t]);
            }
            accumulates_mono::<N>(here, there, tokens as nat, values[query * d + col]);
            assert(0 * one.head_dim + col == col) by (nonlinear_arith);
            assert(one_values[0 * one.head_dim + col] == values[query * d + col]);
        }
    }
    assert(rowwise_sum_host_result(
        one_head(shape),
        one_attn.storage->Host_0,
        one_attn.layout,
        one_packed.storage->Host_0,
        one_packed.layout,
        one_scales.storage->Host_0,
        one_scales.layout,
        one_out,
    ));
}

} // verus!
