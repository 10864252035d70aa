//! What holds of scores against TurboQuant keys whatever the arithmetic.
use crate::arith::lemma_place;
use crate::kv_attn::bits::unpacking_is_unique;
use crate::kv_attn::heads::{rows_in_cache, Heads};
use crate::kv_attn::turbo::{
    bits_of_code, bits_of_sign, byte_elements, host_scores, reads_keys, reads_numbers,
    reads_operands, reads_values, residual_fault, turbo_fault, turbo_outcome, TurboError,
    TurboInputs, TurboOperands, TurboOutcome, TurboRequest,
};
use crate::kv_attn::turbo_kernel::{
    adds_coordinate, adds_residual, coordinate_steps, halved_sum, key_score, key_value,
    lemma_key_in_bounds, pair_turned, query_slice, residual_sign, rotated, row_scores, token_score,
    token_scores, turbo_scores, KeyModel, TurboShape,
};
use crate::layout::{lemma_rank_1, lemma_rank_2, lemma_rank_3};
use crate::relation::{
    all_same, is_widened, lemma_same_product, lemma_same_reading, lemma_same_sums, respected,
    same_tensors, steps_agree, Relation,
};
use crate::scalar::{accumulates, accumulates_mono, adds_product, Scalars};
use crate::tensor::{HostTensor, Tensor};
use vstd::prelude::*;

verus! {

/// Every coordinate that adds to a score in `left` adds the same in `right`.
pub open spec fn coordinates_follow<N: Scalars>(
    keys: KeyModel<N>,
    left: TurboShape,
    right: TurboShape,
) -> bool {
    forall|query: Seq<N::F32>, row: int, idx: int, from: N::F32, to: N::F32| #[trigger]
        adds_coordinate::<N>(query, keys, left, row, idx, from, to) ==> adds_coordinate::<N>(
            query,
            keys,
            right,
            row,
            idx,
            from,
            to,
        )
}

/// Where coordinates follow, scores do.
proof fn lemma_scores_follow<N: Scalars>(
    q: Seq<N::F32>,
    keys: KeyModel<N>,
    pair_signs: Seq<N::F32>,
    left: TurboShape,
    right: TurboShape,
    scale: N::F32,
    out: Seq<N::F32>,
)
    requires
        left.heads == right.heads,
        coordinates_follow(keys, left, right),
        turbo_scores::<N>(q, keys, pair_signs, left, scale, out),
    ensures
        turbo_scores::<N>(q, keys, pair_signs, right, scale, out),
{
    let heads = left.heads;
    assert forall|query_row: int|
        0 <= query_row < heads.query_rows() implies #[trigger] row_scores::<N>(
        q,
        keys,
        pair_signs,
        right,
        query_row,
        scale,
        out,
    ) by {
        assert(row_scores::<N>(q, keys, pair_signs, left, query_row, scale, out));
        let query = choose|query: Seq<N::F32>| #[trigger]
            rotated::<N>(query_slice(q, heads, query_row), pair_signs, query) && token_scores::<N>(
                query,
                keys,
                left,
                query_row,
                scale,
                out,
            );
        assert forall|token: int| 0 <= token < heads.tokens implies #[trigger] token_score::<N>(
            query,
            keys,
            right,
            query_row,
            token,
            scale,
            out,
        ) by {
            assert(token_score::<N>(query, keys, left, query_row, token, scale, out));
            let row = heads.cache_row(query_row, token);
            let score = out[query_row * heads.tokens + token];
            let here = coordinate_steps::<N>(query, keys, left, row);
            let there = coordinate_steps::<N>(query, keys, right, row);
            let n = heads.head_dim as nat;
            let acc = choose|acc: N::F32| #[trigger]
                accumulates::<N>(here, n, acc) && call_ensures(N::times, (acc, scale), score);
            assert forall|i: int, from: N::F32, to: N::F32|
                0 <= i < n && #[trigger] here(i, from, to) implies there(i, from, to) by {
                assert(adds_coordinate::<N>(query, keys, left, row, i, from, to));
            }
            accumulates_mono::<N>(here, there, n, acc);
            assert(key_score::<N>(query, keys, right, row, scale, score));
        }
        assert(token_scores::<N>(query, keys, right, query_row, scale, out));
    }
}

/// The coordinates of a key do not know of subvectors.
proof fn lemma_subvectors_unseen<N: Scalars>(keys: KeyModel<N>, left: TurboShape, right: TurboShape)
    requires
        right == (TurboShape { subvector_dim: right.subvector_dim, ..left }),
    ensures
        coordinates_follow(keys, left, right),
{
    assert forall|query: Seq<N::F32>, row: int, idx: int, from: N::F32, to: N::F32| #[trigger]
        adds_coordinate::<N>(query, keys, left, row, idx, from, to) implies adds_coordinate::<N>(
        query,
        keys,
        right,
        row,
        idx,
        from,
        to,
    ) by {
        let (value, mid) = choose|value: N::F32, mid: N::F32|
            #![trigger key_value::<N>(keys, left, row, idx, value), adds_residual::<N>(
                query[idx],
                keys,
                left,
                row,
                idx,
                mid,
                to,
            )]
            key_value::<N>(keys, left, row, idx, value) && adds_product::<N>(
                query[idx],
                value,
                from,
                mid,
            ) && adds_residual::<N>(query[idx], keys, left, row, idx, mid, to);
        assert(left.blocks() == right.blocks());
        assert(key_value::<N>(keys, left, row, idx, value));
        assert(key_value::<N>(keys, right, row, idx, value));
        assert(adds_residual::<N>(query[idx], keys, right, row, idx, mid, to));
    }
}

/// Into how many subvectors a key is cut changes nothing of its scores on the host.
pub proof fn subvectors_do_not_change_scores<N: Scalars>(
    t: TurboInputs<N>,
    r: TurboRequest,
    subvector_dim: usize,
    scale: N::F64,
    out: HostTensor<N>,
)
    ensures
        host_scores(t, r, scale, out) <==> host_scores(
            t,
            (TurboRequest { subvector_dim, ..r }),
            scale,
            out,
        ),
{
    let other = TurboRequest { subvector_dim, ..r };
    if host_scores(t, r, scale, out) {
        lemma_subvectors_follow(t, r, other, scale, out);
    }
    if host_scores(t, other, scale, out) {
        lemma_subvectors_follow(t, other, r, scale, out);
    }
}

proof fn lemma_subvectors_follow<N: Scalars>(
    t: TurboInputs<N>,
    left: TurboRequest,
    right: TurboRequest,
    scale: N::F64,
    out: HostTensor<N>,
)
    requires
        right == (TurboRequest { subvector_dim: right.subvector_dim, ..left }),
        host_scores(t, left, scale, out),
    ensures
        host_scores(t, right, scale, out),
{
    let here = left.shape(t.q.shape());
    let there = right.shape(t.q.shape());
    let scores = out.data->F32_0;
    let ops = choose|ops: TurboOperands<N>| #[trigger]
        reads_operands(t, left, scale, ops) && turbo_scores::<N>(
            ops.q,
            ops.keys,
            ops.pair_signs,
            here,
            ops.scale,
            scores@,
        );
    lemma_subvectors_unseen(ops.keys, here, there);
    lemma_scores_follow(ops.q, ops.keys, ops.pair_signs, here, there, ops.scale, scores@);
    assert(reads_keys(t, right, ops.keys));
    assert(reads_operands(t, right, scale, ops));
}

/// The tensors `wide` are the tensors `half` with their scales, in half precision, brought to
/// single precision.
pub open spec fn widens_scales<N: Scalars>(half: TurboInputs<N>, wide: TurboInputs<N>) -> bool {
    &&& wide == (TurboInputs {
        scales: wide.scales,
        residual_scales: wide.residual_scales,
        ..half
    })
    &&& is_widened(*half.scales, *wide.scales)
    &&& match (half.residual_scales, wide.residual_scales) {
        (Some(narrow), Some(values)) => is_widened(*narrow, *values),
        (None, None) => true,
        _ => false,
    }
}

/// Adding what a coordinate of a rotated query row, with either sign, is worth at any of the
/// scales changes nothing, up to `same`. So it is with scales of zero and finite coordinates.
pub open spec fn add_nothing<N: Scalars>(
    same: Relation<N::F32>,
    query: Seq<N::F32>,
    scales: Seq<N::F32>,
) -> bool {
    forall|
        idx: int,
        k: int,
        sign: i32,
        unit: N::F32,
        signed: N::F32,
        worth: N::F32,
        from: N::F32,
        to: N::F32,
    |
        #![trigger call_ensures(N::from_i32, (sign,), unit), call_ensures(
            N::times,
            (query[idx], unit),
            signed,
        ), call_ensures(N::times, (signed, scales[k]), worth), call_ensures(
            N::plus,
            (from, worth),
            to,
        )]
        0 <= idx < query.len() && 0 <= k < scales.len() && (sign == 1 || sign == -1)
            && call_ensures(N::from_i32, (sign,), unit) && call_ensures(
            N::times,
            (query[idx], unit),
            signed,
        ) && call_ensures(N::times, (signed, scales[k]), worth) && call_ensures(
            N::plus,
            (from, worth),
            to,
        ) ==> same(from, to)
}

/// What the residuals of two caches add to a score, for one rotated query row, is related. A
/// residual that adds nothing is related to none.
pub open spec fn residuals_agree<N: Scalars>(
    same: Relation<N::F32>,
    left: KeyModel<N>,
    right: KeyModel<N>,
    query: Seq<N::F32>,
) -> bool {
    match (left.residual, right.residual) {
        (None, None) => true,
        (None, Some((_, scales))) => add_nothing::<N>(same, query, scales),
        (Some((signs, scales)), Some((other_signs, other_scales))) => {
            &&& signs == other_signs
            &&& all_same(same, scales, other_scales)
        },
        _ => false,
    }
}

proof fn lemma_same_halves<N: Scalars>(
    same: Relation<N::F32>,
    x: N::F32,
    y: N::F32,
    left: N::F32,
    a: N::F32,
    b: N::F32,
    right: N::F32,
)
    requires
        respected::<N>(same),
        same(x, a),
        same(y, b),
        halved_sum::<N>(x, y, left),
        halved_sum::<N>(a, b, right),
    ensures
        same(left, right),
{
    let (s1, f1) = choose|sum: N::F32, factor: N::F32|
        call_ensures(N::plus, (x, y), sum) && #[trigger] call_ensures(N::frac_1_sqrt_2, (), factor)
            && #[trigger] call_ensures(N::times, (sum, factor), left);
    let (s2, f2) = choose|sum: N::F32, factor: N::F32|
        call_ensures(N::plus, (a, b), sum) && #[trigger] call_ensures(N::frac_1_sqrt_2, (), factor)
            && #[trigger] call_ensures(N::times, (sum, factor), right);
    assert(same(s1, s2));
    assert(same(f1, f2));
}

/// Rotations of related query rows are related.
proof fn lemma_same_rotation<N: Scalars>(
    same: Relation<N::F32>,
    left_row: Seq<N::F32>,
    left_signs: Seq<N::F32>,
    left: Seq<N::F32>,
    right_row: Seq<N::F32>,
    right_signs: Seq<N::F32>,
    right: Seq<N::F32>,
)
    requires
        respected::<N>(same),
        left_row.len() == 2 * left_signs.len(),
        all_same(same, left_row, right_row),
        all_same(same, left_signs, right_signs),
        rotated::<N>(left_row, left_signs, left),
        rotated::<N>(right_row, right_signs, right),
    ensures
        all_same(same, left, right),
{
    assert forall|idx: int| 0 <= idx < left.len() implies same(#[trigger] left[idx], right[idx]) by {
        let p = idx / 2;
        let (a, b, sign) = (left_row[2 * p], left_row[2 * p + 1], left_signs[p]);
        let (c, d, turn) = (right_row[2 * p], right_row[2 * p + 1], right_signs[p]);
        assert(pair_turned::<N>(left_row, left_signs, left, p));
        assert(pair_turned::<N>(right_row, right_signs, right, p));
        let (b1, o1, a1) = choose|signed_b: N::F32, opposite: N::F32, signed_a: N::F32|
            #![trigger halved_sum::<N>(a, signed_b, left[2 * p]), call_ensures(
                N::negate,
                (sign,),
                opposite,
            ), halved_sum::<N>(signed_a, b, left[2 * p + 1])]
            {
                &&& call_ensures(N::times, (sign, b), signed_b)
                &&& halved_sum::<N>(a, signed_b, left[2 * p])
                &&& call_ensures(N::negate, (sign,), opposite)
                &&& call_ensures(N::times, (opposite, a), signed_a)
                &&& halved_sum::<N>(signed_a, b, left[2 * p + 1])
            };
        let (b2, o2, a2) = choose|signed_b: N::F32, opposite: N::F32, signed_a: N::F32|
            #![trigger halved_sum::<N>(c, signed_b, right[2 * p]), call_ensures(
                N::negate,
                (turn,),
                opposite,
            ), halved_sum::<N>(signed_a, d, right[2 * p + 1])]
            {
                &&& call_ensures(N::times, (turn, d), signed_b)
                &&& halved_sum::<N>(c, signed_b, right[2 * p])
                &&& call_ensures(N::negate, (turn,), opposite)
                &&& call_ensures(N::times, (opposite, c), signed_a)
                &&& halved_sum::<N>(signed_a, d, right[2 * p + 1])
            };
        assert(same(a, c) && same(b, d) && same(sign, turn));
        assert(same(b1, b2));
        assert(same(o1, o2));
        assert(same(a1, a2));
        lemma_same_halves::<N>(same, a, b1, left[2 * p], c, b2, right[2 * p]);
        lemma_same_halves::<N>(same, a1, b, left[2 * p + 1], a2, d, right[2 * p + 1]);
        assert(idx == 2 * p || idx == 2 * p + 1);
    }
}

/// A code under related scales stands for related numbers.
proof fn lemma_same_value<N: Scalars>(
    same: Relation<N::F32>,
    left: KeyModel<N>,
    right: KeyModel<N>,
    shape: TurboShape,
    row: int,
    idx: int,
    a: N::F32,
    b: N::F32,
)
    requires
        respected::<N>(same),
        left.codes == right.codes,
        all_same(same, left.scales, right.scales),
        0 <= row * shape.blocks() + idx / (shape.scale_block_dim as int) < left.scales.len(),
        key_value::<N>(left, shape, row, idx, a),
        key_value::<N>(right, shape, row, idx, b),
    ensures
        same(a, b),
{
    let code = (left.codes[row * shape.heads.head_dim + idx] - shape.kind.max_value()) as i32;
    let k = row * shape.blocks() + idx / shape.scale_block_dim as int;
    let n1 = choose|number: N::F32| #[trigger]
        call_ensures(N::from_i32, (code,), number) && call_ensures(
            N::times,
            (number, left.scales[k]),
            a,
        );
    let n2 = choose|number: N::F32| #[trigger]
        call_ensures(N::from_i32, (code,), number) && call_ensures(
            N::times,
            (number, right.scales[k]),
            b,
        );
    assert(same(n1, n2));
    assert(same(left.scales[k], right.scales[k]));
}

/// Residuals that agree add related numbers.
proof fn lemma_same_residual<N: Scalars>(
    same: Relation<N::F32>,
    left: KeyModel<N>,
    right: KeyModel<N>,
    shape: TurboShape,
    left_query: Seq<N::F32>,
    right_query: Seq<N::F32>,
    row: int,
    idx: int,
    from_left: N::F32,
    to_left: N::F32,
    from_right: N::F32,
    to_right: N::F32,
)
    requires
        respected::<N>(same),
        shape.valid(),
        0 <= row < shape.heads.cache_rows(),
        0 <= idx < shape.heads.head_dim,
        right_query.len() == shape.heads.head_dim,
        right.residual matches Some((_, scales)) ==> scales.len() == shape.scale_count(),
        residuals_agree(same, left, right, right_query),
        same(left_query[idx], right_query[idx]),
        same(from_left, from_right),
        adds_residual::<N>(left_query[idx], left, shape, row, idx, from_left, to_left),
        adds_residual::<N>(right_query[idx], right, shape, row, idx, from_right, to_right),
    ensures
        same(to_left, to_right),
{
    lemma_key_in_bounds(shape, row, idx);
    let k = row * shape.blocks() + idx / shape.scale_block_dim as int;
    if let Some((signs, scales)) = right.residual {
        let sign = residual_sign(signs[row * shape.heads.head_dim + idx]);
        let scale = scales[k];
        let (unit, signed) = choose|unit: N::F32, signed: N::F32|
            #![trigger call_ensures(N::from_i32, (sign,), unit), adds_product::<N>(
                signed,
                scale,
                from_right,
                to_right,
            )]
            call_ensures(N::from_i32, (sign,), unit) && call_ensures(
                N::times,
                (right_query[idx], unit),
                signed,
            ) && adds_product::<N>(signed, scale, from_right, to_right);
        if let Some((_, left_scales)) = left.residual {
            let left_scale = left_scales[k];
            let (left_unit, left_signed) = choose|unit: N::F32, signed: N::F32|
                #![trigger call_ensures(N::from_i32, (sign,), unit), adds_product::<N>(
                    signed,
                    left_scale,
                    from_left,
                    to_left,
                )]
                call_ensures(N::from_i32, (sign,), unit) && call_ensures(
                    N::times,
                    (left_query[idx], unit),
                    signed,
                ) && adds_product::<N>(signed, left_scale, from_left, to_left);
            assert(same(left_unit, unit));
            assert(same(left_signed, signed));
            assert(same(left_scales[k], scales[k]));
            lemma_same_product::<N>(
                same,
                left_signed,
                left_scale,
                from_left,
                to_left,
                signed,
                scale,
                from_right,
                to_right,
            );
        } else {
            let worth = choose|p: N::F32| #[trigger]
                call_ensures(N::times, (signed, scale), p) && call_ensures(
                    N::plus,
                    (from_right, p),
                    to_right,
                );
            assert(sign == 1 || sign == -1);
            assert(call_ensures(N::times, (right_query[idx], unit), signed));
            assert(call_ensures(N::times, (signed, scales[k]), worth));
            assert(same(from_right, to_right));
        }
    }
}

/// Keys that agree are scored alike by related rotated query rows.
proof fn lemma_same_key_scores<N: Scalars>(
    same: Relation<N::F32>,
    left: KeyModel<N>,
    right: KeyModel<N>,
    shape: TurboShape,
    left_query: Seq<N::F32>,
    right_query: Seq<N::F32>,
    row: int,
    left_scale: N::F32,
    right_scale: N::F32,
    left_score: N::F32,
    right_score: N::F32,
)
    requires
        respected::<N>(same),
        shape.valid(),
        0 <= row < shape.heads.cache_rows(),
        left.codes == right.codes,
        left.scales.len() == shape.scale_count(),
        all_same(same, left.scales, right.scales),
        right.residual matches Some((_, scales)) ==> scales.len() == shape.scale_count(),
        residuals_agree(same, left, right, right_query),
        right_query.len() == shape.heads.head_dim,
        all_same(same, left_query, right_query),
        same(left_scale, right_scale),
        key_score::<N>(left_query, left, shape, row, left_scale, left_score),
        key_score::<N>(right_query, right, shape, row, right_scale, right_score),
    ensures
        same(left_score, right_score),
{
    let n = shape.heads.head_dim as nat;
    let here = coordinate_steps::<N>(left_query, left, shape, row);
    let there = coordinate_steps::<N>(right_query, right, shape, row);
    let a = choose|acc: N::F32| #[trigger]
        accumulates::<N>(here, n, acc) && call_ensures(N::times, (acc, left_scale), left_score);
    let b = choose|acc: N::F32| #[trigger]
        accumulates::<N>(there, n, acc) && call_ensures(N::times, (acc, right_scale), right_score);
    assert(steps_agree::<N>(same, here, there, n)) by {
        assert forall|idx: int, from: N::F32, to: N::F32, other: N::F32, next: N::F32|
            #![trigger here(idx, from, to), there(idx, other, next)]
            0 <= idx < n && same(from, other) && here(idx, from, to) && there(
                idx,
                other,
                next,
            ) implies same(to, next) by {
            let (v1, m1) = choose|value: N::F32, mid: N::F32|
                #![trigger key_value::<N>(left, shape, row, idx, value), adds_residual::<N>(
                    left_query[idx],
                    left,
                    shape,
                    row,
                    idx,
                    mid,
                    to,
                )]
                key_value::<N>(left, shape, row, idx, value) && adds_product::<N>(
                    left_query[idx],
                    value,
                    from,
                    mid,
                ) && adds_residual::<N>(left_query[idx], left, shape, row, idx, mid, to);
            let (v2, m2) = choose|value: N::F32, mid: N::F32|
                #![trigger key_value::<N>(right, shape, row, idx, value), adds_residual::<N>(
                    right_query[idx],
                    right,
                    shape,
                    row,
                    idx,
                    mid,
                    next,
                )]
                key_value::<N>(right, shape, row, idx, value) && adds_product::<N>(
                    right_query[idx],
                    value,
                    other,
                    mid,
                ) && adds_residual::<N>(right_query[idx], right, shape, row, idx, mid, next);
            lemma_key_in_bounds(shape, row, idx);
            assert(same(left_query[idx], right_query[idx]));
            lemma_same_value::<N>(same, left, right, shape, row, idx, v1, v2);
            lemma_same_product::<N>(
                same,
                left_query[idx],
                v1,
                from,
                m1,
                right_query[idx],
                v2,
                other,
                m2,
            );
            lemma_same_residual::<N>(
                same,
                left,
                right,
                shape,
                left_query,
                right_query,
                row,
                idx,
                m1,
                to,
                m2,
                next,
            );
        }
    }
    lemma_same_sums::<N>(same, here, there, n, a, b);
}

/// The operands of two calls agree: codes and signs are equal, numbers are related, and a residual
/// stands against one that agrees with it.
pub open spec fn operands_agree<N: Scalars>(
    same: Relation<N::F32>,
    shape: TurboShape,
    left: TurboOperands<N>,
    right: TurboOperands<N>,
) -> bool {
    &&& all_same(same, left.q, right.q)
    &&& all_same(same, left.pair_signs, right.pair_signs)
    &&& same(left.scale, right.scale)
    &&& left.keys.codes == right.keys.codes
    &&& all_same(same, left.keys.scales, right.keys.scales)
    &&& forall|query_row: int, query: Seq<N::F32>|
        0 <= query_row < shape.heads.query_rows() && #[trigger] rotated::<N>(
            query_slice(right.q, shape.heads, query_row),
            right.pair_signs,
            query,
        ) ==> residuals_agree(same, left.keys, right.keys, query)
}

/// Operands that agree have related scores.
proof fn lemma_same_scores<N: Scalars>(
    same: Relation<N::F32>,
    shape: TurboShape,
    left: TurboOperands<N>,
    right: TurboOperands<N>,
    left_out: Seq<N::F32>,
    right_out: Seq<N::F32>,
)
    requires
        respected::<N>(same),
        shape.valid(),
        left.q.len() == shape.heads.query_rows() * shape.heads.head_dim,
        2 * left.pair_signs.len() == shape.heads.head_dim,
        left.keys.scales.len() == shape.scale_count(),
        right.keys.residual matches Some((_, scales)) ==> scales.len() == shape.scale_count(),
        operands_agree(same, shape, left, right),
        turbo_scores::<N>(left.q, left.keys, left.pair_signs, shape, left.scale, left_out),
        turbo_scores::<N>(right.q, right.keys, right.pair_signs, shape, right.scale, right_out),
    ensures
        all_same(same, left_out, right_out),
{
    let heads = shape.heads;
    let tokens = heads.tokens as int;
    assert forall|i: int| 0 <= i < left_out.len() implies same(
        #[trigger] left_out[i],
        right_out[i],
    ) by {
        lemma_place(i, heads.query_rows(), tokens);
        let query_row = i / tokens;
        let token = i % tokens;
        let left_row = query_slice(left.q, heads, query_row);
        let right_row = query_slice(right.q, heads, query_row);
        assert(row_scores::<N>(
            left.q,
            left.keys,
            left.pair_signs,
            shape,
            query_row,
            left.scale,
            left_out,
        ));
        assert(row_scores::<N>(
            right.q,
            right.keys,
            right.pair_signs,
            shape,
            query_row,
            right.scale,
            right_out,
        ));
        let left_query = choose|query: Seq<N::F32>| #[trigger]
            rotated::<N>(left_row, left.pair_signs, query) && token_scores::<N>(
                query,
                left.keys,
                shape,
                query_row,
                left.scale,
                left_out,
            );
        let right_query = choose|query: Seq<N::F32>| #[trigger]
            rotated::<N>(right_row, right.pair_signs, query) && token_scores::<N>(
                query,
                right.keys,
                shape,
                query_row,
                right.scale,
                right_out,
            );
        lemma_row_in_query(left.q.len() as int, heads, query_row);
        let base = query_row * heads.head_dim;
        assert forall|k: int| 0 <= k < left_row.len() implies same(
            #[trigger] left_row[k],
            right_row[k],
        ) by {
            assert(same(left.q[base + k], right.q[base + k]));
        }
        lemma_same_rotation::<N>(
            same,
            left_row,
            left.pair_signs,
            left_query,
            right_row,
            right.pair_signs,
            right_query,
        );
        assert(token_score::<N>(
            left_query,
            left.keys,
            shape,
            query_row,
            token,
            left.scale,
            left_out,
        ));
        assert(token_score::<N>(
            right_query,
            right.keys,
            shape,
            query_row,
            token,
            right.scale,
            right_out,
        ));
        rows_in_cache(heads, query_row, token);
        lemma_same_key_scores::<N>(
            same,
            left.keys,
            right.keys,
            shape,
            left_query,
            right_query,
            heads.cache_row(query_row, token),
            left.scale,
            right.scale,
            left_out[i],
            right_out[i],
        );
    }
}

/// The rows of a query lie within it.
pub proof fn lemma_row_in_query(len: int, heads: Heads, query_row: int)
    requires
        len == heads.query_rows() * heads.head_dim,
        0 <= query_row < heads.query_rows(),
    ensures
        0 <= query_row * heads.head_dim,
        query_row * heads.head_dim + heads.head_dim <= len,
{
    let rows = heads.query_rows();
    let d = heads.head_dim as int;
    assert(0 <= query_row * d && query_row * d + d <= rows * d) by (nonlinear_arith)
        requires
            0 <= query_row,
            query_row + 1 <= rows,
            0 <= d,
    ;
}

/// The sequences behind the tensors of a call that is right have the lengths that its sizes ask
/// for.
pub proof fn lemma_lengths<N: Scalars>(
    t: TurboInputs<N>,
    r: TurboRequest,
    scale: N::F64,
    ops: TurboOperands<N>,
)
    requires
        turbo_fault(t, r) is None,
        reads_operands(t, r, scale, ops),
    ensures
        r.shape(t.q.shape()).valid(),
        ops.q.len() == r.shape(t.q.shape()).heads.query_rows() * r.head_dim,
        2 * ops.pair_signs.len() == r.head_dim,
        ops.keys.scales.len() == r.shape(t.q.shape()).scale_count(),
        ops.keys.residual matches Some((_, scales)) ==> scales.len() == r.shape(
            t.q.shape(),
        ).scale_count(),
{
    lemma_rank_3(t.q.shape());
    lemma_rank_2(t.scales.shape());
    lemma_rank_1(t.pair_signs.shape());
    if let Some(scales) = t.residual_scales {
        lemma_rank_2(scales.shape());
    }
}

/// Packed or not, the values that bytes hold are read one way.
proof fn lemma_same_bytes(
    bytes: Seq<u8>,
    bits: Option<int>,
    count: int,
    left: Seq<u8>,
    right: Seq<u8>,
)
    requires
        reads_values(bytes, bits, count, left),
        reads_values(bytes, bits, count, right),
    ensures
        left == right,
{
    if let Some(bits) = bits {
        unpacking_is_unique(bytes, bits, left, right);
    }
}

/// Calls that read the same bytes and related numbers have operands that agree, as long as their
/// residuals do.
proof fn lemma_operands_agree<N: Scalars>(
    same: Relation<N::F32>,
    left: TurboInputs<N>,
    right: TurboInputs<N>,
    r: TurboRequest,
    scale: N::F64,
    a: TurboOperands<N>,
    b: TurboOperands<N>,
)
    requires
        respected::<N>(same),
        right == (TurboInputs {
            scales: right.scales,
            residual_signs: right.residual_signs,
            residual_scales: right.residual_scales,
            ..left
        }),
        reads_operands(left, r, scale, a),
        reads_operands(right, r, scale, b),
        all_same(same, a.keys.scales, b.keys.scales),
        forall|query_row: int, query: Seq<N::F32>|
            0 <= query_row < r.shape(left.q.shape()).heads.query_rows() && #[trigger] rotated::<N>(
                query_slice(b.q, r.shape(left.q.shape()).heads, query_row),
                b.pair_signs,
                query,
            ) ==> residuals_agree(same, a.keys, b.keys, query),
    ensures
        operands_agree(same, r.shape(left.q.shape()), a, b),
{
    lemma_same_reading::<N>(same, left.q.storage->Host_0, left.q.layout, a.q, b.q);
    lemma_same_reading::<N>(
        same,
        left.pair_signs.storage->Host_0,
        left.pair_signs.layout,
        a.pair_signs,
        b.pair_signs,
    );
    lemma_same_bytes(
        byte_elements(*left.codes),
        bits_of_code(r),
        r.shape(left.q.shape()).code_count(),
        a.keys.codes,
        b.keys.codes,
    );
}

/// What is read of a tensor and of the tensor brought to single precision is related.
proof fn lemma_widened_numbers<N: Scalars>(
    same: Relation<N::F32>,
    half: Tensor<N>,
    wide: Tensor<N>,
    a: Seq<N::F32>,
    b: Seq<N::F32>,
)
    requires
        respected::<N>(same),
        is_widened(half, wide),
        reads_numbers(half, a),
        reads_numbers(wide, b),
    ensures
        all_same(same, a, b),
{
    assert(reads_numbers(half, b));
    lemma_same_reading::<N>(same, half.storage->Host_0, half.layout, a, b);
}

/// Two calls are refused for one reason, or hold back from one query, or return related tensors.
pub open spec fn same_outcomes<N: Scalars>(
    same: Relation<N::F32>,
    left: Result<TurboOutcome<N>, TurboError>,
    right: Result<TurboOutcome<N>, TurboError>,
) -> bool {
    match (left, right) {
        (Ok(TurboOutcome::Host(a)), Ok(TurboOutcome::Host(b))) => same_tensors(same, a, b),
        (Ok(TurboOutcome::CastQuery), Ok(TurboOutcome::CastQuery)) => true,
        (Err(a), Err(b)) => a == b,
        _ => false,
    }
}

/// Keys with scales in half precision are scored as with those scales brought to single
/// precision: what the second call returns is a result of the first, and any two results are
/// related by every relation that the operations respect.
pub proof fn half_scales_are_single_scales<N: Scalars>(
    half: TurboInputs<N>,
    wide: TurboInputs<N>,
    r: TurboRequest,
    scale: N::F64,
    left: Result<TurboOutcome<N>, TurboError>,
    right: Result<TurboOutcome<N>, TurboError>,
)
    requires
        widens_scales(half, wide),
        turbo_outcome(half, r, scale, left),
        turbo_outcome(wide, r, scale, right),
    ensures
        turbo_outcome(half, r, scale, right),
        forall|same: Relation<N::F32>| #[trigger]
            respected::<N>(same) ==> same_outcomes(same, left, right),
{
    assert(turbo_fault(half, r) == turbo_fault(wide, r));
    if let Ok(TurboOutcome::Host(out)) = right {
        let other = left->Ok_0->Host_0;
        let shape = r.shape(half.q.shape());
        let a = choose|ops: TurboOperands<N>| #[trigger]
            reads_operands(half, r, scale, ops) && turbo_scores::<N>(
                ops.q,
                ops.keys,
                ops.pair_signs,
                shape,
                ops.scale,
                other.data->F32_0@,
            );
        let b = choose|ops: TurboOperands<N>| #[trigger]
            reads_operands(wide, r, scale, ops) && turbo_scores::<N>(
                ops.q,
                ops.keys,
                ops.pair_signs,
                shape,
                ops.scale,
                out.data->F32_0@,
            );
        assert(reads_numbers(*half.scales, b.keys.scales));
        assert(reads_keys(half, r, b.keys));
        assert(reads_operands(half, r, scale, b));
        assert forall|same: Relation<N::F32>| #[trigger] respected::<N>(same) implies same_outcomes(
            same,
            left,
            right,
        ) by {
            lemma_lengths(half, r, scale, a);
            lemma_lengths(wide, r, scale, b);
            lemma_widened_numbers::<N>(
                same,
                *half.scales,
                *wide.scales,
                a.keys.scales,
                b.keys.scales,
            );
            if let (Some((signs, scales)), Some((other_signs, other_scales))) = (
                a.keys.residual,
                b.keys.residual,
            ) {
                lemma_widened_numbers::<N>(
                    same,
                    *half.residual_scales->0,
                    *wide.residual_scales->0,
                    scales,
                    other_scales,
                );
                lemma_same_bytes(
                    byte_elements(*half.residual_signs->0),
                    bits_of_sign(r),
                    shape.code_count(),
                    signs,
                    other_signs,
                );
            }
            lemma_operands_agree::<N>(same, half, wide, r, scale, a, b);
            lemma_same_scores::<N>(
                same,
                shape,
                a,
                b,
                other.data->F32_0@,
                out.data->F32_0@,
            );
        }
    }
}

/// Adding a zero to a number, times a finite number, leaves it as it is, and a finite number with
/// its sign kept or changed stays finite.
pub open spec fn zeros_add_nothing<N: Scalars>(
    same: Relation<N::F32>,
    finite: spec_fn(N::F32) -> bool,
) -> bool {
    &&& forall|a: N::F32, zero: N::F32, worth: N::F32, from: N::F32, to: N::F32|
        #![trigger call_ensures(N::times, (a, zero), worth), call_ensures(
            N::plus,
            (from, worth),
            to,
        )]
        finite(a) && call_ensures(N::is_zero, (zero,), true) && call_ensures(
            N::times,
            (a, zero),
            worth,
        ) && call_ensures(N::plus, (from, worth), to) ==> same(from, to)
    &&& forall|a: N::F32, sign: i32, unit: N::F32, signed: N::F32|
        #![trigger call_ensures(N::from_i32, (sign,), unit), call_ensures(
            N::times,
            (a, unit),
            signed,
        )]
        finite(a) && (sign == 1 || sign == -1) && call_ensures(N::from_i32, (sign,), unit)
            && call_ensures(N::times, (a, unit), signed) ==> finite(signed)
}

/// The rotated rows of the query are finite.
pub open spec fn finite_queries<N: Scalars>(
    t: TurboInputs<N>,
    r: TurboRequest,
    finite: spec_fn(N::F32) -> bool,
) -> bool {
    let heads = r.shape(t.q.shape()).heads;
    forall|q: Seq<N::F32>, signs: Seq<N::F32>, query_row: int, query: Seq<N::F32>, idx: int|
        #![trigger reads_numbers(*t.q, q), rotated::<N>(
            query_slice(q, heads, query_row),
            signs,
            query,
        ), query[idx]]
        reads_numbers(*t.q, q) && reads_numbers(*t.pair_signs, signs) && 0 <= query_row
            < heads.query_rows() && rotated::<N>(query_slice(q, heads, query_row), signs, query)
            && 0 <= idx < query.len() ==> finite(query[idx])
}

/// Every number of a tensor is a zero.
pub open spec fn all_zero<N: Scalars>(t: Tensor<N>) -> bool {
    forall|numbers: Seq<N::F32>, i: int|
        #![trigger reads_numbers(t, numbers), numbers[i]]
        reads_numbers(t, numbers) && 0 <= i < numbers.len() ==> call_ensures(
            N::is_zero,
            (numbers[i],),
            true,
        )
}

/// A residual whose scales are all zero leaves every score of a finite query as it is without a
/// residual: where the call without residual succeeds, so does the call with it, and the results
/// are related.
pub proof fn empty_residuals_change_nothing<N: Scalars>(
    same: Relation<N::F32>,
    finite: spec_fn(N::F32) -> bool,
    plain: TurboInputs<N>,
    full: TurboInputs<N>,
    r: TurboRequest,
    scale: N::F64,
    left: HostTensor<N>,
    right: Result<TurboOutcome<N>, TurboError>,
)
    requires
        respected::<N>(same),
        zeros_add_nothing::<N>(same, finite),
        finite_queries(plain, r, finite),
        plain.residual_signs is None,
        plain.residual_scales is None,
        full == (TurboInputs {
            residual_signs: full.residual_signs,
            residual_scales: full.residual_scales,
            ..plain
        }),
        full.residual_signs is Some,
        full.residual_scales matches Some(scales) && all_zero(*scales),
        residual_fault(full, r) is None,
        turbo_outcome(plain, r, scale, Ok(TurboOutcome::Host(left))),
        turbo_outcome(full, r, scale, right),
    ensures
        right matches Ok(TurboOutcome::Host(out)) && same_tensors(same, left, out),
{
    assert(turbo_fault(full, r) is None);
    let out = right->Ok_0->Host_0;
    let shape = r.shape(plain.q.shape());
    let a = choose|ops: TurboOperands<N>| #[trigger]
        reads_operands(plain, r, scale, ops) && turbo_scores::<N>(
            ops.q,
            ops.keys,
            ops.pair_signs,
            shape,
            ops.scale,
            left.data->F32_0@,
        );
    let b = choose|ops: TurboOperands<N>| #[trigger]
        reads_operands(full, r, scale, ops) && turbo_scores::<N>(
            ops.q,
            ops.keys,
            ops.pair_signs,
            shape,
            ops.scale,
            out.data->F32_0@,
        );
    lemma_lengths(plain, r, scale, a);
    lemma_lengths(full, r, scale, b);
    let (_, scales) = b.keys.residual->Some_0;
    lemma_same_reading::<N>(
        same,
        plain.scales.storage->Host_0,
        plain.scales.layout,
        a.keys.scales,
        b.keys.scales,
    );
    assert forall|query_row: int, query: Seq<N::F32>|
        0 <= query_row < shape.heads.query_rows() && #[trigger] rotated::<N>(
            query_slice(b.q, shape.heads, query_row),
            b.pair_signs,
            query,
        ) implies residuals_agree(same, a.keys, b.keys, query) by {
        assert(reads_numbers(*plain.q, b.q));
        assert(reads_numbers(*full.residual_scales->0, scales));
        assert(add_nothing::<N>(same, query, scales));
    }
    lemma_operands_agree::<N>(same, plain, full, r, scale, a, b);
    lemma_same_scores::<N>(same, shape, a, b, left.data->F32_0@, out.data->F32_0@);
}

} // verus!
