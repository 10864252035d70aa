//! What scores against TurboQuant keys are: products of a rotated query and the numbers that codes
//! and residuals stand for.
use crate::arith::lemma_pair;
use crate::exact::{
    lemma_product_exactly, lemma_read_nth, lemma_sum_exactly, Reading,
};
use crate::kv_attn::bits::{number_of, values_are_numbers_of_digits};
use crate::kv_attn::heads::rows_in_cache;
use crate::kv_attn::rowwise_values::lemma_cache_row;
use crate::kv_attn::turbo::{
    byte_elements, reads_operands, reads_values, turbo_fault, turbo_outcome, TurboInputs,
    TurboOperands, TurboOutcome, TurboRequest,
};
use crate::kv_attn::turbo_kernel::{
    adds_residual, coordinate_steps, halved_sum, key_value, lemma_key_in_bounds,
    pair_turned, query_slice, rotated, row_scores, token_score, token_scores, turbo_scores, turned,
    TurboQuantKind,
};
use crate::kv_attn::turbo_laws::{lemma_lengths, lemma_row_in_query};
use crate::scalar::{accumulates, adds_product, Scalars};
use crate::tensor::{HostData, HostTensor, HostVec, Storage, Tensor};
use vstd::prelude::*;

verus! {

/// A turn by 45 degrees keeps the length of a pair, and the turn in the other direction gives the
/// pair back.
pub proof fn turns_are_rotations<N: Scalars>(
    r: Reading<N>,
    a: N::F32,
    b: N::F32,
    sign: N::F32,
    left: N::F32,
    right: N::F32,
    other: N::F32,
    back_left: N::F32,
    back_right: N::F32,
)
    requires
        r.is_exact(),
        (r.single)(sign) == 1real || (r.single)(sign) == -1real,
        turned::<N>(a, b, sign, left, right),
        (r.single)(other) == -(r.single)(sign),
        turned::<N>(left, right, other, back_left, back_right),
    ensures
        (r.single)(left) * (r.single)(left) + (r.single)(right) * (r.single)(right) == (r.single)(
            a,
        ) * (r.single)(a) + (r.single)(b) * (r.single)(b),
        (r.single)(back_left) == (r.single)(a),
        (r.single)(back_right) == (r.single)(b),
{
    let f = lemma_turn_exactly::<N>(r, a, b, sign, left, right);
    let g = lemma_turn_exactly::<N>(r, left, right, other, back_left, back_right);
    lemma_one_root(f, g);
    let (x, y) = ((r.single)(a), (r.single)(b));
    let (u, v) = ((r.single)(left), (r.single)(right));
    if (r.single)(sign) == 1real {
        assert(u == (x + y) * f && v == (y - x) * f) by (nonlinear_arith)
            requires
                u == (x + 1real * y) * f,
                v == (y - 1real * x) * f,
        ;
        assert(u * u + v * v == x * x + y * y) by (nonlinear_arith)
            requires
                u == (x + y) * f,
                v == (y - x) * f,
                2real * (f * f) == 1real,
        ;
        assert((u + (-1real) * v) * f == x && (v - (-1real) * u) * f == y) by (nonlinear_arith)
            requires
                u == (x + y) * f,
                v == (y - x) * f,
                2real * (f * f) == 1real,
        ;
    } else {
        assert(u == (x - y) * f && v == (y + x) * f) by (nonlinear_arith)
            requires
                u == (x + (-1real) * y) * f,
                v == (y - (-1real) * x) * f,
        ;
        assert(u * u + v * v == x * x + y * y) by (nonlinear_arith)
            requires
                u == (x - y) * f,
                v == (y + x) * f,
                2real * (f * f) == 1real,
        ;
        assert((u + 1real * v) * f == x && (v - 1real * u) * f == y) by (nonlinear_arith)
            requires
                u == (x - y) * f,
                v == (y + x) * f,
                2real * (f * f) == 1real,
        ;
    }
}

/// There is one positive root of a half.
proof fn lemma_one_root(f: real, g: real)
    requires
        f > 0real,
        g > 0real,
        2real * (f * f) == 1real,
        2real * (g * g) == 1real,
    ensures
        f == g,
{
    assert(f == g) by (nonlinear_arith)
        requires
            f > 0real,
            g > 0real,
            2real * (f * f) == 1real,
            2real * (g * g) == 1real,
    ;
}

/// A turn in real numbers.
proof fn lemma_turn_exactly<N: Scalars>(
    r: Reading<N>,
    a: N::F32,
    b: N::F32,
    sign: N::F32,
    left: N::F32,
    right: N::F32,
) -> (f: real)
    requires
        r.is_exact(),
        turned::<N>(a, b, sign, left, right),
    ensures
        f > 0real,
        2real * (f * f) == 1real,
        (r.single)(left) == ((r.single)(a) + (r.single)(sign) * (r.single)(b)) * f,
        (r.single)(right) == ((r.single)(b) - (r.single)(sign) * (r.single)(a)) * f,
{
    let (signed_b, opposite, signed_a) = choose|
        signed_b: N::F32,
        opposite: N::F32,
        signed_a: N::F32,
    |
        #![trigger halved_sum::<N>(a, signed_b, left), call_ensures(
            N::negate,
            (sign,),
            opposite,
        ), halved_sum::<N>(signed_a, b, right)]
        {
            &&& call_ensures(N::times, (sign, b), signed_b)
            &&& halved_sum::<N>(a, signed_b, left)
            &&& call_ensures(N::negate, (sign,), opposite)
            &&& call_ensures(N::times, (opposite, a), signed_a)
            &&& halved_sum::<N>(signed_a, b, right)
        };
    let f = lemma_halved_exactly::<N>(r, a, signed_b, left);
    let g = lemma_halved_exactly::<N>(r, signed_a, b, right);
    lemma_one_root(f, g);
    let (s, x, y) = ((r.single)(sign), (r.single)(a), (r.single)(b));
    assert((-s) * x + y == y - s * x) by (nonlinear_arith);
    f
}

proof fn lemma_halved_exactly<N: Scalars>(r: Reading<N>, x: N::F32, y: N::F32, out: N::F32) -> (f:
    real)
    requires
        r.is_exact(),
        halved_sum::<N>(x, y, out),
    ensures
        f > 0real,
        2real * (f * f) == 1real,
        (r.single)(out) == ((r.single)(x) + (r.single)(y)) * f,
{
    let (sum, factor) = choose|sum: N::F32, factor: N::F32|
        call_ensures(N::plus, (x, y), sum) && #[trigger] call_ensures(N::frac_1_sqrt_2, (), factor)
            && #[trigger] call_ensures(N::times, (sum, factor), out);
    (r.single)(factor)
}

/// Coordinate `i` of a rotated query row, which starts at number `from` of the query: the pairs
/// `(a, b)` become `((a + sign * b) * f, (b - sign * a) * f)`, where `f` is the root of a half.
pub open spec fn rotated_at<N: Scalars>(
    r: Reading<N>,
    t: TurboInputs<N>,
    f: real,
    from: int,
    i: int,
) -> real {
    let sign = r.nth(*t.pair_signs, i / 2);
    if i % 2 == 0 {
        (r.nth(*t.q, from + i) + sign * r.nth(*t.q, from + i + 1)) * f
    } else {
        (r.nth(*t.q, from + i) - sign * r.nth(*t.q, from + i - 1)) * f
    }
}

/// The bytes of a tensor, in row-major order.
pub open spec fn bytes_of<N: Scalars>(t: Tensor<N>) -> Seq<u8> {
    match t.storage {
        Storage::Host(HostData::U8(bytes)) => t.layout.elements(bytes@),
        _ => Seq::empty(),
    }
}

/// Code number `i`: a byte, or as many binary digits as a code has.
pub open spec fn code_number<N: Scalars>(t: TurboInputs<N>, request: TurboRequest, i: int) -> int {
    match request.code_bits {
        None => bytes_of(*t.codes)[i] as int,
        Some(bits) => number_of(bytes_of(*t.codes), i * bits, bits as int),
    }
}

/// Residual bit number `i`: a byte, or a binary digit.
pub open spec fn residual_bit<N: Scalars>(signs: Tensor<N>, request: TurboRequest, i: int) -> int {
    match request.code_bits {
        None => bytes_of(signs)[i] as int,
        Some(_) => number_of(bytes_of(signs), i, 1),
    }
}

/// What a residual adds to coordinate `i` of key `row`: its scale where the bit is not zero, and
/// the opposite of its scale where it is.
pub open spec fn residual_number<N: Scalars>(
    r: Reading<N>,
    t: TurboInputs<N>,
    request: TurboRequest,
    row: int,
    i: int,
) -> real {
    match (t.residual_signs, t.residual_scales) {
        (Some(signs), Some(scales)) => {
            let blocks = request.head_dim as int / request.scale_block_dim as int;
            let scale = r.nth(*scales, row * blocks + i / request.scale_block_dim as int);
            if residual_bit(*signs, request, row * request.head_dim + i) != 0 {
                scale
            } else {
                -scale
            }
        },
        _ => 0real,
    }
}

/// Coordinate `i` of key `row`: its code less 3 or 7, times the scale of its block, and its
/// residual.
pub open spec fn key_number<N: Scalars>(
    r: Reading<N>,
    t: TurboInputs<N>,
    request: TurboRequest,
    row: int,
    i: int,
) -> real {
    let blocks = request.head_dim as int / request.scale_block_dim as int;
    let middle = match request.kind {
        TurboQuantKind::Turbo3 => 3int,
        TurboQuantKind::Turbo4 => 7int,
    };
    (code_number(t, request, row * request.head_dim + i) - middle) as real * r.nth(
        *t.scales,
        row * blocks + i / request.scale_block_dim as int,
    ) + residual_number(r, t, request, row, i)
}

/// The product of the first `n` coordinates of a rotated query row and of a key.
pub open spec fn rotated_dot<N: Scalars>(
    r: Reading<N>,
    t: TurboInputs<N>,
    request: TurboRequest,
    f: real,
    from: int,
    row: int,
    n: int,
) -> real
    decreases n,
{
    if n <= 0 {
        0real
    } else {
        rotated_dot(r, t, request, f, from, row, n - 1) + rotated_at(r, t, f, from, n - 1)
            * key_number(r, t, request, row, n - 1)
    }
}

/// The rotated query row stands for the rotated numbers of the query.
proof fn lemma_rotated_exactly<N: Scalars>(
    r: Reading<N>,
    t: TurboInputs<N>,
    request: TurboRequest,
    ops: TurboOperands<N>,
    scale: N::F64,
    f: real,
    query_row: int,
    query: Seq<N::F32>,
    i: int,
)
    requires
        r.is_exact(),
        f > 0real,
        2real * (f * f) == 1real,
        turbo_fault(t, request) is None,
        reads_operands(t, request, scale, ops),
        0 <= query_row < request.shape(t.q.shape()).heads.query_rows(),
        rotated::<N>(
            query_slice(ops.q, request.shape(t.q.shape()).heads, query_row),
            ops.pair_signs,
            query,
        ),
        0 <= i < request.head_dim,
    ensures
        (r.single)(query[i]) == rotated_at(r, t, f, query_row * request.head_dim, i),
{
    lemma_lengths(t, request, scale, ops);
    let heads = request.shape(t.q.shape()).heads;
    let d = request.head_dim as int;
    let from = query_row * d;
    let row = query_slice(ops.q, heads, query_row);
    let p = i / 2;
    lemma_row_in_query(ops.q.len() as int, heads, query_row);
    assert(pair_turned::<N>(row, ops.pair_signs, query, p));
    let g = lemma_turn_exactly::<N>(
        r,
        row[2 * p],
        row[2 * p + 1],
        ops.pair_signs[p],
        query[2 * p],
        query[2 * p + 1],
    );
    lemma_one_root(f, g);
    lemma_read_nth(r, *t.q, ops.q, from + 2 * p);
    lemma_read_nth(r, *t.q, ops.q, from + 2 * p + 1);
    lemma_read_nth(r, *t.pair_signs, ops.pair_signs, p);
    assert(row[2 * p] == ops.q[from + 2 * p]);
    assert(row[2 * p + 1] == ops.q[from + 2 * p + 1]);
    assert(i == 2 * p || i == 2 * p + 1);
}

/// A byte or a group of digits is the number that is read.
proof fn lemma_value_number(bytes: Seq<u8>, bits: Option<int>, count: int, values: Seq<u8>, i: int)
    requires
        reads_values(bytes, bits, count, values),
        bits matches Some(bits) ==> 0 < bits <= 8,
        0 <= i < count,
    ensures
        values[i] == (match bits {
            None => bytes[i] as int,
            Some(bits) => number_of(bytes, i * bits, bits),
        }),
{
    if let Some(bits) = bits {
        values_are_numbers_of_digits(bytes, bits, values, i);
    }
}

/// What one coordinate adds to a score.
proof fn lemma_coordinate_exactly<N: Scalars>(
    r: Reading<N>,
    t: TurboInputs<N>,
    request: TurboRequest,
    ops: TurboOperands<N>,
    scale: N::F64,
    query: Seq<N::F32>,
    row: int,
    i: int,
    from: N::F32,
    to: N::F32,
)
    requires
        r.is_exact(),
        turbo_fault(t, request) is None,
        reads_operands(t, request, scale, ops),
        0 <= row < request.shape(t.q.shape()).heads.cache_rows(),
        0 <= i < request.head_dim,
        coordinate_steps::<N>(query, ops.keys, request.shape(t.q.shape()), row)(i, from, to),
    ensures
        (r.single)(to) == (r.single)(from) + (r.single)(query[i]) * key_number(
            r,
            t,
            request,
            row,
            i,
        ),
{
    let shape = request.shape(t.q.shape());
    let keys = ops.keys;
    let (value, mid) = choose|value: N::F32, mid: N::F32|
        #![trigger key_value::<N>(keys, shape, row, i, value), adds_residual::<N>(
            query[i],
            keys,
            shape,
            row,
            i,
            mid,
            to,
        )]
        key_value::<N>(keys, shape, row, i, value) && adds_product::<N>(
            query[i],
            value,
            from,
            mid,
        ) && adds_residual::<N>(query[i], keys, shape, row, i, mid, to);
    lemma_lengths(t, request, scale, ops);
    lemma_key_in_bounds(shape, row, i);
    lemma_product_exactly::<N>(r, query[i], value, from, mid);
    let count = shape.code_count();
    let k = row * shape.heads.head_dim + i;
    let block = row * shape.blocks() + i / shape.scale_block_dim as int;
    let bits = match request.code_bits {
        Some(bits) => Some(bits as int),
        None => None,
    };
    assert(byte_elements(*t.codes) == bytes_of(*t.codes));
    lemma_value_number(bytes_of(*t.codes), bits, count, keys.codes, k);
    lemma_read_nth(r, *t.scales, keys.scales, block);
    let code = keys.codes[k] - shape.kind.max_value();
    let number = choose|number: N::F32| #[trigger]
        call_ensures(N::from_i32, (code as i32,), number) && call_ensures(
            N::times,
            (number, keys.scales[block]),
            value,
        );
    assert((r.single)(number) == code as real);
    let middle = match request.kind {
        TurboQuantKind::Turbo3 => 3int,
        TurboQuantKind::Turbo4 => 7int,
    };
    let q = (r.single)(query[i]);
    let main = (code_number(t, request, k) - middle) as real * r.nth(*t.scales, block);
    assert(code == code_number(t, request, k) - middle);
    assert((r.single)(value) == main);
    let rest = residual_number(r, t, request, row, i);
    match (t.residual_signs, t.residual_scales) {
        (Some(signs), Some(scales)) => {
            let (key_signs, key_scales) = keys.residual->Some_0;
            let sign_bits = match request.code_bits {
                Some(_) => Some(1int),
                None => None,
            };
            assert(byte_elements(*signs) == bytes_of(*signs));
            lemma_value_number(bytes_of(*signs), sign_bits, count, key_signs, k);
            assert(k * 1 == k);
            lemma_read_nth(r, *scales, key_scales, block);
            let bit = key_signs[k];
            assert(bit == residual_bit(*signs, request, k));
            let sign: i32 = crate::kv_attn::turbo_kernel::residual_sign(bit);
            let factor = key_scales[block];
            let (unit, signed) = choose|unit: N::F32, signed: N::F32|
                #![trigger call_ensures(N::from_i32, (sign,), unit), adds_product::<N>(
                    signed,
                    factor,
                    mid,
                    to,
                )]
                call_ensures(N::from_i32, (sign,), unit) && call_ensures(
                    N::times,
                    (query[i], unit),
                    signed,
                ) && adds_product::<N>(signed, factor, mid, to);
            lemma_product_exactly::<N>(r, signed, factor, mid, to);
            let s = (r.single)(unit);
            let z = (r.single)(factor);
            if bit != 0 {
                assert(s == 1real && rest == z);
                assert((q * s) * z == q * rest) by (nonlinear_arith)
                    requires
                        s == 1real,
                        rest == z,
                ;
            } else {
                assert(s == -1real && rest == -z);
                assert((q * s) * z == q * rest) by (nonlinear_arith)
                    requires
                        s == -1real,
                        rest == -z,
                ;
            }
        },
        _ => {
            assert(q * rest == 0real) by (nonlinear_arith)
                requires
                    rest == 0real,
            ;
        },
    }
    assert(q * main + q * rest == q * (main + rest)) by (nonlinear_arith);
}

/// The score of head `h` of batch entry `b` and token `token` is the scale times the product of
/// the rotated query of that entry and head, and of the key that they read for that token. The
/// scale comes last.
pub proof fn turbo_scores_are_scaled_products<N: Scalars>(
    r: Reading<N>,
    t: TurboInputs<N>,
    request: TurboRequest,
    scale: N::F64,
    out: HostTensor<N>,
    f: real,
    b: int,
    h: int,
    token: int,
)
    requires
        r.is_exact(),
        f > 0real,
        2real * (f * f) == 1real,
        turbo_outcome(t, request, scale, Ok(TurboOutcome::Host(out))),
        0 <= b < t.q.shape()[0],
        0 <= h < t.q.shape()[1],
        0 <= token < request.tokens,
    ensures
        out.dims@ == seq![t.q.shape()[0], t.q.shape()[1], request.tokens],
        out.data matches HostVec::F32(values) && values@.len() == t.q.shape()[0] * t.q.shape()[1]
            * request.tokens,
        r.of(out, (b * t.q.shape()[1] + h) * request.tokens + token) == (r.double)(scale)
            * rotated_dot(
            r,
            t,
            request,
            f,
            (b * t.q.shape()[1] + h) * request.head_dim,
            (b * request.kv_heads + h / request.repeat_factor as int) * request.tokens + token,
            request.head_dim as int,
        ),
        exists|acc: N::F32, single: N::F32|
            #![trigger call_ensures(N::single, (scale,), single), call_ensures(
                N::times,
                (acc, single),
                out.data->F32_0@[(b * t.q.shape()[1] + h) * request.tokens + token],
            )]
            call_ensures(N::single, (scale,), single) && call_ensures(
                N::times,
                (acc, single),
                out.data->F32_0@[(b * t.q.shape()[1] + h) * request.tokens + token],
            ),
{
    let shape = request.shape(t.q.shape());
    let heads = shape.heads;
    let d = request.head_dim as int;
    let tokens = heads.tokens as int;
    let query_row = b * heads.full_heads + h;
    let values = out.data->F32_0@;
    let ops = choose|ops: TurboOperands<N>| #[trigger]
        reads_operands(t, request, scale, ops) && turbo_scores::<N>(
            ops.q,
            ops.keys,
            ops.pair_signs,
            shape,
            ops.scale,
            values,
        );
    lemma_cache_row(heads, b, h, token);
    lemma_pair(query_row, token, heads.query_rows(), tokens);
    rows_in_cache(heads, query_row, token);
    let row = heads.cache_row(query_row, token);
    assert(row_scores::<N>(
        ops.q,
        ops.keys,
        ops.pair_signs,
        shape,
        query_row,
        ops.scale,
        values,
    ));
    let query = choose|query: Seq<N::F32>| #[trigger]
        rotated::<N>(query_slice(ops.q, heads, query_row), ops.pair_signs, query) && token_scores::<
            N,
        >(query, ops.keys, shape, query_row, ops.scale, values);
    assert(token_score::<N>(query, ops.keys, shape, query_row, token, ops.scale, values));
    let score = values[query_row * tokens + token];
    let steps = coordinate_steps::<N>(query, ops.keys, shape, row);
    let acc = choose|acc: N::F32| #[trigger]
        accumulates::<N>(steps, d as nat, acc) && call_ensures(N::times, (acc, ops.scale), score);
    let total = |n: int| rotated_dot(r, t, request, f, query_row * d, row, n);
    assert forall|i: int, from: N::F32, to: N::F32|
        0 <= i < d && #[trigger] steps(i, from, to) implies (r.single)(to) - (r.single)(from)
        == total(i + 1) - total(i) by {
        lemma_coordinate_exactly(r, t, request, ops, scale, query, row, i, from, to);
        lemma_rotated_exactly(r, t, request, ops, scale, f, query_row, query, i);
    }
    lemma_sum_exactly::<N>(r, steps, total, d as nat, acc);
    let (x, y) = ((r.single)(acc), (r.single)(ops.scale));
    assert(x * y == y * x) by (nonlinear_arith);
}

/// The product of `n` numbers of the query from number `from` on, and the first `n` of `key`.
pub open spec fn plain_dot<N: Scalars>(
    r: Reading<N>,
    t: TurboInputs<N>,
    key: spec_fn(int) -> real,
    from: int,
    n: int,
) -> real
    decreases n,
{
    if n <= 0 {
        0real
    } else {
        plain_dot(r, t, key, from, n - 1) + r.nth(*t.q, from + n - 1) * key(n - 1)
    }
}

/// Coordinate `i` of `key`, rotated as the query is.
pub open spec fn rotated_key<N: Scalars>(
    r: Reading<N>,
    t: TurboInputs<N>,
    key: spec_fn(int) -> real,
    f: real,
    i: int,
) -> real {
    let sign = r.nth(*t.pair_signs, i / 2);
    if i % 2 == 0 {
        (key(i) + sign * key(i + 1)) * f
    } else {
        (key(i) - sign * key(i - 1)) * f
    }
}

/// Rotating both factors changes nothing of a product.
proof fn lemma_rotation_keeps_products<N: Scalars>(
    r: Reading<N>,
    t: TurboInputs<N>,
    request: TurboRequest,
    key: spec_fn(int) -> real,
    f: real,
    from: int,
    row: int,
    pairs: int,
)
    requires
        2real * (f * f) == 1real,
        0 <= pairs,
        2 * pairs <= request.head_dim,
        forall|p: int|
            0 <= p < pairs ==> (#[trigger] r.nth(*t.pair_signs, p) == 1real || r.nth(
                *t.pair_signs,
                p,
            ) == -1real),
        forall|i: int|
            0 <= i < request.head_dim ==> #[trigger] key_number(r, t, request, row, i)
                == rotated_key(r, t, key, f, i),
    ensures
        rotated_dot(r, t, request, f, from, row, 2 * pairs) == plain_dot(
            r,
            t,
            key,
            from,
            2 * pairs,
        ),
    decreases pairs,
{
    if pairs > 0 {
        let p = pairs - 1;
        lemma_rotation_keeps_products(r, t, request, key, f, from, row, p);
        let (i, j) = (2 * p, 2 * p + 1);
        reveal_with_fuel(rotated_dot, 3);
        reveal_with_fuel(plain_dot, 3);
        let s = r.nth(*t.pair_signs, p);
        assert(i / 2 == p && j / 2 == p && i % 2 == 0 && j % 2 == 1);
        let (a, b) = (r.nth(*t.q, from + i), r.nth(*t.q, from + j));
        let (c, d) = (key(i), key(j));
        assert(key_number(r, t, request, row, i) == (c + s * d) * f);
        assert(key_number(r, t, request, row, j) == (d - s * c) * f);
        assert(rotated_at(r, t, f, from, i) == (a + s * b) * f);
        assert(rotated_at(r, t, f, from, j) == (b - s * a) * f);
        lemma_pair_product(a, b, c, d, s, f);
    }
}

proof fn lemma_pair_product(a: real, b: real, c: real, d: real, s: real, f: real)
    requires
        2real * (f * f) == 1real,
        s == 1real || s == -1real,
    ensures
        ((a + s * b) * f) * ((c + s * d) * f) + ((b - s * a) * f) * ((d - s * c) * f) == a * c + b
            * d,
{
    let (x, y, z, w) = (a + s * b, c + s * d, b - s * a, d - s * c);
    let g = f * f;
    let whole = a * c + b * d;
    assert((x * f) * (y * f) == g * (x * y)) by (nonlinear_arith)
        requires
            g == f * f,
    ;
    assert((z * f) * (w * f) == g * (z * w)) by (nonlinear_arith)
        requires
            g == f * f,
    ;
    if s == 1real {
        assert(s * b == b && s * d == d && s * a == a && s * c == c) by (nonlinear_arith)
            requires
                s == 1real,
        ;
        assert((a + b) * (c + d) + (b - a) * (d - c) == 2real * (a * c + b * d))
            by (nonlinear_arith);
    } else {
        assert(s * b == -b && s * d == -d && s * a == -a && s * c == -c) by (nonlinear_arith)
            requires
                s == -1real,
        ;
        assert((a + (-b)) * (c + (-d)) + (b - (-a)) * (d - (-c)) == 2real * (a * c + b * d))
            by (nonlinear_arith);
    }
    let (u, v) = (x * y, z * w);
    assert(g * u + g * v == whole) by (nonlinear_arith)
        requires
            u + v == 2real * whole,
            2real * g == 1real,
    ;
}

/// Where the key of a token is a vector that was rotated as the query is, its score is the scale
/// times the product of the query and the vector, neither of them rotated.
pub proof fn rotated_keys_score_as_plain_keys<N: Scalars>(
    r: Reading<N>,
    t: TurboInputs<N>,
    request: TurboRequest,
    scale: N::F64,
    out: HostTensor<N>,
    f: real,
    key: spec_fn(int) -> real,
    b: int,
    h: int,
    token: int,
)
    requires
        r.is_exact(),
        f > 0real,
        2real * (f * f) == 1real,
        turbo_outcome(t, request, scale, Ok(TurboOutcome::Host(out))),
        0 <= b < t.q.shape()[0],
        0 <= h < t.q.shape()[1],
        0 <= token < request.tokens,
        forall|p: int|
            0 <= p < request.head_dim as int / 2 ==> (#[trigger] r.nth(*t.pair_signs, p) == 1real
                || r.nth(*t.pair_signs, p) == -1real),
        forall|i: int|
            0 <= i < request.head_dim ==> #[trigger] key_number(
                r,
                t,
                request,
                (b * request.kv_heads + h / request.repeat_factor as int) * request.tokens + token,
                i,
            ) == rotated_key(r, t, key, f, i),
    ensures
        r.of(out, (b * t.q.shape()[1] + h) * request.tokens + token) == (r.double)(scale)
            * plain_dot(
            r,
            t,
            key,
            (b * t.q.shape()[1] + h) * request.head_dim,
            request.head_dim as int,
        ),
{
    turbo_scores_are_scaled_products(r, t, request, scale, out, f, b, h, token);
    lemma_rotation_keeps_products(
        r,
        t,
        request,
        key,
        f,
        (b * t.q.shape()[1] + h) * request.head_dim,
        (b * request.kv_heads + h / request.repeat_factor as int) * request.tokens + token,
        request.head_dim as int / 2,
    );
}

} // verus!
