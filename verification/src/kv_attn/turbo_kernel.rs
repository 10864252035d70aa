//! Scores against TurboQuant keys, on the host.
//!
//! A key is a row of small codes. A code stands for `code - signed_max`, times the scale of the
//! block that it lies in; an optional residual adds or subtracts a second scale. The keys are
//! stored in a basis in which neighbouring coordinates are rotated by 45 degrees, so the query is
//! rotated before it meets them.
use crate::kv_attn::heads::Heads;
use crate::scalar::{
    accumulates, accumulates_next, accumulates_start, add_product, adds_product, Scalars,
};
use vstd::prelude::*;

verus! {

/// The widths of TurboQuant codes.
#[derive(Clone, Copy, Debug, PartialEq, Eq, Structural)]
pub enum TurboQuantKind {
    Turbo3,
    Turbo4,
}

impl TurboQuantKind {
    /// The largest value that a code stands for.
    pub open spec fn max_value(self) -> int {
        match self {
            TurboQuantKind::Turbo3 => 3,
            TurboQuantKind::Turbo4 => 7,
        }
    }

    pub fn signed_max(self) -> (max: i32)
        ensures
            max == self.max_value(),
    {
        match self {
            TurboQuantKind::Turbo3 => 3,
            TurboQuantKind::Turbo4 => 7,
        }
    }
}

/// The sizes of one TurboQuant attention step.
#[derive(Clone, Copy, Debug, PartialEq, Eq, Structural)]
pub struct TurboShape {
    pub heads: Heads,
    pub subvector_dim: usize,
    pub scale_block_dim: usize,
    pub kind: TurboQuantKind,
}

impl TurboShape {
    /// Pairs, subvectors and scale blocks divide a key, and subvectors divide scale blocks.
    pub open spec fn valid(&self) -> bool {
        &&& self.heads.grouped()
        &&& self.heads.head_dim > 0
        &&& self.heads.head_dim % 2 == 0
        &&& self.subvector_dim > 0
        &&& self.scale_block_dim > 0
        &&& self.heads.head_dim % self.subvector_dim == 0
        &&& self.heads.head_dim % self.scale_block_dim == 0
        &&& self.scale_block_dim % self.subvector_dim == 0
    }

    /// The number of scales of one key.
    pub open spec fn blocks(&self) -> int {
        self.heads.head_dim as int / self.scale_block_dim as int
    }

    /// The number of codes of all keys.
    pub open spec fn code_count(&self) -> int {
        self.heads.cache_rows() * self.heads.head_dim
    }

    /// The number of scales of all keys.
    pub open spec fn scale_count(&self) -> int {
        self.heads.cache_rows() * self.blocks()
    }
}

/// The keys of a cache: codes, scales, and the signs and scales of the residual.
pub struct TurboKeys<'a, N: Scalars> {
    pub codes: &'a [u8],
    pub scales: &'a [N::F32],
    pub residual: Option<(&'a [u8], &'a [N::F32])>,
}

/// The sequences behind `TurboKeys`.
pub struct KeyModel<N: Scalars> {
    pub codes: Seq<u8>,
    pub scales: Seq<N::F32>,
    pub residual: Option<(Seq<u8>, Seq<N::F32>)>,
}

impl<'a, N: Scalars> View for TurboKeys<'a, N> {
    type V = KeyModel<N>;

    open spec fn view(&self) -> KeyModel<N> {
        KeyModel {
            codes: self.codes@,
            scales: self.scales@,
            residual: match self.residual {
                Some((signs, scales)) => Some((signs@, scales@)),
                None => None,
            },
        }
    }
}

impl<N: Scalars> KeyModel<N> {
    /// There is a code, and a sign, for every coordinate of every key, and a scale for every
    /// block.
    pub open spec fn fits(&self, shape: TurboShape) -> bool {
        &&& self.codes.len() == shape.code_count()
        &&& self.scales.len() == shape.scale_count()
        &&& self.residual matches Some((signs, scales)) ==> signs.len() == shape.code_count()
            && scales.len() == shape.scale_count()
    }
}

/// `out` is `(x + y) / sqrt(2)`.
pub open spec fn halved_sum<N: Scalars>(x: N::F32, y: N::F32, out: N::F32) -> bool {
    exists|sum: N::F32, factor: N::F32|
        call_ensures(N::plus, (x, y), sum) && #[trigger] call_ensures(N::frac_1_sqrt_2, (), factor)
            && #[trigger] call_ensures(N::times, (sum, factor), out)
}

fn halve_sum<N: Scalars>(x: N::F32, y: N::F32) -> (out: N::F32)
    ensures
        halved_sum::<N>(x, y, out),
{
    let sum = N::plus(x, y);
    let factor = N::frac_1_sqrt_2();
    N::times(sum, factor)
}

/// `(left, right)` is `(a, b)` turned by 45 degrees, in the direction of `sign`.
pub open spec fn turned<N: Scalars>(
    a: N::F32,
    b: N::F32,
    sign: N::F32,
    left: N::F32,
    right: N::F32,
) -> bool {
    exists|signed_b: N::F32, opposite: N::F32, signed_a: N::F32|
        #![trigger halved_sum::<N>(a, signed_b, left), call_ensures(
            N::negate,
            (sign,),
            opposite,
        ), halved_sum::<N>(signed_a, b, right)]
        {
            &&& call_ensures(N::times, (sign, b), signed_b)
            &&& halved_sum::<N>(a, signed_b, left)
            &&& call_ensures(N::negate, (sign,), opposite)
            &&& call_ensures(N::times, (opposite, a), signed_a)
            &&& halved_sum::<N>(signed_a, b, right)
        }
}

fn turn<N: Scalars>(a: N::F32, b: N::F32, sign: N::F32) -> (pair: (N::F32, N::F32))
    ensures
        turned::<N>(a, b, sign, pair.0, pair.1),
{
    let signed_b = N::times(sign, b);
    let left = halve_sum::<N>(a, signed_b);
    let opposite = N::negate(sign);
    let signed_a = N::times(opposite, a);
    let right = halve_sum::<N>(signed_a, b);
    (left, right)
}

/// Pair number `p` of `out` is that pair of `row`, turned.
pub open spec fn pair_turned<N: Scalars>(
    row: Seq<N::F32>,
    signs: Seq<N::F32>,
    out: Seq<N::F32>,
    p: int,
) -> bool {
    turned::<N>(row[2 * p], row[2 * p + 1], signs[p], out[2 * p], out[2 * p + 1])
}

/// `out` is `row` with every pair turned.
pub open spec fn rotated<N: Scalars>(
    row: Seq<N::F32>,
    signs: Seq<N::F32>,
    out: Seq<N::F32>,
) -> bool {
    &&& out.len() == row.len()
    &&& forall|p: int| 0 <= p < signs.len() ==> #[trigger] pair_turned::<N>(row, signs, out, p)
}

/// `value` is what coordinate `idx` of key `row` stands for, without the residual.
pub open spec fn key_value<N: Scalars>(
    keys: KeyModel<N>,
    shape: TurboShape,
    row: int,
    idx: int,
    value: N::F32,
) -> bool {
    let code = keys.codes[row * shape.heads.head_dim + idx] - shape.kind.max_value();
    let scale = keys.scales[row * shape.blocks() + idx / shape.scale_block_dim as int];
    exists|number: N::F32| #[trigger]
        call_ensures(N::from_i32, (code as i32,), number) && call_ensures(
            N::times,
            (number, scale),
            value,
        )
}

/// The sign that a residual bit stands for.
pub open spec fn residual_sign(bit: u8) -> i32 {
    (if bit == 0 {
        -1int
    } else {
        1int
    }) as i32
}

/// `to` is `from` with the product of `q` and the residual of coordinate `idx` of key `row`
/// added; without residuals, `to` is `from`.
pub open spec fn adds_residual<N: Scalars>(
    q: N::F32,
    keys: KeyModel<N>,
    shape: TurboShape,
    row: int,
    idx: int,
    from: N::F32,
    to: N::F32,
) -> bool {
    match keys.residual {
        None => to == from,
        Some((signs, scales)) => {
            let sign = residual_sign(signs[row * shape.heads.head_dim + idx]);
            let scale = scales[row * shape.blocks() + idx / shape.scale_block_dim as int];
            exists|unit: N::F32, signed: N::F32|
                #![trigger call_ensures(N::from_i32, (sign,), unit), adds_product::<N>(
                    signed,
                    scale,
                    from,
                    to,
                )]
                call_ensures(N::from_i32, (sign,), unit) && call_ensures(
                    N::times,
                    (q, unit),
                    signed,
                ) && adds_product::<N>(signed, scale, from, to)
        },
    }
}

/// `to` is `from` with the contribution of coordinate `idx` of key `row` added.
pub open spec fn adds_coordinate<N: Scalars>(
    query: Seq<N::F32>,
    keys: KeyModel<N>,
    shape: TurboShape,
    row: int,
    idx: int,
    from: N::F32,
    to: N::F32,
) -> bool {
    exists|value: N::F32, mid: N::F32|
        #![trigger key_value::<N>(keys, shape, row, idx, value), adds_residual::<N>(
            query[idx],
            keys,
            shape,
            row,
            idx,
            mid,
            to,
        )]
        key_value::<N>(keys, shape, row, idx, value) && adds_product::<N>(
            query[idx],
            value,
            from,
            mid,
        ) && adds_residual::<N>(query[idx], keys, shape, row, idx, mid, to)
}

/// The coordinates of key `row`, as steps of a running sum.
pub open spec fn coordinate_steps<N: Scalars>(
    query: Seq<N::F32>,
    keys: KeyModel<N>,
    shape: TurboShape,
    row: int,
) -> spec_fn(int, N::F32, N::F32) -> bool {
    |idx: int, from: N::F32, to: N::F32|
        adds_coordinate::<N>(query, keys, shape, row, idx, from, to)
}

/// `score` is the scaled product of the rotated query and key `row`.
pub open spec fn key_score<N: Scalars>(
    query: Seq<N::F32>,
    keys: KeyModel<N>,
    shape: TurboShape,
    row: int,
    scale: N::F32,
    score: N::F32,
) -> bool {
    exists|acc: N::F32| #[trigger]
        accumulates::<N>(
            coordinate_steps::<N>(query, keys, shape, row),
            shape.heads.head_dim as nat,
            acc,
        ) && call_ensures(N::times, (acc, scale), score)
}

/// The score of one token, for one rotated query row, is in its place.
pub open spec fn token_score<N: Scalars>(
    query: Seq<N::F32>,
    keys: KeyModel<N>,
    shape: TurboShape,
    query_row: int,
    token: int,
    scale: N::F32,
    out: Seq<N::F32>,
) -> bool {
    key_score::<N>(
        query,
        keys,
        shape,
        shape.heads.cache_row(query_row, token),
        scale,
        out[query_row * shape.heads.tokens + token],
    )
}

/// One score per token, for one rotated query row.
pub open spec fn token_scores<N: Scalars>(
    query: Seq<N::F32>,
    keys: KeyModel<N>,
    shape: TurboShape,
    query_row: int,
    scale: N::F32,
    out: Seq<N::F32>,
) -> bool {
    forall|token: int|
        0 <= token < shape.heads.tokens ==> #[trigger] token_score::<N>(
            query,
            keys,
            shape,
            query_row,
            token,
            scale,
            out,
        )
}

/// The row of the query with number `query_row`.
pub open spec fn query_slice<T>(q: Seq<T>, heads: Heads, query_row: int) -> Seq<T> {
    q.subrange(query_row * heads.head_dim, query_row * heads.head_dim + heads.head_dim)
}

/// The scores of query row `query_row`: the row is rotated once, and meets the key of every
/// token.
pub open spec fn row_scores<N: Scalars>(
    q: Seq<N::F32>,
    keys: KeyModel<N>,
    pair_signs: Seq<N::F32>,
    shape: TurboShape,
    query_row: int,
    scale: N::F32,
    out: Seq<N::F32>,
) -> bool {
    exists|query: Seq<N::F32>| #[trigger]
        rotated::<N>(query_slice(q, shape.heads, query_row), pair_signs, query) && token_scores::<
            N,
        >(query, keys, shape, query_row, scale, out)
}

/// `out` holds the scores of every query row.
pub open spec fn turbo_scores<N: Scalars>(
    q: Seq<N::F32>,
    keys: KeyModel<N>,
    pair_signs: Seq<N::F32>,
    shape: TurboShape,
    scale: N::F32,
    out: Seq<N::F32>,
) -> bool {
    &&& out.len() == shape.heads.query_rows() * shape.heads.tokens
    &&& forall|query_row: int|
        0 <= query_row < shape.heads.query_rows() ==> #[trigger] row_scores::<N>(
            q,
            keys,
            pair_signs,
            shape,
            query_row,
            scale,
            out,
        )
}

/// Turns every pair of a query row.
fn rotate_row<N: Scalars>(row: &[N::F32], signs: &[N::F32]) -> (out: Vec<N::F32>)
    requires
        row@.len() == 2 * signs@.len(),
    ensures
        rotated::<N>(row@, signs@, out@),
{
    let mut out: Vec<N::F32> = Vec::new();
    let mut p: usize = 0;
    let pairs: usize = signs.len();
    let len: usize = row.len();
    while p < pairs
        invariant
            p <= pairs,
            pairs == signs@.len(),
            len == row@.len(),
            len == 2 * pairs,
            out@.len() == 2 * p,
            forall|k: int| 0 <= k < p ==> #[trigger] pair_turned::<N>(row@, signs@, out@, k),
        decreases pairs - p,
    {
        let ghost before = out@;
        let (left, right) = turn::<N>(row[2 * p], row[2 * p + 1], signs[p]);
        out.push(left);
        out.push(right);
        proof {
            assert forall|k: int| 0 <= k < p + 1 implies #[trigger] pair_turned::<N>(
                row@,
                signs@,
                out@,
                k,
            ) by {
                if k < p {
                    assert(pair_turned::<N>(row@, signs@, before, k));
                    assert(out@[2 * k] == before[2 * k]);
                    assert(out@[2 * k + 1] == before[2 * k + 1]);
                }
            }
        }
        p += 1;
    }
    out
}

/// Subvector `sub` lies in one scale block, that of each of its coordinates.
proof fn lemma_block_of_subvector(shape: TurboShape, sub: int, j: int)
    requires
        shape.valid(),
        0 <= sub,
        0 <= j < shape.subvector_dim,
    ensures
        (sub * shape.subvector_dim) / (shape.scale_block_dim as int) == (sub * shape.subvector_dim
            + j) / (shape.scale_block_dim as int),
{
    let s = shape.subvector_dim as int;
    let b = shape.scale_block_dim as int;
    let k = b / s;
    assert(b == s * k && k > 0) by (nonlinear_arith)
        requires
            b > 0,
            s > 0,
            b % s == 0,
            k == b / s,
    ;
    vstd::arithmetic::div_mod::lemma_div_denominator(sub * s, s, k);
    vstd::arithmetic::div_mod::lemma_div_denominator(sub * s + j, s, k);
    vstd::arithmetic::div_mod::lemma_fundamental_div_mod_converse(sub * s, s, sub, 0);
    vstd::arithmetic::div_mod::lemma_fundamental_div_mod_converse(sub * s + j, s, sub, j);
}

/// The coordinates of a key, and its scales, are in the stored sequences.
pub proof fn lemma_key_in_bounds(shape: TurboShape, row: int, idx: int)
    requires
        shape.valid(),
        0 <= row < shape.heads.cache_rows(),
        0 <= idx < shape.heads.head_dim,
    ensures
        0 <= row * shape.heads.head_dim,
        0 <= row * shape.heads.head_dim + idx < shape.code_count(),
        0 <= idx / (shape.scale_block_dim as int) < shape.blocks(),
        0 <= row * shape.blocks(),
        0 <= row * shape.blocks() + idx / (shape.scale_block_dim as int) < shape.scale_count(),
{
    let rows = shape.heads.cache_rows();
    let d = shape.heads.head_dim as int;
    let b = shape.scale_block_dim as int;
    let blocks = shape.blocks();
    let block = idx / b;
    assert(0 <= block < blocks) by (nonlinear_arith)
        requires
            0 <= idx < d,
            b > 0,
            d % b == 0,
            blocks == d / b,
            block == idx / b,
    ;
    assert(0 <= row * d && 0 <= row * d + idx < rows * d) by (nonlinear_arith)
        requires
            0 <= row < rows,
            0 <= idx < d,
    ;
    assert(0 <= row * blocks && 0 <= row * blocks + block < rows * blocks) by (nonlinear_arith)
        requires
            0 <= row < rows,
            0 <= block < blocks,
    ;
}

/// Adds the contribution of coordinate `idx` of key `row`, whose scales stand at `scale_idx`.
fn add_coordinate<N: Scalars>(
    query: &[N::F32],
    keys: &TurboKeys<N>,
    shape: &TurboShape,
    row: usize,
    idx: usize,
    scale_idx: usize,
    from: N::F32,
) -> (to: N::F32)
    requires
        shape.valid(),
        keys@.fits(*shape),
        query@.len() == shape.heads.head_dim,
        row < shape.heads.cache_rows(),
        idx < shape.heads.head_dim,
        scale_idx == row * shape.blocks() + idx as int / shape.scale_block_dim as int,
    ensures
        adds_coordinate::<N>(query@, keys@, *shape, row as int, idx as int, from, to),
{
    let len: usize = keys.codes.len();
    proof {
        assert(len == keys.codes@.len());
        lemma_key_in_bounds(*shape, row as int, idx as int);
    }
    let place: usize = row * shape.heads.head_dim + idx;
    let number = N::from_i32(keys.codes[place] as i32 - shape.kind.signed_max());
    let value = N::times(number, keys.scales[scale_idx]);
    let mid = add_product::<N>(query[idx], value, from);
    proof {
        assert(key_value::<N>(keys@, *shape, row as int, idx as int, value));
    }
    match keys.residual {
        None => {
            proof {
                assert(adds_residual::<N>(
                    query@[idx as int],
                    keys@,
                    *shape,
                    row as int,
                    idx as int,
                    mid,
                    mid,
                ));
            }
            mid
        },
        Some((signs, scales)) => {
            let sign: i32 = if signs[place] == 0 {
                -1
            } else {
                1
            };
            let unit = N::from_i32(sign);
            let signed = N::times(query[idx], unit);
            let to = add_product::<N>(signed, scales[scale_idx], mid);
            proof {
                assert(sign == residual_sign(signs@[place as int]));
                assert(keys@.residual == Some((signs@, scales@)));
                assert(call_ensures(N::from_i32, (sign,), unit));
                assert(adds_product::<N>(signed, scales@[scale_idx as int], mid, to));
                assert(adds_residual::<N>(
                    query@[idx as int],
                    keys@,
                    *shape,
                    row as int,
                    idx as int,
                    mid,
                    to,
                ));
            }
            to
        },
    }
}

/// The scaled product of a rotated query row and key `row`.
fn score_key<N: Scalars>(
    query: &[N::F32],
    keys: &TurboKeys<N>,
    shape: &TurboShape,
    row: usize,
    scale: N::F32,
) -> (score: N::F32)
    requires
        shape.valid(),
        keys@.fits(*shape),
        query@.len() == shape.heads.head_dim,
        row < shape.heads.cache_rows(),
    ensures
        key_score::<N>(query@, keys@, *shape, row as int, scale, score),
{
    let head_dim: usize = shape.heads.head_dim;
    let subvectors: usize = head_dim / shape.subvector_dim;
    let blocks: usize = head_dim / shape.scale_block_dim;
    let scale_len: usize = keys.scales.len();
    let ghost steps = coordinate_steps::<N>(query@, keys@, *shape, row as int);
    let mut acc = N::zero();
    proof {
        assert(scale_len == keys.scales@.len());
        accumulates_start::<N>(steps, acc);
    }
    let mut sub: usize = 0;
    while sub < subvectors
        invariant
            shape.valid(),
            keys@.fits(*shape),
            query@.len() == head_dim,
            row < shape.heads.cache_rows(),
            head_dim == shape.heads.head_dim,
            subvectors == head_dim / shape.subvector_dim,
            blocks == shape.blocks(),
            scale_len == keys.scales@.len(),
            steps == coordinate_steps::<N>(query@, keys@, *shape, row as int),
            sub <= subvectors,
            accumulates::<N>(steps, (sub * shape.subvector_dim) as nat, acc),
        decreases subvectors - sub,
    {
        proof {
            let s = shape.subvector_dim as int;
            assert(0 <= sub * s && sub * s + s <= head_dim) by (nonlinear_arith)
                requires
                    0 <= sub,
                    sub + 1 <= subvectors,
                    subvectors as int == head_dim as int / s,
                    head_dim as int % s == 0,
                    s > 0,
            ;
            lemma_key_in_bounds(*shape, row as int, sub * s);
            assert((sub + 1) * s == sub * s + s) by (nonlinear_arith);
        }
        let start: usize = sub * shape.subvector_dim;
        let end: usize = start + shape.subvector_dim;
        let scale_idx: usize = row * blocks + start / shape.scale_block_dim;
        let mut idx: usize = start;
        while idx < end
            invariant
                shape.valid(),
                keys@.fits(*shape),
                query@.len() == head_dim,
                row < shape.heads.cache_rows(),
                head_dim == shape.heads.head_dim,
                start == sub * shape.subvector_dim,
                end == start + shape.subvector_dim,
                end <= head_dim,
                start <= idx <= end,
                scale_idx == row * shape.blocks() + start as int / shape.scale_block_dim as int,
                steps == coordinate_steps::<N>(query@, keys@, *shape, row as int),
                accumulates::<N>(steps, idx as nat, acc),
            decreases end - idx,
        {
            proof {
                lemma_block_of_subvector(*shape, sub as int, idx - start);
            }
            let next = add_coordinate::<N>(query, keys, shape, row, idx, scale_idx, acc);
            proof {
                assert(steps(idx as int, acc, next));
                accumulates_next::<N>(steps, idx as nat, acc, next);
            }
            acc = next;
            idx += 1;
        }
        sub += 1;
    }
    proof {
        let s = shape.subvector_dim as int;
        assert(subvectors * s == head_dim) by (nonlinear_arith)
            requires
                subvectors as int == head_dim as int / s,
                head_dim as int % s == 0,
                s > 0,
        ;
    }
    N::times(acc, scale)
}

/// Scores every query row against the key of every token.
pub fn cpu_qk_scores_turboquant_impl<N: Scalars>(
    q: &[N::F32],
    keys: &TurboKeys<N>,
    pair_signs: &[N::F32],
    shape: &TurboShape,
    scale: N::F32,
) -> (out: Vec<N::F32>)
    requires
        shape.valid(),
        shape.heads.countable(),
        keys@.fits(*shape),
        q@.len() == shape.heads.query_rows() * shape.heads.head_dim,
        2 * pair_signs@.len() == shape.heads.head_dim,
    ensures
        turbo_scores::<N>(q@, keys@, pair_signs@, *shape, scale, out@),
{
    let tokens: usize = shape.heads.tokens;
    let head_dim: usize = shape.heads.head_dim;
    let rows: usize = shape.heads.batch * shape.heads.full_heads;
    let q_len: usize = q.len();
    let mut out: Vec<N::F32> = Vec::new();
    let mut query_row: usize = 0;
    while query_row < rows
        invariant
            shape.valid(),
            shape.heads.countable(),
            keys@.fits(*shape),
            rows == shape.heads.query_rows(),
            q_len == q@.len(),
            q@.len() == rows * head_dim,
            2 * pair_signs@.len() == head_dim,
            tokens == shape.heads.tokens,
            head_dim == shape.heads.head_dim,
            query_row <= rows,
            out@.len() == query_row * tokens,
            forall|r: int|
                0 <= r < query_row ==> #[trigger] row_scores::<N>(
                    q@,
                    keys@,
                    pair_signs@,
                    *shape,
                    r,
                    scale,
                    out@,
                ),
        decreases rows - query_row,
    {
        proof {
            assert(0 <= query_row * head_dim && query_row * head_dim + head_dim <= rows * head_dim)
                by (nonlinear_arith)
                requires
                    0 <= query_row,
                    query_row + 1 <= rows,
                    head_dim >= 0,
            ;
        }
        let ghost before = out@;
        let start: usize = query_row * head_dim;
        let row = vstd::slice::slice_subrange(q, start, start + head_dim);
        let query = rotate_row::<N>(row, pair_signs);
        let mut token: usize = 0;
        while token < tokens
            invariant
                shape.valid(),
                shape.heads.countable(),
                keys@.fits(*shape),
                rows == shape.heads.query_rows(),
                query_row < rows,
                tokens == shape.heads.tokens,
                head_dim == shape.heads.head_dim,
                query@.len() == head_dim,
                token <= tokens,
                out@.len() == before.len() + token,
                before.len() == query_row * tokens,
                forall|i: int| 0 <= i < before.len() ==> out@[i] == before[i],
                forall|t: int|
                    0 <= t < token ==> #[trigger] token_score::<N>(
                        query@,
                        keys@,
                        *shape,
                        query_row as int,
                        t,
                        scale,
                        out@,
                    ),
            decreases tokens - token,
        {
            let first: usize = shape.heads.first_cache_row(query_row);
            let score = score_key::<N>(query.as_slice(), keys, shape, first + token, scale);
            let ghost shorter = out@;
            out.push(score);
            proof {
                assert forall|t: int| 0 <= t < token + 1 implies #[trigger] token_score::<N>(
                    query@,
                    keys@,
                    *shape,
                    query_row as int,
                    t,
                    scale,
                    out@,
                ) by {
                    if t < token {
                        assert(token_score::<N>(
                            query@,
                            keys@,
                            *shape,
                            query_row as int,
                            t,
                            scale,
                            shorter,
                        ));
                    }
                }
            }
            token += 1;
        }
        proof {
            assert(query_slice(q@, shape.heads, query_row as int) == row@);
            assert(token_scores::<N>(query@, keys@, *shape, query_row as int, scale, out@));
            assert((query_row + 1) * tokens == query_row * tokens + tokens) by (nonlinear_arith);
            assert forall|r: int| 0 <= r < query_row + 1 implies #[trigger] row_scores::<N>(
                q@,
                keys@,
                pair_signs@,
                *shape,
                r,
                scale,
                out@,
            ) by {
                if r < query_row {
                    assert(row_scores::<N>(q@, keys@, pair_signs@, *shape, r, scale, before));
                    assert((r + 1) * tokens <= query_row * tokens) by (nonlinear_arith)
                        requires
                            r + 1 <= query_row,
                            tokens >= 0,
                    ;
                    lemma_row_scores_extend::<N>(
                        q@,
                        keys@,
                        pair_signs@,
                        *shape,
                        r,
                        scale,
                        before,
                        out@,
                    );
                }
            }
        }
        query_row += 1;
    }
    out
}

/// The scores of a row do not depend on what follows them.
proof fn lemma_row_scores_extend<N: Scalars>(
    q: Seq<N::F32>,
    keys: KeyModel<N>,
    pair_signs: Seq<N::F32>,
    shape: TurboShape,
    query_row: int,
    scale: N::F32,
    short: Seq<N::F32>,
    long: Seq<N::F32>,
)
    requires
        row_scores::<N>(q, keys, pair_signs, shape, query_row, scale, short),
        0 <= query_row,
        (query_row + 1) * shape.heads.tokens <= short.len() <= long.len(),
        forall|i: int| 0 <= i < short.len() ==> long[i] == short[i],
    ensures
        row_scores::<N>(q, keys, pair_signs, shape, query_row, scale, long),
{
    let query = choose|query: Seq<N::F32>| #[trigger]
        rotated::<N>(query_slice(q, shape.heads, query_row), pair_signs, query) && token_scores::<
            N,
        >(query, keys, shape, query_row, scale, short);
    let tokens = shape.heads.tokens as int;
    assert forall|t: int| 0 <= t < tokens implies #[trigger] token_score::<N>(
        query,
        keys,
        shape,
        query_row,
        t,
        scale,
        long,
    ) by {
        assert(token_score::<N>(query, keys, shape, query_row, t, scale, short));
        assert(0 <= query_row * tokens + t < (query_row + 1) * tokens) by (nonlinear_arith)
            requires
                0 <= query_row,
                0 <= t < tokens,
        ;
    }
    assert(token_scores::<N>(query, keys, shape, query_row, scale, long));
}

} // verus!
