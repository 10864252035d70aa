//! Scores and weighted sums over the rows of a cache, on the host.
//!
//! The two kernels read the cache through [`Cells`], so they do not depend on how a row is
//! stored: as numbers, or as small integers with a scale.
use crate::kv_attn::codes::{
    code_at, code_of, lemma_code_in_bounds, packed_cols, RowwiseQuantKind,
};
use crate::kv_attn::heads::Heads;
use crate::scalar::{
    accumulates, accumulates_next, accumulates_start, add_product, adds_product, Scalars,
};
use vstd::prelude::*;

verus! {

/// Which value stands at a row and a column.
pub type CellModel<F> = spec_fn(int, int, F) -> bool;

/// A cache whose rows can be read.
pub trait Cells<N: Scalars> {
    /// The cache has `rows` rows of `cols` numbers.
    spec fn has_shape(&self, rows: int, cols: int) -> bool;

    /// The values of the cache.
    spec fn model(&self) -> CellModel<N::F32>;

    /// Reads one number.
    fn read(&self, row: usize, col: usize, Ghost(rows): Ghost<int>, cols: usize) -> (value: N::F32)
        requires
            self.has_shape(rows, cols as int),
            row < rows,
            col < cols,
        ensures
            self.model()(row as int, col as int, value),
    ;
}

/// A cache of numbers.
pub struct DenseCells<'a, N: Scalars> {
    pub values: &'a [N::F32],
    pub cols: usize,
}

/// The values of a cache of numbers.
pub open spec fn dense_model<N: Scalars>(values: Seq<N::F32>, cols: int) -> CellModel<N::F32> {
    |row: int, col: int, value: N::F32| value == values[row * cols + col]
}

impl<'a, N: Scalars> Cells<N> for DenseCells<'a, N> {
    open spec fn has_shape(&self, rows: int, cols: int) -> bool {
        cols == self.cols && self.values@.len() == rows * cols
    }

    open spec fn model(&self) -> CellModel<N::F32> {
        dense_model::<N>(self.values@, self.cols as int)
    }

    fn read(&self, row: usize, col: usize, Ghost(rows): Ghost<int>, cols: usize) -> (value:
        N::F32) {
        let len: usize = self.values.len();
        proof {
            assert(len == self.values@.len());
            assert(0 <= row * cols && row * cols + col < rows * cols) by (nonlinear_arith)
                requires
                    0 <= row < rows,
                    0 <= col < cols,
            ;
        }
        self.values[row * self.cols + col]
    }
}

/// A cache of small integers with a scale per row.
pub struct RowwiseCells<'a, N: Scalars> {
    pub packed: &'a [u8],
    pub scales: &'a [N::F32],
    pub head_dim: usize,
    pub kind: RowwiseQuantKind,
}

/// `value` is the integer at a row and a column times the scale of the row.
pub open spec fn dequantizes<N: Scalars>(
    packed: Seq<u8>,
    scales: Seq<N::F32>,
    row: int,
    col: int,
    head_dim: int,
    kind: RowwiseQuantKind,
    value: N::F32,
) -> bool {
    exists|number: N::F32| #[trigger]
        call_ensures(
            N::from_i32,
            (code_at(packed, row, col, head_dim, kind) as i32,),
            number,
        ) && call_ensures(N::times, (number, scales[row]), value)
}

/// The values of a cache of small integers.
pub open spec fn rowwise_model<N: Scalars>(
    packed: Seq<u8>,
    scales: Seq<N::F32>,
    head_dim: int,
    kind: RowwiseQuantKind,
) -> CellModel<N::F32> {
    |row: int, col: int, value: N::F32|
        dequantizes::<N>(packed, scales, row, col, head_dim, kind, value)
}

impl<'a, N: Scalars> Cells<N> for RowwiseCells<'a, N> {
    open spec fn has_shape(&self, rows: int, cols: int) -> bool {
        &&& cols == self.head_dim
        &&& self.packed@.len() == rows * packed_cols(cols, self.kind)
        &&& self.scales@.len() == rows
    }

    open spec fn model(&self) -> CellModel<N::F32> {
        rowwise_model::<N>(self.packed@, self.scales@, self.head_dim as int, self.kind)
    }

    fn read(&self, row: usize, col: usize, Ghost(rows): Ghost<int>, cols: usize) -> (value:
        N::F32) {
        proof {
            lemma_code_in_bounds(rows, row as int, col as int, cols as int, self.kind);
        }
        let code: i32 = code_of(self.packed, row, col, self.head_dim, self.kind);
        let number = N::from_i32(code);
        let value = N::times(number, self.scales[row]);
        proof {
            assert(code == code_at(
                self.packed@,
                row as int,
                col as int,
                self.head_dim as int,
                self.kind,
            ) as i32);
            assert(dequantizes::<N>(
                self.packed@,
                self.scales@,
                row as int,
                col as int,
                self.head_dim as int,
                self.kind,
                value,
            ));
        }
        value
    }
}

/// The steps of the product of a query row and a row of the cache.
pub open spec fn score_steps<N: Scalars>(
    q: Seq<N::F32>,
    base: int,
    cells: CellModel<N::F32>,
    row: int,
) -> spec_fn(int, N::F32, N::F32) -> bool {
    |i: int, from: N::F32, to: N::F32|
        exists|value: N::F32| #[trigger]
            cells(row, i, value) && adds_product::<N>(q[base + i], value, from, to)
}

/// The score of one query row and token is in its place.
pub open spec fn score_at<N: Scalars>(
    q: Seq<N::F32>,
    cells: CellModel<N::F32>,
    heads: Heads,
    scale: N::F32,
    query: int,
    token: int,
    out: Seq<N::F32>,
) -> bool {
    exists|acc: N::F32| #[trigger]
        accumulates::<N>(
            score_steps::<N>(q, query * heads.head_dim, cells, heads.cache_row(query, token)),
            heads.head_dim as nat,
            acc,
        ) && call_ensures(N::times, (acc, scale), out[query * heads.tokens + token])
}

/// `out` holds the score of every query row and token.
pub open spec fn scores<N: Scalars>(
    q: Seq<N::F32>,
    cells: CellModel<N::F32>,
    heads: Heads,
    scale: N::F32,
    out: Seq<N::F32>,
) -> bool {
    &&& out.len() == heads.query_rows() * heads.tokens
    &&& forall|query: int, token: int|
        0 <= query < heads.query_rows() && 0 <= token < heads.tokens ==> #[trigger] score_at::<N>(
            q,
            cells,
            heads,
            scale,
            query,
            token,
            out,
        )
}

/// The steps of the weighted sum of one column over the tokens.
pub open spec fn weight_steps<N: Scalars>(
    weights: Seq<N::F32>,
    cells: CellModel<N::F32>,
    heads: Heads,
    query: int,
    dim: int,
) -> spec_fn(int, N::F32, N::F32) -> bool {
    |token: int, from: N::F32, to: N::F32|
        exists|value: N::F32| #[trigger]
            cells(heads.cache_row(query, token), dim, value) && adds_product::<N>(
                weights[query * heads.tokens + token],
                value,
                from,
                to,
            )
}

/// The weighted sum of one query row and column is in its place.
pub open spec fn sum_at<N: Scalars>(
    weights: Seq<N::F32>,
    cells: CellModel<N::F32>,
    heads: Heads,
    query: int,
    dim: int,
    out: Seq<N::F32>,
) -> bool {
    accumulates::<N>(
        weight_steps::<N>(weights, cells, heads, query, dim),
        heads.tokens as nat,
        out[query * heads.head_dim + dim],
    )
}

/// `out` holds the weighted sum of every query row and column.
pub open spec fn weighted_sums<N: Scalars>(
    weights: Seq<N::F32>,
    cells: CellModel<N::F32>,
    heads: Heads,
    out: Seq<N::F32>,
) -> bool {
    &&& out.len() == heads.query_rows() * heads.head_dim
    &&& forall|query: int, dim: int|
        0 <= query < heads.query_rows() && 0 <= dim < heads.head_dim ==> #[trigger] sum_at::<N>(
            weights,
            cells,
            heads,
            query,
            dim,
            out,
        )
}

/// The product of a query row and a row of the cache.
fn score_row<N: Scalars, C: Cells<N>>(
    q: &[N::F32],
    base: usize,
    cells: &C,
    row: usize,
    head_dim: usize,
    Ghost(rows): Ghost<int>,
) -> (acc: N::F32)
    requires
        base + head_dim <= q@.len(),
        cells.has_shape(rows, head_dim as int),
        row < rows,
    ensures
        accumulates::<N>(
            score_steps::<N>(q@, base as int, cells.model(), row as int),
            head_dim as nat,
            acc,
        ),
{
    let len: usize = q.len();
    let ghost steps = score_steps::<N>(q@, base as int, cells.model(), row as int);
    let mut acc = N::zero();
    proof {
        accumulates_start::<N>(steps, acc);
    }
    let mut i: usize = 0;
    while i < head_dim
        invariant
            len == q@.len(),
            base + head_dim <= q@.len(),
            cells.has_shape(rows, head_dim as int),
            row < rows,
            i <= head_dim,
            steps == score_steps::<N>(q@, base as int, cells.model(), row as int),
            accumulates::<N>(steps, i as nat, acc),
        decreases head_dim - i,
    {
        let value = cells.read(row, i, Ghost(rows), head_dim);
        let next = add_product::<N>(q[base + i], value, acc);
        proof {
            assert(cells.model()(row as int, i as int, value));
            assert(steps(i as int, acc, next));
            accumulates_next::<N>(steps, i as nat, acc, next);
        }
        acc = next;
        i += 1;
    }
    acc
}

/// Scores every query row against the row of every token.
pub fn cpu_scores<N: Scalars, C: Cells<N>>(
    q: &[N::F32],
    cells: &C,
    heads: &Heads,
    scale: N::F32,
) -> (out: Vec<N::F32>)
    requires
        heads.grouped(),
        heads.countable(),
        q@.len() == heads.query_rows() * heads.head_dim,
        cells.has_shape(heads.cache_rows(), heads.head_dim as int),
    ensures
        scores::<N>(q@, cells.model(), *heads, scale, out@),
{
    let q_len: usize = q.len();
    let rows: usize = heads.batch * heads.full_heads;
    let tokens: usize = heads.tokens;
    let head_dim: usize = heads.head_dim;
    let mut out: Vec<N::F32> = Vec::new();
    let mut query: usize = 0;
    while query < rows
        invariant
            heads.grouped(),
            heads.countable(),
            q_len == q@.len(),
            q@.len() == rows * head_dim,
            cells.has_shape(heads.cache_rows(), head_dim as int),
            rows == heads.query_rows(),
            tokens == heads.tokens,
            head_dim == heads.head_dim,
            query <= rows,
            out@.len() == query * tokens,
            forall|r: int, t: int|
                0 <= r < query && 0 <= t < tokens ==> #[trigger] score_at::<N>(
                    q@,
                    cells.model(),
                    *heads,
                    scale,
                    r,
                    t,
                    out@,
                ),
        decreases rows - query,
    {
        proof {
            assert(0 <= query * head_dim && query * head_dim + head_dim <= rows * head_dim)
                by (nonlinear_arith)
                requires
                    0 <= query,
                    query + 1 <= rows,
                    head_dim >= 0,
            ;
        }
        let base: usize = query * head_dim;
        let mut token: usize = 0;
        while token < tokens
            invariant
                heads.grouped(),
                heads.countable(),
                q@.len() == rows * head_dim,
                base == query * head_dim,
                base + head_dim <= q@.len(),
                cells.has_shape(heads.cache_rows(), head_dim as int),
                rows == heads.query_rows(),
                tokens == heads.tokens,
                head_dim == heads.head_dim,
                query < rows,
                token <= tokens,
                out@.len() == query * tokens + token,
                forall|r: int, t: int|
                    0 <= r && 0 <= t < tokens && (r < query || r == query && t < token)
                        ==> #[trigger] score_at::<N>(
                        q@,
                        cells.model(),
                        *heads,
                        scale,
                        r,
                        t,
                        out@,
                    ),
            decreases tokens - token,
        {
            let ghost before = out@;
            let first: usize = heads.first_cache_row(query);
            let acc = score_row::<N, C>(
                q,
                base,
                cells,
                first + token,
                head_dim,
                Ghost(heads.cache_rows()),
            );
            let score = N::times(acc, scale);
            out.push(score);
            proof {
                assert(first + token == heads.cache_row(query as int, token as int));
                assert forall|r: int, t: int|
                    0 <= r && 0 <= t < tokens && (r < query || r == query && t
                        < token + 1) implies #[trigger] score_at::<N>(
                    q@,
                    cells.model(),
                    *heads,
                    scale,
                    r,
                    t,
                    out@,
                ) by {
                    if r < query || t < token {
                        assert(score_at::<N>(q@, cells.model(), *heads, scale, r, t, before));
                        lemma_earlier(r, t, query as int, token as int, tokens as int);
                        assert(out@[r * tokens + t] == before[r * tokens + t]);
                    } else {
                        assert(out@[r * tokens + t] == score);
                    }
                }
            }
            token += 1;
        }
        proof {
            assert((query + 1) * tokens == query * tokens + tokens) by (nonlinear_arith);
        }
        query += 1;
    }
    out
}

/// Places in a table of `width` columns come in the order of rows, then columns.
proof fn lemma_earlier(r: int, t: int, row: int, col: int, width: int)
    requires
        0 <= r,
        0 <= t < width,
        r < row || r == row && t < col,
        0 <= col,
    ensures
        0 <= r * width + t < row * width + col,
{
    if r < row {
        assert(0 <= r * width && r * width + width <= row * width) by (nonlinear_arith)
            requires
                0 <= r,
                r + 1 <= row,
                0 <= width,
        ;
    } else {
        assert(0 <= r * width) by (nonlinear_arith)
            requires
                0 <= r,
                0 <= width,
        ;
    }
}

/// The weighted sum of one column, over the tokens of one query row.
fn sum_column<N: Scalars, C: Cells<N>>(
    weights: &[N::F32],
    cells: &C,
    heads: &Heads,
    query: usize,
    dim: usize,
) -> (acc: N::F32)
    requires
        heads.grouped(),
        heads.countable(),
        weights@.len() == heads.query_rows() * heads.tokens,
        cells.has_shape(heads.cache_rows(), heads.head_dim as int),
        query < heads.query_rows(),
        dim < heads.head_dim,
    ensures
        accumulates::<N>(
            weight_steps::<N>(weights@, cells.model(), *heads, query as int, dim as int),
            heads.tokens as nat,
            acc,
        ),
{
    let tokens: usize = heads.tokens;
    let len: usize = weights.len();
    let ghost steps = weight_steps::<N>(
        weights@,
        cells.model(),
        *heads,
        query as int,
        dim as int,
    );
    let mut acc = N::zero();
    proof {
        accumulates_start::<N>(steps, acc);
        let rows = heads.query_rows();
        assert(0 <= query * tokens && query * tokens + tokens <= rows * tokens) by (nonlinear_arith)
            requires
                0 <= query,
                query + 1 <= rows,
                tokens >= 0,
        ;
    }
    let base: usize = query * tokens;
    let mut token: usize = 0;
    while token < tokens
        invariant
            heads.grouped(),
            heads.countable(),
            len == weights@.len(),
            base == query * tokens,
            base + tokens <= len,
            tokens == heads.tokens,
            cells.has_shape(heads.cache_rows(), heads.head_dim as int),
            query < heads.query_rows(),
            dim < heads.head_dim,
            token <= tokens,
            steps == weight_steps::<N>(
                weights@,
                cells.model(),
                *heads,
                query as int,
                dim as int,
            ),
            accumulates::<N>(steps, token as nat, acc),
        decreases tokens - token,
    {
        let first: usize = heads.first_cache_row(query);
        let value = cells.read(first + token, dim, Ghost(heads.cache_rows()), heads.head_dim);
        let next = add_product::<N>(weights[base + token], value, acc);
        proof {
            let row = heads.cache_row(query as int, token as int);
            assert(first + token == row);
            assert(cells.model()(row, dim as int, value));
            assert(steps(token as int, acc, next));
            accumulates_next::<N>(steps, token as nat, acc, next);
        }
        acc = next;
        token += 1;
    }
    acc
}

/// Sums the rows of all tokens, weighted, for every query row.
pub fn cpu_weighted_sums<N: Scalars, C: Cells<N>>(
    weights: &[N::F32],
    cells: &C,
    heads: &Heads,
) -> (out: Vec<N::F32>)
    requires
        heads.grouped(),
        heads.countable(),
        heads.query_rows() * heads.head_dim <= usize::MAX,
        weights@.len() == heads.query_rows() * heads.tokens,
        cells.has_shape(heads.cache_rows(), heads.head_dim as int),
    ensures
        weighted_sums::<N>(weights@, cells.model(), *heads, out@),
{
    let rows: usize = heads.batch * heads.full_heads;
    let head_dim: usize = heads.head_dim;
    let mut out: Vec<N::F32> = Vec::new();
    let mut query: usize = 0;
    while query < rows
        invariant
            heads.grouped(),
            heads.countable(),
            weights@.len() == heads.query_rows() * heads.tokens,
            cells.has_shape(heads.cache_rows(), heads.head_dim as int),
            rows == heads.query_rows(),
            head_dim == heads.head_dim,
            query <= rows,
            out@.len() == query * head_dim,
            forall|r: int, c: int|
                0 <= r < query && 0 <= c < head_dim ==> #[trigger] sum_at::<N>(
                    weights@,
                    cells.model(),
                    *heads,
                    r,
                    c,
                    out@,
                ),
        decreases rows - query,
    {
        let mut dim: usize = 0;
        while dim < head_dim
            invariant
                heads.grouped(),
                heads.countable(),
                weights@.len() == heads.query_rows() * heads.tokens,
                cells.has_shape(heads.cache_rows(), heads.head_dim as int),
                rows == heads.query_rows(),
                head_dim == heads.head_dim,
                query < rows,
                dim <= head_dim,
                out@.len() == query * head_dim + dim,
                forall|r: int, c: int|
                    0 <= r && 0 <= c < head_dim && (r < query || r == query && c < dim)
                        ==> #[trigger] sum_at::<N>(weights@, cells.model(), *heads, r, c, out@),
            decreases head_dim - dim,
        {
            let ghost before = out@;
            let acc = sum_column::<N, C>(weights, cells, heads, query, dim);
            out.push(acc);
            proof {
                assert forall|r: int, c: int|
                    0 <= r && 0 <= c < head_dim && (r < query || r == query && c
                        < dim + 1) implies #[trigger] sum_at::<N>(
                    weights@,
                    cells.model(),
                    *heads,
                    r,
                    c,
                    out@,
                ) by {
                    if r < query || c < dim {
                        assert(sum_at::<N>(weights@, cells.model(), *heads, r, c, before));
                        lemma_earlier(r, c, query as int, dim as int, head_dim as int);
                        assert(out@[r * head_dim + c] == before[r * head_dim + c]);
                    } else {
                        assert(out@[r * head_dim + c] == acc);
                    }
                }
            }
            dim += 1;
        }
        proof {
            assert((query + 1) * head_dim == query * head_dim + head_dim) by (nonlinear_arith);
        }
        query += 1;
    }
    out
}

} // verus!
