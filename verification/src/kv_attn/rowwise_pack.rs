//! Packing rows of numbers, on the host.
use crate::arith::lemma_ceil_div;
use crate::kv_attn::codes::{
    code_at, code_place, expected_packed_cols, lemma_code_in_bounds, packed_cols, signed_nibble,
    RowwiseQuantKind,
};
use crate::scalar::{accumulates, accumulates_next, accumulates_start, Scalars};
use vstd::prelude::*;

verus! {

/// The integer that the largest number of a row becomes.
pub open spec fn largest_code(kind: RowwiseQuantKind) -> i32 {
    match kind {
        RowwiseQuantKind::Int8 => 127,
        RowwiseQuantKind::Int4 => 7,
    }
}

/// The smallest and the largest integer that a number becomes.
pub open spec fn code_range(kind: RowwiseQuantKind) -> (i8, i8) {
    match kind {
        RowwiseQuantKind::Int8 => ((-127int) as i8, 127),
        RowwiseQuantKind::Int4 => ((-8int) as i8, 7),
    }
}

/// `to` is the larger of `from` and the magnitude of element `base + i`.
pub open spec fn magnitude_steps<N: Scalars>(x: Seq<N::F32>, base: int) -> spec_fn(
    int,
    N::F32,
    N::F32,
) -> bool {
    |i: int, from: N::F32, to: N::F32|
        exists|magnitude: N::F32| #[trigger]
            call_ensures(N::magnitude, (x[base + i],), magnitude) && call_ensures(
                N::larger,
                (from, magnitude),
                to,
            )
}

/// `scale` is the scale of a row whose largest magnitude is `largest`.
pub open spec fn scale_for<N: Scalars>(
    largest: N::F32,
    kind: RowwiseQuantKind,
    scale: N::F32,
) -> bool {
    exists|zero: bool| #[trigger]
        call_ensures(N::is_zero, (largest,), zero) && if zero {
            call_ensures(N::tiny, (), scale)
        } else {
            scale_over::<N>(largest, kind, scale)
        }
}

/// `scale` is `largest` over the largest integer, but not less than the smallest scale.
pub open spec fn scale_over<N: Scalars>(
    largest: N::F32,
    kind: RowwiseQuantKind,
    scale: N::F32,
) -> bool {
    exists|codes: N::F32, ratio: N::F32, tiny: N::F32|
        #![trigger call_ensures(N::from_i32, (largest_code(kind),), codes), call_ensures(
            N::larger,
            (ratio, tiny),
            scale,
        )]
        call_ensures(N::from_i32, (largest_code(kind),), codes) && call_ensures(
            N::divide,
            (largest, codes),
            ratio,
        ) && call_ensures(N::tiny, (), tiny) && call_ensures(N::larger, (ratio, tiny), scale)
}

/// `scale` is the scale of row `row`.
pub open spec fn row_scale<N: Scalars>(
    x: Seq<N::F32>,
    row: int,
    head_dim: int,
    kind: RowwiseQuantKind,
    scale: N::F32,
) -> bool {
    exists|largest: N::F32| #[trigger]
        accumulates::<N>(magnitude_steps::<N>(x, row * head_dim), head_dim as nat, largest)
            && scale_for::<N>(largest, kind, scale)
}

/// `scales` are the scales of all rows.
pub open spec fn row_scales<N: Scalars>(
    x: Seq<N::F32>,
    rows: int,
    head_dim: int,
    kind: RowwiseQuantKind,
    scales: Seq<N::F32>,
) -> bool {
    &&& scales.len() == rows
    &&& forall|row: int|
        0 <= row < rows ==> row_scale::<N>(x, row, head_dim, kind, #[trigger] scales[row])
}

/// The scale of a row with the given largest magnitude.
fn find_scale<N: Scalars>(largest: N::F32, kind: RowwiseQuantKind) -> (scale: N::F32)
    ensures
        scale_for::<N>(largest, kind, scale),
{
    let zero: bool = N::is_zero(largest);
    if zero {
        N::tiny()
    } else {
        let denominator: i32 = match kind {
            RowwiseQuantKind::Int8 => 127,
            RowwiseQuantKind::Int4 => 7,
        };
        let codes = N::from_i32(denominator);
        let ratio = N::divide(largest, codes);
        let tiny = N::tiny();
        let scale = N::larger(ratio, tiny);
        proof {
            assert(denominator == largest_code(kind));
            assert(scale_over::<N>(largest, kind, scale));
        }
        scale
    }
}

/// Finds the scale of every row.
pub fn cpu_pack_scales_rowwise<N: Scalars>(
    x: &[N::F32],
    rows: usize,
    head_dim: usize,
    kind: RowwiseQuantKind,
) -> (scales: Vec<N::F32>)
    requires
        x@.len() == rows * head_dim,
    ensures
        row_scales::<N>(x@, rows as int, head_dim as int, kind, scales@),
{
    let len: usize = x.len();
    let mut scales: Vec<N::F32> = Vec::new();
    let mut row: usize = 0;
    while row < rows
        invariant
            len == x@.len(),
            x@.len() == rows * head_dim,
            row <= rows,
            scales@.len() == row,
            forall|r: int|
                0 <= r < row ==> row_scale::<N>(
                    x@,
                    r,
                    head_dim as int,
                    kind,
                    #[trigger] scales@[r],
                ),
        decreases rows - row,
    {
        proof {
            lemma_row_in_bounds(rows as int, row as int, head_dim as int);
        }
        let base: usize = row * head_dim;
        let ghost steps = magnitude_steps::<N>(x@, base as int);
        let mut largest = N::zero();
        proof {
            accumulates_start::<N>(steps, largest);
        }
        let mut i: usize = 0;
        while i < head_dim
            invariant
                len == x@.len(),
                base + head_dim <= len,
                i <= head_dim,
                steps == magnitude_steps::<N>(x@, base as int),
                accumulates::<N>(steps, i as nat, largest),
            decreases head_dim - i,
        {
            let magnitude = N::magnitude(x[base + i]);
            let next = N::larger(largest, magnitude);
            proof {
                assert(steps(i as int, largest, next));
                accumulates_next::<N>(steps, i as nat, largest, next);
            }
            largest = next;
            i += 1;
        }
        let scale = find_scale::<N>(largest, kind);
        proof {
            lemma_row_scale::<N>(x@, row as int, head_dim as int, kind, largest, scale);
        }
        scales.push(scale);
        row += 1;
    }
    scales
}

proof fn lemma_row_scale<N: Scalars>(
    x: Seq<N::F32>,
    row: int,
    head_dim: int,
    kind: RowwiseQuantKind,
    largest: N::F32,
    scale: N::F32,
)
    requires
        accumulates::<N>(magnitude_steps::<N>(x, row * head_dim), head_dim as nat, largest),
        scale_for::<N>(largest, kind, scale),
    ensures
        row_scale::<N>(x, row, head_dim, kind, scale),
{
}

proof fn lemma_row_in_bounds(rows: int, row: int, head_dim: int)
    requires
        0 <= row < rows,
        0 <= head_dim,
    ensures
        0 <= row * head_dim,
        row * head_dim + head_dim <= rows * head_dim,
{
    assert(0 <= row * head_dim && row * head_dim + head_dim <= rows * head_dim) by (nonlinear_arith)
        requires
            0 <= row,
            row + 1 <= rows,
            0 <= head_dim,
    ;
}

/// `code` is the number `x` over the scale of its row, rounded and clamped.
pub open spec fn quantizes<N: Scalars>(
    x: N::F32,
    scale: N::F32,
    kind: RowwiseQuantKind,
    code: i8,
) -> bool {
    exists|tiny: N::F32, divisor: N::F32, ratio: N::F32|
        #![trigger call_ensures(N::larger, (scale, tiny), divisor), call_ensures(
            N::divide,
            (x, divisor),
            ratio,
        )]
        call_ensures(N::tiny, (), tiny) && call_ensures(N::larger, (scale, tiny), divisor)
            && call_ensures(N::divide, (x, divisor), ratio) && call_ensures(
            N::round_clamped,
            (ratio, code_range(kind).0, code_range(kind).1),
            code,
        )
}

/// The integer that is read back where `code` was stored.
pub open spec fn stored_code(code: i8, kind: RowwiseQuantKind) -> int {
    match kind {
        RowwiseQuantKind::Int8 => code as int,
        RowwiseQuantKind::Int4 => signed_nibble(code as int % 16),
    }
}

/// `data` holds, at a row and a column, the integer of that number.
pub open spec fn holds_code<N: Scalars>(
    x: Seq<N::F32>,
    scales: Seq<N::F32>,
    row: int,
    col: int,
    head_dim: int,
    kind: RowwiseQuantKind,
    data: Seq<u8>,
) -> bool {
    exists|code: i8| #[trigger]
        quantizes::<N>(x[row * head_dim + col], scales[row], kind, code) && code_at(
            data,
            row,
            col,
            head_dim,
            kind,
        ) == stored_code(code, kind)
}

/// The last half of an odd `Int4` row is zero.
pub open spec fn zero_padded(
    row: int,
    head_dim: int,
    kind: RowwiseQuantKind,
    data: Seq<u8>,
) -> bool {
    kind == RowwiseQuantKind::Int4 && head_dim % 2 == 1 ==> data[code_place(
        row,
        head_dim - 1,
        head_dim,
        kind,
    )] < 16
}

/// Row `row` of `data` holds the integers of that row.
pub open spec fn holds_row<N: Scalars>(
    x: Seq<N::F32>,
    scales: Seq<N::F32>,
    row: int,
    head_dim: int,
    kind: RowwiseQuantKind,
    data: Seq<u8>,
) -> bool {
    &&& forall|col: int|
        0 <= col < head_dim ==> #[trigger] holds_code::<N>(
            x,
            scales,
            row,
            col,
            head_dim,
            kind,
            data,
        )
    &&& zero_padded(row, head_dim, kind, data)
}

/// `data` holds the integers of all rows.
pub open spec fn packs_rows<N: Scalars>(
    x: Seq<N::F32>,
    scales: Seq<N::F32>,
    rows: int,
    head_dim: int,
    kind: RowwiseQuantKind,
    data: Seq<u8>,
) -> bool {
    &&& data.len() == rows * packed_cols(head_dim, kind)
    &&& forall|row: int|
        0 <= row < rows ==> #[trigger] holds_row::<N>(x, scales, row, head_dim, kind, data)
}

/// The integer of one number.
fn quantize<N: Scalars>(x: N::F32, scale: N::F32, kind: RowwiseQuantKind) -> (code: i8)
    ensures
        quantizes::<N>(x, scale, kind, code),
{
    let tiny = N::tiny();
    let divisor = N::larger(scale, tiny);
    let ratio = N::divide(x, divisor);
    let (low, high): (i8, i8) = match kind {
        RowwiseQuantKind::Int8 => (-127, 127),
        RowwiseQuantKind::Int4 => (-8, 7),
    };
    let code: i8 = N::round_clamped(ratio, low, high);
    proof {
        assert((low, high) == code_range(kind));
        assert(call_ensures(N::round_clamped, (ratio, low, high), code));
    }
    code
}

/// Packs one `Int8` row behind the rows before it.
fn pack_row_int8<N: Scalars>(
    x: &[N::F32],
    scales: &[N::F32],
    row: usize,
    head_dim: usize,
    out: &mut Vec<u8>,
)
    requires
        row * head_dim + head_dim <= x@.len(),
        old(out)@.len() == row * head_dim,
        row < scales@.len(),
    ensures
        final(out)@.len() == row * head_dim + head_dim,
        final(out)@.take(old(out)@.len() as int) == old(out)@,
        holds_row::<N>(
            x@,
            scales@,
            row as int,
            head_dim as int,
            RowwiseQuantKind::Int8,
            final(out)@,
        ),
{
    let len: usize = x.len();
    let ghost before = out@;
    let mut i: usize = 0;
    while i < head_dim
        invariant
            len == x@.len(),
            row * head_dim + head_dim <= x@.len(),
            i <= head_dim,
            before.len() == row * head_dim,
            out@.len() == row * head_dim + i,
            out@.take(before.len() as int) == before,
            row < scales@.len(),
            forall|col: int|
                0 <= col < i ==> #[trigger] holds_code::<N>(
                    x@,
                    scales@,
                    row as int,
                    col,
                    head_dim as int,
                    RowwiseQuantKind::Int8,
                    out@,
                ),
        decreases head_dim - i,
    {
        let ghost shorter = out@;
        let code: i8 = quantize::<N>(x[row * head_dim + i], scales[row], RowwiseQuantKind::Int8);
        let byte: u8 = (code as i32 + 128) as u8;
        out.push(byte);
        proof {
            assert(out@.take(before.len() as int) =~= shorter.take(before.len() as int));
            assert forall|col: int| 0 <= col < i + 1 implies #[trigger] holds_code::<N>(
                x@,
                scales@,
                row as int,
                col,
                head_dim as int,
                RowwiseQuantKind::Int8,
                out@,
            ) by {
                if col < i {
                    assert(holds_code::<N>(
                        x@,
                        scales@,
                        row as int,
                        col,
                        head_dim as int,
                        RowwiseQuantKind::Int8,
                        shorter,
                    ));
                    assert(out@[row * head_dim + col] == shorter[row * head_dim + col]);
                } else {
                    assert(quantizes::<N>(
                        x@[row * head_dim + col],
                        scales@[row as int],
                        RowwiseQuantKind::Int8,
                        code,
                    ));
                    assert(out@[row * head_dim + col] == byte);
                }
            }
        }
        i += 1;
    }
}

/// The low half of a byte that holds `code` in two's complement.
fn nibble_of_code(code: i8) -> (nibble: u8)
    ensures
        nibble == code as int % 16,
        nibble < 16,
{
    let byte: u8 = if code < 0 {
        (code as i32 + 256) as u8
    } else {
        code as u8
    };
    proof {
        assert(byte & 0x0fu8 == byte % 16) by (bit_vector);
    }
    byte & 0x0f
}

/// A byte from its two halves.
fn join_nibbles(low: u8, high: u8) -> (byte: u8)
    requires
        low < 16,
        high < 16,
    ensures
        byte as int % 16 == low,
        byte as int / 16 == high,
{
    let byte: u8 = low | (high << 4);
    proof {
        assert(byte % 16 == low && byte / 16 == high) by (bit_vector)
            requires
                low < 16,
                high < 16,
                byte == low | (high << 4u8),
        ;
    }
    byte
}

/// Packs one `Int4` row behind the rows before it.
fn pack_row_int4<N: Scalars>(
    x: &[N::F32],
    scales: &[N::F32],
    row: usize,
    head_dim: usize,
    cols: usize,
    out: &mut Vec<u8>,
)
    requires
        row * head_dim + head_dim <= x@.len(),
        cols == packed_cols(head_dim as int, RowwiseQuantKind::Int4),
        old(out)@.len() == row * cols,
        row < scales@.len(),
    ensures
        final(out)@.len() == row * cols + cols,
        final(out)@.take(old(out)@.len() as int) == old(out)@,
        holds_row::<N>(
            x@,
            scales@,
            row as int,
            head_dim as int,
            RowwiseQuantKind::Int4,
            final(out)@,
        ),
{
    let len: usize = x.len();
    let ghost before = out@;
    proof {
        lemma_ceil_div(head_dim as int, 2);
    }
    let mut c: usize = 0;
    while c < cols
        invariant
            len == x@.len(),
            row * head_dim + head_dim <= x@.len(),
            cols == packed_cols(head_dim as int, RowwiseQuantKind::Int4),
            2 * cols == head_dim || 2 * cols == head_dim + 1,
            c <= cols,
            before.len() == row * cols,
            out@.len() == row * cols + c,
            out@.take(before.len() as int) == before,
            row < scales@.len(),
            forall|col: int|
                0 <= col < 2 * c && col < head_dim ==> #[trigger] holds_code::<N>(
                    x@,
                    scales@,
                    row as int,
                    col,
                    head_dim as int,
                    RowwiseQuantKind::Int4,
                    out@,
                ),
            2 * c > head_dim ==> out@[row * cols + (c - 1)] < 16,
        decreases cols - c,
    {
        let ghost shorter = out@;
        let i0: usize = c * 2;
        let code0: i8 = quantize::<N>(
            x[row * head_dim + i0],
            scales[row],
            RowwiseQuantKind::Int4,
        );
        let low: u8 = nibble_of_code(code0);
        let mut high: u8 = 0;
        let ghost mut code1: i8 = 0;
        if i0 + 1 < head_dim {
            let code: i8 = quantize::<N>(
                x[row * head_dim + i0 + 1],
                scales[row],
                RowwiseQuantKind::Int4,
            );
            high = nibble_of_code(code);
            proof {
                code1 = code;
            }
        }
        let byte: u8 = join_nibbles(low, high);
        out.push(byte);
        proof {
            assert(out@.take(before.len() as int) =~= shorter.take(before.len() as int));
            assert(out@[row * cols + c] == byte);
            assert forall|col: int|
                0 <= col < 2 * (c + 1) && col < head_dim implies #[trigger] holds_code::<N>(
                x@,
                scales@,
                row as int,
                col,
                head_dim as int,
                RowwiseQuantKind::Int4,
                out@,
            ) by {
                if col < 2 * c {
                    assert(holds_code::<N>(
                        x@,
                        scales@,
                        row as int,
                        col,
                        head_dim as int,
                        RowwiseQuantKind::Int4,
                        shorter,
                    ));
                    assert(out@[row * cols + col / 2] == shorter[row * cols + col / 2]);
                } else if col == 2 * c {
                    assert(col / 2 == c);
                    assert(quantizes::<N>(
                        x@[row * head_dim + col],
                        scales@[row as int],
                        RowwiseQuantKind::Int4,
                        code0,
                    ));
                } else {
                    assert(col / 2 == c);
                    assert(quantizes::<N>(
                        x@[row * head_dim + col],
                        scales@[row as int],
                        RowwiseQuantKind::Int4,
                        code1,
                    ));
                }
            }
        }
        c += 1;
    }
    proof {
        assert((head_dim - 1) / 2 == cols - 1 || head_dim % 2 == 0);
    }
}

/// Packs every row.
pub fn cpu_pack_data_rowwise<N: Scalars>(
    x: &[N::F32],
    scales: &[N::F32],
    rows: usize,
    head_dim: usize,
    kind: RowwiseQuantKind,
) -> (data: Vec<u8>)
    requires
        x@.len() == rows * head_dim,
        scales@.len() == rows,
    ensures
        packs_rows::<N>(x@, scales@, rows as int, head_dim as int, kind, data@),
{
    let cols: usize = expected_packed_cols(head_dim, kind);
    let mut data: Vec<u8> = Vec::new();
    let mut row: usize = 0;
    while row < rows
        invariant
            x@.len() == rows * head_dim,
            scales@.len() == rows,
            cols == packed_cols(head_dim as int, kind),
            row <= rows,
            data@.len() == row * cols,
            forall|r: int|
                0 <= r < row ==> #[trigger] holds_row::<N>(
                    x@,
                    scales@,
                    r,
                    head_dim as int,
                    kind,
                    data@,
                ),
        decreases rows - row,
    {
        let ghost before = data@;
        proof {
            lemma_row_in_bounds(rows as int, row as int, head_dim as int);
        }
        match kind {
            RowwiseQuantKind::Int8 => {
                pack_row_int8::<N>(x, scales, row, head_dim, &mut data);
            },
            RowwiseQuantKind::Int4 => {
                pack_row_int4::<N>(x, scales, row, head_dim, cols, &mut data);
            },
        }
        proof {
            assert((row + 1) * cols == row * cols + cols) by (nonlinear_arith);
            assert forall|r: int| 0 <= r < row + 1 implies #[trigger] holds_row::<N>(
                x@,
                scales@,
                r,
                head_dim as int,
                kind,
                data@,
            ) by {
                if r < row {
                    assert(holds_row::<N>(x@, scales@, r, head_dim as int, kind, before));
                    assert forall|i: int| 0 <= i < before.len() implies data@[i] == before[i] by {
                        assert(data@.take(before.len() as int)[i] == before[i]);
                    }
                    assert((r + 1) * cols <= row * cols) by (nonlinear_arith)
                        requires
                            r + 1 <= row,
                            cols >= 0,
                    ;
                    lemma_holds_row_extends::<N>(
                        x@,
                        scales@,
                        r,
                        head_dim as int,
                        kind,
                        before,
                        data@,
                    );
                }
            }
        }
        row += 1;
    }
    data
}

/// What a row holds does not depend on what follows it.
proof fn lemma_holds_row_extends<N: Scalars>(
    x: Seq<N::F32>,
    scales: Seq<N::F32>,
    row: int,
    head_dim: int,
    kind: RowwiseQuantKind,
    short: Seq<u8>,
    long: Seq<u8>,
)
    requires
        holds_row::<N>(x, scales, row, head_dim, kind, short),
        0 <= row,
        0 <= head_dim,
        (row + 1) * packed_cols(head_dim, kind) <= short.len() <= long.len(),
        forall|i: int| 0 <= i < short.len() ==> long[i] == short[i],
    ensures
        holds_row::<N>(x, scales, row, head_dim, kind, long),
{
    assert forall|col: int| 0 <= col < head_dim implies #[trigger] holds_code::<N>(
        x,
        scales,
        row,
        col,
        head_dim,
        kind,
        long,
    ) by {
        assert(holds_code::<N>(x, scales, row, col, head_dim, kind, short));
        lemma_code_in_bounds(row + 1, row, col, head_dim, kind);
    }
    if head_dim > 0 {
        lemma_code_in_bounds(row + 1, row, head_dim - 1, head_dim, kind);
    }
}

/// What was packed is read back: where rounding keeps to its bounds, the integer at every row
/// and column is the rounded quotient of the number there and the scale of its row.
pub proof fn packed_rows_read_back<N: Scalars>(
    x: Seq<N::F32>,
    scales: Seq<N::F32>,
    rows: int,
    head_dim: int,
    kind: RowwiseQuantKind,
    data: Seq<u8>,
    row: int,
    col: int,
)
    requires
        packs_rows::<N>(x, scales, rows, head_dim, kind, data),
        clamps::<N>(),
        0 <= row < rows,
        0 <= col < head_dim,
    ensures
        exists|code: i8| #[trigger]
            quantizes::<N>(x[row * head_dim + col], scales[row], kind, code) && code_at(
                data,
                row,
                col,
                head_dim,
                kind,
            ) == code,
{
    assert(holds_row::<N>(x, scales, row, head_dim, kind, data));
    assert(holds_code::<N>(x, scales, row, col, head_dim, kind, data));
    let code = choose|code: i8| #[trigger]
        quantizes::<N>(x[row * head_dim + col], scales[row], kind, code) && code_at(
            data,
            row,
            col,
            head_dim,
            kind,
        ) == stored_code(code, kind);
    assert(code_range(kind).0 <= code <= code_range(kind).1);
}

/// Rounding keeps to its bounds.
pub open spec fn clamps<N: Scalars>() -> bool {
    forall|a: N::F32, low: i8, high: i8, code: i8| #[trigger]
        call_ensures(N::round_clamped, (a, low, high), code) && low <= high ==> low <= code <= high
}

} // verus!
