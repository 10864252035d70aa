//! What packed rows hold, as real numbers.
use crate::arith::lemma_ceil_div;
use crate::exact::{is_rounded, lemma_read_nth, Reading};
use crate::host::widens;
use crate::kv_attn::codes::{code_at, code_place, RowwiseQuantKind};
use crate::kv_attn::pack::{
    data_host_result, pack_outcome, row_count, rows_hold_every_element, HostPack, PackOutcome,
    RowwisePackDataOp,
};
use crate::kv_attn::rowwise_pack::{
    holds_code, holds_row, largest_code, magnitude_steps, packs_rows, quantizes, row_scale,
    row_scales, scale_for, scale_over, stored_code,
};
use crate::scalar::{accumulates, is_trace, steps_at, Scalars};
use crate::tensor::{HostTensor, HostVec, Storage, Tensor};
use vstd::prelude::*;

verus! {

/// The magnitude of a number.
pub open spec fn size_of(x: real) -> real {
    if x >= 0real {
        x
    } else {
        -x
    }
}

/// The largest integer that a number of a row becomes.
pub open spec fn steps_of(kind: RowwiseQuantKind) -> real {
    match kind {
        RowwiseQuantKind::Int8 => 127real,
        RowwiseQuantKind::Int4 => 7real,
    }
}

/// The integer in column `col` of row `row` of packed rows: a byte less 128, or four bits in two's
/// complement, of which the even columns have the low half of a byte.
pub open spec fn packed_integer(
    bytes: Seq<u8>,
    kind: RowwiseQuantKind,
    head_dim: int,
    row: int,
    col: int,
) -> int {
    match kind {
        RowwiseQuantKind::Int8 => bytes[row * head_dim + col] - 128,
        RowwiseQuantKind::Int4 => {
            let byte = bytes[row * ((head_dim + 1) / 2) + col / 2] as int;
            let half = if col % 2 == 0 {
                byte % 16
            } else {
                byte / 16
            };
            if half < 8 {
                half
            } else {
                half - 16
            }
        },
    }
}

/// The bytes of a result.
pub open spec fn bytes_of_result<N: Scalars>(out: HostTensor<N>) -> Seq<u8> {
    match out.data {
        HostVec::U8(bytes) => bytes@,
        _ => Seq::empty(),
    }
}

/// A running maximum of magnitudes is not less than any of them, and is one of them or zero.
proof fn lemma_largest<N: Scalars>(
    r: Reading<N>,
    x: Seq<N::F32>,
    base: int,
    n: nat,
    trace: Seq<N::F32>,
    k: nat,
)
    requires
        r.is_exact(),
        is_trace::<N>(magnitude_steps::<N>(x, base), n, trace),
        k <= n,
    ensures
        (r.single)(trace[k as int]) >= 0real,
        forall|i: int|
            0 <= i < k ==> size_of((r.single)(#[trigger] x[base + i])) <= (r.single)(
                trace[k as int],
            ),
        (r.single)(trace[k as int]) == 0real || exists|i: int|
            0 <= i < k && size_of((r.single)(#[trigger] x[base + i])) == (r.single)(
                trace[k as int],
            ),
    decreases k,
{
    if k > 0 {
        lemma_largest::<N>(r, x, base, n, trace, (k - 1) as nat);
        let steps = magnitude_steps::<N>(x, base);
        assert(steps_at::<N>(steps, trace, k - 1));
        assert(steps(k - 1, trace[k - 1], trace[k as int]));
        let magnitude = choose|magnitude: N::F32| #[trigger]
            call_ensures(N::magnitude, (x[base + (k - 1)],), magnitude) && call_ensures(
                N::larger,
                (trace[k - 1], magnitude),
                trace[k as int],
            );
        let last = x[base + (k - 1)];
        assert((r.single)(magnitude) == size_of((r.single)(last)));
        if (r.single)(trace[k - 1]) >= (r.single)(magnitude) {
            if (r.single)(trace[k - 1]) != 0real {
                let i = choose|i: int|
                    0 <= i < k - 1 && size_of((r.single)(#[trigger] x[base + i])) == (r.single)(
                        trace[k - 1],
                    );
                assert(0 <= i < k && size_of((r.single)(x[base + i])) == (r.single)(
                    trace[k as int],
                ));
            }
        } else {
            assert(size_of((r.single)(x[base + (k - 1)])) == (r.single)(trace[k as int]));
        }
    }
}

/// What the scale of a row is.
proof fn lemma_scale<N: Scalars>(
    r: Reading<N>,
    x: Seq<N::F32>,
    row: int,
    head_dim: int,
    kind: RowwiseQuantKind,
    scale: N::F32,
)
    requires
        r.is_exact(),
        head_dim > 0,
        row_scale::<N>(x, row, head_dim, kind, scale),
    ensures
        (r.single)(scale) * 100000000real >= 1real,
        forall|i: int|
            0 <= i < head_dim ==> size_of((r.single)(#[trigger] x[row * head_dim + i])) <= (
            r.single)(scale) * steps_of(kind),
        (r.single)(scale) * 100000000real == 1real || exists|i: int|
            0 <= i < head_dim && size_of((r.single)(#[trigger] x[row * head_dim + i])) == (
            r.single)(scale) * steps_of(kind),
{
    let base = row * head_dim;
    let steps = magnitude_steps::<N>(x, base);
    let n = head_dim as nat;
    let largest = choose|largest: N::F32| #[trigger]
        accumulates::<N>(steps, n, largest) && scale_for::<N>(largest, kind, scale);
    let trace = choose|trace: Seq<N::F32>| #[trigger]
        is_trace::<N>(steps, n, trace) && trace[n as int] == largest;
    lemma_largest::<N>(r, x, base, n, trace, n);
    let top = (r.single)(largest);
    let s = (r.single)(scale);
    let c = steps_of(kind);
    if top == 0real {
        assert(s * c >= 0real) by (nonlinear_arith)
            requires
                s * 100000000real == 1real,
                c > 0real,
        ;
    } else {
        assert(scale_over::<N>(largest, kind, scale));
        let (codes, ratio, tiny) = choose|codes: N::F32, ratio: N::F32, tiny: N::F32|
            #![trigger call_ensures(N::from_i32, (largest_code(kind),), codes), call_ensures(
                N::larger,
                (ratio, tiny),
                scale,
            )]
            call_ensures(N::from_i32, (largest_code(kind),), codes) && call_ensures(
                N::divide,
                (largest, codes),
                ratio,
            ) && call_ensures(N::tiny, (), tiny) && call_ensures(N::larger, (ratio, tiny), scale);
        let q = (r.single)(ratio);
        assert((r.single)(codes) == c);
        assert(q * c == top);
        assert(s * c >= q * c) by (nonlinear_arith)
            requires
                s >= q,
                c > 0real,
        ;
    }
}

/// A number is divided by the scale of its row, but by no less than a hundred-millionth.
pub open spec fn is_divisor(scale: real, divisor: real) -> bool {
    if scale * 100000000real >= 1real {
        divisor == scale
    } else {
        divisor * 100000000real == 1real
    }
}

/// What the integer of a number is.
proof fn lemma_integer<N: Scalars>(
    r: Reading<N>,
    x: Seq<N::F32>,
    scales: Seq<N::F32>,
    rows: int,
    head_dim: int,
    kind: RowwiseQuantKind,
    data: Seq<u8>,
    row: int,
    col: int,
    divisor: real,
    ratio: real,
)
    requires
        r.is_exact(),
        packs_rows::<N>(x, scales, rows, head_dim, kind, data),
        0 <= row < rows,
        0 <= col < head_dim,
        is_divisor((r.single)(scales[row]), divisor),
        ratio * divisor == (r.single)(x[row * head_dim + col]),
    ensures
        kind is Int8 ==> is_rounded(
            ratio,
            -127,
            127,
            packed_integer(data, kind, head_dim, row, col),
        ),
        kind is Int4 ==> is_rounded(
            ratio,
            -8,
            7,
            packed_integer(data, kind, head_dim, row, col),
        ),
{
    assert(holds_row::<N>(x, scales, row, head_dim, kind, data));
    assert(holds_code::<N>(x, scales, row, col, head_dim, kind, data));
    let number = x[row * head_dim + col];
    let code = choose|code: i8| #[trigger]
        quantizes::<N>(number, scales[row], kind, code) && code_at(data, row, col, head_dim, kind)
            == stored_code(code, kind);
    let (tiny, over, found) = choose|tiny: N::F32, over: N::F32, found: N::F32|
        #![trigger call_ensures(N::larger, (scales[row], tiny), over), call_ensures(
            N::divide,
            (number, over),
            found,
        )]
        call_ensures(N::tiny, (), tiny) && call_ensures(N::larger, (scales[row], tiny), over)
            && call_ensures(N::divide, (number, over), found) && call_ensures(
            N::round_clamped,
            (
                found,
                crate::kv_attn::rowwise_pack::code_range(kind).0,
                crate::kv_attn::rowwise_pack::code_range(kind).1,
            ),
            code,
        );
    let s = (r.single)(over);
    assert(s == divisor);
    let f = (r.single)(found);
    assert(f * s == ratio * s);
    assert(f == ratio) by (nonlinear_arith)
        requires
            f * s == ratio * s,
            s * 100000000real >= 1real,
    ;
    lemma_ceil_div(head_dim, 2);
    assert(packed_integer(data, kind, head_dim, row, col) == code);
}

/// The numbers of a row that is packed on the host are within the scale of the row times 127, or
/// 7 for `Int4`; the scale is a hundred-millionth, or one of the numbers reaches that bound.
pub proof fn scales_are_the_largest_number<N: Scalars>(
    r: Reading<N>,
    x: Tensor<N>,
    head_dim: usize,
    kind: RowwiseQuantKind,
    fused: bool,
    out: HostPack<N>,
    row: int,
)
    requires
        r.is_exact(),
        pack_outcome(x, head_dim, kind, fused, Ok(PackOutcome::Host(out))),
        0 <= row,
        (row + 1) * head_dim <= x.count(),
    ensures
        r.of(out.scales, row) * 100000000real >= 1real,
        forall|col: int|
            0 <= col < head_dim ==> size_of(#[trigger] r.nth(x, row * head_dim + col)) <= r.of(
                out.scales,
                row,
            ) * steps_of(kind),
        r.of(out.scales, row) * 100000000real == 1real || exists|col: int|
            0 <= col < head_dim && size_of(#[trigger] r.nth(x, row * head_dim + col)) == r.of(
                out.scales,
                row,
            ) * steps_of(kind),
{
    let d = head_dim as int;
    let rows = row_count(x.shape(), head_dim);
    rows_hold_every_element(x.shape(), head_dim);
    lemma_row_below(row, rows, d);
    let data = x.storage->Host_0;
    let scales = out.scales.data->F32_0@;
    let wide = choose|wide: Seq<N::F32>| #[trigger]
        widens::<N>(data, x.layout, wide) && row_scales::<N>(wide, rows, d, kind, scales);
    lemma_scale::<N>(r, wide, row, d, kind, scales[row]);
    assert forall|col: int| 0 <= col < d implies (r.single)(#[trigger] wide[row * d + col])
        == r.nth(x, row * d + col) by {
        lemma_in_row(row, col, rows, d);
        lemma_read_nth(r, x, wide, row * d + col);
    }
    assert forall|col: int| 0 <= col < d implies size_of(#[trigger] r.nth(x, row * d + col))
        <= r.of(out.scales, row) * steps_of(kind) by {
        assert((r.single)(wide[row * d + col]) == r.nth(x, row * d + col));
    }
    let s = (r.single)(scales[row]);
    if s * 100000000real != 1real {
        let col = choose|col: int|
            0 <= col < d && size_of((r.single)(#[trigger] wide[row * d + col])) == s * steps_of(
                kind,
            );
        assert(size_of(r.nth(x, row * d + col)) == r.of(out.scales, row) * steps_of(kind));
    }
}

proof fn lemma_row_below(row: int, rows: int, d: int)
    requires
        0 < d,
        (row + 1) * d <= rows * d,
    ensures
        row < rows,
{
    assert(row < rows) by (nonlinear_arith)
        requires
            0 < d,
            (row + 1) * d <= rows * d,
    ;
}

proof fn lemma_in_row(row: int, col: int, rows: int, d: int)
    requires
        0 <= row < rows,
        0 <= col < d,
    ensures
        0 <= row * d + col < rows * d,
{
    assert(0 <= row * d + col < rows * d) by (nonlinear_arith)
        requires
            0 <= row < rows,
            0 <= col < d,
    ;
}

/// The integer of a number is the number over the scale of its row, rounded half away from zero,
/// and no number of a row is clamped.
pub proof fn packed_integers_are_rounded<N: Scalars>(
    r: Reading<N>,
    x: Tensor<N>,
    head_dim: usize,
    kind: RowwiseQuantKind,
    fused: bool,
    out: HostPack<N>,
    row: int,
    col: int,
    ratio: real,
)
    requires
        r.is_exact(),
        pack_outcome(x, head_dim, kind, fused, Ok(PackOutcome::Host(out))),
        0 <= row,
        0 <= col < head_dim,
        (row + 1) * head_dim <= x.count(),
        ratio * r.of(out.scales, row) == r.nth(x, row * head_dim + col),
    ensures
        kind is Int8 ==> is_rounded(
            ratio,
            -127,
            127,
            packed_integer(bytes_of_result(out.packed), kind, head_dim as int, row, col),
        ),
        kind is Int4 ==> is_rounded(
            ratio,
            -8,
            7,
            packed_integer(bytes_of_result(out.packed), kind, head_dim as int, row, col),
        ),
        size_of(ratio) <= steps_of(kind),
{
    let d = head_dim as int;
    let rows = row_count(x.shape(), head_dim);
    rows_hold_every_element(x.shape(), head_dim);
    lemma_row_below(row, rows, d);
    lemma_in_row(row, col, rows, d);
    scales_are_the_largest_number(r, x, head_dim, kind, fused, out, row);
    let data = x.storage->Host_0;
    let scales = out.scales.data->F32_0@;
    let bytes = out.packed.data->U8_0@;
    let wide = choose|wide: Seq<N::F32>| #[trigger]
        widens::<N>(data, x.layout, wide) && packs_rows::<N>(wide, scales, rows, d, kind, bytes);
    lemma_read_nth(r, x, wide, row * d + col);
    let own = r.of(out.scales, row);
    lemma_integer::<N>(r, wide, scales, rows, d, kind, bytes, row, col, own, ratio);
    let (s, n, c) = (r.of(out.scales, row), r.nth(x, row * d + col), steps_of(kind));
    assert(size_of(n) <= s * c);
    assert(-c <= ratio <= c) by (nonlinear_arith)
        requires
            ratio * s == n,
            s * 100000000real >= 1real,
            -(s * c) <= n <= s * c,
    ;
}

/// A number comes back from packed rows within half the scale of its row.
pub proof fn packed_numbers_come_back_within_half_a_step<N: Scalars>(
    r: Reading<N>,
    x: Tensor<N>,
    head_dim: usize,
    kind: RowwiseQuantKind,
    fused: bool,
    out: HostPack<N>,
    row: int,
    col: int,
)
    requires
        r.is_exact(),
        pack_outcome(x, head_dim, kind, fused, Ok(PackOutcome::Host(out))),
        0 <= row,
        0 <= col < head_dim,
        (row + 1) * head_dim <= x.count(),
    ensures
        2real * size_of(
            r.nth(x, row * head_dim + col) - packed_integer(
                bytes_of_result(out.packed),
                kind,
                head_dim as int,
                row,
                col,
            ) as real * r.of(out.scales, row),
        ) <= r.of(out.scales, row),
{
    scales_are_the_largest_number(r, x, head_dim, kind, fused, out, row);
    let s = r.of(out.scales, row);
    let n = r.nth(x, row * head_dim + col);
    let ratio = n / s;
    assert(ratio * s == n) by (nonlinear_arith)
        requires
            ratio == n / s,
            s * 100000000real >= 1real,
    ;
    packed_integers_are_rounded(r, x, head_dim, kind, fused, out, row, col, ratio);
    let q = packed_integer(bytes_of_result(out.packed), kind, head_dim as int, row, col) as real;
    assert(2real * (n - q * s) <= s && 2real * (q * s - n) <= s) by (nonlinear_arith)
        requires
            ratio * s == n,
            s * 100000000real >= 1real,
            2real * (ratio - q) <= 1real,
            2real * (q - ratio) <= 1real,
    ;
}

/// Over given scales, the integer of a number is the number over the scale of its row, or over a
/// hundred-millionth where the scale is less, rounded half away from zero and clamped.
pub proof fn integers_are_rounded_over_given_scales<N: Scalars>(
    r: Reading<N>,
    op: RowwisePackDataOp,
    x: Tensor<N>,
    scales: Tensor<N>,
    out: HostTensor<N>,
    row: int,
    col: int,
    divisor: real,
    ratio: real,
)
    requires
        r.is_exact(),
        op.head_dim > 0,
        x.storage matches Storage::Host(data) && scales.storage matches Storage::Host(over)
            && data_host_result(op, data, x.layout, over, scales.layout, out),
        crate::kv_attn::pack::pack_shape_fault(x.shape(), op.head_dim) is None,
        0 <= row < scales.count(),
        0 <= col < op.head_dim,
        scales.count() * op.head_dim == x.count(),
        is_divisor(r.nth(scales, row), divisor),
        ratio * divisor == r.nth(x, row * op.head_dim + col),
    ensures
        op.kind is Int8 ==> is_rounded(
            ratio,
            -127,
            127,
            packed_integer(bytes_of_result(out), op.kind, op.head_dim as int, row, col),
        ),
        op.kind is Int4 ==> is_rounded(
            ratio,
            -8,
            7,
            packed_integer(bytes_of_result(out), op.kind, op.head_dim as int, row, col),
        ),
{
    let d = op.head_dim as int;
    let rows = row_count(x.shape(), op.head_dim);
    rows_hold_every_element(x.shape(), op.head_dim);
    assert(rows == scales.count()) by (nonlinear_arith)
        requires
            rows * d == scales.count() * d,
            d > 0,
    ;
    lemma_in_row(row, col, rows, d);
    let data = x.storage->Host_0;
    let given = scales.layout.elements(scales.storage->Host_0->F32_0@);
    let bytes = out.data->U8_0@;
    let wide = choose|wide: Seq<N::F32>| #[trigger]
        widens::<N>(data, x.layout, wide) && packs_rows::<N>(
            wide,
            given,
            rows,
            d,
            op.kind,
            bytes,
        );
    lemma_read_nth(r, x, wide, row * d + col);
    lemma_integer::<N>(r, wide, given, rows, d, op.kind, bytes, row, col, divisor, ratio);
}

/// The last byte of an `Int4` row of odd length has nothing in its high half.
pub proof fn odd_rows_end_in_an_empty_half<N: Scalars>(
    x: Tensor<N>,
    head_dim: usize,
    kind: RowwiseQuantKind,
    fused: bool,
    out: HostPack<N>,
    row: int,
)
    requires
        pack_outcome(x, head_dim, kind, fused, Ok(PackOutcome::Host(out))),
        kind is Int4,
        head_dim % 2 == 1,
        0 <= row,
        (row + 1) * head_dim <= x.count(),
    ensures
        bytes_of_result(out.packed).len() * head_dim == x.count() * ((head_dim + 1) / 2),
        bytes_of_result(out.packed)[(row + 1) * ((head_dim + 1) / 2) - 1] < 16,
{
    let d = head_dim as int;
    let rows = row_count(x.shape(), head_dim);
    rows_hold_every_element(x.shape(), head_dim);
    lemma_row_below(row, rows, d);
    let data = x.storage->Host_0;
    let scales = out.scales.data->F32_0@;
    let bytes = out.packed.data->U8_0@;
    let wide = choose|wide: Seq<N::F32>| #[trigger]
        widens::<N>(data, x.layout, wide) && packs_rows::<N>(wide, scales, rows, d, kind, bytes);
    assert(holds_row::<N>(wide, scales, row, d, kind, bytes));
    lemma_ceil_div(d, 2);
    let cols = (d + 1) / 2;
    assert(code_place(row, d - 1, d, kind) == (row + 1) * cols - 1) by (nonlinear_arith)
        requires
            code_place(row, d - 1, d, kind) == row * cols + (d - 1) / 2,
            (d - 1) / 2 == cols - 1,
    ;
    assert((rows * cols) * d == (rows * d) * cols) by (nonlinear_arith);
}

} // verus!
