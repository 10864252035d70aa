//! What packing makes of negated rows, of rows of zeros, and of finite rows, for every arithmetic
//! in which its operations behave as they do on single numbers.
use crate::host::widens;
use crate::kv_attn::attend::dequantizes;
use crate::kv_attn::codes::{code_at, code_place, RowwiseQuantKind};
use crate::kv_attn::pack::{
    pack_outcome, row_count, rows_hold_every_element, HostPack, PackOutcome,
};
use crate::kv_attn::rowwise_pack::{
    clamps, code_range, largest_code, magnitude_steps, packed_rows_read_back, packs_rows, quantizes,
    row_scale, row_scales, scale_for, scale_over,
};
use crate::relation::{is_transitive, same_tensors, Relation};
use crate::scalar::{accumulates, is_trace, steps_at, Scalars};
use crate::tensor::{Storage, Tensor};
use vstd::prelude::*;

verus! {

/// `ratio` is the number `x` over the scale of its row, where a scale below the smallest counts as
/// the smallest.
pub open spec fn over_scale<N: Scalars>(x: N::F32, scale: N::F32, ratio: N::F32) -> bool {
    exists|tiny: N::F32, divisor: N::F32|
        #![trigger call_ensures(N::larger, (scale, tiny), divisor), call_ensures(
            N::divide,
            (x, divisor),
            ratio,
        )]
        call_ensures(N::tiny, (), tiny) && call_ensures(N::larger, (scale, tiny), divisor)
            && call_ensures(N::divide, (x, divisor), ratio)
}

/// An integer is a rounded quotient.
proof fn lemma_quotient<N: Scalars>(
    x: N::F32,
    scale: N::F32,
    kind: RowwiseQuantKind,
    code: i8,
) -> (ratio: N::F32)
    requires
        quantizes::<N>(x, scale, kind, code),
    ensures
        over_scale::<N>(x, scale, ratio),
        call_ensures(N::round_clamped, (ratio, code_range(kind).0, code_range(kind).1), code),
{
    let (tiny, divisor, ratio) = choose|tiny: N::F32, divisor: N::F32, ratio: N::F32|
        #![trigger call_ensures(N::larger, (scale, tiny), divisor), call_ensures(
            N::divide,
            (x, divisor),
            ratio,
        )]
        call_ensures(N::tiny, (), tiny) && call_ensures(N::larger, (scale, tiny), divisor)
            && call_ensures(N::divide, (x, divisor), ratio) && call_ensures(
            N::round_clamped,
            (ratio, code_range(kind).0, code_range(kind).1),
            code,
        );
    ratio
}

/// Finding scales gives related numbers for related numbers: zero and the smallest scale whenever
/// they are asked for, the larger of two numbers, and the quotient by the largest integer. Related
/// numbers are zero together.
pub open spec fn scales_respect<N: Scalars>(same: Relation<N::F32>) -> bool {
    &&& forall|left: N::F32, right: N::F32|
        #![trigger call_ensures(N::zero, (), left), call_ensures(N::zero, (), right)]
        call_ensures(N::zero, (), left) && call_ensures(N::zero, (), right) ==> same(left, right)
    &&& forall|left: N::F32, right: N::F32|
        #![trigger call_ensures(N::tiny, (), left), call_ensures(N::tiny, (), right)]
        call_ensures(N::tiny, (), left) && call_ensures(N::tiny, (), right) ==> same(left, right)
    &&& forall|a: N::F32, b: N::F32, c: N::F32, d: N::F32, left: N::F32, right: N::F32|
        #![trigger call_ensures(N::larger, (a, b), left), call_ensures(N::larger, (c, d), right)]
        same(a, c) && same(b, d) && call_ensures(N::larger, (a, b), left) && call_ensures(
            N::larger,
            (c, d),
            right,
        ) ==> same(left, right)
    &&& forall|
        a: N::F32,
        b: N::F32,
        n: i32,
        count: N::F32,
        other: N::F32,
        left: N::F32,
        right: N::F32,
    |
        #![trigger call_ensures(N::from_i32, (n,), count), call_ensures(
            N::from_i32,
            (n,),
            other,
        ), call_ensures(N::divide, (a, count), left), call_ensures(N::divide, (b, other), right)]
        n > 0 && same(a, b) && call_ensures(N::from_i32, (n,), count) && call_ensures(
            N::from_i32,
            (n,),
            other,
        ) && call_ensures(N::divide, (a, count), left) && call_ensures(
            N::divide,
            (b, other),
            right,
        ) ==> same(left, right)
    &&& forall|a: N::F32, b: N::F32, left: bool, right: bool|
        #![trigger call_ensures(N::is_zero, (a,), left), call_ensures(N::is_zero, (b,), right)]
        same(a, b) && call_ensures(N::is_zero, (a,), left) && call_ensures(N::is_zero, (b,), right)
            ==> left == right
}

/// `b` is the negative of `a`.
pub open spec fn is_opposite<N: Scalars>(same: Relation<N::F32>, a: N::F32, b: N::F32) -> bool {
    exists|c: N::F32| #[trigger] call_ensures(N::negate, (a,), c) && same(c, b)
}

/// A number and its negative have one magnitude.
pub open spec fn magnitudes_agree<N: Scalars>(same: Relation<N::F32>) -> bool {
    forall|a: N::F32, b: N::F32, left: N::F32, right: N::F32|
        #![trigger is_opposite::<N>(same, a, b), call_ensures(
            N::magnitude,
            (a,),
            left,
        ), call_ensures(N::magnitude, (b,), right)]
        is_opposite::<N>(same, a, b) && call_ensures(N::magnitude, (a,), left) && call_ensures(
            N::magnitude,
            (b,),
            right,
        ) ==> same(left, right)
}

/// The quotients of a number and of its negative by one scale are rounded to an integer and to its
/// negative, between bounds that are negatives of each other.
pub open spec fn rounds_oddly<N: Scalars>(same: Relation<N::F32>) -> bool {
    forall|
        a: N::F32,
        b: N::F32,
        scale: N::F32,
        other: N::F32,
        left: N::F32,
        right: N::F32,
        low: i8,
        high: i8,
        up: i8,
        down: i8,
    |
        #![trigger is_opposite::<N>(same, a, b), over_scale::<N>(a, scale, left), over_scale::<N>(
            b,
            other,
            right,
        ), call_ensures(N::round_clamped, (left, low, high), up), call_ensures(
            N::round_clamped,
            (right, low, high),
            down,
        )]
        low == -high && is_opposite::<N>(same, a, b) && same(scale, other) && over_scale::<N>(
            a,
            scale,
            left,
        ) && over_scale::<N>(b, other, right) && call_ensures(
            N::round_clamped,
            (left, low, high),
            up,
        ) && call_ensures(N::round_clamped, (right, low, high), down) ==> down == -up
}

/// `negated` is `x` with every number negated.
pub open spec fn is_negated<N: Scalars>(
    same: Relation<N::F32>,
    x: Seq<N::F32>,
    negated: Seq<N::F32>,
) -> bool {
    &&& negated.len() == x.len()
    &&& forall|i: int| 0 <= i < x.len() ==> is_opposite::<N>(same, x[i], #[trigger] negated[i])
}

/// `negated` is the host tensor `x` with every number negated.
pub open spec fn is_negated_tensor<N: Scalars>(
    same: Relation<N::F32>,
    x: Tensor<N>,
    negated: Tensor<N>,
) -> bool {
    &&& negated.shape() == x.shape()
    &&& x.storage matches Storage::Host(data) && negated.storage matches Storage::Host(other)
        && forall|a: Seq<N::F32>, b: Seq<N::F32>|
        #![trigger widens::<N>(data, x.layout, a), widens::<N>(other, negated.layout, b)]
        widens::<N>(data, x.layout, a) && widens::<N>(other, negated.layout, b) ==> is_negated::<
            N,
        >(same, a, b)
}

/// The running maxima of a row and of its negative are related.
proof fn lemma_same_maxima<N: Scalars>(
    same: Relation<N::F32>,
    x: Seq<N::F32>,
    negated: Seq<N::F32>,
    base: int,
    n: nat,
    left: Seq<N::F32>,
    right: Seq<N::F32>,
    i: nat,
)
    requires
        scales_respect::<N>(same),
        magnitudes_agree::<N>(same),
        is_negated::<N>(same, x, negated),
        0 <= base,
        base + n <= x.len(),
        is_trace::<N>(magnitude_steps::<N>(x, base), n, left),
        is_trace::<N>(magnitude_steps::<N>(negated, base), n, right),
        i <= n,
    ensures
        same(left[i as int], right[i as int]),
    decreases i,
{
    if i > 0 {
        let k = i - 1;
        lemma_same_maxima::<N>(same, x, negated, base, n, left, right, k as nat);
        assert(steps_at::<N>(magnitude_steps::<N>(x, base), left, k));
        assert(steps_at::<N>(magnitude_steps::<N>(negated, base), right, k));
        let m1 = choose|magnitude: N::F32| #[trigger]
            call_ensures(N::magnitude, (x[base + k],), magnitude) && call_ensures(
                N::larger,
                (left[k], magnitude),
                left[k + 1],
            );
        let m2 = choose|magnitude: N::F32| #[trigger]
            call_ensures(N::magnitude, (negated[base + k],), magnitude) && call_ensures(
                N::larger,
                (right[k], magnitude),
                right[k + 1],
            );
        assert(is_opposite::<N>(same, x[base + k], negated[base + k]));
        assert(same(m1, m2));
    }
}

/// Related largest magnitudes have related scales.
proof fn lemma_same_scale<N: Scalars>(
    same: Relation<N::F32>,
    largest: N::F32,
    other: N::F32,
    kind: RowwiseQuantKind,
    left: N::F32,
    right: N::F32,
)
    requires
        scales_respect::<N>(same),
        same(largest, other),
        scale_for::<N>(largest, kind, left),
        scale_for::<N>(other, kind, right),
    ensures
        same(left, right),
{
    let z1 = choose|zero: bool| #[trigger]
        call_ensures(N::is_zero, (largest,), zero) && if zero {
            call_ensures(N::tiny, (), left)
        } else {
            scale_over::<N>(largest, kind, left)
        };
    let z2 = choose|zero: bool| #[trigger]
        call_ensures(N::is_zero, (other,), zero) && if zero {
            call_ensures(N::tiny, (), right)
        } else {
            scale_over::<N>(other, kind, right)
        };
    assert(z1 == z2);
    if !z1 {
        let (c1, r1, t1) = choose|codes: N::F32, ratio: N::F32, tiny: N::F32|
            #![trigger call_ensures(N::from_i32, (largest_code(kind),), codes), call_ensures(
                N::larger,
                (ratio, tiny),
                left,
            )]
            call_ensures(N::from_i32, (largest_code(kind),), codes) && call_ensures(
                N::divide,
                (largest, codes),
                ratio,
            ) && call_ensures(N::tiny, (), tiny) && call_ensures(N::larger, (ratio, tiny), left);
        let (c2, r2, t2) = choose|codes: N::F32, ratio: N::F32, tiny: N::F32|
            #![trigger call_ensures(N::from_i32, (largest_code(kind),), codes), call_ensures(
                N::larger,
                (ratio, tiny),
                right,
            )]
            call_ensures(N::from_i32, (largest_code(kind),), codes) && call_ensures(
                N::divide,
                (other, codes),
                ratio,
            ) && call_ensures(N::tiny, (), tiny) && call_ensures(N::larger, (ratio, tiny), right);
        assert(same(r1, r2));
        assert(same(t1, t2));
    }
}

/// The largest magnitude of a row, as its scale was found over it, with the values that it ran
/// through.
proof fn lemma_largest<N: Scalars>(
    x: Seq<N::F32>,
    row: int,
    head_dim: int,
    kind: RowwiseQuantKind,
    scale: N::F32,
) -> (trace: Seq<N::F32>)
    requires
        0 <= head_dim,
        row_scale::<N>(x, row, head_dim, kind, scale),
    ensures
        is_trace::<N>(magnitude_steps::<N>(x, row * head_dim), head_dim as nat, trace),
        scale_for::<N>(trace[head_dim], kind, scale),
{
    let steps = magnitude_steps::<N>(x, row * head_dim);
    let n = head_dim as nat;
    let largest = choose|largest: N::F32| #[trigger]
        accumulates::<N>(steps, n, largest) && scale_for::<N>(largest, kind, scale);
    choose|trace: Seq<N::F32>| #[trigger]
        is_trace::<N>(steps, n, trace) && trace[n as int] == largest
}

proof fn lemma_row_in_bounds(rows: int, row: int, head_dim: int)
    requires
        0 <= row < rows,
        0 <= head_dim,
    ensures
        0 <= row * head_dim,
        row * head_dim + head_dim <= rows * head_dim,
{
    assert(0 <= row * head_dim && row * head_dim + head_dim <= rows * head_dim) by (nonlinear_arith)
        requires
            0 <= row,
            row + 1 <= rows,
            0 <= head_dim,
    ;
}

/// The rows of `x` that a call packed on the host: its numbers as the scales were found over them,
/// its numbers as the integers were rounded from them, the scales, and the bytes.
pub struct PackedRows<N: Scalars> {
    pub measured: Seq<N::F32>,
    pub rounded: Seq<N::F32>,
    pub scales: Seq<N::F32>,
    pub data: Seq<u8>,
}

/// What a call that packed on the host computed with.
proof fn lemma_packed_rows<N: Scalars>(
    x: Tensor<N>,
    head_dim: usize,
    kind: RowwiseQuantKind,
    fused: bool,
    out: HostPack<N>,
) -> (p: PackedRows<N>)
    requires
        pack_outcome(x, head_dim, kind, fused, Ok(PackOutcome::Host(out))),
    ensures
        head_dim > 0,
        x.storage matches Storage::Host(data) && widens::<N>(data, x.layout, p.measured)
            && widens::<N>(data, x.layout, p.rounded),
        p.scales == out.scales.data->F32_0@,
        p.data == out.packed.data->U8_0@,
        p.measured.len() == row_count(x.shape(), head_dim) * head_dim,
        p.rounded.len() == row_count(x.shape(), head_dim) * head_dim,
        row_scales::<N>(
            p.measured,
            row_count(x.shape(), head_dim),
            head_dim as int,
            kind,
            p.scales,
        ),
        packs_rows::<N>(
            p.rounded,
            p.scales,
            row_count(x.shape(), head_dim),
            head_dim as int,
            kind,
            p.data,
        ),
{
    rows_hold_every_element(x.shape(), head_dim);
    let host = x.storage->Host_0;
    let rows = row_count(x.shape(), head_dim);
    let scales = out.scales.data->F32_0@;
    let data = out.packed.data->U8_0@;
    let measured = choose|wide: Seq<N::F32>| #[trigger]
        widens::<N>(host, x.layout, wide) && row_scales::<N>(
            wide,
            rows,
            head_dim as int,
            kind,
            scales,
        );
    let rounded = choose|wide: Seq<N::F32>| #[trigger]
        widens::<N>(host, x.layout, wide) && packs_rows::<N>(
            wide,
            scales,
            rows,
            head_dim as int,
            kind,
            data,
        );
    PackedRows { measured, rounded, scales, data }
}

/// Rows have the scales of their negatives.
pub proof fn negated_rows_keep_their_scales<N: Scalars>(
    same: Relation<N::F32>,
    x: Tensor<N>,
    negated: Tensor<N>,
    head_dim: usize,
    kind: RowwiseQuantKind,
    fused: bool,
    left: HostPack<N>,
    right: HostPack<N>,
)
    requires
        scales_respect::<N>(same),
        magnitudes_agree::<N>(same),
        is_negated_tensor(same, x, negated),
        pack_outcome(x, head_dim, kind, fused, Ok(PackOutcome::Host(left))),
        pack_outcome(negated, head_dim, kind, fused, Ok(PackOutcome::Host(right))),
    ensures
        same_tensors(same, left.scales, right.scales),
{
    let p = lemma_packed_rows(x, head_dim, kind, fused, left);
    let q = lemma_packed_rows(negated, head_dim, kind, fused, right);
    let rows = row_count(x.shape(), head_dim);
    let d = head_dim as int;
    assert(is_negated::<N>(same, p.measured, q.measured));
    assert forall|row: int| 0 <= row < rows implies same(#[trigger] p.scales[row], q.scales[row]) by {
        assert(row_scale::<N>(p.measured, row, d, kind, p.scales[row]));
        assert(row_scale::<N>(q.measured, row, d, kind, q.scales[row]));
        let t1 = lemma_largest::<N>(p.measured, row, d, kind, p.scales[row]);
        let t2 = lemma_largest::<N>(q.measured, row, d, kind, q.scales[row]);
        lemma_row_in_bounds(rows, row, d);
        lemma_same_maxima::<N>(
            same,
            p.measured,
            q.measured,
            row * d,
            d as nat,
            t1,
            t2,
            d as nat,
        );
        lemma_same_scale::<N>(same, t1[d], t2[d], kind, p.scales[row], q.scales[row]);
    }
}

/// In `Int8` rows no byte is zero, and where a number has the byte `b`, its negative has the byte
/// `256 - b`.
pub proof fn negated_rows_are_mirrored<N: Scalars>(
    same: Relation<N::F32>,
    x: Tensor<N>,
    negated: Tensor<N>,
    head_dim: usize,
    fused: bool,
    left: HostPack<N>,
    right: HostPack<N>,
    row: int,
    col: int,
)
    requires
        scales_respect::<N>(same),
        magnitudes_agree::<N>(same),
        rounds_oddly::<N>(same),
        clamps::<N>(),
        is_negated_tensor(same, x, negated),
        pack_outcome(x, head_dim, RowwiseQuantKind::Int8, fused, Ok(PackOutcome::Host(left))),
        pack_outcome(
            negated,
            head_dim,
            RowwiseQuantKind::Int8,
            fused,
            Ok(PackOutcome::Host(right)),
        ),
        0 <= row < row_count(x.shape(), head_dim),
        0 <= col < head_dim,
    ensures
        1 <= left.packed.data->U8_0@[row * head_dim + col] <= 255,
        right.packed.data->U8_0@[row * head_dim + col] == 256 - left.packed.data->U8_0@[row
            * head_dim + col],
{
    let kind = RowwiseQuantKind::Int8;
    negated_rows_keep_their_scales(same, x, negated, head_dim, kind, fused, left, right);
    let p = lemma_packed_rows(x, head_dim, kind, fused, left);
    let q = lemma_packed_rows(negated, head_dim, kind, fused, right);
    let rows = row_count(x.shape(), head_dim);
    let d = head_dim as int;
    let place = row * d + col;
    lemma_row_in_bounds(rows, row, d);
    packed_rows_read_back::<N>(p.rounded, p.scales, rows, d, kind, p.data, row, col);
    packed_rows_read_back::<N>(q.rounded, q.scales, rows, d, kind, q.data, row, col);
    let up = choose|code: i8| #[trigger]
        quantizes::<N>(p.rounded[place], p.scales[row], kind, code) && code_at(
            p.data,
            row,
            col,
            d,
            kind,
        ) == code;
    let down = choose|code: i8| #[trigger]
        quantizes::<N>(q.rounded[place], q.scales[row], kind, code) && code_at(
            q.data,
            row,
            col,
            d,
            kind,
        ) == code;
    let r1 = lemma_quotient::<N>(p.rounded[place], p.scales[row], kind, up);
    let r2 = lemma_quotient::<N>(q.rounded[place], q.scales[row], kind, down);
    let (low, high) = code_range(kind);
    assert(low == -127 && high == 127);
    assert(is_negated::<N>(same, p.rounded, q.rounded));
    assert(is_opposite::<N>(same, p.rounded[place], q.rounded[place]));
    assert(same(p.scales[row], q.scales[row]));
    assert(call_ensures(N::round_clamped, (r1, low, high), up));
    assert(call_ensures(N::round_clamped, (r2, low, high), down));
    assert(down == -up);
    assert(code_place(row, col, d, kind) == place);
}

/// The operations of packing take zeros to zeros: magnitudes and maxima of zeros are zeros, a zero
/// is found to be one, a zero over a scale is one and rounds to the integer zero, and that integer
/// times the smallest scale is one.
pub open spec fn zeros_stay_zeros<N: Scalars>(is_nil: spec_fn(N::F32) -> bool) -> bool {
    &&& forall|zero: N::F32| #[trigger] call_ensures(N::zero, (), zero) ==> is_nil(zero)
    &&& forall|a: N::F32, magnitude: N::F32| #[trigger]
        call_ensures(N::magnitude, (a,), magnitude) && is_nil(a) ==> is_nil(magnitude)
    &&& forall|a: N::F32, b: N::F32, larger: N::F32| #[trigger]
        call_ensures(N::larger, (a, b), larger) && is_nil(a) && is_nil(b) ==> is_nil(larger)
    &&& forall|a: N::F32, zero: bool| #[trigger]
        call_ensures(N::is_zero, (a,), zero) && is_nil(a) ==> zero
    &&& forall|a: N::F32, scale: N::F32, ratio: N::F32| #[trigger]
        over_scale::<N>(a, scale, ratio) && is_nil(a) ==> is_nil(ratio)
    &&& forall|a: N::F32, low: i8, high: i8, code: i8| #[trigger]
        call_ensures(N::round_clamped, (a, low, high), code) && is_nil(a) && low <= 0 <= high
            ==> code == 0
    &&& forall|number: N::F32, tiny: N::F32, value: N::F32|
        #![trigger call_ensures(N::tiny, (), tiny), call_ensures(N::times, (number, tiny), value)]
        call_ensures(N::from_i32, (0i32,), number) && call_ensures(N::tiny, (), tiny)
            && call_ensures(N::times, (number, tiny), value) ==> is_nil(value)
}

/// Every number of row `row` is a zero.
pub open spec fn is_zero_row<N: Scalars>(
    is_nil: spec_fn(N::F32) -> bool,
    x: Tensor<N>,
    head_dim: usize,
    row: int,
) -> bool {
    x.storage matches Storage::Host(data) && forall|numbers: Seq<N::F32>, col: int|
        #![trigger widens::<N>(data, x.layout, numbers), numbers[row * head_dim + col]]
        widens::<N>(data, x.layout, numbers) && 0 <= col < head_dim ==> is_nil(
            numbers[row * head_dim + col],
        )
}

/// The running maxima of a row of zeros are zeros.
proof fn lemma_zero_maxima<N: Scalars>(
    is_nil: spec_fn(N::F32) -> bool,
    x: Seq<N::F32>,
    base: int,
    n: nat,
    trace: Seq<N::F32>,
    i: nat,
)
    requires
        zeros_stay_zeros::<N>(is_nil),
        forall|col: int| 0 <= col < n ==> is_nil(#[trigger] x[base + col]),
        is_trace::<N>(magnitude_steps::<N>(x, base), n, trace),
        i <= n,
    ensures
        is_nil(trace[i as int]),
    decreases i,
{
    if i > 0 {
        let k = i - 1;
        lemma_zero_maxima::<N>(is_nil, x, base, n, trace, k as nat);
        assert(steps_at::<N>(magnitude_steps::<N>(x, base), trace, k));
        let magnitude = choose|magnitude: N::F32| #[trigger]
            call_ensures(N::magnitude, (x[base + k],), magnitude) && call_ensures(
                N::larger,
                (trace[k], magnitude),
                trace[k + 1],
            );
        assert(is_nil(x[base + k]));
    }
}

/// A row of zeros gets the smallest scale and the integers zero, and comes back as zeros.
pub proof fn zero_rows_stay_zero<N: Scalars>(
    is_nil: spec_fn(N::F32) -> bool,
    x: Tensor<N>,
    head_dim: usize,
    kind: RowwiseQuantKind,
    fused: bool,
    out: HostPack<N>,
    row: int,
)
    requires
        zeros_stay_zeros::<N>(is_nil),
        clamps::<N>(),
        pack_outcome(x, head_dim, kind, fused, Ok(PackOutcome::Host(out))),
        0 <= row < row_count(x.shape(), head_dim),
        is_zero_row(is_nil, x, head_dim, row),
    ensures
        call_ensures(N::tiny, (), out.scales.data->F32_0@[row]),
        forall|col: int|
            0 <= col < head_dim ==> #[trigger] code_at(
                out.packed.data->U8_0@,
                row,
                col,
                head_dim as int,
                kind,
            ) == 0,
        forall|col: int, value: N::F32|
            0 <= col < head_dim && #[trigger] dequantizes::<N>(
                out.packed.data->U8_0@,
                out.scales.data->F32_0@,
                row,
                col,
                head_dim as int,
                kind,
                value,
            ) ==> is_nil(value),
{
    let p = lemma_packed_rows(x, head_dim, kind, fused, out);
    let rows = row_count(x.shape(), head_dim);
    let d = head_dim as int;
    let scale = p.scales[row];
    assert(row_scale::<N>(p.measured, row, d, kind, scale));
    let trace = lemma_largest::<N>(p.measured, row, d, kind, scale);
    lemma_zero_maxima::<N>(is_nil, p.measured, row * d, d as nat, trace, d as nat);
    assert(is_nil(trace[d]));
    assert forall|col: int| 0 <= col < head_dim implies #[trigger] code_at(
        p.data,
        row,
        col,
        d,
        kind,
    ) == 0 by {
        packed_rows_read_back::<N>(p.rounded, p.scales, rows, d, kind, p.data, row, col);
        let number = p.rounded[row * d + col];
        let code = choose|code: i8| #[trigger]
            quantizes::<N>(number, scale, kind, code) && code_at(p.data, row, col, d, kind) == code;
        let ratio = lemma_quotient::<N>(number, scale, kind, code);
        assert(is_nil(number));
    }
    assert forall|col: int, value: N::F32|
        0 <= col < head_dim && #[trigger] dequantizes::<N>(
            p.data,
            p.scales,
            row,
            col,
            d,
            kind,
            value,
        ) implies is_nil(value) by {
        let code = code_at(p.data, row, col, d, kind) as i32;
        assert(code == 0);
        let number = choose|number: N::F32| #[trigger]
            call_ensures(N::from_i32, (code,), number) && call_ensures(
                N::times,
                (number, scale),
                value,
            );
    }
}

/// `at_most` is transitive, and the larger of two numbers is at least as large as each.
pub open spec fn larger_bounds<N: Scalars>(at_most: Relation<N::F32>) -> bool {
    &&& is_transitive(at_most)
    &&& forall|a: N::F32, b: N::F32, larger: N::F32| #[trigger]
        call_ensures(N::larger, (a, b), larger) ==> at_most(a, larger) && at_most(b, larger)
}

/// Zero is finite, and so are magnitudes and maxima of finite numbers.
pub open spec fn stays_finite<N: Scalars>(finite: spec_fn(N::F32) -> bool) -> bool {
    &&& forall|zero: N::F32| #[trigger] call_ensures(N::zero, (), zero) ==> finite(zero)
    &&& forall|a: N::F32, magnitude: N::F32| #[trigger]
        call_ensures(N::magnitude, (a,), magnitude) && finite(a) ==> finite(magnitude)
    &&& forall|a: N::F32, b: N::F32, larger: N::F32| #[trigger]
        call_ensures(N::larger, (a, b), larger) && finite(a) && finite(b) ==> finite(larger)
}

/// A finite number whose magnitude is at most `largest`, a finite number, comes back near itself:
/// its integer, under the scale of a row whose largest magnitude is `largest`, times that scale.
pub open spec fn rounds_near<N: Scalars>(
    finite: spec_fn(N::F32) -> bool,
    at_most: Relation<N::F32>,
    near: spec_fn(N::F32, N::F32, N::F32) -> bool,
    kind: RowwiseQuantKind,
) -> bool {
    forall|
        x: N::F32,
        magnitude: N::F32,
        largest: N::F32,
        scale: N::F32,
        code: i8,
        number: N::F32,
        value: N::F32,
    |
        #![trigger call_ensures(N::magnitude, (x,), magnitude), scale_for::<N>(
            largest,
            kind,
            scale,
        ), quantizes::<N>(x, scale, kind, code), call_ensures(
            N::from_i32,
            (code as i32,),
            number,
        ), call_ensures(N::times, (number, scale), value)]
        finite(x) && finite(largest) && call_ensures(N::magnitude, (x,), magnitude) && at_most(
            magnitude,
            largest,
        ) && scale_for::<N>(largest, kind, scale) && quantizes::<N>(x, scale, kind, code)
            && call_ensures(N::from_i32, (code as i32,), number) && call_ensures(
            N::times,
            (number, scale),
            value,
        ) ==> near(x, value, scale)
}

/// The running maxima of a finite row are finite, and bound the magnitudes before them.
proof fn lemma_maxima_bound<N: Scalars>(
    finite: spec_fn(N::F32) -> bool,
    at_most: Relation<N::F32>,
    x: Seq<N::F32>,
    base: int,
    n: nat,
    trace: Seq<N::F32>,
    col: int,
    i: nat,
) -> (magnitude: N::F32)
    requires
        stays_finite::<N>(finite),
        larger_bounds::<N>(at_most),
        forall|k: int| 0 <= k < n ==> finite(#[trigger] x[base + k]),
        is_trace::<N>(magnitude_steps::<N>(x, base), n, trace),
        0 <= col < n,
        i <= n,
    ensures
        finite(trace[i as int]),
        col < i ==> call_ensures(N::magnitude, (x[base + col],), magnitude) && at_most(
            magnitude,
            trace[i as int],
        ),
    decreases i,
{
    if i == 0 {
        trace[0]
    } else {
        let k = i - 1;
        let earlier = lemma_maxima_bound::<N>(finite, at_most, x, base, n, trace, col, k as nat);
        assert(steps_at::<N>(magnitude_steps::<N>(x, base), trace, k));
        let magnitude = choose|magnitude: N::F32| #[trigger]
            call_ensures(N::magnitude, (x[base + k],), magnitude) && call_ensures(
                N::larger,
                (trace[k], magnitude),
                trace[k + 1],
            );
        assert(finite(x[base + k]));
        if col < k {
            assert(at_most(earlier, trace[k]) && at_most(trace[k], trace[k + 1]));
            earlier
        } else {
            magnitude
        }
    }
}

/// The numbers of a host tensor are finite, and read one way.
pub open spec fn is_finite_tensor<N: Scalars>(
    finite: spec_fn(N::F32) -> bool,
    x: Tensor<N>,
) -> bool {
    x.storage matches Storage::Host(data) && {
        &&& forall|numbers: Seq<N::F32>, i: int|
            #![trigger widens::<N>(data, x.layout, numbers), numbers[i]]
            widens::<N>(data, x.layout, numbers) && 0 <= i < numbers.len() ==> finite(numbers[i])
        &&& forall|a: Seq<N::F32>, b: Seq<N::F32>|
            #![trigger widens::<N>(data, x.layout, a), widens::<N>(data, x.layout, b)]
            widens::<N>(data, x.layout, a) && widens::<N>(data, x.layout, b) ==> a == b
    }
}

/// Every number of a finite tensor comes back near itself, however near one number comes back
/// under the scale of a row that it is not the largest of: within half a step, for example, and
/// what rounding adds.
pub proof fn packed_numbers_come_back_near<N: Scalars>(
    finite: spec_fn(N::F32) -> bool,
    at_most: Relation<N::F32>,
    near: spec_fn(N::F32, N::F32, N::F32) -> bool,
    x: Tensor<N>,
    numbers: Seq<N::F32>,
    head_dim: usize,
    kind: RowwiseQuantKind,
    fused: bool,
    out: HostPack<N>,
    row: int,
    col: int,
    value: N::F32,
)
    requires
        stays_finite::<N>(finite),
        larger_bounds::<N>(at_most),
        rounds_near::<N>(finite, at_most, near, kind),
        clamps::<N>(),
        is_finite_tensor(finite, x),
        x.storage matches Storage::Host(data) && widens::<N>(data, x.layout, numbers),
        pack_outcome(x, head_dim, kind, fused, Ok(PackOutcome::Host(out))),
        0 <= row < row_count(x.shape(), head_dim),
        0 <= col < head_dim,
        dequantizes::<N>(
            out.packed.data->U8_0@,
            out.scales.data->F32_0@,
            row,
            col,
            head_dim as int,
            kind,
            value,
        ),
    ensures
        near(numbers[row * head_dim + col], value, out.scales.data->F32_0@[row]),
{
    let p = lemma_packed_rows(x, head_dim, kind, fused, out);
    let rows = row_count(x.shape(), head_dim);
    let d = head_dim as int;
    let scale = p.scales[row];
    let data = x.storage->Host_0;
    assert(widens::<N>(data, x.layout, numbers) && widens::<N>(data, x.layout, p.measured));
    assert(p.measured == numbers && p.rounded == numbers);
    lemma_row_in_bounds(rows, row, d);
    assert(row_scale::<N>(numbers, row, d, kind, scale));
    let trace = lemma_largest::<N>(numbers, row, d, kind, scale);
    let base = row * d;
    assert forall|k: int| 0 <= k < d implies finite(#[trigger] numbers[base + k]) by {}
    let magnitude = lemma_maxima_bound::<N>(
        finite,
        at_most,
        numbers,
        base,
        d as nat,
        trace,
        col,
        d as nat,
    );
    packed_rows_read_back::<N>(numbers, p.scales, rows, d, kind, p.data, row, col);
    let code = choose|code: i8| #[trigger]
        quantizes::<N>(numbers[base + col], scale, kind, code) && code_at(
            p.data,
            row,
            col,
            d,
            kind,
        ) == code;
    let stored = code_at(p.data, row, col, d, kind) as i32;
    assert(stored == code as i32);
    let number = choose|number: N::F32| #[trigger]
        call_ensures(N::from_i32, (stored,), number) && call_ensures(
            N::times,
            (number, scale),
            value,
        );
    assert(call_ensures(N::from_i32, (code as i32,), number));
}

} // verus!
