//! When packing rows is refused, and what it launches.
use crate::arith::lemma_ceil_div;
use crate::dtype::DType;
use crate::kv_attn::codes::RowwiseQuantKind;
use crate::kv_attn::pack::{
    data_metal_result, is_scales_launch, pack_outcome, pack_shape_fault, pack_sizes, packed_format,
    packed_rows_have_one_format, row_count, rows_hold_every_element, scales_format,
    scales_metal_result, FusedPack, PackError, PackOutcome,
    RowwisePackDataOp, RowwisePackScalesOp, StagedPack,
};
use crate::launch::{DeviceTensor, Grid, KernelArg, Launch, Outcome};
use crate::launch_laws::{begins, counts, reads, sizes_fit_in_32_bits, width, writes};
use crate::layout::{is_compacted, is_vector, Layout};
use crate::scalar::Scalars;
use crate::tensor::{Device, Tensor};
use vstd::prelude::*;

verus! {

/// The rows of a tensor hold its elements, and can be counted.
proof fn lemma_rows<N: Scalars>(x: Tensor<N>, head_dim: usize)
    requires
        x.valid(),
        head_dim > 0,
        pack_shape_fault(x.shape(), head_dim) is None,
    ensures
        row_count(x.shape(), head_dim) * head_dim == x.count(),
        0 <= row_count(x.shape(), head_dim) <= usize::MAX,
{
    rows_hold_every_element(x.shape(), head_dim);
    assert(x.shape().take(x.shape().len() as int) =~= x.shape());
    let (rows, d) = (row_count(x.shape(), head_dim), head_dim as int);
    assert(rows <= rows * d) by (nonlinear_arith)
        requires
            0 <= rows,
            d >= 1,
    ;
}

/// The kernel that packs rows in one go is the one for the width of the integers and the type of
/// the tensor. It gets the rows and their length, is told where the tensor begins, and writes the
/// packed rows first and the scales second.
pub proof fn fused_packing_launches_the_kernel_of_its_type<N: Scalars>(
    x: Tensor<N>,
    head_dim: usize,
    kind: RowwiseQuantKind,
    fused: bool,
    pack: FusedPack<N>,
    launch: Launch<N>,
)
    requires
        x.valid(),
        pack_outcome(x, head_dim, kind, fused, Ok(PackOutcome::Fused(pack))),
        pack.launch == Some(launch),
    ensures
        fused,
        x.spec_device() == Device::Metal(launch.device),
        kind == RowwiseQuantKind::Int8 && x.spec_dtype() == DType::F32 ==> launch.kernel@
            == "pack_rowwise_fused_q8_f32"@,
        kind == RowwiseQuantKind::Int8 && x.spec_dtype() == DType::F16 ==> launch.kernel@
            == "pack_rowwise_fused_q8_f16"@,
        kind == RowwiseQuantKind::Int8 && x.spec_dtype() == DType::BF16 ==> launch.kernel@
            == "pack_rowwise_fused_q8_bf16"@,
        kind == RowwiseQuantKind::Int4 && x.spec_dtype() == DType::F32 ==> launch.kernel@
            == "pack_rowwise_fused_q4_f32"@,
        kind == RowwiseQuantKind::Int4 && x.spec_dtype() == DType::F16 ==> launch.kernel@
            == "pack_rowwise_fused_q4_f16"@,
        kind == RowwiseQuantKind::Int4 && x.spec_dtype() == DType::BF16 ==> launch.kernel@
            == "pack_rowwise_fused_q4_bf16"@,
        x.spec_dtype() == DType::F32 || x.spec_dtype() == DType::F16 || x.spec_dtype()
            == DType::BF16,
        launch.grid matches Grid::PerItem(rows) && rows * head_dim == x.count(),
        launch.label@ == "candelora_kv_attn_rowwise_pack_fused"@,
        launch.args@.len() == 5,
        launch.args@[0] matches KernelArg::U32(rows) && rows * head_dim == x.count(),
        counts(launch.args@[1], head_dim as int),
        reads(launch.args@[2], 0, x.layout, x.spec_dtype()),
        writes(launch.args@[3], 0),
        writes(launch.args@[4], 1),
{
    reveal_strlit("_");
    reveal_strlit("bf16");
    reveal_strlit("f16");
    reveal_strlit("f32");
    reveal_strlit("pack_rowwise_fused_");
    reveal_strlit("pack_rowwise_fused_q4_bf16");
    reveal_strlit("pack_rowwise_fused_q4_f16");
    reveal_strlit("pack_rowwise_fused_q4_f32");
    reveal_strlit("pack_rowwise_fused_q8_bf16");
    reveal_strlit("pack_rowwise_fused_q8_f16");
    reveal_strlit("pack_rowwise_fused_q8_f32");
    reveal_strlit("q4");
    reveal_strlit("q8");
    assert("pack_rowwise_fused_"@ + "q8"@ + "_"@ + "f32"@ =~= "pack_rowwise_fused_q8_f32"@);
    assert("pack_rowwise_fused_"@ + "q8"@ + "_"@ + "f16"@ =~= "pack_rowwise_fused_q8_f16"@);
    assert("pack_rowwise_fused_"@ + "q8"@ + "_"@ + "bf16"@ =~= "pack_rowwise_fused_q8_bf16"@);
    assert("pack_rowwise_fused_"@ + "q4"@ + "_"@ + "f32"@ =~= "pack_rowwise_fused_q4_f32"@);
    assert("pack_rowwise_fused_"@ + "q4"@ + "_"@ + "f16"@ =~= "pack_rowwise_fused_q4_f16"@);
    assert("pack_rowwise_fused_"@ + "q4"@ + "_"@ + "bf16"@ =~= "pack_rowwise_fused_q4_bf16"@);
    lemma_rows(x, head_dim);
    let sizes = pack_sizes(row_count(x.shape(), head_dim), head_dim);
    sizes_fit_in_32_bits(sizes);
    assert(sizes[0].0 <= 0xffff_ffff && sizes[1].0 <= 0xffff_ffff);
}

/// Without that kernel, the scales come first: their kernel is the one for the type of the tensor,
/// and gets the rows, their length and the largest integer, 127 or 7.
pub proof fn staged_scales_launch_the_kernel_of_their_type<N: Scalars>(
    x: Tensor<N>,
    head_dim: usize,
    kind: RowwiseQuantKind,
    fused: bool,
    pack: StagedPack<N>,
    launch: Launch<N>,
    output: DeviceTensor,
)
    requires
        x.valid(),
        pack_outcome(x, head_dim, kind, fused, Ok(PackOutcome::Staged(pack))),
        pack.scales == Outcome::Launch(launch, output),
    ensures
        !fused,
        pack.compact == !x.layout.contiguous(),
        x.spec_device() == Device::Metal(launch.device),
        x.spec_dtype() == DType::F32 ==> launch.kernel@ == "pack_scales_rowwise_q8_f32"@,
        x.spec_dtype() == DType::F16 ==> launch.kernel@ == "pack_scales_rowwise_q8_f16"@,
        x.spec_dtype() == DType::BF16 ==> launch.kernel@ == "pack_scales_rowwise_q8_bf16"@,
        x.spec_dtype() == DType::F32 || x.spec_dtype() == DType::F16 || x.spec_dtype()
            == DType::BF16,
        launch.grid matches Grid::PerItem(rows) && rows * head_dim == x.count(),
        launch.label@ == "candelora_kv_attn_rowwise_pack_scales"@,
        launch.args@.len() == 5,
        launch.args@[0] matches KernelArg::U32(rows) && rows * head_dim == x.count(),
        counts(launch.args@[1], head_dim as int),
        launch.args@[2] matches KernelArg::F32(largest) && call_ensures(
            N::from_i32,
            (
                if kind == RowwiseQuantKind::Int8 {
                    127i32
                } else {
                    7i32
                },
            ),
            largest,
        ),
        begins(
            launch.args@[3],
            0,
            if x.layout.contiguous() {
                x.layout.start_offset * width(x.spec_dtype())
            } else {
                0
            },
        ),
        writes(launch.args@[4], 0),
{
    reveal_strlit("bf16");
    reveal_strlit("f16");
    reveal_strlit("f32");
    reveal_strlit("pack_scales_rowwise_q8_");
    reveal_strlit("pack_scales_rowwise_q8_bf16");
    reveal_strlit("pack_scales_rowwise_q8_f16");
    reveal_strlit("pack_scales_rowwise_q8_f32");
    assert("pack_scales_rowwise_q8_"@ + "f32"@ =~= "pack_scales_rowwise_q8_f32"@);
    assert("pack_scales_rowwise_q8_"@ + "f16"@ =~= "pack_scales_rowwise_q8_f16"@);
    assert("pack_scales_rowwise_q8_"@ + "bf16"@ =~= "pack_scales_rowwise_q8_bf16"@);
    lemma_rows(x, head_dim);
    let sizes = pack_sizes(row_count(x.shape(), head_dim), head_dim);
    sizes_fit_in_32_bits(sizes);
    assert(sizes[0].0 <= 0xffff_ffff && sizes[1].0 <= 0xffff_ffff);
    let data = x.storage->Metal_0;
    let (xl, sl) = choose|xl: Layout, sl: Layout|
        #![trigger is_compacted(x.layout, xl), is_vector(sl, row_count(x.layout.dims@, head_dim))]
        is_compacted(x.layout, xl) && is_vector(sl, row_count(x.layout.dims@, head_dim))
            && scales_metal_result(RowwisePackScalesOp { head_dim, kind }, data, xl, pack.scales)
            && data_metal_result(RowwisePackDataOp { head_dim, kind }, data, xl, sl, pack.packed);
    assert(is_scales_launch(
        data,
        xl,
        row_count(xl.dims@, head_dim),
        head_dim,
        crate::kv_attn::rowwise_pack::largest_code(kind),
        launch,
    ));
}

/// The packed rows come second: their kernel is the one for the width of the integers and the type
/// of the tensor, and reads the tensor and, from their start, the scales that came first.
pub proof fn staged_rows_launch_the_kernel_of_their_type<N: Scalars>(
    x: Tensor<N>,
    head_dim: usize,
    kind: RowwiseQuantKind,
    fused: bool,
    pack: StagedPack<N>,
    launch: Launch<N>,
    output: DeviceTensor,
)
    requires
        x.valid(),
        pack_outcome(x, head_dim, kind, fused, Ok(PackOutcome::Staged(pack))),
        pack.packed == Outcome::Launch(launch, output),
    ensures
        x.spec_device() == Device::Metal(launch.device),
        kind == RowwiseQuantKind::Int8 && x.spec_dtype() == DType::F32 ==> launch.kernel@
            == "pack_data_rowwise_q8_f32"@,
        kind == RowwiseQuantKind::Int8 && x.spec_dtype() == DType::F16 ==> launch.kernel@
            == "pack_data_rowwise_q8_f16"@,
        kind == RowwiseQuantKind::Int8 && x.spec_dtype() == DType::BF16 ==> launch.kernel@
            == "pack_data_rowwise_q8_bf16"@,
        kind == RowwiseQuantKind::Int4 && x.spec_dtype() == DType::F32 ==> launch.kernel@
            == "pack_data_rowwise_q4_f32"@,
        kind == RowwiseQuantKind::Int4 && x.spec_dtype() == DType::F16 ==> launch.kernel@
            == "pack_data_rowwise_q4_f16"@,
        kind == RowwiseQuantKind::Int4 && x.spec_dtype() == DType::BF16 ==> launch.kernel@
            == "pack_data_rowwise_q4_bf16"@,
        x.spec_dtype() == DType::F32 || x.spec_dtype() == DType::F16 || x.spec_dtype()
            == DType::BF16,
        launch.grid matches Grid::PerItem(rows) && rows * head_dim == x.count(),
        launch.label@ == "candelora_kv_attn_rowwise_pack_data"@,
        launch.args@.len() == 5,
        launch.args@[0] matches KernelArg::U32(rows) && rows * head_dim == x.count(),
        counts(launch.args@[1], head_dim as int),
        begins(
            launch.args@[2],
            0,
            if x.layout.contiguous() {
                x.layout.start_offset * width(x.spec_dtype())
            } else {
                0
            },
        ),
        begins(launch.args@[3], 1, 0),
        writes(launch.args@[4], 0),
{
    reveal_strlit("_");
    reveal_strlit("bf16");
    reveal_strlit("f16");
    reveal_strlit("f32");
    reveal_strlit("pack_data_rowwise_");
    reveal_strlit("pack_data_rowwise_q4_bf16");
    reveal_strlit("pack_data_rowwise_q4_f16");
    reveal_strlit("pack_data_rowwise_q4_f32");
    reveal_strlit("pack_data_rowwise_q8_bf16");
    reveal_strlit("pack_data_rowwise_q8_f16");
    reveal_strlit("pack_data_rowwise_q8_f32");
    reveal_strlit("q4");
    reveal_strlit("q8");
    assert("pack_data_rowwise_"@ + "q8"@ + "_"@ + "f32"@ =~= "pack_data_rowwise_q8_f32"@);
    assert("pack_data_rowwise_"@ + "q8"@ + "_"@ + "f16"@ =~= "pack_data_rowwise_q8_f16"@);
    assert("pack_data_rowwise_"@ + "q8"@ + "_"@ + "bf16"@ =~= "pack_data_rowwise_q8_bf16"@);
    assert("pack_data_rowwise_"@ + "q4"@ + "_"@ + "f32"@ =~= "pack_data_rowwise_q4_f32"@);
    assert("pack_data_rowwise_"@ + "q4"@ + "_"@ + "f16"@ =~= "pack_data_rowwise_q4_f16"@);
    assert("pack_data_rowwise_"@ + "q4"@ + "_"@ + "bf16"@ =~= "pack_data_rowwise_q4_bf16"@);
    lemma_rows(x, head_dim);
    let sizes = pack_sizes(row_count(x.shape(), head_dim), head_dim);
    sizes_fit_in_32_bits(sizes);
    assert(sizes[0].0 <= 0xffff_ffff && sizes[1].0 <= 0xffff_ffff);
}

/// Rows are packed for tensors `[.., head_dim]` in a floating-point format on the host or on a
/// Metal device; on a Metal device with sizes of 32 bits, and in every type where there is no row.
pub proof fn rows_are_packed_where_they_end_in_the_head_dim<N: Scalars>(
    x: Tensor<N>,
    head_dim: usize,
    kind: RowwiseQuantKind,
    fused: bool,
    result: Result<PackOutcome<N>, PackError>,
)
    requires
        x.valid(),
        pack_outcome(x, head_dim, kind, fused, result),
    ensures
        result is Ok <==> {
            &&& head_dim > 0
            &&& x.shape().len() >= 1 && x.shape().last() == head_dim
            &&& !(x.spec_device() is Cuda)
            &&& {
                ||| x.spec_device() is Metal && x.count() == 0
                ||| {
                    &&& x.spec_dtype() == DType::F32 || x.spec_dtype() == DType::F16
                        || x.spec_dtype() == DType::BF16
                    &&& x.spec_device() is Metal ==> head_dim <= 0xffff_ffff && x.count()
                        <= 0xffff_ffff * head_dim
                }
            }
        },
        result matches Ok(outcome) ==> {
            &&& outcome is Host <==> x.spec_device() is Cpu
            &&& outcome is Fused <==> x.spec_device() is Metal && fused
            &&& outcome is Staged <==> x.spec_device() is Metal && !fused
        },
        result matches Ok(PackOutcome::Fused(pack)) ==> (pack.launch is None <==> x.count() == 0),
        result matches Err(PackError::LastDim { got, expected }) ==> got == x.shape().last()
            && expected == head_dim && got != expected,
        result matches Err(PackError::XDType(dtype)) ==> dtype == x.spec_dtype(),
        result matches Err(PackError::KernelDType(dtype)) ==> dtype == x.spec_dtype(),
{
    if head_dim > 0 && pack_shape_fault(x.shape(), head_dim) is None {
        lemma_rows(x, head_dim);
        let (rows, d) = (row_count(x.shape(), head_dim), head_dim as int);
        let sizes = pack_sizes(rows, head_dim);
        sizes_fit_in_32_bits(sizes);
        assert(sizes[0].0 == rows && sizes[1].0 == head_dim);
        assert(rows * d == 0 <==> rows == 0) by (nonlinear_arith)
            requires
                d > 0,
        ;
        assert(rows * d <= 0xffff_ffff * d <==> rows <= 0xffff_ffff) by (nonlinear_arith)
            requires
                d > 0,
        ;
    }
}

/// However rows are packed, there is a row for every `head_dim` elements: `head_dim` bytes, or a
/// byte for every two that are begun, in `U8`, and one scale in `F32`.
pub proof fn packed_rows_have_a_scale_each<N: Scalars>(
    x: Tensor<N>,
    head_dim: usize,
    kind: RowwiseQuantKind,
    fused: bool,
    outcome: PackOutcome<N>,
)
    requires
        x.valid(),
        pack_outcome(x, head_dim, kind, fused, Ok(outcome)),
    ensures
        packed_format(outcome).0 == DType::U8,
        packed_format(outcome).1.len() == 2,
        packed_format(outcome).1[0] * head_dim == x.count(),
        packed_format(outcome).1[1] == (match kind {
            RowwiseQuantKind::Int8 => head_dim as int,
            RowwiseQuantKind::Int4 => (head_dim + 1) / 2,
        }),
        scales_format(outcome).0 == DType::F32,
        scales_format(outcome).1.len() == 1,
        scales_format(outcome).1[0] * head_dim == x.count(),
{
    packed_rows_have_one_format(x, head_dim, kind, fused, outcome);
    lemma_rows(x, head_dim);
    lemma_ceil_div(head_dim as int, 2);
}

} // verus!
