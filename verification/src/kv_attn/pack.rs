//! Packing tensors into rows of small integers.
use crate::arith::lemma_ceil_div;
use crate::dtype::{is_kernel_float, DType};
use crate::host::{contiguous_wide, is_float, widens};
use crate::kv_attn::codes::{expected_packed_cols, packed_cols, RowwiseQuantKind};
use crate::kv_attn::heads::Heads;
use crate::kv_attn::rowwise::{cache_shape_fault, kind_tag, kind_tag_of, RowwiseShape};
use crate::kv_attn::rowwise_pack::{
    cpu_pack_data_rowwise, cpu_pack_scales_rowwise, largest_code, packs_rows, row_scales,
};
use crate::launch::{
    argument, argument_buffer, collect_size_args, compact_arg, compact_buffer, first_oversize,
    float_kernel, float_tag, float_tag_of, own_buffer, size_args, DeviceTensor, Grid, KernelArg,
    Launch, Operand, Outcome, Quantity,
};
use crate::layout::{
    dims_are_1, has_dims_1, is_compacted, is_vector, lemma_rank_1, lemma_rank_4, lemma_whole_storage, product,
    vector_layout, Layout,
};
use crate::scalar::Scalars;
use crate::setting::{is_pack_disabled, pack_disabled, text_of};
use crate::tensor::{addressable, HostData, HostTensor, HostVec, MetalData, Storage, Tensor};
use vstd::prelude::*;

verus! {

/// A tensor that has to be contiguous.
#[derive(Clone, Copy, Debug, PartialEq, Eq, Structural)]
pub enum PackOperand {
    X,
    Scales,
}

/// Why rows are not packed.
#[derive(Clone, Copy, Debug, PartialEq, Eq, Structural)]
pub enum PackError {
    HeadDimZero,
    /// The tensor has no dimension.
    Rank,
    LastDim { got: usize, expected: usize },
    ScalesShape { rows: usize },
    XDType(DType),
    ScalesDType(DType),
    NotContiguous(PackOperand),
    LayoutsNotContiguous,
    MetalDeviceMismatch,
    KernelDType(DType),
    TooLarge(Quantity),
    NoCudaKernel,
}

/// The rows of a tensor, for rows of `head_dim` numbers.
pub open spec fn row_count(dims: Seq<usize>, head_dim: usize) -> int {
    product(dims) as int / head_dim as int
}

/// What is wrong with the shape of a tensor of rows.
pub open spec fn pack_shape_fault(dims: Seq<usize>, head_dim: usize) -> Option<PackError> {
    if dims.len() == 0 {
        Some(PackError::Rank)
    } else if dims.last() != head_dim {
        Some(PackError::LastDim { got: dims.last(), expected: head_dim })
    } else {
        None
    }
}

/// The rows of a tensor hold all of its elements.
pub proof fn rows_hold_every_element(dims: Seq<usize>, head_dim: usize)
    requires
        pack_shape_fault(dims, head_dim) is None,
        head_dim > 0,
    ensures
        product(dims) == row_count(dims, head_dim) * head_dim,
        0 <= row_count(dims, head_dim),
{
    let head = product(dims.drop_last()) as int;
    let d = head_dim as int;
    assert(product(dims) == head * d);
    assert((head * d) / d == head) by (nonlinear_arith)
        requires
            d > 0,
    ;
}

pub fn parse_rowwise_pack_input(layout: &Layout, head_dim: usize) -> (rows: Result<usize, PackError>)
    requires
        layout.valid(),
        head_dim > 0,
    ensures
        match pack_shape_fault(layout.dims@, head_dim) {
            Some(e) => rows == Err::<usize, PackError>(e),
            None => rows matches Ok(rows) && rows == row_count(layout.dims@, head_dim),
        },
{
    let rank: usize = layout.dims.len();
    if rank == 0 {
        return Err(PackError::Rank);
    }
    let last: usize = layout.dims[rank - 1];
    if last != head_dim {
        return Err(PackError::LastDim { got: last, expected: head_dim });
    }
    Ok(layout.elem_count() / head_dim)
}

/// The scales of rows.
pub struct RowwisePackScalesOp {
    pub head_dim: usize,
    pub kind: RowwiseQuantKind,
}

/// What is wrong with finding scales on the host.
pub open spec fn scales_host_fault<N: Scalars>(
    op: RowwisePackScalesOp,
    x: HostData<N>,
    layout: Layout,
) -> Option<PackError> {
    if let Some(e) = pack_shape_fault(layout.dims@, op.head_dim) {
        Some(e)
    } else if !is_float(x) {
        Some(PackError::XDType(x.spec_dtype()))
    } else if !layout.contiguous() {
        Some(PackError::NotContiguous(PackOperand::X))
    } else {
        None
    }
}

/// `out` holds the scale of every row.
pub open spec fn scales_host_result<N: Scalars>(
    op: RowwisePackScalesOp,
    x: HostData<N>,
    layout: Layout,
    out: HostTensor<N>,
) -> bool {
    let rows = row_count(layout.dims@, op.head_dim);
    &&& out.dims@ == seq![rows as usize]
    &&& out.data matches HostVec::F32(scales) && exists|wide: Seq<N::F32>| #[trigger]
        widens::<N>(x, layout, wide) && row_scales::<N>(
            wide,
            rows,
            op.head_dim as int,
            op.kind,
            scales@,
        )
}

/// The sizes that the kernels take.
pub open spec fn pack_sizes(rows: int, head_dim: usize) -> Seq<(usize, Quantity)> {
    seq![(rows as usize, Quantity::Rows), (head_dim, Quantity::HeadDim)]
}

fn collect_pack_sizes(rows: usize, head_dim: usize) -> (sizes: Vec<(usize, Quantity)>)
    ensures
        sizes@ == pack_sizes(rows as int, head_dim),
{
    let sizes: Vec<(usize, Quantity)> = vec![(rows, Quantity::Rows), (head_dim, Quantity::HeadDim)];
    proof {
        assert(sizes@ =~= pack_sizes(rows as int, head_dim));
    }
    sizes
}

/// What is wrong with launching a kernel over rows; nothing, where there is no row.
pub open spec fn pack_kernel_fault(dtype: DType, rows: int, head_dim: usize) -> Option<PackError> {
    if rows == 0 {
        None
    } else if !is_kernel_float(dtype) {
        Some(PackError::KernelDType(dtype))
    } else {
        match first_oversize(pack_sizes(rows, head_dim)) {
            Some(quantity) => Some(PackError::TooLarge(quantity)),
            None => None,
        }
    }
}

/// What is wrong with the shape of a tensor on a Metal device, or with its type.
pub open spec fn pack_metal_fault(dtype: DType, dims: Seq<usize>, head_dim: usize) -> Option<
    PackError,
> {
    if let Some(e) = pack_shape_fault(dims, head_dim) {
        Some(e)
    } else {
        pack_kernel_fault(dtype, row_count(dims, head_dim), head_dim)
    }
}

/// What is wrong with finding scales on a Metal device.
pub open spec fn scales_metal_fault(
    op: RowwisePackScalesOp,
    x: MetalData,
    layout: Layout,
) -> Option<PackError> {
    if !layout.contiguous() {
        Some(PackError::NotContiguous(PackOperand::X))
    } else {
        pack_metal_fault(x.dtype, layout.dims@, op.head_dim)
    }
}

/// What finding scales on a Metal device comes to. Rows of both kinds share one kernel, which
/// takes the largest integer as a number.
pub open spec fn scales_metal_result<N: Scalars>(
    op: RowwisePackScalesOp,
    x: MetalData,
    layout: Layout,
    outcome: Outcome<N>,
) -> bool {
    let rows = row_count(layout.dims@, op.head_dim);
    match outcome {
        Outcome::Host(_) => false,
        Outcome::Empty(output) => rows == 0 && output.describes(DType::F32, seq![0usize]),
        Outcome::Launch(launch, output) => {
            &&& rows > 0
            &&& output.describes(DType::F32, seq![rows as usize])
            &&& is_scales_launch(x, layout, rows, op.head_dim, largest_code(op.kind), launch)
        },
    }
}

/// The launch that finds scales.
pub open spec fn is_scales_launch<N: Scalars>(
    x: MetalData,
    layout: Layout,
    rows: int,
    head_dim: usize,
    largest: i32,
    launch: Launch<N>,
) -> bool {
    exists|denominator: N::F32| #[trigger]
        call_ensures(N::from_i32, (largest,), denominator) && launch.describes(
            x.device,
            "pack_scales_rowwise_q8_"@ + float_tag(x.dtype),
            "candelora_kv_attn_rowwise_pack_scales"@,
            size_args::<N>(pack_sizes(rows, head_dim)) + seq![
                KernelArg::F32(denominator),
                argument::<N>(layout, 0, x.dtype),
                own_buffer::<N>(Operand::Output(0)),
            ],
            Grid::PerItem(rows as usize),
        )
}

impl RowwisePackScalesOp {
    pub fn name(&self) -> (name: &'static str)
        ensures
            name@ == "candelora-kv-attn-rowwise-pack-scales"@,
    {
        "candelora-kv-attn-rowwise-pack-scales"
    }

    pub fn cpu_fwd<N: Scalars>(&self, x: &HostData<N>, layout: &Layout) -> (result: Result<
        HostTensor<N>,
        PackError,
    >)
        requires
            self.head_dim > 0,
            layout.valid(),
            layout.fits(x.spec_len()),
            x.valid(),
        ensures
            match scales_host_fault(*self, *x, *layout) {
                Some(e) => result == Err::<HostTensor<N>, PackError>(e),
                None => result matches Ok(out) && scales_host_result(*self, *x, *layout, out),
            },
    {
        let rows: usize = match parse_rowwise_pack_input(layout, self.head_dim) {
            Ok(rows) => rows,
            Err(e) => {
                return Err(e);
            },
        };
        match x {
            HostData::F32(_) => {},
            HostData::F16(_) => {},
            HostData::BF16(_) => {},
            _ => {
                return Err(PackError::XDType(x.dtype()));
            },
        }
        let wide = match contiguous_wide::<N>(x, layout) {
            Some(wide) => wide,
            None => {
                return Err(PackError::NotContiguous(PackOperand::X));
            },
        };
        proof {
            rows_hold_every_element(layout.dims@, self.head_dim);
        }
        let scales = cpu_pack_scales_rowwise::<N>(
            wide.as_slice(),
            rows,
            self.head_dim,
            self.kind,
        );
        let dims: Vec<usize> = vec![rows];
        proof {
            assert(widens::<N>(*x, *layout, wide@));
            assert(dims@ =~= seq![rows]);
        }
        Ok(HostTensor { data: HostVec::F32(scales), dims })
    }

    pub fn metal_fwd<N: Scalars>(&self, x: &MetalData, layout: &Layout) -> (result: Result<
        Outcome<N>,
        PackError,
    >)
        requires
            self.head_dim > 0,
            layout.valid(),
            addressable(layout.start_offset, x.dtype),
        ensures
            match scales_metal_fault(*self, *x, *layout) {
                Some(e) => result == Err::<Outcome<N>, PackError>(e),
                None => result matches Ok(outcome) && scales_metal_result(
                    *self,
                    *x,
                    *layout,
                    outcome,
                ),
            },
    {
        if !layout.is_contiguous() {
            return Err(PackError::NotContiguous(PackOperand::X));
        }
        let rows: usize = match parse_rowwise_pack_input(layout, self.head_dim) {
            Ok(rows) => rows,
            Err(e) => {
                return Err(e);
            },
        };
        let dims: Vec<usize> = vec![rows];
        proof {
            assert(dims@ =~= seq![rows]);
        }
        let output = DeviceTensor { dtype: DType::F32, dims };
        if rows == 0 {
            return Ok(Outcome::Empty(output));
        }
        if !x.dtype.is_kernel_float() {
            return Err(PackError::KernelDType(x.dtype));
        }
        let largest: i32 = match self.kind {
            RowwiseQuantKind::Int8 => 127,
            RowwiseQuantKind::Int4 => 7,
        };
        let denominator = N::from_i32(largest);
        let sizes = collect_pack_sizes(rows, self.head_dim);
        let mut args = match collect_size_args::<N>(sizes.as_slice()) {
            Ok(args) => args,
            Err(quantity) => {
                return Err(PackError::TooLarge(quantity));
            },
        };
        args.push(KernelArg::F32(denominator));
        args.push(argument_buffer::<N>(layout, 0, x.dtype));
        args.push(KernelArg::Buffer { operand: Operand::Output(0), offset_in_bytes: 0 });
        let launch = Launch {
            device: x.device,
            kernel: float_kernel("pack_scales_rowwise_q8_", x.dtype),
            label: "candelora_kv_attn_rowwise_pack_scales",
            args,
            grid: Grid::PerItem(rows),
        };
        proof {
            assert(largest == largest_code(self.kind));
            assert(launch.args@ =~= size_args::<N>(pack_sizes(rows as int, self.head_dim)) + seq![
                KernelArg::F32(denominator),
                argument::<N>(*layout, 0, x.dtype),
                own_buffer::<N>(Operand::Output(0)),
            ]);
        }
        Ok(Outcome::Launch(launch, output))
    }
}

/// The integers of rows, over given scales.
pub struct RowwisePackDataOp {
    pub head_dim: usize,
    pub kind: RowwiseQuantKind,
}

/// What is wrong with packing rows on the host.
pub open spec fn data_host_fault<N: Scalars>(
    op: RowwisePackDataOp,
    x: HostData<N>,
    xl: Layout,
    scales: HostData<N>,
    sl: Layout,
) -> Option<PackError> {
    let rows = row_count(xl.dims@, op.head_dim);
    if let Some(e) = pack_shape_fault(xl.dims@, op.head_dim) {
        Some(e)
    } else if !dims_are_1(sl.dims@, rows) {
        Some(PackError::ScalesShape { rows: rows as usize })
    } else if !(scales is F32) {
        Some(PackError::ScalesDType(scales.spec_dtype()))
    } else if !sl.contiguous() {
        Some(PackError::NotContiguous(PackOperand::Scales))
    } else if !is_float(x) {
        Some(PackError::XDType(x.spec_dtype()))
    } else if !xl.contiguous() {
        Some(PackError::NotContiguous(PackOperand::X))
    } else {
        None
    }
}

/// `out` holds the integers of every row.
pub open spec fn data_host_result<N: Scalars>(
    op: RowwisePackDataOp,
    x: HostData<N>,
    xl: Layout,
    scales: HostData<N>,
    sl: Layout,
    out: HostTensor<N>,
) -> bool {
    let rows = row_count(xl.dims@, op.head_dim);
    &&& out.dims@ == seq![rows as usize, packed_cols(op.head_dim as int, op.kind) as usize]
    &&& out.data matches HostVec::U8(data) && scales matches HostData::F32(row_scales) && exists|
        wide: Seq<N::F32>,
    | #[trigger]
        widens::<N>(x, xl, wide) && packs_rows::<N>(
            wide,
            sl.elements(row_scales@),
            rows,
            op.head_dim as int,
            op.kind,
            data@,
        )
}

/// What is wrong with packing rows on a Metal device.
pub open spec fn data_metal_fault(
    op: RowwisePackDataOp,
    x: MetalData,
    xl: Layout,
    scales: MetalData,
    sl: Layout,
) -> Option<PackError> {
    let rows = row_count(xl.dims@, op.head_dim);
    if !xl.contiguous() || !sl.contiguous() {
        Some(PackError::LayoutsNotContiguous)
    } else if x.device != scales.device {
        Some(PackError::MetalDeviceMismatch)
    } else if scales.dtype != DType::F32 {
        Some(PackError::ScalesDType(scales.dtype))
    } else if let Some(e) = pack_shape_fault(xl.dims@, op.head_dim) {
        Some(e)
    } else if !dims_are_1(sl.dims@, rows) {
        Some(PackError::ScalesShape { rows: rows as usize })
    } else {
        pack_kernel_fault(x.dtype, rows, op.head_dim)
    }
}

/// What packing rows on a Metal device comes to.
pub open spec fn data_metal_result<N: Scalars>(
    op: RowwisePackDataOp,
    x: MetalData,
    xl: Layout,
    sl: Layout,
    outcome: Outcome<N>,
) -> bool {
    let rows = row_count(xl.dims@, op.head_dim);
    let dims = seq![rows as usize, packed_cols(op.head_dim as int, op.kind) as usize];
    match outcome {
        Outcome::Host(_) => false,
        Outcome::Empty(output) => rows == 0 && output.describes(DType::U8, dims),
        Outcome::Launch(launch, output) => {
            &&& rows > 0
            &&& output.describes(DType::U8, dims)
            &&& launch.describes(
                x.device,
                "pack_data_rowwise_"@ + kind_tag(op.kind) + "_"@ + float_tag(x.dtype),
                "candelora_kv_attn_rowwise_pack_data"@,
                size_args::<N>(pack_sizes(rows, op.head_dim)) + seq![
                    argument::<N>(xl, 0, x.dtype),
                    argument::<N>(sl, 1, DType::F32),
                    own_buffer::<N>(Operand::Output(0)),
                ],
                Grid::PerItem(rows as usize),
            )
        },
    }
}

impl RowwisePackDataOp {
    pub fn name(&self) -> (name: &'static str)
        ensures
            name@ == "candelora-kv-attn-rowwise-pack-data"@,
    {
        "candelora-kv-attn-rowwise-pack-data"
    }

    pub fn cpu_fwd<N: Scalars>(
        &self,
        x: &HostData<N>,
        xl: &Layout,
        scales: &HostData<N>,
        sl: &Layout,
    ) -> (result: Result<HostTensor<N>, PackError>)
        requires
            self.head_dim > 0,
            xl.valid(),
            sl.valid(),
            xl.fits(x.spec_len()),
            sl.fits(scales.spec_len()),
            x.valid(),
            scales.valid(),
        ensures
            match data_host_fault(*self, *x, *xl, *scales, *sl) {
                Some(e) => result == Err::<HostTensor<N>, PackError>(e),
                None => result matches Ok(out) && data_host_result(
                    *self,
                    *x,
                    *xl,
                    *scales,
                    *sl,
                    out,
                ),
            },
    {
        let rows: usize = match parse_rowwise_pack_input(xl, self.head_dim) {
            Ok(rows) => rows,
            Err(e) => {
                return Err(e);
            },
        };
        if !has_dims_1(&sl.dims, rows) {
            return Err(PackError::ScalesShape { rows });
        }
        let scales = match scales {
            HostData::F32(values) => match sl.contiguous_slice(values) {
                Some(values) => values,
                None => {
                    return Err(PackError::NotContiguous(PackOperand::Scales));
                },
            },
            _ => {
                return Err(PackError::ScalesDType(scales.dtype()));
            },
        };
        match x {
            HostData::F32(_) => {},
            HostData::F16(_) => {},
            HostData::BF16(_) => {},
            _ => {
                return Err(PackError::XDType(x.dtype()));
            },
        }
        let wide = match contiguous_wide::<N>(x, xl) {
            Some(wide) => wide,
            None => {
                return Err(PackError::NotContiguous(PackOperand::X));
            },
        };
        proof {
            rows_hold_every_element(xl.dims@, self.head_dim);
            lemma_rank_1(sl.dims@);
        }
        let data = cpu_pack_data_rowwise::<N>(
            wide.as_slice(),
            scales,
            rows,
            self.head_dim,
            self.kind,
        );
        let cols: usize = expected_packed_cols(self.head_dim, self.kind);
        let dims: Vec<usize> = vec![rows, cols];
        proof {
            assert(widens::<N>(*x, *xl, wide@));
            assert(dims@ =~= seq![rows, cols]);
        }
        Ok(HostTensor { data: HostVec::U8(data), dims })
    }

    pub fn metal_fwd<N: Scalars>(
        &self,
        x: &MetalData,
        xl: &Layout,
        scales: &MetalData,
        sl: &Layout,
    ) -> (result: Result<Outcome<N>, PackError>)
        requires
            self.head_dim > 0,
            xl.valid(),
            sl.valid(),
            addressable(xl.start_offset, x.dtype),
            addressable(sl.start_offset, scales.dtype),
        ensures
            match data_metal_fault(*self, *x, *xl, *scales, *sl) {
                Some(e) => result == Err::<Outcome<N>, PackError>(e),
                None => result matches Ok(outcome) && data_metal_result(
                    *self,
                    *x,
                    *xl,
                    *sl,
                    outcome,
                ),
            },
    {
        if !xl.is_contiguous() || !sl.is_contiguous() {
            return Err(PackError::LayoutsNotContiguous);
        }
        if x.device != scales.device {
            return Err(PackError::MetalDeviceMismatch);
        }
        if scales.dtype != DType::F32 {
            return Err(PackError::ScalesDType(scales.dtype));
        }
        let rows: usize = match parse_rowwise_pack_input(xl, self.head_dim) {
            Ok(rows) => rows,
            Err(e) => {
                return Err(e);
            },
        };
        if !has_dims_1(&sl.dims, rows) {
            return Err(PackError::ScalesShape { rows });
        }
        let cols: usize = expected_packed_cols(self.head_dim, self.kind);
        let dims: Vec<usize> = vec![rows, cols];
        proof {
            assert(dims@ =~= seq![rows, cols]);
        }
        let output = DeviceTensor { dtype: DType::U8, dims };
        if rows == 0 {
            return Ok(Outcome::Empty(output));
        }
        if !x.dtype.is_kernel_float() {
            return Err(PackError::KernelDType(x.dtype));
        }
        let sizes = collect_pack_sizes(rows, self.head_dim);
        let mut args = match collect_size_args::<N>(sizes.as_slice()) {
            Ok(args) => args,
            Err(quantity) => {
                return Err(PackError::TooLarge(quantity));
            },
        };
        args.push(argument_buffer::<N>(xl, 0, x.dtype));
        args.push(argument_buffer::<N>(sl, 1, DType::F32));
        args.push(KernelArg::Buffer { operand: Operand::Output(0), offset_in_bytes: 0 });
        let kernel = "pack_data_rowwise_".to_owned().concat(kind_tag_of(self.kind)).concat(
            "_",
        ).concat(float_tag_of(x.dtype));
        let launch = Launch {
            device: x.device,
            kernel,
            label: "candelora_kv_attn_rowwise_pack_data",
            args,
            grid: Grid::PerItem(rows),
        };
        proof {
            assert(launch.args@ =~= size_args::<N>(pack_sizes(rows as int, self.head_dim)) + seq![
                argument::<N>(*xl, 0, x.dtype),
                argument::<N>(*sl, 1, DType::F32),
                own_buffer::<N>(Operand::Output(0)),
            ]);
        }
        Ok(Outcome::Launch(launch, output))
    }
}

/// One launch that finds the scales of rows and packs them.
pub struct FusedPack<N: Scalars> {
    /// Missing where there is no row.
    pub launch: Option<Launch<N>>,
    pub packed: DeviceTensor,
    pub scales: DeviceTensor,
}

/// What a launch that packs rows in one go is. The packed rows are its first output and the
/// scales its second.
pub open spec fn is_fused_pack<N: Scalars>(
    x: MetalData,
    layout: Layout,
    head_dim: usize,
    kind: RowwiseQuantKind,
    pack: FusedPack<N>,
) -> bool {
    let rows = row_count(layout.dims@, head_dim);
    let cols = packed_cols(head_dim as int, kind);
    &&& pack.packed.describes(DType::U8, seq![rows as usize, cols as usize])
    &&& pack.scales.describes(DType::F32, seq![rows as usize])
    &&& match pack.launch {
        None => rows == 0,
        Some(launch) => rows > 0 && launch.describes(
            x.device,
            "pack_rowwise_fused_"@ + kind_tag(kind) + "_"@ + float_tag(x.dtype),
            "candelora_kv_attn_rowwise_pack_fused"@,
            size_args::<N>(pack_sizes(rows, head_dim)) + seq![
                compact_arg::<N>(layout, 0, x.dtype),
                own_buffer::<N>(Operand::Output(0)),
                own_buffer::<N>(Operand::Output(1)),
            ],
            Grid::PerItem(rows as usize),
        ),
    }
}

/// Plans one launch that finds the scales of rows and packs them.
pub fn try_pack_rowwise_quantized_metal<N: Scalars>(
    x: &MetalData,
    layout: &Layout,
    head_dim: usize,
    kind: RowwiseQuantKind,
) -> (pack: Result<FusedPack<N>, PackError>)
    requires
        head_dim > 0,
        layout.valid(),
        addressable(layout.start_offset, x.dtype),
    ensures
        match pack_metal_fault(x.dtype, layout.dims@, head_dim) {
            Some(e) => pack == Err::<FusedPack<N>, PackError>(e),
            None => pack matches Ok(pack) && is_fused_pack(*x, *layout, head_dim, kind, pack),
        },
{
    let rows: usize = match parse_rowwise_pack_input(layout, head_dim) {
        Ok(rows) => rows,
        Err(e) => {
            return Err(e);
        },
    };
    let cols: usize = expected_packed_cols(head_dim, kind);
    let packed_dims: Vec<usize> = vec![rows, cols];
    let scales_dims: Vec<usize> = vec![rows];
    proof {
        assert(packed_dims@ =~= seq![rows, cols]);
        assert(scales_dims@ =~= seq![rows]);
    }
    let packed = DeviceTensor { dtype: DType::U8, dims: packed_dims };
    let scales = DeviceTensor { dtype: DType::F32, dims: scales_dims };
    if rows == 0 {
        return Ok(FusedPack { launch: None, packed, scales });
    }
    if !x.dtype.is_kernel_float() {
        return Err(PackError::KernelDType(x.dtype));
    }
    let sizes = collect_pack_sizes(rows, head_dim);
    let mut args = match collect_size_args::<N>(sizes.as_slice()) {
        Ok(args) => args,
        Err(quantity) => {
            return Err(PackError::TooLarge(quantity));
        },
    };
    args.push(compact_buffer::<N>(layout, 0, x.dtype));
    args.push(KernelArg::Buffer { operand: Operand::Output(0), offset_in_bytes: 0 });
    args.push(KernelArg::Buffer { operand: Operand::Output(1), offset_in_bytes: 0 });
    let kernel = "pack_rowwise_fused_".to_owned().concat(kind_tag_of(kind)).concat("_").concat(
        float_tag_of(x.dtype),
    );
    let launch = Launch {
        device: x.device,
        kernel,
        label: "candelora_kv_attn_rowwise_pack_fused",
        args,
        grid: Grid::PerItem(rows),
    };
    proof {
        assert(launch.args@ =~= size_args::<N>(pack_sizes(rows as int, head_dim)) + seq![
            compact_arg::<N>(*layout, 0, x.dtype),
            own_buffer::<N>(Operand::Output(0)),
            own_buffer::<N>(Operand::Output(1)),
        ]);
    }
    Ok(FusedPack { launch: Some(launch), packed, scales })
}

/// What [`pack_rowwise_quantized`] makes of keys or values `[batch, kv_heads, tokens, head_dim]`
/// has the shapes that attention over packed rows asks for.
pub proof fn packed_rows_fit_attention(x: Seq<usize>, shape: RowwiseShape, heads: Heads)
    requires
        x == seq![heads.batch, shape.kv_heads, shape.tokens, shape.head_dim],
        heads == shape.heads(heads.batch, heads.full_heads),
        shape.head_dim > 0,
        product(x) <= usize::MAX,
    ensures
        cache_shape_fault(
            shape,
            heads,
            seq![row_count(x, shape.head_dim) as usize, shape.cols() as usize],
            seq![row_count(x, shape.head_dim) as usize],
        ) is None,
{
    lemma_rank_4(x);
    rows_hold_every_element(x, shape.head_dim);
    let rows = row_count(x, shape.head_dim);
    let d = shape.head_dim as int;
    let cached = heads.cache_rows();
    assert(rows == cached) by (nonlinear_arith)
        requires
            rows * d == cached * d,
            d > 0,
    ;
    assert(rows <= rows * d) by (nonlinear_arith)
        requires
            0 <= rows,
            d >= 1,
    ;
    lemma_ceil_div(d, 2);
}

/// What packing rows comes to.
pub enum PackOutcome<N: Scalars> {
    /// The packed rows and the scales, computed on the host.
    Host(HostPack<N>),
    /// One launch for both.
    Fused(FusedPack<N>),
    /// A launch for each.
    Staged(StagedPack<N>),
}

/// Rows that were packed on the host.
pub struct HostPack<N: Scalars> {
    pub packed: HostTensor<N>,
    pub scales: HostTensor<N>,
}

/// A launch for the scales, and one for the packed rows, whose second argument is the output of
/// the first. With `compact`, both read a copy of the tensor in row-major order.
pub struct StagedPack<N: Scalars> {
    pub compact: bool,
    pub scales: Outcome<N>,
    pub packed: Outcome<N>,
}

/// What is wrong with a call of [`pack_rowwise_quantized`].
pub open spec fn pack_fault<N: Scalars>(x: Tensor<N>, head_dim: usize) -> Option<PackError> {
    if head_dim == 0 {
        Some(PackError::HeadDimZero)
    } else if x.shape().len() < 1 {
        Some(PackError::Rank)
    } else {
        match x.storage {
            Storage::Metal(data) => pack_metal_fault(data.dtype, x.shape(), head_dim),
            Storage::Host(data) => if let Some(e) = pack_shape_fault(x.shape(), head_dim) {
                Some(e)
            } else if !is_float(data) {
                Some(PackError::XDType(data.spec_dtype()))
            } else {
                None
            },
            Storage::Cuda { .. } => Some(PackError::NoCudaKernel),
        }
    }
}

/// `out` holds the rows of a host tensor, packed.
pub open spec fn pack_host_result<N: Scalars>(
    x: HostData<N>,
    layout: Layout,
    head_dim: usize,
    kind: RowwiseQuantKind,
    out: HostPack<N>,
) -> bool {
    let rows = row_count(layout.dims@, head_dim);
    &&& scales_host_result(RowwisePackScalesOp { head_dim, kind }, x, layout, out.scales)
    &&& out.packed.dims@ == seq![rows as usize, packed_cols(head_dim as int, kind) as usize]
    &&& out.packed.data matches HostVec::U8(data) && out.scales.data matches HostVec::F32(
        row_scales,
    )
        && exists|wide: Seq<N::F32>| #[trigger]
        widens::<N>(x, layout, wide) && packs_rows::<N>(
            wide,
            row_scales@,
            rows,
            head_dim as int,
            kind,
            data@,
        )
}

/// The launches of a call on a Metal device without the fused kernel.
pub open spec fn is_staged_pack<N: Scalars>(
    x: MetalData,
    layout: Layout,
    head_dim: usize,
    kind: RowwiseQuantKind,
    out: StagedPack<N>,
) -> bool {
    &&& out.compact == !layout.contiguous()
    &&& exists|xl: Layout, sl: Layout|
        #![trigger is_compacted(layout, xl), is_vector(
            sl,
            row_count(layout.dims@, head_dim),
        )]
        is_compacted(layout, xl) && is_vector(
            sl,
            row_count(layout.dims@, head_dim),
        ) && scales_metal_result(RowwisePackScalesOp { head_dim, kind }, x, xl, out.scales)
            && data_metal_result(RowwisePackDataOp { head_dim, kind }, x, xl, sl, out.packed)
}

/// The outcome of [`pack_rowwise_quantized`].
pub open spec fn pack_outcome<N: Scalars>(
    x: Tensor<N>,
    head_dim: usize,
    kind: RowwiseQuantKind,
    fused: bool,
    result: Result<PackOutcome<N>, PackError>,
) -> bool {
    match pack_fault(x, head_dim) {
        Some(e) => result == Err::<PackOutcome<N>, PackError>(e),
        None => match (x.storage, result) {
            (Storage::Host(data), Ok(PackOutcome::Host(out))) => pack_host_result(
                data,
                x.layout,
                head_dim,
                kind,
                out,
            ),
            (Storage::Metal(data), Ok(PackOutcome::Fused(pack))) => fused && is_fused_pack(
                data,
                x.layout,
                head_dim,
                kind,
                pack,
            ),
            (Storage::Metal(data), Ok(PackOutcome::Staged(out))) => !fused && is_staged_pack(
                data,
                x.layout,
                head_dim,
                kind,
                out,
            ),
            _ => false,
        },
    }
}

/// The type and the shape of a result on the host.
pub open spec fn host_format<N: Scalars>(out: HostTensor<N>) -> (DType, Seq<usize>) {
    let dtype = match out.data {
        HostVec::U8(_) => DType::U8,
        HostVec::F16(_) => DType::F16,
        HostVec::BF16(_) => DType::BF16,
        HostVec::F32(_) => DType::F32,
    };
    (dtype, out.dims@)
}

/// The type and the shape of a result.
pub open spec fn outcome_format<N: Scalars>(outcome: Outcome<N>) -> (DType, Seq<usize>) {
    match outcome {
        Outcome::Host(out) => host_format(out),
        Outcome::Empty(output) => (output.dtype, output.dims@),
        Outcome::Launch(_, output) => (output.dtype, output.dims@),
    }
}

/// The type and the shape of packed rows.
pub open spec fn packed_format<N: Scalars>(outcome: PackOutcome<N>) -> (DType, Seq<usize>) {
    match outcome {
        PackOutcome::Host(out) => host_format(out.packed),
        PackOutcome::Fused(pack) => (pack.packed.dtype, pack.packed.dims@),
        PackOutcome::Staged(out) => outcome_format(out.packed),
    }
}

/// The type and the shape of the scales of packed rows.
pub open spec fn scales_format<N: Scalars>(outcome: PackOutcome<N>) -> (DType, Seq<usize>) {
    match outcome {
        PackOutcome::Host(out) => host_format(out.scales),
        PackOutcome::Fused(pack) => (pack.scales.dtype, pack.scales.dims@),
        PackOutcome::Staged(out) => outcome_format(out.scales),
    }
}

/// However rows are packed, on the host, by one kernel or by two, the packed rows have the shape
/// `[rows, packed_cols]` and the type `U8`, and the scales the shape `[rows]` and the type `F32`.
pub proof fn packed_rows_have_one_format<N: Scalars>(
    x: Tensor<N>,
    head_dim: usize,
    kind: RowwiseQuantKind,
    fused: bool,
    outcome: PackOutcome<N>,
)
    requires
        pack_outcome(x, head_dim, kind, fused, Ok(outcome)),
    ensures
        packed_format(outcome) == (
            DType::U8,
            seq![
                row_count(x.shape(), head_dim) as usize,
                packed_cols(head_dim as int, kind) as usize,
            ],
        ),
        scales_format(outcome) == (DType::F32, seq![row_count(x.shape(), head_dim) as usize]),
{
}

/// Packs contiguous rows on the host.
fn pack_contiguous<N: Scalars>(
    x: &HostData<N>,
    layout: &Layout,
    head_dim: usize,
    kind: RowwiseQuantKind,
) -> (result: Result<HostPack<N>, PackError>)
    requires
        head_dim > 0,
        layout.valid(),
        layout.contiguous(),
        layout.fits(x.spec_len()),
        x.valid(),
    ensures
        match scales_host_fault((RowwisePackScalesOp { head_dim, kind }), *x, *layout) {
            Some(e) => result == Err::<HostPack<N>, PackError>(e),
            None => result matches Ok(out) && pack_host_result(*x, *layout, head_dim, kind, out),
        },
{
    let scales = match (RowwisePackScalesOp { head_dim, kind }).cpu_fwd::<N>(x, layout) {
        Ok(scales) => scales,
        Err(e) => {
            return Err(e);
        },
    };
    let packed = match &scales.data {
        HostVec::F32(values) => {
            let rows = vector_layout(values.len());
            proof {
                lemma_rank_1(rows.dims@);
                lemma_whole_storage(rows, values@);
            }
            (RowwisePackDataOp { head_dim, kind }).cpu_fwd::<N>(
                x,
                layout,
                &HostData::F32(values.as_slice()),
                &rows,
            )
        },
        _ => Err(PackError::XDType(x.dtype())),
    };
    match packed {
        Ok(packed) => Ok(HostPack { packed, scales }),
        Err(e) => Err(e),
    }
}

/// What is packed depends on the shape and the elements of a tensor alone.
proof fn lemma_same_pack<N: Scalars>(
    x: HostData<N>,
    xl: Layout,
    y: HostData<N>,
    yl: Layout,
    head_dim: usize,
    kind: RowwiseQuantKind,
    out: HostPack<N>,
)
    requires
        pack_host_result(x, xl, head_dim, kind, out),
        xl.dims@ == yl.dims@,
        forall|wide: Seq<N::F32>| #[trigger] widens::<N>(x, xl, wide) ==> widens::<N>(y, yl, wide),
    ensures
        pack_host_result(y, yl, head_dim, kind, out),
{
}

/// Packs rows on the host.
fn pack_host<N: Scalars>(
    x: &HostData<N>,
    layout: &Layout,
    head_dim: usize,
    kind: RowwiseQuantKind,
) -> (result: Result<HostPack<N>, PackError>)
    requires
        head_dim > 0,
        layout.valid(),
        layout.fits(x.spec_len()),
        x.valid(),
    ensures
        if let Some(e) = pack_shape_fault(layout.dims@, head_dim) {
            result == Err::<HostPack<N>, PackError>(e)
        } else if !is_float(*x) {
            result == Err::<HostPack<N>, PackError>(PackError::XDType(x.spec_dtype()))
        } else {
            result matches Ok(out) && pack_host_result(*x, *layout, head_dim, kind, out)
        },
{
    if layout.is_contiguous() {
        return pack_contiguous::<N>(x, layout, head_dim, kind);
    }
    let rows = layout.compacted();
    match x {
        HostData::F16(values) => {
            let copy = layout.gather(values);
            let data = HostData::<N>::F16(copy.as_slice());
            proof {
                lemma_whole_storage(rows, copy@);
            }
            let result = pack_contiguous::<N>(&data, &rows, head_dim, kind);
            proof {
                if result is Ok {
                    lemma_same_pack(data, rows, *x, *layout, head_dim, kind, result->Ok_0);
                }
            }
            result
        },
        HostData::BF16(values) => {
            let copy = layout.gather(values);
            let data = HostData::<N>::BF16(copy.as_slice());
            proof {
                lemma_whole_storage(rows, copy@);
            }
            let result = pack_contiguous::<N>(&data, &rows, head_dim, kind);
            proof {
                if result is Ok {
                    lemma_same_pack(data, rows, *x, *layout, head_dim, kind, result->Ok_0);
                }
            }
            result
        },
        HostData::F32(values) => {
            let copy = layout.gather(values);
            let data = HostData::<N>::F32(copy.as_slice());
            proof {
                lemma_whole_storage(rows, copy@);
            }
            let result = pack_contiguous::<N>(&data, &rows, head_dim, kind);
            proof {
                if result is Ok {
                    lemma_same_pack(data, rows, *x, *layout, head_dim, kind, result->Ok_0);
                }
            }
            result
        },
        _ => match parse_rowwise_pack_input(&rows, head_dim) {
            Ok(_) => Err(PackError::XDType(x.dtype())),
            Err(e) => Err(e),
        },
    }
}

/// Plans a launch for the scales and one for the packed rows.
fn pack_staged<N: Scalars>(
    x: &MetalData,
    layout: &Layout,
    head_dim: usize,
    kind: RowwiseQuantKind,
) -> (result: Result<StagedPack<N>, PackError>)
    requires
        head_dim > 0,
        layout.valid(),
        addressable(layout.start_offset, x.dtype),
    ensures
        match pack_metal_fault(x.dtype, layout.dims@, head_dim) {
            Some(e) => result == Err::<StagedPack<N>, PackError>(e),
            None => result matches Ok(out) && is_staged_pack(*x, *layout, head_dim, kind, out),
        },
{
    let compact: bool = !layout.is_contiguous();
    let xl = layout.compacted();
    let scales = match (RowwisePackScalesOp { head_dim, kind }).metal_fwd::<N>(x, &xl) {
        Ok(scales) => scales,
        Err(e) => {
            return Err(e);
        },
    };
    let sl = vector_layout(xl.elem_count() / head_dim);
    let scales_data = MetalData { device: x.device, dtype: DType::F32 };
    match (RowwisePackDataOp { head_dim, kind }).metal_fwd::<N>(x, &xl, &scales_data, &sl) {
        Ok(packed) => {
            proof {
                assert(is_compacted(*layout, xl));
                assert(is_vector(sl, row_count(layout.dims@, head_dim)));
            }
            Ok(StagedPack { compact, scales, packed })
        },
        Err(e) => Err(e),
    }
}

/// Packs a tensor into rows of small integers with a scale per row.
///
/// Shapes:
/// - `x`: `[.., head_dim]` in `F32`, `F16` or `BF16`
///
/// The packed rows have the shape `[rows, packed_cols]` and the type `U8`, and the scales the
/// shape `[rows]` and the type `F32`, with a row for every `head_dim` elements. `setting` is the
/// text of `CANDELORA_DISABLE_FUSED_PACK`.
pub fn pack_rowwise_quantized<N: Scalars>(
    x: &Tensor<N>,
    head_dim: usize,
    kind: RowwiseQuantKind,
    setting: Option<&str>,
) -> (result: Result<PackOutcome<N>, PackError>)
    requires
        x.valid(),
    ensures
        pack_outcome(*x, head_dim, kind, !pack_disabled(text_of(setting)), result),
{
    if head_dim == 0 {
        return Err(PackError::HeadDimZero);
    }
    if x.rank() < 1 {
        return Err(PackError::Rank);
    }
    let disabled: bool = is_pack_disabled(setting);
    match &x.storage {
        Storage::Cuda { .. } => Err(PackError::NoCudaKernel),
        Storage::Metal(data) => if disabled {
            match pack_staged::<N>(data, &x.layout, head_dim, kind) {
                Ok(out) => Ok(PackOutcome::Staged(out)),
                Err(e) => Err(e),
            }
        } else {
            match try_pack_rowwise_quantized_metal::<N>(data, &x.layout, head_dim, kind) {
                Ok(pack) => Ok(PackOutcome::Fused(pack)),
                Err(e) => Err(e),
            }
        },
        Storage::Host(data) => match pack_host::<N>(data, &x.layout, head_dim, kind) {
            Ok(out) => Ok(PackOutcome::Host(out)),
            Err(e) => Err(e),
        },
    }
}

} // verus!
