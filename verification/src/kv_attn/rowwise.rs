//! Attention over a cache of small integers with a scale per row.
use crate::arith::product_fits;
use crate::dtype::{byte_size, is_kernel_float, DType};
use crate::host::{contiguous_wide, is_float, widens};
use crate::kv_attn::attend::{
    cpu_scores, cpu_weighted_sums, rowwise_model, scores, weighted_sums, RowwiseCells,
};
use crate::kv_attn::codes::{expected_packed_cols, packed_cols, RowwiseQuantKind};
use crate::kv_attn::heads::{lemma_kv_rows, Heads};
use crate::launch::{
    argument, argument_buffer, collect_size_args, first_oversize, float_tag, float_tag_of,
    own_buffer, size_args, DeviceTensor, Grid, KernelArg, Launch, Operand, Outcome, Quantity,
};
use crate::layout::{
    dims_are_1, dims_are_2, has_dims_1, has_dims_2, lemma_rank_1, lemma_rank_2, lemma_rank_3, Layout,
};
use crate::scalar::Scalars;
use crate::tensor::{
    addressable, HostData, HostTensor, HostVec, MetalData, Storage, Tensor,
};
use vstd::prelude::*;

verus! {

/// A tensor that has to be contiguous.
#[derive(Clone, Copy, Debug, PartialEq, Eq, Structural)]
pub enum RowwiseOperand {
    Q,
    AttnProbs,
    Packed,
    Scales,
}

/// Why attention over packed rows is refused.
#[derive(Clone, Copy, Debug, PartialEq, Eq, Structural)]
pub enum RowwiseError {
    RepeatFactorZero,
    /// The query or the probabilities have not rank three.
    FirstRank,
    HeadDim { got: usize, expected: usize },
    Tokens { got: usize, expected: usize },
    DeviceMismatch,
    /// The query heads do not fall into groups of `repeat_factor`.
    HeadSplit { full_heads: usize, repeat_factor: usize },
    KvHeads { derived: usize, expected: usize },
    HeadConfig { full_heads: usize, kv_heads: usize, repeat_factor: usize },
    PackedRank,
    PackedShape { rows: usize, cols: usize },
    ScalesShape { rows: usize },
    FirstDType(DType),
    PackedDType(DType),
    ScalesDType(DType),
    NotContiguous(RowwiseOperand),
    LayoutsNotContiguous,
    MetalDeviceMismatch,
    KernelDTypes { q: DType, scales: DType },
    TooLarge(Quantity),
    NoCudaKernel,
}

/// The sizes of one step over packed rows.
#[derive(Clone, Copy, Debug, PartialEq, Eq, Structural)]
pub struct RowwiseShape {
    pub kv_heads: usize,
    pub repeat_factor: usize,
    pub tokens: usize,
    pub head_dim: usize,
    pub kind: RowwiseQuantKind,
}

impl RowwiseShape {
    /// The heads of a step whose query has the given batch and heads.
    pub open spec fn heads(&self, batch: usize, full_heads: usize) -> Heads {
        Heads {
            batch,
            full_heads,
            kv_heads: self.kv_heads,
            repeat_factor: self.repeat_factor,
            tokens: self.tokens,
            head_dim: self.head_dim,
        }
    }

    /// The bytes of one row.
    pub open spec fn cols(&self) -> int {
        packed_cols(self.head_dim as int, self.kind)
    }

    pub fn heads_of(&self, batch: usize, full_heads: usize) -> (heads: Heads)
        ensures
            heads == self.heads(batch, full_heads),
    {
        Heads {
            batch,
            full_heads,
            kv_heads: self.kv_heads,
            repeat_factor: self.repeat_factor,
            tokens: self.tokens,
            head_dim: self.head_dim,
        }
    }
}

/// What is wrong with the shapes of packed rows and their scales.
pub open spec fn cache_shape_fault(
    shape: RowwiseShape,
    heads: Heads,
    packed: Seq<usize>,
    scales: Seq<usize>,
) -> Option<RowwiseError> {
    let rows = heads.cache_rows();
    if !dims_are_2(packed, rows, shape.cols()) {
        Some(RowwiseError::PackedShape { rows: rows as usize, cols: shape.cols() as usize })
    } else if !dims_are_1(scales, rows) {
        Some(RowwiseError::ScalesShape { rows: rows as usize })
    } else {
        None
    }
}

/// What is wrong with the packed rows and the scales on the host, apart from their shapes.
pub open spec fn cache_host_fault<N: Scalars>(
    packed: HostData<N>,
    pl: Layout,
    scales: HostData<N>,
    sl: Layout,
) -> Option<RowwiseError> {
    if !(packed is U8) {
        Some(RowwiseError::PackedDType(packed.spec_dtype()))
    } else if !pl.contiguous() {
        Some(RowwiseError::NotContiguous(RowwiseOperand::Packed))
    } else if !(scales is F32 || scales is F16) {
        Some(RowwiseError::ScalesDType(scales.spec_dtype()))
    } else if !sl.contiguous() {
        Some(RowwiseError::NotContiguous(RowwiseOperand::Scales))
    } else {
        None
    }
}

/// What is wrong with the query heads.
pub open spec fn group_fault(heads: Heads) -> Option<RowwiseError> {
    if !heads.grouped() {
        Some(
            RowwiseError::HeadConfig {
                full_heads: heads.full_heads,
                kv_heads: heads.kv_heads,
                repeat_factor: heads.repeat_factor,
            },
        )
    } else {
        None
    }
}

fn check_cache_shapes(
    shape: &RowwiseShape,
    heads: &Heads,
    packed: &Layout,
    scales: &Layout,
) -> (checked: Result<(), RowwiseError>)
    requires
        heads.grouped(),
        heads.query_rows() <= usize::MAX,
        heads.cache_rows() <= usize::MAX,
        heads.head_dim == shape.head_dim,
    ensures
        match cache_shape_fault(*shape, *heads, packed.dims@, scales.dims@) {
            Some(e) => checked == Err::<(), RowwiseError>(e),
            None => checked is Ok,
        },
{
    proof {
        lemma_kv_rows(*heads);
    }
    let rows: usize = heads.batch * heads.kv_heads * heads.tokens;
    let cols: usize = expected_packed_cols(shape.head_dim, shape.kind);
    if !has_dims_2(&packed.dims, rows, cols) {
        return Err(RowwiseError::PackedShape { rows, cols });
    }
    if !has_dims_1(&scales.dims, rows) {
        return Err(RowwiseError::ScalesShape { rows });
    }
    Ok(())
}

/// Scaled scores of queries and packed keys.
pub struct RowwiseQkScoresOp<N: Scalars> {
    pub shape: RowwiseShape,
    pub scale: N::F32,
}

/// What is wrong with a query on the host.
pub open spec fn rowwise_query_fault(shape: RowwiseShape, q: Seq<usize>) -> Option<RowwiseError> {
    if q.len() != 3 {
        Some(RowwiseError::FirstRank)
    } else if q[2] != shape.head_dim {
        Some(RowwiseError::HeadDim { got: q[2], expected: shape.head_dim })
    } else if q[1] % shape.repeat_factor != 0 {
        Some(
            RowwiseError::HeadSplit { full_heads: q[1], repeat_factor: shape.repeat_factor },
        )
    } else if q[1] / shape.repeat_factor != shape.kv_heads {
        Some(
            RowwiseError::KvHeads {
                derived: q[1] / shape.repeat_factor,
                expected: shape.kv_heads,
            },
        )
    } else {
        None
    }
}

/// What is wrong with computing scores on the host.
pub open spec fn rowwise_qk_host_fault<N: Scalars>(
    shape: RowwiseShape,
    q: HostData<N>,
    ql: Layout,
    packed: HostData<N>,
    pl: Layout,
    scales: HostData<N>,
    sl: Layout,
) -> Option<RowwiseError> {
    let heads = shape.heads(ql.dims@[0], ql.dims@[1]);
    if let Some(e) = rowwise_query_fault(shape, ql.dims@) {
        Some(e)
    } else if pl.dims@.len() != 2 {
        Some(RowwiseError::PackedRank)
    } else if let Some(e) = cache_shape_fault(shape, heads, pl.dims@, sl.dims@) {
        Some(e)
    } else if let Some(e) = cache_host_fault(packed, pl, scales, sl) {
        Some(e)
    } else if !is_float(q) {
        Some(RowwiseError::FirstDType(q.spec_dtype()))
    } else if !ql.contiguous() {
        Some(RowwiseError::NotContiguous(RowwiseOperand::Q))
    } else {
        None
    }
}

/// `out` holds the scores, in the shape `[batch, full_heads, tokens]`.
pub open spec fn rowwise_qk_host_result<N: Scalars>(
    op: RowwiseQkScoresOp<N>,
    q: HostData<N>,
    ql: Layout,
    packed: HostData<N>,
    pl: Layout,
    scales: HostData<N>,
    sl: Layout,
    out: HostTensor<N>,
) -> bool {
    let shape = op.shape;
    let heads = shape.heads(ql.dims@[0], ql.dims@[1]);
    &&& out.dims@ == seq![heads.batch, heads.full_heads, heads.tokens]
    &&& out.data matches HostVec::F32(values) && packed matches HostData::U8(bytes) && exists|
        wide_q: Seq<N::F32>,
        wide_scales: Seq<N::F32>,
    |
        #![trigger widens::<N>(q, ql, wide_q), widens::<N>(scales, sl, wide_scales)]
        widens::<N>(q, ql, wide_q) && widens::<N>(scales, sl, wide_scales) && scores::<N>(
            wide_q,
            rowwise_model::<N>(
                pl.elements(bytes@),
                wide_scales,
                shape.head_dim as int,
                shape.kind,
            ),
            heads,
            op.scale,
            values@,
        )
}

/// The sizes of a step on the host can be counted: rows once the query and the rank of the
/// packed rows are found to be right, and scores once everything is.
pub open spec fn rowwise_qk_host_countable<N: Scalars>(
    shape: RowwiseShape,
    q: HostData<N>,
    ql: Layout,
    packed: HostData<N>,
    pl: Layout,
    scales: HostData<N>,
    sl: Layout,
) -> bool {
    let heads = shape.heads(ql.dims@[0], ql.dims@[1]);
    &&& rowwise_query_fault(shape, ql.dims@) is None && pl.dims@.len() == 2 ==> heads.cache_rows()
        <= usize::MAX
    &&& rowwise_qk_host_fault(shape, q, ql, packed, pl, scales, sl) is None ==> heads.query_rows()
        * heads.tokens <= usize::MAX
}

/// What is wrong with the scales or the packed rows on a Metal device, apart from their shapes.
pub open spec fn cache_metal_fault(packed: MetalData, scales: MetalData) -> Option<RowwiseError> {
    if packed.dtype != DType::U8 {
        Some(RowwiseError::PackedDType(packed.dtype))
    } else if scales.dtype != DType::F32 && scales.dtype != DType::F16 {
        Some(RowwiseError::ScalesDType(scales.dtype))
    } else {
        None
    }
}

/// The three tensors of a step on a Metal device.
pub struct MetalStep<'a> {
    pub first: &'a MetalData,
    pub first_layout: &'a Layout,
    pub packed: &'a MetalData,
    pub packed_layout: &'a Layout,
    pub scales: &'a MetalData,
    pub scales_layout: &'a Layout,
}

impl<'a> MetalStep<'a> {
    pub open spec fn valid(&self) -> bool {
        &&& self.first_layout.valid()
        &&& self.packed_layout.valid()
        &&& self.scales_layout.valid()
        &&& addressable(self.first_layout.start_offset, self.first.dtype)
        &&& addressable(self.packed_layout.start_offset, self.packed.dtype)
        &&& addressable(self.scales_layout.start_offset, self.scales.dtype)
    }
}

/// What is wrong with where the three tensors lie.
pub open spec fn placement_fault(t: MetalStep) -> Option<RowwiseError> {
    if !t.first_layout.contiguous() || !t.packed_layout.contiguous()
        || !t.scales_layout.contiguous() {
        Some(RowwiseError::LayoutsNotContiguous)
    } else if t.packed.device != t.first.device || t.scales.device != t.first.device {
        Some(RowwiseError::MetalDeviceMismatch)
    } else {
        None
    }
}

/// What is wrong with where the query of a step on a Metal device lies, and with its shape.
pub open spec fn rowwise_qk_metal_query_fault(shape: RowwiseShape, t: MetalStep) -> Option<
    RowwiseError,
> {
    let q = t.first_layout.dims@;
    if let Some(e) = placement_fault(t) {
        Some(e)
    } else if q.len() != 3 {
        Some(RowwiseError::FirstRank)
    } else if q[2] != shape.head_dim {
        Some(RowwiseError::HeadDim { got: q[2], expected: shape.head_dim })
    } else {
        group_fault(shape.heads(q[0], q[1]))
    }
}

/// What is wrong with a step on a Metal device before its scores are counted.
pub open spec fn rowwise_qk_metal_input_fault(shape: RowwiseShape, t: MetalStep) -> Option<
    RowwiseError,
> {
    let q = t.first_layout.dims@;
    let heads = shape.heads(q[0], q[1]);
    if let Some(e) = rowwise_qk_metal_query_fault(shape, t) {
        Some(e)
    } else if let Some(e) = cache_shape_fault(
        shape,
        heads,
        t.packed_layout.dims@,
        t.scales_layout.dims@,
    ) {
        Some(e)
    } else if let Some(e) = cache_metal_fault(*t.packed, *t.scales) {
        Some(e)
    } else if !is_kernel_float(t.first.dtype) {
        Some(
            RowwiseError::KernelDTypes { q: t.first.dtype, scales: t.scales.dtype },
        )
    } else {
        None
    }
}

/// The sizes that the kernels take.
pub open spec fn rowwise_sizes(heads: Heads) -> Seq<(usize, Quantity)> {
    seq![
        (heads.query_rows() as usize, Quantity::BhFull),
        (heads.full_heads, Quantity::FullHeads),
        (heads.kv_heads, Quantity::KvHeads),
        (heads.repeat_factor, Quantity::RepeatFactor),
        (heads.tokens, Quantity::Tokens),
        (heads.head_dim, Quantity::HeadDim),
    ]
}

fn collect_rowwise_sizes(heads: &Heads, rows: usize) -> (sizes: Vec<(usize, Quantity)>)
    requires
        rows == heads.query_rows(),
    ensures
        sizes@ == rowwise_sizes(*heads),
{
    let sizes: Vec<(usize, Quantity)> = vec![
        (rows, Quantity::BhFull),
        (heads.full_heads, Quantity::FullHeads),
        (heads.kv_heads, Quantity::KvHeads),
        (heads.repeat_factor, Quantity::RepeatFactor),
        (heads.tokens, Quantity::Tokens),
        (heads.head_dim, Quantity::HeadDim),
    ];
    proof {
        assert(sizes@ =~= rowwise_sizes(*heads));
    }
    sizes
}

/// What is wrong with computing scores on a Metal device.
pub open spec fn rowwise_qk_metal_fault(shape: RowwiseShape, t: MetalStep) -> Option<
    RowwiseError,
> {
    let heads = shape.heads(t.first_layout.dims@[0], t.first_layout.dims@[1]);
    if let Some(e) = rowwise_qk_metal_input_fault(shape, t) {
        Some(e)
    } else if heads.query_rows() * heads.tokens == 0 {
        None
    } else {
        match first_oversize(rowwise_sizes(heads)) {
            Some(quantity) => Some(RowwiseError::TooLarge(quantity)),
            None => None,
        }
    }
}

/// The sizes of a step on a Metal device can be counted.
pub open spec fn rowwise_qk_metal_countable(shape: RowwiseShape, t: MetalStep) -> bool {
    let heads = shape.heads(t.first_layout.dims@[0], t.first_layout.dims@[1]);
    &&& rowwise_qk_metal_query_fault(shape, t) is None ==> heads.cache_rows() <= usize::MAX
    &&& rowwise_qk_metal_input_fault(shape, t) is None ==> heads.query_rows() * heads.tokens
        <= usize::MAX
}

/// How kernel names spell the width of the integers.
pub open spec fn kind_tag(kind: RowwiseQuantKind) -> Seq<char> {
    match kind {
        RowwiseQuantKind::Int8 => "q8"@,
        RowwiseQuantKind::Int4 => "q4"@,
    }
}

pub fn kind_tag_of(kind: RowwiseQuantKind) -> (tag: &'static str)
    ensures
        tag@ == kind_tag(kind),
{
    match kind {
        RowwiseQuantKind::Int8 => "q8",
        RowwiseQuantKind::Int4 => "q4",
    }
}

/// What kernel names say of scales in half precision.
pub open spec fn scales_tag(dtype: DType) -> Seq<char> {
    if dtype == DType::F16 {
        "_sf16"@
    } else {
        ""@
    }
}

fn scales_tag_of(dtype: DType) -> (tag: &'static str)
    ensures
        tag@ == scales_tag(dtype),
{
    if dtype == DType::F16 {
        "_sf16"
    } else {
        ""
    }
}

/// What scores on a Metal device come to.
pub open spec fn rowwise_qk_metal_result<N: Scalars>(
    op: RowwiseQkScoresOp<N>,
    t: MetalStep,
    outcome: Outcome<N>,
) -> bool {
    let heads = op.shape.heads(t.first_layout.dims@[0], t.first_layout.dims@[1]);
    let dims = seq![heads.batch, heads.full_heads, heads.tokens];
    let items = heads.query_rows() * heads.tokens;
    match outcome {
        Outcome::Host(_) => false,
        Outcome::Empty(output) => items == 0 && output.describes(DType::F32, dims),
        Outcome::Launch(launch, output) => {
            &&& items > 0
            &&& output.describes(DType::F32, dims)
            &&& launch.describes(
                t.first.device,
                "qk_scores_rowwise_"@ + kind_tag(op.shape.kind) + "_"@ + float_tag(t.first.dtype)
                    + scales_tag(t.scales.dtype),
                "candelora_kv_attn_rowwise_qk"@,
                size_args::<N>(rowwise_sizes(heads)) + seq![
                    KernelArg::F32(op.scale),
                    argument::<N>(*t.first_layout, 0, t.first.dtype),
                    argument::<N>(*t.packed_layout, 1, DType::U8),
                    argument::<N>(*t.scales_layout, 2, t.scales.dtype),
                    own_buffer::<N>(Operand::Output(0)),
                ],
                Grid::PerItem(items as usize),
            )
        },
    }
}

fn check_placement(t: &MetalStep) -> (checked: Result<(), RowwiseError>)
    requires
        t.valid(),
    ensures
        match placement_fault(*t) {
            Some(e) => checked == Err::<(), RowwiseError>(e),
            None => checked is Ok,
        },
{
    if !t.first_layout.is_contiguous() || !t.packed_layout.is_contiguous()
        || !t.scales_layout.is_contiguous() {
        return Err(RowwiseError::LayoutsNotContiguous);
    }
    if t.packed.device != t.first.device || t.scales.device != t.first.device {
        return Err(RowwiseError::MetalDeviceMismatch);
    }
    Ok(())
}

fn check_cache_dtypes(packed: &MetalData, scales: &MetalData) -> (checked: Result<
    (),
    RowwiseError,
>)
    ensures
        match cache_metal_fault(*packed, *scales) {
            Some(e) => checked == Err::<(), RowwiseError>(e),
            None => checked is Ok,
        },
{
    if packed.dtype != DType::U8 {
        return Err(RowwiseError::PackedDType(packed.dtype));
    }
    if scales.dtype != DType::F32 && scales.dtype != DType::F16 {
        return Err(RowwiseError::ScalesDType(scales.dtype));
    }
    Ok(())
}

fn check_groups(heads: &Heads) -> (checked: Result<(), RowwiseError>)
    requires
        heads.repeat_factor > 0,
    ensures
        match group_fault(*heads) {
            Some(e) => checked == Err::<(), RowwiseError>(e),
            None => checked is Ok,
        },
{
    if heads.full_heads % heads.repeat_factor != 0 || heads.full_heads / heads.repeat_factor
        != heads.kv_heads {
        return Err(
            RowwiseError::HeadConfig {
                full_heads: heads.full_heads,
                kv_heads: heads.kv_heads,
                repeat_factor: heads.repeat_factor,
            },
        );
    }
    Ok(())
}

/// The heads of a step on the host, where the query fits them.
fn check_query(shape: &RowwiseShape, ql: &Layout) -> (checked: Result<Heads, RowwiseError>)
    requires
        shape.repeat_factor > 0,
    ensures
        match rowwise_query_fault(*shape, ql.dims@) {
            Some(e) => checked == Err::<Heads, RowwiseError>(e),
            None => checked == Ok::<Heads, RowwiseError>(
                shape.heads(ql.dims@[0], ql.dims@[1]),
            ),
        },
{
    if ql.dims.len() != 3 {
        return Err(RowwiseError::FirstRank);
    }
    let (batch, full_heads, d): (usize, usize, usize) = (ql.dims[0], ql.dims[1], ql.dims[2]);
    if d != shape.head_dim {
        return Err(RowwiseError::HeadDim { got: d, expected: shape.head_dim });
    }
    if full_heads % shape.repeat_factor != 0 {
        return Err(
            RowwiseError::HeadSplit { full_heads, repeat_factor: shape.repeat_factor },
        );
    }
    if full_heads / shape.repeat_factor != shape.kv_heads {
        return Err(
            RowwiseError::KvHeads {
                derived: full_heads / shape.repeat_factor,
                expected: shape.kv_heads,
            },
        );
    }
    Ok(shape.heads_of(batch, full_heads))
}

/// The heads of a step on a Metal device, where the query fits them.
fn check_metal_query(shape: &RowwiseShape, t: &MetalStep) -> (checked: Result<Heads, RowwiseError>)
    requires
        shape.repeat_factor > 0,
        t.valid(),
    ensures
        match rowwise_qk_metal_query_fault(*shape, *t) {
            Some(e) => checked == Err::<Heads, RowwiseError>(e),
            None => checked == Ok::<Heads, RowwiseError>(
                shape.heads(t.first_layout.dims@[0], t.first_layout.dims@[1]),
            ),
        },
{
    if let Err(e) = check_placement(t) {
        return Err(e);
    }
    let dims = &t.first_layout.dims;
    if dims.len() != 3 {
        return Err(RowwiseError::FirstRank);
    }
    if dims[2] != shape.head_dim {
        return Err(RowwiseError::HeadDim { got: dims[2], expected: shape.head_dim });
    }
    let heads = shape.heads_of(dims[0], dims[1]);
    match check_groups(&heads) {
        Ok(_) => Ok(heads),
        Err(e) => Err(e),
    }
}

/// Whether the rows of the cache can be counted.
fn are_rows_countable(heads: &Heads) -> (countable: bool)
    requires
        heads.grouped(),
        heads.query_rows() <= usize::MAX,
    ensures
        countable == (heads.cache_rows() <= usize::MAX),
{
    proof {
        lemma_kv_rows(*heads);
    }
    product_fits(heads.batch * heads.kv_heads, heads.tokens)
}

/// Whether packed rows and scales on the host can be read, apart from their shapes.
fn is_cache_readable<N: Scalars>(
    packed: &HostData<N>,
    pl: &Layout,
    scales: &HostData<N>,
    sl: &Layout,
) -> (readable: bool)
    requires
        pl.valid(),
        sl.valid(),
    ensures
        readable == (cache_host_fault(*packed, *pl, *scales, *sl) is None),
{
    let bytes: bool = match packed {
        HostData::U8(_) => true,
        _ => false,
    };
    let numbers: bool = match scales {
        HostData::F32(_) => true,
        HostData::F16(_) => true,
        _ => false,
    };
    bytes && numbers && pl.is_contiguous() && sl.is_contiguous()
}

impl<N: Scalars> RowwiseQkScoresOp<N> {
    pub fn name(&self) -> (name: &'static str)
        ensures
            name@ == "candelora-kv-attn-rowwise-qk"@,
    {
        "candelora-kv-attn-rowwise-qk"
    }

    pub fn cpu_fwd(
        &self,
        q: &HostData<N>,
        ql: &Layout,
        packed: &HostData<N>,
        pl: &Layout,
        scales: &HostData<N>,
        sl: &Layout,
    ) -> (result: Result<HostTensor<N>, RowwiseError>)
        requires
            self.shape.repeat_factor > 0,
            ql.valid(),
            pl.valid(),
            sl.valid(),
            ql.fits(q.spec_len()),
            pl.fits(packed.spec_len()),
            sl.fits(scales.spec_len()),
            q.valid(),
            packed.valid(),
            scales.valid(),
            rowwise_qk_host_countable(self.shape, *q, *ql, *packed, *pl, *scales, *sl),
        ensures
            match rowwise_qk_host_fault(self.shape, *q, *ql, *packed, *pl, *scales, *sl) {
                Some(e) => result == Err::<HostTensor<N>, RowwiseError>(e),
                None => result matches Ok(out) && rowwise_qk_host_result(
                    *self,
                    *q,
                    *ql,
                    *packed,
                    *pl,
                    *scales,
                    *sl,
                    out,
                ),
            },
    {
        let shape = self.shape;
        let heads = match check_query(&shape, ql) {
            Ok(heads) => heads,
            Err(e) => {
                return Err(e);
            },
        };
        if pl.dims.len() != 2 {
            return Err(RowwiseError::PackedRank);
        }
        proof {
            lemma_rank_3(ql.dims@);
        }
        if let Err(e) = check_cache_shapes(&shape, &heads, pl, sl) {
            return Err(e);
        }
        let bytes = match packed {
            HostData::U8(bytes) => match pl.contiguous_slice(bytes) {
                Some(bytes) => bytes,
                None => {
                    return Err(RowwiseError::NotContiguous(RowwiseOperand::Packed));
                },
            },
            _ => {
                return Err(RowwiseError::PackedDType(packed.dtype()));
            },
        };
        match scales {
            HostData::F32(_) => {},
            HostData::F16(_) => {},
            _ => {
                return Err(RowwiseError::ScalesDType(scales.dtype()));
            },
        }
        let wide_scales = match contiguous_wide::<N>(scales, sl) {
            Some(wide) => wide,
            None => {
                return Err(RowwiseError::NotContiguous(RowwiseOperand::Scales));
            },
        };
        match q {
            HostData::F32(_) => {},
            HostData::F16(_) => {},
            HostData::BF16(_) => {},
            _ => {
                return Err(RowwiseError::FirstDType(q.dtype()));
            },
        }
        let wide_q = match contiguous_wide::<N>(q, ql) {
            Some(wide) => wide,
            None => {
                return Err(RowwiseError::NotContiguous(RowwiseOperand::Q));
            },
        };
        proof {
            lemma_rank_2(pl.dims@);
            lemma_rank_1(sl.dims@);
        }
        let cells = RowwiseCells::<N> {
            packed: bytes,
            scales: wide_scales.as_slice(),
            head_dim: shape.head_dim,
            kind: shape.kind,
        };
        let values = cpu_scores::<N, RowwiseCells<N>>(
            wide_q.as_slice(),
            &cells,
            &heads,
            self.scale,
        );
        let dims: Vec<usize> = vec![heads.batch, heads.full_heads, shape.tokens];
        proof {
            assert(widens::<N>(*q, *ql, wide_q@));
            assert(widens::<N>(*scales, *sl, wide_scales@));
        }
        Ok(HostTensor { data: HostVec::F32(values), dims })
    }

    pub fn metal_fwd(&self, t: &MetalStep) -> (result: Result<Outcome<N>, RowwiseError>)
        requires
            self.shape.repeat_factor > 0,
            t.valid(),
            rowwise_qk_metal_countable(self.shape, *t),
        ensures
            match rowwise_qk_metal_fault(self.shape, *t) {
                Some(e) => result == Err::<Outcome<N>, RowwiseError>(e),
                None => result matches Ok(outcome) && rowwise_qk_metal_result(*self, *t, outcome),
            },
    {
        let shape = self.shape;
        let heads = match check_metal_query(&shape, t) {
            Ok(heads) => heads,
            Err(e) => {
                return Err(e);
            },
        };
        proof {
            lemma_rank_3(t.first_layout.dims@);
        }
        if let Err(e) = check_cache_shapes(&shape, &heads, t.packed_layout, t.scales_layout) {
            return Err(e);
        }
        if let Err(e) = check_cache_dtypes(t.packed, t.scales) {
            return Err(e);
        }
        if !t.first.dtype.is_kernel_float() {
            return Err(
                RowwiseError::KernelDTypes { q: t.first.dtype, scales: t.scales.dtype },
            );
        }
        let rows: usize = heads.batch * heads.full_heads;
        let items: usize = rows * shape.tokens;
        let dims: Vec<usize> = vec![heads.batch, heads.full_heads, shape.tokens];
        let output = DeviceTensor { dtype: DType::F32, dims };
        if items == 0 {
            return Ok(Outcome::Empty(output));
        }
        let sizes = collect_rowwise_sizes(&heads, rows);
        let mut args = match collect_size_args::<N>(sizes.as_slice()) {
            Ok(args) => args,
            Err(quantity) => {
                return Err(RowwiseError::TooLarge(quantity));
            },
        };
        args.push(KernelArg::F32(self.scale));
        args.push(argument_buffer::<N>(t.first_layout, 0, t.first.dtype));
        args.push(argument_buffer::<N>(t.packed_layout, 1, DType::U8));
        args.push(argument_buffer::<N>(t.scales_layout, 2, t.scales.dtype));
        args.push(KernelArg::Buffer { operand: Operand::Output(0), offset_in_bytes: 0 });
        let kernel = "qk_scores_rowwise_".to_owned().concat(kind_tag_of(shape.kind)).concat(
            "_",
        ).concat(float_tag_of(t.first.dtype)).concat(scales_tag_of(t.scales.dtype));
        let launch = Launch {
            device: t.first.device,
            kernel,
            label: "candelora_kv_attn_rowwise_qk",
            args,
            grid: Grid::PerItem(items),
        };
        proof {
            assert(launch.args@ =~= size_args::<N>(rowwise_sizes(heads)) + seq![
                KernelArg::F32(self.scale),
                argument::<N>(*t.first_layout, 0, t.first.dtype),
                argument::<N>(*t.packed_layout, 1, DType::U8),
                argument::<N>(*t.scales_layout, 2, t.scales.dtype),
                own_buffer::<N>(Operand::Output(0)),
            ]);
        }
        Ok(Outcome::Launch(launch, output))
    }
}

/// Sums of packed values, weighted by probabilities.
pub struct RowwiseAttnWeightedSumOp {
    pub shape: RowwiseShape,
}

/// What is wrong with the shape of the probabilities.
pub open spec fn rowwise_attn_fault(shape: RowwiseShape, attn: Seq<usize>) -> Option<
    RowwiseError,
> {
    if attn.len() != 3 {
        Some(RowwiseError::FirstRank)
    } else if attn[2] != shape.tokens {
        Some(RowwiseError::Tokens { got: attn[2], expected: shape.tokens })
    } else {
        group_fault(shape.heads(attn[0], attn[1]))
    }
}

/// What is wrong with computing weighted sums on the host.
pub open spec fn rowwise_sum_host_fault<N: Scalars>(
    shape: RowwiseShape,
    attn: HostData<N>,
    al: Layout,
    packed: HostData<N>,
    pl: Layout,
    scales: HostData<N>,
    sl: Layout,
) -> Option<RowwiseError> {
    let heads = shape.heads(al.dims@[0], al.dims@[1]);
    if let Some(e) = rowwise_attn_fault(shape, al.dims@) {
        Some(e)
    } else if let Some(e) = cache_shape_fault(shape, heads, pl.dims@, sl.dims@) {
        Some(e)
    } else if !(attn is F32) {
        Some(RowwiseError::FirstDType(attn.spec_dtype()))
    } else if !al.contiguous() {
        Some(RowwiseError::NotContiguous(RowwiseOperand::AttnProbs))
    } else {
        cache_host_fault(packed, pl, scales, sl)
    }
}

/// `out` holds the weighted sums, in the shape `[batch, full_heads, head_dim]`.
pub open spec fn rowwise_sum_host_result<N: Scalars>(
    shape: RowwiseShape,
    attn: HostData<N>,
    al: Layout,
    packed: HostData<N>,
    pl: Layout,
    scales: HostData<N>,
    sl: Layout,
    out: HostTensor<N>,
) -> bool {
    let heads = shape.heads(al.dims@[0], al.dims@[1]);
    &&& out.dims@ == seq![heads.batch, heads.full_heads, heads.head_dim]
    &&& out.data matches HostVec::F32(values) && packed matches HostData::U8(bytes) && exists|
        weights: Seq<N::F32>,
        wide_scales: Seq<N::F32>,
    |
        #![trigger widens::<N>(attn, al, weights), widens::<N>(scales, sl, wide_scales)]
        widens::<N>(attn, al, weights) && widens::<N>(scales, sl, wide_scales) && weighted_sums::<
            N,
        >(
            weights,
            rowwise_model::<N>(
                pl.elements(bytes@),
                wide_scales,
                shape.head_dim as int,
                shape.kind,
            ),
            heads,
            values@,
        )
}

/// The sizes of a step on the host can be counted.
pub open spec fn rowwise_sum_host_countable<N: Scalars>(
    shape: RowwiseShape,
    attn: HostData<N>,
    al: Layout,
    packed: HostData<N>,
    pl: Layout,
    scales: HostData<N>,
    sl: Layout,
) -> bool {
    let heads = shape.heads(al.dims@[0], al.dims@[1]);
    &&& rowwise_attn_fault(shape, al.dims@) is None ==> heads.cache_rows() <= usize::MAX
    &&& rowwise_sum_host_fault(shape, attn, al, packed, pl, scales, sl) is None
        ==> heads.query_rows() * heads.head_dim <= usize::MAX
}

/// What is wrong with a step on a Metal device before its rows are counted.
pub open spec fn rowwise_sum_metal_attn_fault(shape: RowwiseShape, t: MetalStep) -> Option<
    RowwiseError,
> {
    if let Some(e) = placement_fault(t) {
        Some(e)
    } else if t.first.dtype != DType::F32 {
        Some(RowwiseError::FirstDType(t.first.dtype))
    } else if let Some(e) = cache_metal_fault(*t.packed, *t.scales) {
        Some(e)
    } else {
        rowwise_attn_fault(shape, t.first_layout.dims@)
    }
}

/// What is wrong with a step on a Metal device before its sums are counted.
pub open spec fn rowwise_sum_metal_input_fault(shape: RowwiseShape, t: MetalStep) -> Option<
    RowwiseError,
> {
    let attn = t.first_layout.dims@;
    if let Some(e) = rowwise_sum_metal_attn_fault(shape, t) {
        Some(e)
    } else {
        cache_shape_fault(
            shape,
            shape.heads(attn[0], attn[1]),
            t.packed_layout.dims@,
            t.scales_layout.dims@,
        )
    }
}

/// What is wrong with computing weighted sums on a Metal device.
pub open spec fn rowwise_sum_metal_fault(shape: RowwiseShape, t: MetalStep) -> Option<
    RowwiseError,
> {
    let heads = shape.heads(t.first_layout.dims@[0], t.first_layout.dims@[1]);
    if let Some(e) = rowwise_sum_metal_input_fault(shape, t) {
        Some(e)
    } else if heads.query_rows() * heads.head_dim == 0 {
        None
    } else {
        match first_oversize(rowwise_sizes(heads)) {
            Some(quantity) => Some(RowwiseError::TooLarge(quantity)),
            None => None,
        }
    }
}

/// The sizes of a step on a Metal device can be counted.
pub open spec fn rowwise_sum_metal_countable(shape: RowwiseShape, t: MetalStep) -> bool {
    let heads = shape.heads(t.first_layout.dims@[0], t.first_layout.dims@[1]);
    &&& rowwise_sum_metal_attn_fault(shape, t) is None ==> heads.cache_rows() <= usize::MAX
    &&& rowwise_sum_metal_input_fault(shape, t) is None ==> heads.query_rows() * heads.head_dim
        <= usize::MAX
}

/// What weighted sums on a Metal device come to.
pub open spec fn rowwise_sum_metal_result<N: Scalars>(
    shape: RowwiseShape,
    t: MetalStep,
    outcome: Outcome<N>,
) -> bool {
    let heads = shape.heads(t.first_layout.dims@[0], t.first_layout.dims@[1]);
    let dims = seq![heads.batch, heads.full_heads, heads.head_dim];
    let items = heads.query_rows() * heads.head_dim;
    match outcome {
        Outcome::Host(_) => false,
        Outcome::Empty(output) => items == 0 && output.describes(DType::F32, dims),
        Outcome::Launch(launch, output) => {
            &&& items > 0
            &&& output.describes(DType::F32, dims)
            &&& launch.describes(
                t.first.device,
                "attn_weighted_sum_rowwise_"@ + kind_tag(shape.kind) + scales_tag(t.scales.dtype),
                "candelora_kv_attn_rowwise_weighted_sum"@,
                size_args::<N>(rowwise_sizes(heads)) + seq![
                    argument::<N>(*t.first_layout, 0, DType::F32),
                    argument::<N>(*t.packed_layout, 1, DType::U8),
                    argument::<N>(*t.scales_layout, 2, t.scales.dtype),
                    own_buffer::<N>(Operand::Output(0)),
                ],
                Grid::PerItem(items as usize),
            )
        },
    }
}

impl RowwiseAttnWeightedSumOp {
    pub fn name(&self) -> (name: &'static str)
        ensures
            name@ == "candelora-kv-attn-rowwise-weighted-sum"@,
    {
        "candelora-kv-attn-rowwise-weighted-sum"
    }

    /// The heads of the step, where the probabilities fit them.
    fn check_attn(&self, al: &Layout) -> (checked: Result<Heads, RowwiseError>)
        requires
            self.shape.repeat_factor > 0,
        ensures
            match rowwise_attn_fault(self.shape, al.dims@) {
                Some(e) => checked == Err::<Heads, RowwiseError>(e),
                None => checked == Ok::<Heads, RowwiseError>(
                    self.shape.heads(al.dims@[0], al.dims@[1]),
                ),
            },
    {
        if al.dims.len() != 3 {
            return Err(RowwiseError::FirstRank);
        }
        let t: usize = al.dims[2];
        if t != self.shape.tokens {
            return Err(RowwiseError::Tokens { got: t, expected: self.shape.tokens });
        }
        let heads = self.shape.heads_of(al.dims[0], al.dims[1]);
        match check_groups(&heads) {
            Ok(_) => Ok(heads),
            Err(e) => Err(e),
        }
    }

    pub fn cpu_fwd<N: Scalars>(
        &self,
        attn: &HostData<N>,
        al: &Layout,
        packed: &HostData<N>,
        pl: &Layout,
        scales: &HostData<N>,
        sl: &Layout,
    ) -> (result: Result<HostTensor<N>, RowwiseError>)
        requires
            self.shape.repeat_factor > 0,
            al.valid(),
            pl.valid(),
            sl.valid(),
            al.fits(attn.spec_len()),
            pl.fits(packed.spec_len()),
            sl.fits(scales.spec_len()),
            attn.valid(),
            packed.valid(),
            scales.valid(),
            rowwise_sum_host_countable(self.shape, *attn, *al, *packed, *pl, *scales, *sl),
        ensures
            match rowwise_sum_host_fault(self.shape, *attn, *al, *packed, *pl, *scales, *sl) {
                Some(e) => result == Err::<HostTensor<N>, RowwiseError>(e),
                None => result matches Ok(out) && rowwise_sum_host_result(
                    self.shape,
                    *attn,
                    *al,
                    *packed,
                    *pl,
                    *scales,
                    *sl,
                    out,
                ),
            },
    {
        let shape = self.shape;
        let heads = match self.check_attn(al) {
            Ok(heads) => heads,
            Err(e) => {
                return Err(e);
            },
        };
        proof {
            lemma_rank_3(al.dims@);
        }
        if let Err(e) = check_cache_shapes(&shape, &heads, pl, sl) {
            return Err(e);
        }
        let weights = match attn {
            HostData::F32(values) => match al.contiguous_slice(values) {
                Some(values) => values,
                None => {
                    return Err(RowwiseError::NotContiguous(RowwiseOperand::AttnProbs));
                },
            },
            _ => {
                return Err(RowwiseError::FirstDType(attn.dtype()));
            },
        };
        let bytes = match packed {
            HostData::U8(bytes) => match pl.contiguous_slice(bytes) {
                Some(bytes) => bytes,
                None => {
                    return Err(RowwiseError::NotContiguous(RowwiseOperand::Packed));
                },
            },
            _ => {
                return Err(RowwiseError::PackedDType(packed.dtype()));
            },
        };
        match scales {
            HostData::F32(_) => {},
            HostData::F16(_) => {},
            _ => {
                return Err(RowwiseError::ScalesDType(scales.dtype()));
            },
        }
        let wide_scales = match contiguous_wide::<N>(scales, sl) {
            Some(wide) => wide,
            None => {
                return Err(RowwiseError::NotContiguous(RowwiseOperand::Scales));
            },
        };
        proof {
            lemma_rank_2(pl.dims@);
            lemma_rank_1(sl.dims@);
            crate::layout::lemma_countable(al.dims@);
        }
        let cells = RowwiseCells::<N> {
            packed: bytes,
            scales: wide_scales.as_slice(),
            head_dim: shape.head_dim,
            kind: shape.kind,
        };
        let values = cpu_weighted_sums::<N, RowwiseCells<N>>(weights, &cells, &heads);
        let dims: Vec<usize> = vec![heads.batch, heads.full_heads, shape.head_dim];
        proof {
            assert(widens::<N>(*attn, *al, weights@));
            assert(widens::<N>(*scales, *sl, wide_scales@));
        }
        Ok(HostTensor { data: HostVec::F32(values), dims })
    }

    pub fn metal_fwd<N: Scalars>(&self, t: &MetalStep) -> (result: Result<Outcome<N>, RowwiseError>)
        requires
            self.shape.repeat_factor > 0,
            t.valid(),
            rowwise_sum_metal_countable(self.shape, *t),
        ensures
            match rowwise_sum_metal_fault(self.shape, *t) {
                Some(e) => result == Err::<Outcome<N>, RowwiseError>(e),
                None => result matches Ok(outcome) && rowwise_sum_metal_result(
                    self.shape,
                    *t,
                    outcome,
                ),
            },
    {
        let shape = self.shape;
        if let Err(e) = check_placement(t) {
            return Err(e);
        }
        if t.first.dtype != DType::F32 {
            return Err(RowwiseError::FirstDType(t.first.dtype));
        }
        if let Err(e) = check_cache_dtypes(t.packed, t.scales) {
            return Err(e);
        }
        let heads = match self.check_attn(t.first_layout) {
            Ok(heads) => heads,
            Err(e) => {
                return Err(e);
            },
        };
        proof {
            lemma_rank_3(t.first_layout.dims@);
        }
        if let Err(e) = check_cache_shapes(&shape, &heads, t.packed_layout, t.scales_layout) {
            return Err(e);
        }
        let rows: usize = heads.batch * heads.full_heads;
        let items: usize = rows * shape.head_dim;
        let dims: Vec<usize> = vec![heads.batch, heads.full_heads, shape.head_dim];
        let output = DeviceTensor { dtype: DType::F32, dims };
        if items == 0 {
            return Ok(Outcome::Empty(output));
        }
        let sizes = collect_rowwise_sizes(&heads, rows);
        let mut args = match collect_size_args::<N>(sizes.as_slice()) {
            Ok(args) => args,
            Err(quantity) => {
                return Err(RowwiseError::TooLarge(quantity));
            },
        };
        args.push(argument_buffer::<N>(t.first_layout, 0, DType::F32));
        args.push(argument_buffer::<N>(t.packed_layout, 1, DType::U8));
        args.push(argument_buffer::<N>(t.scales_layout, 2, t.scales.dtype));
        args.push(KernelArg::Buffer { operand: Operand::Output(0), offset_in_bytes: 0 });
        let kernel = "attn_weighted_sum_rowwise_".to_owned().concat(
            kind_tag_of(shape.kind),
        ).concat(scales_tag_of(t.scales.dtype));
        let launch = Launch {
            device: t.first.device,
            kernel,
            label: "candelora_kv_attn_rowwise_weighted_sum",
            args,
            grid: Grid::PerItem(items),
        };
        proof {
            assert(launch.args@ =~= size_args::<N>(rowwise_sizes(heads)) + seq![
                argument::<N>(*t.first_layout, 0, DType::F32),
                argument::<N>(*t.packed_layout, 1, DType::U8),
                argument::<N>(*t.scales_layout, 2, t.scales.dtype),
                own_buffer::<N>(Operand::Output(0)),
            ]);
        }
        Ok(Outcome::Launch(launch, output))
    }
}

/// Two launches differ in nothing but the place of the scales, kernel argument number `place`,
/// which is read from the first element of each.
pub open spec fn differ_in_scales<N: Scalars>(
    left: Launch<N>,
    right: Launch<N>,
    place: int,
    left_scales: Layout,
    right_scales: Layout,
    dtype: DType,
) -> bool {
    &&& left.device == right.device
    &&& left.kernel@ == right.kernel@
    &&& left.label@ == right.label@
    &&& left.grid == right.grid
    &&& left.args@.len() == right.args@.len()
    &&& forall|i: int|
        0 <= i < left.args@.len() && i != place ==> #[trigger] left.args@[i] == right.args@[i]
    &&& left.args@[place] == scales_argument::<N>(left_scales, dtype)
    &&& right.args@[place] == scales_argument::<N>(right_scales, dtype)
}

/// The scales as a kernel argument: the bytes of the elements before them are skipped.
pub open spec fn scales_argument<N: Scalars>(scales: Layout, dtype: DType) -> KernelArg<N> {
    KernelArg::Buffer {
        operand: Operand::Argument(2),
        offset_in_bytes: (scales.start_offset * byte_size(dtype)) as usize,
    }
}

/// Where the scales lie in their buffer changes nothing of the scores but where they are read:
/// from their first element, in their own type.
pub proof fn scores_read_scales_where_they_start<N: Scalars>(
    op: RowwiseQkScoresOp<N>,
    left: MetalStep,
    right: MetalStep,
    left_launch: Launch<N>,
    right_launch: Launch<N>,
    left_output: DeviceTensor,
    right_output: DeviceTensor,
)
    requires
        right == (MetalStep { scales_layout: right.scales_layout, ..left }),
        rowwise_qk_metal_result(op, left, Outcome::Launch(left_launch, left_output)),
        rowwise_qk_metal_result(op, right, Outcome::Launch(right_launch, right_output)),
    ensures
        differ_in_scales(
            left_launch,
            right_launch,
            9,
            *left.scales_layout,
            *right.scales_layout,
            left.scales.dtype,
        ),
        left_output.dtype == right_output.dtype,
        left_output.dims@ == right_output.dims@,
{
}

/// Where the scales lie in their buffer changes nothing of the weighted sums but where they are
/// read: from their first element, in their own type.
pub proof fn sums_read_scales_where_they_start<N: Scalars>(
    shape: RowwiseShape,
    left: MetalStep,
    right: MetalStep,
    left_launch: Launch<N>,
    right_launch: Launch<N>,
    left_output: DeviceTensor,
    right_output: DeviceTensor,
)
    requires
        right == (MetalStep { scales_layout: right.scales_layout, ..left }),
        rowwise_sum_metal_result(shape, left, Outcome::Launch(left_launch, left_output)),
        rowwise_sum_metal_result(shape, right, Outcome::Launch(right_launch, right_output)),
    ensures
        differ_in_scales(
            left_launch,
            right_launch,
            8,
            *left.scales_layout,
            *right.scales_layout,
            left.scales.dtype,
        ),
        left_output.dtype == right_output.dtype,
        left_output.dims@ == right_output.dims@,
{
}

/// What is wrong with a call of [`qk_scores_quantized_rowwise`] before a kernel is chosen.
pub open spec fn rowwise_qk_call_fault<N: Scalars>(
    q: Tensor<N>,
    packed_k: Tensor<N>,
    k_scales: Tensor<N>,
    shape: RowwiseShape,
) -> Option<RowwiseError> {
    if shape.repeat_factor == 0 {
        Some(RowwiseError::RepeatFactorZero)
    } else if q.shape().len() != 3 {
        Some(RowwiseError::FirstRank)
    } else if q.shape()[2] != shape.head_dim {
        Some(RowwiseError::HeadDim { got: q.shape()[2], expected: shape.head_dim })
    } else if packed_k.spec_device() != q.spec_device() || k_scales.spec_device()
        != q.spec_device() {
        Some(RowwiseError::DeviceMismatch)
    } else {
        None
    }
}

/// The step of three tensors on a Metal device.
pub open spec fn metal_step<'a>(
    first: &'a MetalData,
    first_layout: &'a Layout,
    packed: &'a MetalData,
    packed_layout: &'a Layout,
    scales: &'a MetalData,
    scales_layout: &'a Layout,
) -> MetalStep<'a> {
    MetalStep { first, first_layout, packed, packed_layout, scales, scales_layout }
}

/// The sizes of a call of [`qk_scores_quantized_rowwise`] can be counted.
pub open spec fn rowwise_qk_countable<N: Scalars>(
    q: Tensor<N>,
    packed_k: Tensor<N>,
    k_scales: Tensor<N>,
    shape: RowwiseShape,
) -> bool {
    rowwise_qk_call_fault(q, packed_k, k_scales, shape) is None ==> match (
        q.storage,
        packed_k.storage,
        k_scales.storage,
    ) {
        (Storage::Host(first), Storage::Host(packed), Storage::Host(scales)) => {
            rowwise_qk_host_countable(
                shape,
                first,
                q.layout,
                packed,
                packed_k.layout,
                scales,
                k_scales.layout,
            )
        },
        (Storage::Metal(first), Storage::Metal(packed), Storage::Metal(scales)) => {
            rowwise_qk_metal_countable(
                shape,
                metal_step(
                    &first,
                    &q.layout,
                    &packed,
                    &packed_k.layout,
                    &scales,
                    &k_scales.layout,
                ),
            )
        },
        _ => true,
    }
}

/// Whether the sizes of a step on the host can be counted.
fn is_qk_host_countable<N: Scalars>(
    shape: &RowwiseShape,
    q: &HostData<N>,
    ql: &Layout,
    packed: &HostData<N>,
    pl: &Layout,
    scales: &HostData<N>,
    sl: &Layout,
) -> (countable: bool)
    requires
        shape.repeat_factor > 0,
        ql.valid(),
        pl.valid(),
        sl.valid(),
    ensures
        countable == rowwise_qk_host_countable(*shape, *q, *ql, *packed, *pl, *scales, *sl),
{
    let heads = match check_query(shape, ql) {
        Ok(heads) => heads,
        Err(_) => {
            return true;
        },
    };
    if pl.dims.len() != 2 {
        return true;
    }
    proof {
        lemma_rank_3(ql.dims@);
    }
    if !are_rows_countable(&heads) {
        return false;
    }
    if product_fits(heads.batch * heads.full_heads, shape.tokens) {
        return true;
    }
    let numbers: bool = match q {
        HostData::F32(_) => true,
        HostData::F16(_) => true,
        HostData::BF16(_) => true,
        _ => false,
    };
    check_cache_shapes(shape, &heads, pl, sl).is_err() || !is_cache_readable::<N>(
        packed,
        pl,
        scales,
        sl,
    ) || !numbers || !ql.is_contiguous()
}

/// Whether the sizes of a step on a Metal device can be counted.
fn is_qk_metal_countable(shape: &RowwiseShape, t: &MetalStep) -> (countable: bool)
    requires
        shape.repeat_factor > 0,
        t.valid(),
    ensures
        countable == rowwise_qk_metal_countable(*shape, *t),
{
    let heads = match check_metal_query(shape, t) {
        Ok(heads) => heads,
        Err(_) => {
            return true;
        },
    };
    proof {
        lemma_rank_3(t.first_layout.dims@);
    }
    if !are_rows_countable(&heads) {
        return false;
    }
    product_fits(heads.batch * heads.full_heads, shape.tokens) || check_cache_shapes(
        shape,
        &heads,
        t.packed_layout,
        t.scales_layout,
    ).is_err() || check_cache_dtypes(t.packed, t.scales).is_err()
        || !t.first.dtype.is_kernel_float()
}

/// Whether the sizes of a call of [`qk_scores_quantized_rowwise`] can be counted.
pub fn is_qk_countable<N: Scalars>(
    q: &Tensor<N>,
    packed_k: &Tensor<N>,
    k_scales: &Tensor<N>,
    shape: &RowwiseShape,
) -> (countable: bool)
    requires
        q.valid(),
        packed_k.valid(),
        k_scales.valid(),
    ensures
        countable == rowwise_qk_countable(*q, *packed_k, *k_scales, *shape),
{
    if shape.repeat_factor == 0 || q.rank() != 3 || q.layout.dims[2] != shape.head_dim
        || packed_k.device() != q.device() || k_scales.device() != q.device() {
        return true;
    }
    match (&q.storage, &packed_k.storage, &k_scales.storage) {
        (Storage::Host(first), Storage::Host(packed), Storage::Host(scales)) => {
            is_qk_host_countable::<N>(
                shape,
                first,
                &q.layout,
                packed,
                &packed_k.layout,
                scales,
                &k_scales.layout,
            )
        },
        (Storage::Metal(first), Storage::Metal(packed), Storage::Metal(scales)) => {
            is_qk_metal_countable(
                shape,
                &MetalStep {
                    first,
                    first_layout: &q.layout,
                    packed,
                    packed_layout: &packed_k.layout,
                    scales,
                    scales_layout: &k_scales.layout,
                },
            )
        },
        _ => true,
    }
}

/// The outcome of [`qk_scores_quantized_rowwise`].
pub open spec fn rowwise_qk_outcome<N: Scalars>(
    q: Tensor<N>,
    packed_k: Tensor<N>,
    k_scales: Tensor<N>,
    shape: RowwiseShape,
    scale: N::F64,
    result: Result<Outcome<N>, RowwiseError>,
) -> bool {
    if let Some(e) = rowwise_qk_call_fault(q, packed_k, k_scales, shape) {
        result == Err::<Outcome<N>, RowwiseError>(e)
    } else {
        exists|single: N::F32| #[trigger]
            call_ensures(N::single, (scale,), single) && match (
                q.storage,
                packed_k.storage,
                k_scales.storage,
            ) {
                (Storage::Host(first), Storage::Host(packed), Storage::Host(scales)) => {
                    match rowwise_qk_host_fault(
                        shape,
                        first,
                        q.layout,
                        packed,
                        packed_k.layout,
                        scales,
                        k_scales.layout,
                    ) {
                        Some(e) => result == Err::<Outcome<N>, RowwiseError>(e),
                        None => result matches Ok(Outcome::Host(out)) && rowwise_qk_host_result(
                            RowwiseQkScoresOp { shape, scale: single },
                            first,
                            q.layout,
                            packed,
                            packed_k.layout,
                            scales,
                            k_scales.layout,
                            out,
                        ),
                    }
                },
                (Storage::Metal(first), Storage::Metal(packed), Storage::Metal(scales)) => {
                    let step = metal_step(
                        &first,
                        &q.layout,
                        &packed,
                        &packed_k.layout,
                        &scales,
                        &k_scales.layout,
                    );
                    match rowwise_qk_metal_fault(shape, step) {
                        Some(e) => result == Err::<Outcome<N>, RowwiseError>(e),
                        None => result matches Ok(outcome) && rowwise_qk_metal_result(
                            RowwiseQkScoresOp { shape, scale: single },
                            step,
                            outcome,
                        ),
                    }
                },
                _ => result == Err::<Outcome<N>, RowwiseError>(RowwiseError::NoCudaKernel),
            }
    }
}

/// Computes the scaled scores of queries and packed keys, without writing the keys out.
///
/// Shapes:
/// - `q`: `[batch, full_heads, head_dim]`
/// - `packed_k`: `[rows, packed_cols]` in `U8`, with `rows = batch * kv_heads * tokens`
/// - `k_scales`: `[rows]` in `F32` or `F16`
///
/// The scores have the shape `[batch, full_heads, tokens]` and the type `F32`.
pub fn qk_scores_quantized_rowwise<N: Scalars>(
    q: &Tensor<N>,
    packed_k: &Tensor<N>,
    k_scales: &Tensor<N>,
    kv_heads: usize,
    repeat_factor: usize,
    tokens: usize,
    head_dim: usize,
    kind: RowwiseQuantKind,
    scale: N::F64,
) -> (result: Result<Outcome<N>, RowwiseError>)
    requires
        q.valid(),
        packed_k.valid(),
        k_scales.valid(),
        rowwise_qk_countable(
            *q,
            *packed_k,
            *k_scales,
            (RowwiseShape { kv_heads, repeat_factor, tokens, head_dim, kind }),
        ),
    ensures
        rowwise_qk_outcome(
            *q,
            *packed_k,
            *k_scales,
            (RowwiseShape { kv_heads, repeat_factor, tokens, head_dim, kind }),
            scale,
            result,
        ),
{
    if repeat_factor == 0 {
        return Err(RowwiseError::RepeatFactorZero);
    }
    let dims = &q.layout.dims;
    if dims.len() != 3 {
        return Err(RowwiseError::FirstRank);
    }
    if dims[2] != head_dim {
        return Err(RowwiseError::HeadDim { got: dims[2], expected: head_dim });
    }
    if packed_k.device() != q.device() || k_scales.device() != q.device() {
        return Err(RowwiseError::DeviceMismatch);
    }
    let shape = RowwiseShape { kv_heads, repeat_factor, tokens, head_dim, kind };
    let op = RowwiseQkScoresOp::<N> { shape, scale: N::single(scale) };
    match (&q.storage, &packed_k.storage, &k_scales.storage) {
        (Storage::Host(first), Storage::Host(packed), Storage::Host(scales)) => match op.cpu_fwd(
            first,
            &q.layout,
            packed,
            &packed_k.layout,
            scales,
            &k_scales.layout,
        ) {
            Ok(out) => Ok(Outcome::Host(out)),
            Err(e) => Err(e),
        },
        (Storage::Metal(first), Storage::Metal(packed), Storage::Metal(scales)) => op.metal_fwd(
            &MetalStep {
                first,
                first_layout: &q.layout,
                packed,
                packed_layout: &packed_k.layout,
                scales,
                scales_layout: &k_scales.layout,
            },
        ),
        _ => Err(RowwiseError::NoCudaKernel),
    }
}

/// What is wrong with a call of [`attn_weighted_sum_quantized_rowwise`] before a kernel is
/// chosen.
pub open spec fn rowwise_sum_call_fault<N: Scalars>(
    attn_probs: Tensor<N>,
    packed_v: Tensor<N>,
    v_scales: Tensor<N>,
    shape: RowwiseShape,
) -> Option<RowwiseError> {
    if shape.repeat_factor == 0 {
        Some(RowwiseError::RepeatFactorZero)
    } else if attn_probs.spec_dtype() != DType::F32 {
        Some(RowwiseError::FirstDType(attn_probs.spec_dtype()))
    } else if packed_v.spec_device() != attn_probs.spec_device() || v_scales.spec_device()
        != attn_probs.spec_device() {
        Some(RowwiseError::DeviceMismatch)
    } else {
        None
    }
}

/// The sizes of a call of [`attn_weighted_sum_quantized_rowwise`] can be counted.
pub open spec fn rowwise_sum_countable<N: Scalars>(
    attn_probs: Tensor<N>,
    packed_v: Tensor<N>,
    v_scales: Tensor<N>,
    shape: RowwiseShape,
) -> bool {
    rowwise_sum_call_fault(attn_probs, packed_v, v_scales, shape) is None ==> match (
        attn_probs.storage,
        packed_v.storage,
        v_scales.storage,
    ) {
        (Storage::Host(first), Storage::Host(packed), Storage::Host(scales)) => {
            rowwise_sum_host_countable(
                shape,
                first,
                attn_probs.layout,
                packed,
                packed_v.layout,
                scales,
                v_scales.layout,
            )
        },
        (Storage::Metal(first), Storage::Metal(packed), Storage::Metal(scales)) => {
            rowwise_sum_metal_countable(
                shape,
                metal_step(
                    &first,
                    &attn_probs.layout,
                    &packed,
                    &packed_v.layout,
                    &scales,
                    &v_scales.layout,
                ),
            )
        },
        _ => true,
    }
}

/// Whether the sizes of a step on the host can be counted.
fn is_sum_host_countable<N: Scalars>(
    op: &RowwiseAttnWeightedSumOp,
    attn: &HostData<N>,
    al: &Layout,
    packed: &HostData<N>,
    pl: &Layout,
    scales: &HostData<N>,
    sl: &Layout,
) -> (countable: bool)
    requires
        op.shape.repeat_factor > 0,
        al.valid(),
        pl.valid(),
        sl.valid(),
    ensures
        countable == rowwise_sum_host_countable(op.shape, *attn, *al, *packed, *pl, *scales, *sl),
{
    let heads = match op.check_attn(al) {
        Ok(heads) => heads,
        Err(_) => {
            return true;
        },
    };
    proof {
        lemma_rank_3(al.dims@);
    }
    if !are_rows_countable(&heads) {
        return false;
    }
    if product_fits(heads.batch * heads.full_heads, op.shape.head_dim) {
        return true;
    }
    let single: bool = match attn {
        HostData::F32(_) => true,
        _ => false,
    };
    check_cache_shapes(&op.shape, &heads, pl, sl).is_err() || !single || !al.is_contiguous()
        || !is_cache_readable::<N>(packed, pl, scales, sl)
}

/// Whether the sizes of a step on a Metal device can be counted.
fn is_sum_metal_countable(op: &RowwiseAttnWeightedSumOp, t: &MetalStep) -> (countable: bool)
    requires
        op.shape.repeat_factor > 0,
        t.valid(),
    ensures
        countable == rowwise_sum_metal_countable(op.shape, *t),
{
    if check_placement(t).is_err() || t.first.dtype != DType::F32 || check_cache_dtypes(
        t.packed,
        t.scales,
    ).is_err() {
        return true;
    }
    let heads = match op.check_attn(t.first_layout) {
        Ok(heads) => heads,
        Err(_) => {
            return true;
        },
    };
    proof {
        lemma_rank_3(t.first_layout.dims@);
    }
    are_rows_countable(&heads) && (product_fits(
        heads.batch * heads.full_heads,
        op.shape.head_dim,
    ) || check_cache_shapes(&op.shape, &heads, t.packed_layout, t.scales_layout).is_err())
}

/// Whether the sizes of a call of [`attn_weighted_sum_quantized_rowwise`] can be counted.
pub fn is_sum_countable<N: Scalars>(
    attn_probs: &Tensor<N>,
    packed_v: &Tensor<N>,
    v_scales: &Tensor<N>,
    shape: &RowwiseShape,
) -> (countable: bool)
    requires
        attn_probs.valid(),
        packed_v.valid(),
        v_scales.valid(),
    ensures
        countable == rowwise_sum_countable(*attn_probs, *packed_v, *v_scales, *shape),
{
    if shape.repeat_factor == 0 || attn_probs.dtype() != DType::F32 || packed_v.device()
        != attn_probs.device() || v_scales.device() != attn_probs.device() {
        return true;
    }
    let op = RowwiseAttnWeightedSumOp { shape: *shape };
    match (&attn_probs.storage, &packed_v.storage, &v_scales.storage) {
        (Storage::Host(first), Storage::Host(packed), Storage::Host(scales)) => {
            is_sum_host_countable::<N>(
                &op,
                first,
                &attn_probs.layout,
                packed,
                &packed_v.layout,
                scales,
                &v_scales.layout,
            )
        },
        (Storage::Metal(first), Storage::Metal(packed), Storage::Metal(scales)) => {
            is_sum_metal_countable(
                &op,
                &MetalStep {
                    first,
                    first_layout: &attn_probs.layout,
                    packed,
                    packed_layout: &packed_v.layout,
                    scales,
                    scales_layout: &v_scales.layout,
                },
            )
        },
        _ => true,
    }
}

/// The outcome of [`attn_weighted_sum_quantized_rowwise`].
pub open spec fn rowwise_sum_outcome<N: Scalars>(
    attn_probs: Tensor<N>,
    packed_v: Tensor<N>,
    v_scales: Tensor<N>,
    shape: RowwiseShape,
    result: Result<Outcome<N>, RowwiseError>,
) -> bool {
    if let Some(e) = rowwise_sum_call_fault(attn_probs, packed_v, v_scales, shape) {
        result == Err::<Outcome<N>, RowwiseError>(e)
    } else {
        match (attn_probs.storage, packed_v.storage, v_scales.storage) {
            (Storage::Host(first), Storage::Host(packed), Storage::Host(scales)) => {
                match rowwise_sum_host_fault(
                    shape,
                    first,
                    attn_probs.layout,
                    packed,
                    packed_v.layout,
                    scales,
                    v_scales.layout,
                ) {
                    Some(e) => result == Err::<Outcome<N>, RowwiseError>(e),
                    None => result matches Ok(Outcome::Host(out)) && rowwise_sum_host_result(
                        shape,
                        first,
                        attn_probs.layout,
                        packed,
                        packed_v.layout,
                        scales,
                        v_scales.layout,
                        out,
                    ),
                }
            },
            (Storage::Metal(first), Storage::Metal(packed), Storage::Metal(scales)) => {
                let step = metal_step(
                    &first,
                    &attn_probs.layout,
                    &packed,
                    &packed_v.layout,
                    &scales,
                    &v_scales.layout,
                );
                match rowwise_sum_metal_fault(shape, step) {
                    Some(e) => result == Err::<Outcome<N>, RowwiseError>(e),
                    None => result matches Ok(outcome) && rowwise_sum_metal_result(
                        shape,
                        step,
                        outcome,
                    ),
                }
            },
            _ => result == Err::<Outcome<N>, RowwiseError>(RowwiseError::NoCudaKernel),
        }
    }
}

/// Sums packed values, weighted by attention probabilities.
///
/// Shapes:
/// - `attn_probs`: `[batch, full_heads, tokens]` in `F32`
/// - `packed_v`: `[rows, packed_cols]` in `U8`, with `rows = batch * kv_heads * tokens`
/// - `v_scales`: `[rows]` in `F32` or `F16`
///
/// The sums have the shape `[batch, full_heads, head_dim]` and the type `F32`.
pub fn attn_weighted_sum_quantized_rowwise<N: Scalars>(
    attn_probs: &Tensor<N>,
    packed_v: &Tensor<N>,
    v_scales: &Tensor<N>,
    kv_heads: usize,
    repeat_factor: usize,
    tokens: usize,
    head_dim: usize,
    kind: RowwiseQuantKind,
) -> (result: Result<Outcome<N>, RowwiseError>)
    requires
        attn_probs.valid(),
        packed_v.valid(),
        v_scales.valid(),
        rowwise_sum_countable(
            *attn_probs,
            *packed_v,
            *v_scales,
            (RowwiseShape { kv_heads, repeat_factor, tokens, head_dim, kind }),
        ),
    ensures
        rowwise_sum_outcome(
            *attn_probs,
            *packed_v,
            *v_scales,
            (RowwiseShape { kv_heads, repeat_factor, tokens, head_dim, kind }),
            result,
        ),
{
    if repeat_factor == 0 {
        return Err(RowwiseError::RepeatFactorZero);
    }
    if attn_probs.dtype() != DType::F32 {
        return Err(RowwiseError::FirstDType(attn_probs.dtype()));
    }
    if packed_v.device() != attn_probs.device() || v_scales.device() != attn_probs.device() {
        return Err(RowwiseError::DeviceMismatch);
    }
    let op = RowwiseAttnWeightedSumOp {
        shape: RowwiseShape { kv_heads, repeat_factor, tokens, head_dim, kind },
    };
    match (&attn_probs.storage, &packed_v.storage, &v_scales.storage) {
        (Storage::Host(first), Storage::Host(packed), Storage::Host(scales)) => match op.cpu_fwd::<
            N,
        >(first, &attn_probs.layout, packed, &packed_v.layout, scales, &v_scales.layout) {
            Ok(out) => Ok(Outcome::Host(out)),
            Err(e) => Err(e),
        },
        (Storage::Metal(first), Storage::Metal(packed), Storage::Metal(scales)) => op.metal_fwd::<
            N,
        >(
            &MetalStep {
                first,
                first_layout: &attn_probs.layout,
                packed,
                packed_layout: &packed_v.layout,
                scales,
                scales_layout: &v_scales.layout,
            },
        ),
        _ => Err(RowwiseError::NoCudaKernel),
    }
}

} // verus!
