//! Attention over a cache of numbers.
use crate::arith::product_fits;
use crate::dtype::{is_kernel_float, DType};
use crate::host::{contiguous_wide, is_float, widens};
use crate::kv_attn::attend::{
    cpu_scores, cpu_weighted_sums, dense_model, scores, weighted_sums, DenseCells,
};
use crate::kv_attn::heads::Heads;
use crate::launch::{
    argument, argument_buffer, collect_size_args, first_oversize, float_kernel, float_tag,
    own_buffer, size_args, DeviceTensor, Grid, KernelArg, Launch, Operand, Outcome, Quantity,
};
use crate::layout::{lemma_rank_3, lemma_rank_4, Layout};
use crate::scalar::Scalars;
use crate::tensor::{
    addressable, HostData, HostTensor, HostVec, MetalData, Storage, Tensor,
};
use vstd::prelude::*;

verus! {

/// A tensor that has to be contiguous.
#[derive(Clone, Copy, Debug, PartialEq, Eq, Structural)]
pub enum DenseOperand {
    Q,
    K,
    AttnProbs,
    V,
}

/// Why attention over numbers is refused.
#[derive(Clone, Copy, Debug, PartialEq, Eq, Structural)]
pub enum DenseError {
    DeviceMismatch,
    DTypeMismatch { q: DType, k: DType },
    /// The probabilities are not in single precision.
    AttnDType(DType),
    /// The two tensors have not the ranks three and four.
    Ranks,
    FirstRank,
    SecondRank,
    ShapeMismatch,
    DTypes,
    NotContiguous(DenseOperand),
    LayoutsNotContiguous,
    MetalDeviceMismatch,
    KernelDType(DType),
    TooLarge(Quantity),
    NoCudaKernel,
}

/// A query of one row per head, over a cache with a head for each of them.
pub open spec fn dense_heads(b: usize, h: usize, t: usize, d: usize) -> Heads {
    Heads { batch: b, full_heads: h, kv_heads: h, repeat_factor: 1, tokens: t, head_dim: d }
}

/// What is wrong with the shapes of a query `[b, h, d]` and keys `[b, h, t, d]`.
pub open spec fn qk_shape_fault(q: Seq<usize>, k: Seq<usize>) -> Option<DenseError> {
    if q.len() != 3 {
        Some(DenseError::FirstRank)
    } else if k.len() != 4 {
        Some(DenseError::SecondRank)
    } else if q[0] != k[0] || q[1] != k[1] || q[2] != k[3] {
        Some(DenseError::ShapeMismatch)
    } else {
        None
    }
}

pub fn parse_qk_shapes(q: &Layout, k: &Layout) -> (parsed: Result<Heads, DenseError>)
    ensures
        match qk_shape_fault(q.dims@, k.dims@) {
            Some(e) => parsed == Err::<Heads, DenseError>(e),
            None => parsed == Ok::<Heads, DenseError>(
                dense_heads(q.dims@[0], q.dims@[1], k.dims@[2], q.dims@[2]),
            ),
        },
{
    if q.dims.len() != 3 {
        return Err(DenseError::FirstRank);
    }
    if k.dims.len() != 4 {
        return Err(DenseError::SecondRank);
    }
    let (b, h, d): (usize, usize, usize) = (q.dims[0], q.dims[1], q.dims[2]);
    if b != k.dims[0] || h != k.dims[1] || d != k.dims[3] {
        return Err(DenseError::ShapeMismatch);
    }
    Ok(
        Heads {
            batch: b,
            full_heads: h,
            kv_heads: h,
            repeat_factor: 1,
            tokens: k.dims[2],
            head_dim: d,
        },
    )
}

/// What is wrong with the shapes of probabilities `[b, h, t]` and values `[b, h, t, d]`.
pub open spec fn attn_v_shape_fault(attn: Seq<usize>, v: Seq<usize>) -> Option<DenseError> {
    if attn.len() != 3 {
        Some(DenseError::FirstRank)
    } else if v.len() != 4 {
        Some(DenseError::SecondRank)
    } else if attn[0] != v[0] || attn[1] != v[1] || attn[2] != v[2] {
        Some(DenseError::ShapeMismatch)
    } else {
        None
    }
}

pub fn parse_attn_v_shapes(attn: &Layout, v: &Layout) -> (parsed: Result<Heads, DenseError>)
    ensures
        match attn_v_shape_fault(attn.dims@, v.dims@) {
            Some(e) => parsed == Err::<Heads, DenseError>(e),
            None => parsed == Ok::<Heads, DenseError>(
                dense_heads(attn.dims@[0], attn.dims@[1], attn.dims@[2], v.dims@[3]),
            ),
        },
{
    if attn.dims.len() != 3 {
        return Err(DenseError::FirstRank);
    }
    if v.dims.len() != 4 {
        return Err(DenseError::SecondRank);
    }
    let (b, h, t): (usize, usize, usize) = (attn.dims[0], attn.dims[1], attn.dims[2]);
    if b != v.dims[0] || h != v.dims[1] || t != v.dims[2] {
        return Err(DenseError::ShapeMismatch);
    }
    Ok(
        Heads {
            batch: b,
            full_heads: h,
            kv_heads: h,
            repeat_factor: 1,
            tokens: t,
            head_dim: v.dims[3],
        },
    )
}

/// Scaled scores of queries and keys.
pub struct QkScoresOp<N: Scalars> {
    pub scale: N::F32,
}

/// What is wrong with computing scores on the host.
pub open spec fn qk_host_fault<N: Scalars>(
    q: HostData<N>,
    ql: Layout,
    k: HostData<N>,
    kl: Layout,
) -> Option<DenseError> {
    if let Some(e) = qk_shape_fault(ql.dims@, kl.dims@) {
        Some(e)
    } else if !is_float(q) || k.spec_dtype() != q.spec_dtype() {
        Some(DenseError::DTypes)
    } else if !ql.contiguous() {
        Some(DenseError::NotContiguous(DenseOperand::Q))
    } else if !kl.contiguous() {
        Some(DenseError::NotContiguous(DenseOperand::K))
    } else {
        None
    }
}

/// `out` holds the scores, in the shape `[b, h, t]`.
pub open spec fn qk_host_result<N: Scalars>(
    q: HostData<N>,
    ql: Layout,
    k: HostData<N>,
    kl: Layout,
    scale: N::F32,
    out: HostTensor<N>,
) -> bool {
    let heads = dense_heads(ql.dims@[0], ql.dims@[1], kl.dims@[2], ql.dims@[2]);
    &&& out.dims@ == seq![heads.batch, heads.full_heads, heads.tokens]
    &&& out.data matches HostVec::F32(values) && exists|wide_q: Seq<N::F32>, wide_k: Seq<N::F32>|
        #![trigger widens::<N>(q, ql, wide_q), widens::<N>(k, kl, wide_k)]
        widens::<N>(q, ql, wide_q) && widens::<N>(k, kl, wide_k) && scores::<N>(
            wide_q,
            dense_model::<N>(wide_k, heads.head_dim as int),
            heads,
            scale,
            values@,
        )
}

/// What is wrong with computing scores on a Metal device.
pub open spec fn qk_metal_fault(
    q: MetalData,
    ql: Layout,
    k: MetalData,
    kl: Layout,
) -> Option<DenseError> {
    if !ql.contiguous() || !kl.contiguous() {
        Some(DenseError::LayoutsNotContiguous)
    } else if q.device != k.device {
        Some(DenseError::MetalDeviceMismatch)
    } else if let Some(e) = qk_shape_fault(ql.dims@, kl.dims@) {
        Some(e)
    } else {
        let heads = dense_heads(ql.dims@[0], ql.dims@[1], kl.dims@[2], ql.dims@[2]);
        if heads.query_rows() * heads.tokens == 0 {
            None
        } else if q.dtype != k.dtype {
            Some(DenseError::DTypeMismatch { q: q.dtype, k: k.dtype })
        } else if !is_kernel_float(q.dtype) {
            Some(DenseError::KernelDType(q.dtype))
        } else {
            match first_oversize(dense_sizes(heads)) {
                Some(quantity) => Some(DenseError::TooLarge(quantity)),
                None => None,
            }
        }
    }
}

/// The sizes that the kernels take.
pub open spec fn dense_sizes(heads: Heads) -> Seq<(usize, Quantity)> {
    seq![
        (heads.query_rows() as usize, Quantity::Bh),
        (heads.tokens, Quantity::T),
        (heads.head_dim, Quantity::D),
    ]
}

/// What scores on a Metal device come to.
pub open spec fn qk_metal_result<N: Scalars>(
    q: MetalData,
    ql: Layout,
    kl: Layout,
    scale: N::F32,
    outcome: Outcome<N>,
) -> bool {
    let heads = dense_heads(ql.dims@[0], ql.dims@[1], kl.dims@[2], ql.dims@[2]);
    let dims = seq![heads.batch, heads.full_heads, heads.tokens];
    let items = heads.query_rows() * heads.tokens;
    match outcome {
        Outcome::Host(_) => false,
        Outcome::Empty(output) => items == 0 && output.describes(DType::F32, dims),
        Outcome::Launch(launch, output) => {
            &&& items > 0
            &&& output.describes(DType::F32, dims)
            &&& launch.describes(
                q.device,
                "qk_scores_"@ + float_tag(q.dtype),
                "candelora_kv_attn_qk"@,
                size_args::<N>(dense_sizes(heads)) + seq![
                    KernelArg::F32(scale),
                    argument::<N>(ql, 0, q.dtype),
                    argument::<N>(kl, 1, q.dtype),
                    own_buffer::<N>(Operand::Output(0)),
                ],
                Grid::PerItem(items as usize),
            )
        },
    }
}

/// The sizes of two tensors that fit each other can be counted.
pub proof fn lemma_dense_countable(first: Layout, cache: Layout, heads: Heads)
    requires
        first.valid(),
        cache.valid(),
        first.dims@.len() == 3,
        cache.dims@.len() == 4,
        cache.dims@ == seq![heads.batch, heads.full_heads, heads.tokens, heads.head_dim],
        heads == dense_heads(heads.batch, heads.full_heads, heads.tokens, heads.head_dim),
        first.dims@[0] == heads.batch,
        first.dims@[1] == heads.full_heads,
    ensures
        heads.grouped(),
        heads.countable(),
        first.count() == heads.query_rows() * first.dims@[2],
        cache.count() == heads.cache_rows() * heads.head_dim,
{
    lemma_rank_3(first.dims@);
    lemma_rank_4(cache.dims@);
}

impl<N: Scalars> QkScoresOp<N> {
    pub fn name(&self) -> (name: &'static str)
        ensures
            name@ == "candelora-kv-attn-qk-scores"@,
    {
        "candelora-kv-attn-qk-scores"
    }

    pub fn cpu_fwd(&self, q: &HostData<N>, ql: &Layout, k: &HostData<N>, kl: &Layout) -> (result:
        Result<HostTensor<N>, DenseError>)
        requires
            ql.valid(),
            kl.valid(),
            ql.fits(q.spec_len()),
            kl.fits(k.spec_len()),
            q.valid(),
            k.valid(),
        ensures
            match qk_host_fault(*q, *ql, *k, *kl) {
                Some(e) => result == Err::<HostTensor<N>, DenseError>(e),
                None => result matches Ok(out) && qk_host_result(
                    *q,
                    *ql,
                    *k,
                    *kl,
                    self.scale,
                    out,
                ),
            },
    {
        let heads = match parse_qk_shapes(ql, kl) {
            Ok(heads) => heads,
            Err(e) => {
                return Err(e);
            },
        };
        match (q, k) {
            (HostData::F32(_), HostData::F32(_)) => {},
            (HostData::F16(_), HostData::F16(_)) => {},
            (HostData::BF16(_), HostData::BF16(_)) => {},
            _ => {
                return Err(DenseError::DTypes);
            },
        }
        let wide_q = match contiguous_wide::<N>(q, ql) {
            Some(wide) => wide,
            None => {
                return Err(DenseError::NotContiguous(DenseOperand::Q));
            },
        };
        let wide_k = match contiguous_wide::<N>(k, kl) {
            Some(wide) => wide,
            None => {
                return Err(DenseError::NotContiguous(DenseOperand::K));
            },
        };
        proof {
            assert(kl.dims@ =~= seq![heads.batch, heads.full_heads, heads.tokens, heads.head_dim]);
            lemma_dense_countable(*ql, *kl, heads);
        }
        let cells = DenseCells::<N> { values: wide_k.as_slice(), cols: heads.head_dim };
        let values = cpu_scores::<N, DenseCells<N>>(
            wide_q.as_slice(),
            &cells,
            &heads,
            self.scale,
        );
        let dims: Vec<usize> = vec![heads.batch, heads.full_heads, heads.tokens];
        proof {
            assert(widens::<N>(*q, *ql, wide_q@));
            assert(widens::<N>(*k, *kl, wide_k@));
        }
        Ok(HostTensor { data: HostVec::F32(values), dims })
    }

    pub fn metal_fwd(&self, q: &MetalData, ql: &Layout, k: &MetalData, kl: &Layout) -> (result:
        Result<Outcome<N>, DenseError>)
        requires
            ql.valid(),
            kl.valid(),
            addressable(ql.start_offset, q.dtype),
            addressable(kl.start_offset, k.dtype),
        ensures
            match qk_metal_fault(*q, *ql, *k, *kl) {
                Some(e) => result == Err::<Outcome<N>, DenseError>(e),
                None => result matches Ok(outcome) && qk_metal_result(
                    *q,
                    *ql,
                    *kl,
                    self.scale,
                    outcome,
                ),
            },
    {
        if !ql.is_contiguous() || !kl.is_contiguous() {
            return Err(DenseError::LayoutsNotContiguous);
        }
        if q.device != k.device {
            return Err(DenseError::MetalDeviceMismatch);
        }
        let heads = match parse_qk_shapes(ql, kl) {
            Ok(heads) => heads,
            Err(e) => {
                return Err(e);
            },
        };
        proof {
            assert(kl.dims@ =~= seq![heads.batch, heads.full_heads, heads.tokens, heads.head_dim]);
            lemma_dense_countable(*ql, *kl, heads);
        }
        let rows: usize = heads.batch * heads.full_heads;
        let items: usize = rows * heads.tokens;
        let dims: Vec<usize> = vec![heads.batch, heads.full_heads, heads.tokens];
        let output = DeviceTensor { dtype: DType::F32, dims };
        if items == 0 {
            return Ok(Outcome::Empty(output));
        }
        if q.dtype != k.dtype {
            return Err(DenseError::DTypeMismatch { q: q.dtype, k: k.dtype });
        }
        if !q.dtype.is_kernel_float() {
            return Err(DenseError::KernelDType(q.dtype));
        }
        let sizes: Vec<(usize, Quantity)> = vec![
            (rows, Quantity::Bh),
            (heads.tokens, Quantity::T),
            (heads.head_dim, Quantity::D),
        ];
        proof {
            assert(sizes@ =~= dense_sizes(heads));
        }
        let mut args = match collect_size_args::<N>(sizes.as_slice()) {
            Ok(args) => args,
            Err(quantity) => {
                return Err(DenseError::TooLarge(quantity));
            },
        };
        args.push(KernelArg::F32(self.scale));
        args.push(argument_buffer::<N>(ql, 0, q.dtype));
        args.push(argument_buffer::<N>(kl, 1, q.dtype));
        args.push(KernelArg::Buffer { operand: Operand::Output(0), offset_in_bytes: 0 });
        let launch = Launch {
            device: q.device,
            kernel: float_kernel("qk_scores_", q.dtype),
            label: "candelora_kv_attn_qk",
            args,
            grid: Grid::PerItem(items),
        };
        proof {
            assert(launch.args@ =~= size_args::<N>(dense_sizes(heads)) + seq![
                KernelArg::F32(self.scale),
                argument::<N>(*ql, 0, q.dtype),
                argument::<N>(*kl, 1, q.dtype),
                own_buffer::<N>(Operand::Output(0)),
            ]);
        }
        Ok(Outcome::Launch(launch, output))
    }
}

/// Sums of values, weighted by probabilities.
pub struct AttnWeightedSumOp;

/// What is wrong with computing weighted sums on the host.
pub open spec fn sum_host_fault<N: Scalars>(
    attn: HostData<N>,
    al: Layout,
    v: HostData<N>,
    vl: Layout,
) -> Option<DenseError> {
    if let Some(e) = attn_v_shape_fault(al.dims@, vl.dims@) {
        Some(e)
    } else if !(attn is F32) || !is_float(v) {
        Some(DenseError::DTypes)
    } else if !al.contiguous() {
        Some(DenseError::NotContiguous(DenseOperand::AttnProbs))
    } else if !vl.contiguous() {
        Some(DenseError::NotContiguous(DenseOperand::V))
    } else {
        None
    }
}

/// `out` holds the weighted sums, in the shape `[b, h, d]`.
pub open spec fn sum_host_result<N: Scalars>(
    attn: HostData<N>,
    al: Layout,
    v: HostData<N>,
    vl: Layout,
    out: HostTensor<N>,
) -> bool {
    let heads = dense_heads(al.dims@[0], al.dims@[1], al.dims@[2], vl.dims@[3]);
    &&& out.dims@ == seq![heads.batch, heads.full_heads, heads.head_dim]
    &&& out.data matches HostVec::F32(values) && exists|weights: Seq<N::F32>, wide_v: Seq<N::F32>|
        #![trigger widens::<N>(attn, al, weights), widens::<N>(v, vl, wide_v)]
        widens::<N>(attn, al, weights) && widens::<N>(v, vl, wide_v) && weighted_sums::<N>(
            weights,
            dense_model::<N>(wide_v, heads.head_dim as int),
            heads,
            values@,
        )
}

/// What is wrong with computing weighted sums on a Metal device.
pub open spec fn sum_metal_fault(
    attn: MetalData,
    al: Layout,
    v: MetalData,
    vl: Layout,
) -> Option<DenseError> {
    if !al.contiguous() || !vl.contiguous() {
        Some(DenseError::LayoutsNotContiguous)
    } else if attn.device != v.device {
        Some(DenseError::MetalDeviceMismatch)
    } else if attn.dtype != DType::F32 {
        Some(DenseError::AttnDType(attn.dtype))
    } else if let Some(e) = attn_v_shape_fault(al.dims@, vl.dims@) {
        Some(e)
    } else {
        let heads = dense_heads(al.dims@[0], al.dims@[1], al.dims@[2], vl.dims@[3]);
        if heads.query_rows() * heads.head_dim == 0 {
            None
        } else if !is_kernel_float(v.dtype) {
            Some(DenseError::KernelDType(v.dtype))
        } else {
            match first_oversize(dense_sizes(heads)) {
                Some(quantity) => Some(DenseError::TooLarge(quantity)),
                None => None,
            }
        }
    }
}

/// What weighted sums on a Metal device come to.
pub open spec fn sum_metal_result<N: Scalars>(
    attn: MetalData,
    al: Layout,
    v: MetalData,
    vl: Layout,
    outcome: Outcome<N>,
) -> bool {
    let heads = dense_heads(al.dims@[0], al.dims@[1], al.dims@[2], vl.dims@[3]);
    let dims = seq![heads.batch, heads.full_heads, heads.head_dim];
    let items = heads.query_rows() * heads.head_dim;
    match outcome {
        Outcome::Host(_) => false,
        Outcome::Empty(output) => items == 0 && output.describes(DType::F32, dims),
        Outcome::Launch(launch, output) => {
            &&& items > 0
            &&& output.describes(DType::F32, dims)
            &&& launch.describes(
                attn.device,
                "attn_weighted_sum_v_"@ + float_tag(v.dtype),
                "candelora_kv_attn_weighted_sum"@,
                size_args::<N>(dense_sizes(heads)) + seq![
                    argument::<N>(al, 0, DType::F32),
                    argument::<N>(vl, 1, v.dtype),
                    own_buffer::<N>(Operand::Output(0)),
                ],
                Grid::PerItem(items as usize),
            )
        },
    }
}

/// The sums can be counted, once the shapes are found to fit.
pub open spec fn sums_countable(attn: Seq<usize>, v: Seq<usize>) -> bool {
    attn_v_shape_fault(attn, v) is None ==> attn[0] * attn[1] * v[3] <= usize::MAX
}

impl AttnWeightedSumOp {
    pub fn name(&self) -> (name: &'static str)
        ensures
            name@ == "candelora-kv-attn-weighted-sum"@,
    {
        "candelora-kv-attn-weighted-sum"
    }

    pub fn cpu_fwd<N: Scalars>(
        &self,
        attn: &HostData<N>,
        al: &Layout,
        v: &HostData<N>,
        vl: &Layout,
    ) -> (result: Result<HostTensor<N>, DenseError>)
        requires
            al.valid(),
            vl.valid(),
            al.fits(attn.spec_len()),
            vl.fits(v.spec_len()),
            attn.valid(),
            v.valid(),
            sum_host_fault(*attn, *al, *v, *vl) is None ==> sums_countable(al.dims@, vl.dims@),
        ensures
            match sum_host_fault(*attn, *al, *v, *vl) {
                Some(e) => result == Err::<HostTensor<N>, DenseError>(e),
                None => result matches Ok(out) && sum_host_result(*attn, *al, *v, *vl, out),
            },
    {
        let heads = match parse_attn_v_shapes(al, vl) {
            Ok(heads) => heads,
            Err(e) => {
                return Err(e);
            },
        };
        match (attn, v) {
            (HostData::F32(_), HostData::F32(_)) => {},
            (HostData::F32(_), HostData::F16(_)) => {},
            (HostData::F32(_), HostData::BF16(_)) => {},
            _ => {
                return Err(DenseError::DTypes);
            },
        }
        let weights = match contiguous_wide::<N>(attn, al) {
            Some(wide) => wide,
            None => {
                return Err(DenseError::NotContiguous(DenseOperand::AttnProbs));
            },
        };
        let wide_v = match contiguous_wide::<N>(v, vl) {
            Some(wide) => wide,
            None => {
                return Err(DenseError::NotContiguous(DenseOperand::V));
            },
        };
        proof {
            assert(vl.dims@ =~= seq![heads.batch, heads.full_heads, heads.tokens, heads.head_dim]);
            lemma_dense_countable(*al, *vl, heads);
        }
        let cells = DenseCells::<N> { values: wide_v.as_slice(), cols: heads.head_dim };
        let values = cpu_weighted_sums::<N, DenseCells<N>>(weights.as_slice(), &cells, &heads);
        let dims: Vec<usize> = vec![heads.batch, heads.full_heads, heads.head_dim];
        proof {
            assert(widens::<N>(*attn, *al, weights@));
            assert(widens::<N>(*v, *vl, wide_v@));
        }
        Ok(HostTensor { data: HostVec::F32(values), dims })
    }

    pub fn metal_fwd<N: Scalars>(
        &self,
        attn: &MetalData,
        al: &Layout,
        v: &MetalData,
        vl: &Layout,
    ) -> (result: Result<Outcome<N>, DenseError>)
        requires
            al.valid(),
            vl.valid(),
            addressable(al.start_offset, attn.dtype),
            addressable(vl.start_offset, v.dtype),
            al.contiguous() && vl.contiguous() && attn.device == v.device && attn.dtype
                == DType::F32 ==> sums_countable(al.dims@, vl.dims@),
        ensures
            match sum_metal_fault(*attn, *al, *v, *vl) {
                Some(e) => result == Err::<Outcome<N>, DenseError>(e),
                None => result matches Ok(outcome) && sum_metal_result(
                    *attn,
                    *al,
                    *v,
                    *vl,
                    outcome,
                ),
            },
    {
        if !al.is_contiguous() || !vl.is_contiguous() {
            return Err(DenseError::LayoutsNotContiguous);
        }
        if attn.device != v.device {
            return Err(DenseError::MetalDeviceMismatch);
        }
        if attn.dtype != DType::F32 {
            return Err(DenseError::AttnDType(attn.dtype));
        }
        let heads = match parse_attn_v_shapes(al, vl) {
            Ok(heads) => heads,
            Err(e) => {
                return Err(e);
            },
        };
        proof {
            assert(vl.dims@ =~= seq![heads.batch, heads.full_heads, heads.tokens, heads.head_dim]);
            lemma_dense_countable(*al, *vl, heads);
        }
        let rows: usize = heads.batch * heads.full_heads;
        let items: usize = rows * heads.head_dim;
        let dims: Vec<usize> = vec![heads.batch, heads.full_heads, heads.head_dim];
        let output = DeviceTensor { dtype: DType::F32, dims };
        if items == 0 {
            return Ok(Outcome::Empty(output));
        }
        if !v.dtype.is_kernel_float() {
            return Err(DenseError::KernelDType(v.dtype));
        }
        let sizes: Vec<(usize, Quantity)> = vec![
            (rows, Quantity::Bh),
            (heads.tokens, Quantity::T),
            (heads.head_dim, Quantity::D),
        ];
        proof {
            assert(sizes@ =~= dense_sizes(heads));
        }
        let mut args = match collect_size_args::<N>(sizes.as_slice()) {
            Ok(args) => args,
            Err(quantity) => {
                return Err(DenseError::TooLarge(quantity));
            },
        };
        args.push(argument_buffer::<N>(al, 0, DType::F32));
        args.push(argument_buffer::<N>(vl, 1, v.dtype));
        args.push(KernelArg::Buffer { operand: Operand::Output(0), offset_in_bytes: 0 });
        let launch = Launch {
            device: attn.device,
            kernel: float_kernel("attn_weighted_sum_v_", v.dtype),
            label: "candelora_kv_attn_weighted_sum",
            args,
            grid: Grid::PerItem(items),
        };
        proof {
            assert(launch.args@ =~= size_args::<N>(dense_sizes(heads)) + seq![
                argument::<N>(*al, 0, DType::F32),
                argument::<N>(*vl, 1, v.dtype),
                own_buffer::<N>(Operand::Output(0)),
            ]);
        }
        Ok(Outcome::Launch(launch, output))
    }
}

/// What is wrong with a call of [`qk_scores`] before a kernel is chosen.
pub open spec fn qk_call_fault<N: Scalars>(q: Tensor<N>, k: Tensor<N>) -> Option<DenseError> {
    if q.spec_device() != k.spec_device() {
        Some(DenseError::DeviceMismatch)
    } else if q.spec_dtype() != k.spec_dtype() {
        Some(DenseError::DTypeMismatch { q: q.spec_dtype(), k: k.spec_dtype() })
    } else if q.shape().len() != 3 || k.shape().len() != 4 {
        Some(DenseError::Ranks)
    } else {
        None
    }
}

/// The outcome of [`qk_scores`].
pub open spec fn qk_outcome<N: Scalars>(
    q: Tensor<N>,
    k: Tensor<N>,
    scale: N::F64,
    result: Result<Outcome<N>, DenseError>,
) -> bool {
    if let Some(e) = qk_call_fault(q, k) {
        result == Err::<Outcome<N>, DenseError>(e)
    } else {
        exists|single: N::F32| #[trigger]
            call_ensures(N::single, (scale,), single) && match (q.storage, k.storage) {
                (Storage::Host(qs), Storage::Host(ks)) => match qk_host_fault(
                    qs,
                    q.layout,
                    ks,
                    k.layout,
                ) {
                    Some(e) => result == Err::<Outcome<N>, DenseError>(e),
                    None => result matches Ok(Outcome::Host(out)) && qk_host_result(
                        qs,
                        q.layout,
                        ks,
                        k.layout,
                        single,
                        out,
                    ),
                },
                (Storage::Metal(qs), Storage::Metal(ks)) => match qk_metal_fault(
                    qs,
                    q.layout,
                    ks,
                    k.layout,
                ) {
                    Some(e) => result == Err::<Outcome<N>, DenseError>(e),
                    None => result matches Ok(outcome) && qk_metal_result(
                        qs,
                        q.layout,
                        k.layout,
                        single,
                        outcome,
                    ),
                },
                _ => result == Err::<Outcome<N>, DenseError>(DenseError::NoCudaKernel),
            }
    }
}

/// Computes the scaled scores of queries and keys.
///
/// Shapes:
/// - `q`: `[batch, heads, dim]`
/// - `k`: `[batch, heads, tokens, dim]`
///
/// The scores have the shape `[batch, heads, tokens]` and the type `F32`.
pub fn qk_scores<N: Scalars>(q: &Tensor<N>, k: &Tensor<N>, scale: N::F64) -> (result: Result<
    Outcome<N>,
    DenseError,
>)
    requires
        q.valid(),
        k.valid(),
    ensures
        qk_outcome(*q, *k, scale, result),
{
    if q.device() != k.device() {
        return Err(DenseError::DeviceMismatch);
    }
    if q.dtype() != k.dtype() {
        return Err(DenseError::DTypeMismatch { q: q.dtype(), k: k.dtype() });
    }
    if q.rank() != 3 || k.rank() != 4 {
        return Err(DenseError::Ranks);
    }
    let op = QkScoresOp::<N> { scale: N::single(scale) };
    match (&q.storage, &k.storage) {
        (Storage::Host(qs), Storage::Host(ks)) => match op.cpu_fwd(qs, &q.layout, ks, &k.layout) {
            Ok(out) => Ok(Outcome::Host(out)),
            Err(e) => Err(e),
        },
        (Storage::Metal(qs), Storage::Metal(ks)) => op.metal_fwd(qs, &q.layout, ks, &k.layout),
        _ => Err(DenseError::NoCudaKernel),
    }
}

/// What is wrong with a call of [`attn_weighted_sum`] before a kernel is chosen.
pub open spec fn sum_call_fault<N: Scalars>(attn_probs: Tensor<N>, v: Tensor<N>) -> Option<
    DenseError,
> {
    if attn_probs.spec_device() != v.spec_device() {
        Some(DenseError::DeviceMismatch)
    } else if attn_probs.spec_dtype() != DType::F32 {
        Some(DenseError::AttnDType(attn_probs.spec_dtype()))
    } else if attn_probs.shape().len() != 3 || v.shape().len() != 4 {
        Some(DenseError::Ranks)
    } else {
        None
    }
}

/// The sizes of a call of [`attn_weighted_sum`] can be counted.
pub open spec fn sum_countable<N: Scalars>(attn_probs: Tensor<N>, v: Tensor<N>) -> bool {
    sum_call_fault(attn_probs, v) is None ==> match (attn_probs.storage, v.storage) {
        (Storage::Host(attn), Storage::Host(vs)) => {
            sum_host_fault(attn, attn_probs.layout, vs, v.layout) is None ==> sums_countable(
                attn_probs.shape(),
                v.shape(),
            )
        },
        (Storage::Metal(_), Storage::Metal(_)) => {
            attn_probs.layout.contiguous() && v.layout.contiguous() ==> sums_countable(
                attn_probs.shape(),
                v.shape(),
            )
        },
        _ => true,
    }
}

/// Whether the sizes of a call of [`attn_weighted_sum`] can be counted.
pub fn is_sum_countable<N: Scalars>(attn_probs: &Tensor<N>, v: &Tensor<N>) -> (countable: bool)
    requires
        attn_probs.valid(),
        v.valid(),
    ensures
        countable == sum_countable(*attn_probs, *v),
{
    if attn_probs.device() != v.device() || attn_probs.dtype() != DType::F32
        || !attn_probs.layout.is_contiguous() || !v.layout.is_contiguous() {
        return true;
    }
    let kernels: bool = match (&attn_probs.storage, &v.storage) {
        (Storage::Host(HostData::F32(_)), Storage::Host(HostData::F32(_))) => true,
        (Storage::Host(HostData::F32(_)), Storage::Host(HostData::F16(_))) => true,
        (Storage::Host(HostData::F32(_)), Storage::Host(HostData::BF16(_))) => true,
        (Storage::Metal(_), Storage::Metal(_)) => true,
        _ => false,
    };
    match parse_attn_v_shapes(&attn_probs.layout, &v.layout) {
        Ok(heads) => {
            proof {
                lemma_rank_3(attn_probs.shape());
            }
            !kernels || product_fits(heads.batch * heads.full_heads, heads.head_dim)
        },
        Err(_) => true,
    }
}

/// The outcome of [`attn_weighted_sum`].
pub open spec fn sum_outcome<N: Scalars>(
    attn_probs: Tensor<N>,
    v: Tensor<N>,
    result: Result<Outcome<N>, DenseError>,
) -> bool {
    if let Some(e) = sum_call_fault(attn_probs, v) {
        result == Err::<Outcome<N>, DenseError>(e)
    } else {
        match (attn_probs.storage, v.storage) {
            (Storage::Host(attn), Storage::Host(vs)) => match sum_host_fault(
                attn,
                attn_probs.layout,
                vs,
                v.layout,
            ) {
                Some(e) => result == Err::<Outcome<N>, DenseError>(e),
                None => result matches Ok(Outcome::Host(out)) && sum_host_result(
                    attn,
                    attn_probs.layout,
                    vs,
                    v.layout,
                    out,
                ),
            },
            (Storage::Metal(attn), Storage::Metal(vs)) => match sum_metal_fault(
                attn,
                attn_probs.layout,
                vs,
                v.layout,
            ) {
                Some(e) => result == Err::<Outcome<N>, DenseError>(e),
                None => result matches Ok(outcome) && sum_metal_result(
                    attn,
                    attn_probs.layout,
                    vs,
                    v.layout,
                    outcome,
                ),
            },
            _ => result == Err::<Outcome<N>, DenseError>(DenseError::NoCudaKernel),
        }
    }
}

/// Sums values, weighted by attention probabilities.
///
/// Shapes:
/// - `attn_probs`: `[batch, heads, tokens]` in `F32`
/// - `v`: `[batch, heads, tokens, dim]` in `F32`, `F16` or `BF16`
///
/// The sums have the shape `[batch, heads, dim]` and the type `F32`.
pub fn attn_weighted_sum<N: Scalars>(attn_probs: &Tensor<N>, v: &Tensor<N>) -> (result: Result<
    Outcome<N>,
    DenseError,
>)
    requires
        attn_probs.valid(),
        v.valid(),
        sum_countable(*attn_probs, *v),
    ensures
        sum_outcome(*attn_probs, *v, result),
{
    if attn_probs.device() != v.device() {
        return Err(DenseError::DeviceMismatch);
    }
    if attn_probs.dtype() != DType::F32 {
        return Err(DenseError::AttnDType(attn_probs.dtype()));
    }
    if attn_probs.rank() != 3 || v.rank() != 4 {
        return Err(DenseError::Ranks);
    }
    let op = AttnWeightedSumOp;
    match (&attn_probs.storage, &v.storage) {
        (Storage::Host(attn), Storage::Host(vs)) => match op.cpu_fwd::<N>(
            attn,
            &attn_probs.layout,
            vs,
            &v.layout,
        ) {
            Ok(out) => Ok(Outcome::Host(out)),
            Err(e) => Err(e),
        },
        (Storage::Metal(attn), Storage::Metal(vs)) => op.metal_fwd::<N>(
            attn,
            &attn_probs.layout,
            vs,
            &v.layout,
        ),
        _ => Err(DenseError::NoCudaKernel),
    }
}

} // verus!
