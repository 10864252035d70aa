//! Attention over a cache in one of the quantized formats of `candle_core`, by its quantized
//! matrix product.
use crate::dtype::DType;
use crate::scalar::Scalars;
use crate::tensor::{Device, Tensor};
use vstd::prelude::*;

verus! {

/// Why a product with a quantized tensor is refused.
#[derive(Clone, Copy, Debug, PartialEq, Eq, Structural)]
pub enum QuantizedError {
    /// The first factor has not rank two.
    FirstRank,
    /// The quantized tensor has not rank two.
    QuantizedRank,
    DeviceMismatch,
}

/// A quantized tensor, as far as it decides what is done with it.
pub struct QuantizedInfo {
    pub dims: Vec<usize>,
    pub device: Device,
}

/// A product of a tensor and the transpose of a quantized tensor, of the shape `[rows, cols]`.
#[derive(Clone, Copy, Debug, PartialEq, Eq, Structural)]
pub struct QuantizedProduct {
    /// The tensor is brought to single precision before.
    pub cast_first: bool,
    /// The product is multiplied by the scale after.
    pub rescale: bool,
    pub rows: usize,
    pub cols: usize,
}

/// The shape of a product: a row for every row of the tensor, and a column for every row of the
/// quantized tensor.
pub open spec fn product_shape<N: Scalars>(first: Tensor<N>, quantized: QuantizedInfo) -> Seq<
    usize,
> {
    seq![first.shape()[0], quantized.dims@[0]]
}

impl QuantizedProduct {
    pub open spec fn shape(&self) -> Seq<usize> {
        seq![self.rows, self.cols]
    }
}

/// What is wrong with the factors of a product.
pub open spec fn product_fault<N: Scalars>(first: Tensor<N>, quantized: QuantizedInfo) -> Option<
    QuantizedError,
> {
    if first.shape().len() != 2 {
        Some(QuantizedError::FirstRank)
    } else if quantized.dims@.len() != 2 {
        Some(QuantizedError::QuantizedRank)
    } else if first.spec_device() != quantized.device {
        Some(QuantizedError::DeviceMismatch)
    } else {
        None
    }
}

/// `plan` is the product of a tensor and a quantized tensor, rescaled or not.
pub open spec fn is_product<N: Scalars>(
    first: Tensor<N>,
    quantized: QuantizedInfo,
    rescale: bool,
    plan: QuantizedProduct,
) -> bool {
    &&& plan.cast_first == (first.spec_dtype() != DType::F32)
    &&& plan.rescale == rescale
    &&& plan.shape() == product_shape(first, quantized)
}

fn plan_product<N: Scalars>(first: &Tensor<N>, quantized: &QuantizedInfo, rescale: bool) -> (plan:
    Result<QuantizedProduct, QuantizedError>)
    ensures
        match product_fault(*first, *quantized) {
            Some(e) => plan == Err::<QuantizedProduct, QuantizedError>(e),
            None => plan matches Ok(plan) && is_product(*first, *quantized, rescale, plan),
        },
{
    if first.rank() != 2 {
        return Err(QuantizedError::FirstRank);
    }
    if quantized.dims.len() != 2 {
        return Err(QuantizedError::QuantizedRank);
    }
    if first.device() != quantized.device {
        return Err(QuantizedError::DeviceMismatch);
    }
    Ok(
        QuantizedProduct {
            cast_first: first.dtype() != DType::F32,
            rescale,
            rows: first.layout.dims[0],
            cols: quantized.dims[0],
        },
    )
}

/// What [`qk_scores_quantized_k`] returns: the product, rescaled unless the scale is one.
pub open spec fn is_scores_plan<N: Scalars>(
    q: Tensor<N>,
    k: QuantizedInfo,
    scale: N::F64,
    plan: Result<QuantizedProduct, QuantizedError>,
) -> bool {
    match product_fault(q, k) {
        Some(e) => plan == Err::<QuantizedProduct, QuantizedError>(e),
        None => plan matches Ok(plan) && exists|one: bool| #[trigger]
            call_ensures(N::is_one, (scale,), one) && is_product(q, k, !one, plan),
    }
}

/// What [`attn_weighted_sum_quantized_vt`] returns: the product.
pub open spec fn is_sums_plan<N: Scalars>(
    attn_probs: Tensor<N>,
    v_t: QuantizedInfo,
    plan: Result<QuantizedProduct, QuantizedError>,
) -> bool {
    match product_fault(attn_probs, v_t) {
        Some(e) => plan == Err::<QuantizedProduct, QuantizedError>(e),
        None => plan matches Ok(plan) && is_product(attn_probs, v_t, false, plan),
    }
}

/// Plans the scaled scores of queries and quantized keys.
///
/// Shapes:
/// - `q`: `[rows, dim]`
/// - `k`: `[tokens, dim]`, quantized
///
/// The product has the shape `[rows, tokens]`.
pub fn qk_scores_quantized_k<N: Scalars>(q: &Tensor<N>, k: &QuantizedInfo, scale: N::F64) -> (plan:
    Result<QuantizedProduct, QuantizedError>)
    ensures
        is_scores_plan(*q, *k, scale, plan),
{
    let one: bool = N::is_one(scale);
    plan_product::<N>(q, k, !one)
}

/// Plans the sum of quantized values, weighted by attention probabilities.
///
/// Shapes:
/// - `attn_probs`: `[rows, tokens]`
/// - `v_t`: `[dim, tokens]`, quantized
///
/// The product has the shape `[rows, dim]`.
pub fn attn_weighted_sum_quantized_vt<N: Scalars>(
    attn_probs: &Tensor<N>,
    v_t: &QuantizedInfo,
) -> (plan: Result<QuantizedProduct, QuantizedError>)
    ensures
        is_sums_plan(*attn_probs, *v_t, plan),
{
    plan_product::<N>(attn_probs, v_t, false)
}

/// Scores with two scales are one product: only whether it is multiplied by the scale after may
/// differ, and with a scale of one it is not.
pub proof fn scales_share_a_product<N: Scalars>(
    q: Tensor<N>,
    k: QuantizedInfo,
    one: N::F64,
    scale: N::F64,
    unscaled: QuantizedProduct,
    scaled: QuantizedProduct,
)
    requires
        forall|yes: bool| #[trigger] call_ensures(N::is_one, (one,), yes) ==> yes,
        is_scores_plan(q, k, one, Ok(unscaled)),
        is_scores_plan(q, k, scale, Ok(scaled)),
    ensures
        !unscaled.rescale,
        unscaled == (QuantizedProduct { rescale: false, ..scaled }),
{
    lemma_same_shape(q, k, unscaled, scaled);
}

/// Weighted sums are the scores of the probabilities and the values with a scale of one.
pub proof fn sums_are_scores_with_scale_one<N: Scalars>(
    attn_probs: Tensor<N>,
    v_t: QuantizedInfo,
    one: N::F64,
    sums: Result<QuantizedProduct, QuantizedError>,
    scores: Result<QuantizedProduct, QuantizedError>,
)
    requires
        forall|yes: bool| #[trigger] call_ensures(N::is_one, (one,), yes) ==> yes,
        is_sums_plan(attn_probs, v_t, sums),
        is_scores_plan(attn_probs, v_t, one, scores),
    ensures
        sums == scores,
{
    if let (Ok(left), Ok(right)) = (sums, scores) {
        lemma_same_shape(attn_probs, v_t, left, right);
    }
}

/// A query that is brought to single precision before the call gets the product that it gets
/// otherwise, which then has nothing to bring to single precision.
pub proof fn cast_queries_share_a_product<N: Scalars>(
    q: Tensor<N>,
    cast: Tensor<N>,
    k: QuantizedInfo,
    scale: N::F64,
    plan: QuantizedProduct,
)
    requires
        cast.shape() == q.shape(),
        cast.spec_device() == q.spec_device(),
        cast.spec_dtype() == DType::F32,
        is_scores_plan(q, k, scale, Ok(plan)),
    ensures
        is_scores_plan(cast, k, scale, Ok(QuantizedProduct { cast_first: false, ..plan })),
{
    let one = choose|one: bool| #[trigger]
        call_ensures(N::is_one, (scale,), one) && is_product(q, k, !one, plan);
    let same = QuantizedProduct { cast_first: false, ..plan };
    assert(is_product(cast, k, !one, same));
    assert(call_ensures(N::is_one, (scale,), one));
}

/// Two products of the same factors have the same shape and the same cast.
proof fn lemma_same_shape<N: Scalars>(
    first: Tensor<N>,
    quantized: QuantizedInfo,
    left: QuantizedProduct,
    right: QuantizedProduct,
)
    requires
        is_product(first, quantized, left.rescale, left),
        is_product(first, quantized, right.rescale, right),
    ensures
        left.rows == right.rows,
        left.cols == right.cols,
        left.cast_first == right.cast_first,
{
    assert(left.shape()[0] == right.shape()[0]);
    assert(left.shape()[1] == right.shape()[1]);
}

/// A product is planned for two factors of rank two on one device: with the rows of the first, and
/// a column for every row of the second, from single precision, and rescaled where the scale is
/// not one.
pub proof fn products_are_planned_where_factors_agree<N: Scalars>(
    first: Tensor<N>,
    second: QuantizedInfo,
    scale: N::F64,
    scores: Result<QuantizedProduct, QuantizedError>,
    sums: Result<QuantizedProduct, QuantizedError>,
)
    requires
        is_scores_plan(first, second, scale, scores),
        is_sums_plan(first, second, sums),
    ensures
        scores is Ok <==> first.shape().len() == 2 && second.dims@.len() == 2
            && first.spec_device() == second.device,
        sums is Ok <==> scores is Ok,
        scores matches Ok(plan) ==> {
            &&& plan.rows == first.shape()[0] && plan.cols == second.dims@[0]
            &&& plan.cast_first <==> first.spec_dtype() != DType::F32
            &&& call_ensures(N::is_one, (scale,), !plan.rescale)
        },
        sums matches Ok(plan) ==> {
            &&& plan.rows == first.shape()[0] && plan.cols == second.dims@[0]
            &&& plan.cast_first <==> first.spec_dtype() != DType::F32
            &&& !plan.rescale
        },
        scores matches Err(QuantizedError::FirstRank) ==> first.shape().len() != 2,
        scores matches Err(QuantizedError::QuantizedRank) ==> second.dims@.len() != 2,
        scores matches Err(QuantizedError::DeviceMismatch) ==> first.spec_device()
            != second.device,
        scores is Err ==> sums == scores,
{
    if let Ok(plan) = scores {
        assert(plan.shape()[0] == plan.rows && plan.shape()[1] == plan.cols);
    }
    if let Ok(plan) = sums {
        assert(plan.shape()[0] == plan.rows && plan.shape()[1] == plan.cols);
    }
}

} // verus!
