//! Calls into `candle_core`, over plain values.
use crate::dtype::{byte_size, DType};
use crate::layout::{countable, product, row_major};
use vstd::prelude::*;

verus! {

/// `candle_core::DType::size_in_bytes`: the size of one element of the given type, as the
/// table `byte_size` lists it.
#[verifier::external_body]
pub(crate) fn dtype_size_in_bytes(dtype: DType) -> (size: usize)
    ensures
        size == byte_size(dtype),
{
    let dtype = match dtype {
        DType::U8 => candle_core::DType::U8, DType::U32 => candle_core::DType::U32,
        DType::I16 => candle_core::DType::I16, DType::I32 => candle_core::DType::I32,
        DType::I64 => candle_core::DType::I64, DType::BF16 => candle_core::DType::BF16,
        DType::F16 => candle_core::DType::F16, DType::F32 => candle_core::DType::F32,
        DType::F64 => candle_core::DType::F64, DType::F8E4M3 => candle_core::DType::F8E4M3,
        DType::F6E2M3 => candle_core::DType::F6E2M3, DType::F6E3M2 => candle_core::DType::F6E3M2,
        DType::F4 => candle_core::DType::F4, DType::F8E8M0 => candle_core::DType::F8E8M0,
    };
    dtype.size_in_bytes()
}

/// `candle_core::Shape::elem_count`: the product of the dimensions.
#[verifier::external_body]
pub(crate) fn shape_elem_count(dims: &[usize]) -> (count: usize)
    requires
        countable(dims@),
    ensures
        count == product(dims@),
{
    candle_core::Shape::from(dims).elem_count()
}

/// `candle_core::Layout::is_contiguous`: whether every axis longer than one advances by the
/// number of elements in the axes behind it.
#[verifier::external_body]
pub(crate) fn layout_is_contiguous(dims: &[usize], stride: &[usize], start: usize) -> (yes: bool)
    requires
        countable(dims@),
    ensures
        yes == row_major(dims@, stride@),
{
    candle_core::Layout::new(candle_core::Shape::from(dims), stride.to_vec(), start).is_contiguous()
}

/// `candle_core::Layout::contiguous_offsets`: for a contiguous layout the range of its elements
/// in the storage, otherwise nothing.
#[verifier::external_body]
pub(crate) fn layout_contiguous_offsets(
    dims: &[usize],
    stride: &[usize],
    start: usize,
) -> (range: Option<(usize, usize)>)
    requires
        countable(dims@),
        row_major(dims@, stride@) ==> start + product(dims@) <= usize::MAX,
    ensures
        match range {
            Some((low, high)) => {
                row_major(dims@, stride@) && low == start && high == start + product(dims@)
            },
            None => !row_major(dims@, stride@),
        },
{
    candle_core::Layout::new(candle_core::Shape::from(dims), stride.to_vec(), start)
        .contiguous_offsets()
}

} // verus!
