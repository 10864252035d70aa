//! Element types.
use crate::candle::dtype_size_in_bytes;
use vstd::prelude::*;

verus! {

/// The type of a tensor's elements.
#[derive(Clone, Copy, Debug, PartialEq, Eq, Structural)]
pub enum DType {
    U8,
    U32,
    I16,
    I32,
    I64,
    BF16,
    F16,
    F32,
    F64,
    F8E4M3,
    F6E2M3,
    F6E3M2,
    F4,
    F8E8M0,
}

/// The size of one element; the formats that share bytes between elements have size `0`.
pub open spec fn byte_size(dtype: DType) -> nat {
    match dtype {
        DType::U8 | DType::F8E4M3 | DType::F8E8M0 => 1,
        DType::I16 | DType::BF16 | DType::F16 => 2,
        DType::U32 | DType::I32 | DType::F32 => 4,
        DType::I64 | DType::F64 => 8,
        DType::F6E2M3 | DType::F6E3M2 | DType::F4 => 0,
    }
}

/// The formats in which the kernels read and write floating-point values.
pub open spec fn is_kernel_float(dtype: DType) -> bool {
    dtype == DType::F32 || dtype == DType::F16 || dtype == DType::BF16
}

impl DType {
    pub fn size_in_bytes(self) -> (size: usize)
        ensures
            size == byte_size(self),
    {
        dtype_size_in_bytes(self)
    }

    pub fn is_kernel_float(self) -> (yes: bool)
        ensures
            yes == is_kernel_float(self),
    {
        matches!(self, DType::F32 | DType::F16 | DType::BF16)
    }
}

} // verus!
