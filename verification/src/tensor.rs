//! Tensors: typed elements on a device, seen through a layout.
use crate::dtype::{byte_size, DType};
use crate::layout::Layout;
use crate::scalar::Scalars;
use vstd::prelude::*;

verus! {

/// Where a tensor lives. Two devices of one kind are the same where their numbers are equal.
#[derive(Clone, Copy, Debug, PartialEq, Eq, Structural)]
pub enum Device {
    Cpu,
    Cuda(usize),
    Metal(usize),
}

/// Elements in host memory.
pub enum HostData<'a, N: Scalars> {
    U8(&'a [u8]),
    F16(&'a [N::F16]),
    BF16(&'a [N::BF16]),
    F32(&'a [N::F32]),
    /// Elements of a type that no kernel reads.
    Other { dtype: DType, len: usize },
}

/// Elements in the buffer of a Metal device.
#[derive(Clone, Copy, Debug, PartialEq, Eq, Structural)]
pub struct MetalData {
    pub device: usize,
    pub dtype: DType,
}

/// The elements behind a tensor.
pub enum Storage<'a, N: Scalars> {
    Host(HostData<'a, N>),
    Cuda { device: usize, dtype: DType },
    Metal(MetalData),
}

/// A tensor handed to an operation.
pub struct Tensor<'a, N: Scalars> {
    pub storage: Storage<'a, N>,
    pub layout: Layout,
}

/// Elements that an operation computed on the host.
pub enum HostVec<N: Scalars> {
    U8(Vec<u8>),
    F16(Vec<N::F16>),
    BF16(Vec<N::BF16>),
    F32(Vec<N::F32>),
}

/// A tensor that an operation computed on the host, in row-major order.
pub struct HostTensor<N: Scalars> {
    pub data: HostVec<N>,
    pub dims: Vec<usize>,
}

/// The types whose elements `HostData` holds.
pub open spec fn is_held(dtype: DType) -> bool {
    dtype == DType::U8 || dtype == DType::F16 || dtype == DType::BF16 || dtype == DType::F32
}

impl<'a, N: Scalars> HostData<'a, N> {
    pub open spec fn spec_len(&self) -> nat {
        match *self {
            HostData::U8(v) => v@.len(),
            HostData::F16(v) => v@.len(),
            HostData::BF16(v) => v@.len(),
            HostData::F32(v) => v@.len(),
            HostData::Other { len, .. } => len as nat,
        }
    }

    pub open spec fn spec_dtype(&self) -> DType {
        match *self {
            HostData::U8(_) => DType::U8,
            HostData::F16(_) => DType::F16,
            HostData::BF16(_) => DType::BF16,
            HostData::F32(_) => DType::F32,
            HostData::Other { dtype, .. } => dtype,
        }
    }

    pub open spec fn valid(&self) -> bool {
        *self matches HostData::Other { dtype, .. } ==> !is_held(dtype)
    }

    pub fn dtype(&self) -> (dtype: DType)
        ensures
            dtype == self.spec_dtype(),
    {
        match self {
            HostData::U8(_) => DType::U8,
            HostData::F16(_) => DType::F16,
            HostData::BF16(_) => DType::BF16,
            HostData::F32(_) => DType::F32,
            HostData::Other { dtype, .. } => *dtype,
        }
    }
}

/// The formats of a tensor and of a result are the same.
pub open spec fn same_format<N: Scalars>(data: HostData<N>, out: HostVec<N>) -> bool {
    match out {
        HostVec::U8(_) => data is U8,
        HostVec::F16(_) => data is F16,
        HostVec::BF16(_) => data is BF16,
        HostVec::F32(_) => data is F32,
    }
}

/// The offset of the first element can be counted in bytes.
pub open spec fn addressable(start_offset: usize, dtype: DType) -> bool {
    start_offset * byte_size(dtype) <= usize::MAX
}

impl<'a, N: Scalars> Tensor<'a, N> {
    pub open spec fn spec_dtype(&self) -> DType {
        match self.storage {
            Storage::Host(data) => data.spec_dtype(),
            Storage::Cuda { dtype, .. } => dtype,
            Storage::Metal(data) => data.dtype,
        }
    }

    pub open spec fn spec_device(&self) -> Device {
        match self.storage {
            Storage::Host(_) => Device::Cpu,
            Storage::Cuda { device, .. } => Device::Cuda(device),
            Storage::Metal(data) => Device::Metal(data.device),
        }
    }

    /// The layout is valid and stays within the elements.
    pub open spec fn valid(&self) -> bool {
        &&& self.layout.valid()
        &&& match self.storage {
            Storage::Host(data) => data.valid() && self.layout.fits(data.spec_len()),
            Storage::Cuda { dtype, .. } => addressable(self.layout.start_offset, dtype),
            Storage::Metal(data) => addressable(self.layout.start_offset, data.dtype),
        }
    }

    /// The dimensions.
    pub open spec fn shape(&self) -> Seq<usize> {
        self.layout.dims@
    }

    pub open spec fn count(&self) -> nat {
        self.layout.count()
    }

    pub fn dtype(&self) -> (dtype: DType)
        ensures
            dtype == self.spec_dtype(),
    {
        match &self.storage {
            Storage::Host(data) => data.dtype(),
            Storage::Cuda { dtype, .. } => *dtype,
            Storage::Metal(data) => data.dtype,
        }
    }

    pub fn device(&self) -> (device: Device)
        ensures
            device == self.spec_device(),
    {
        match &self.storage {
            Storage::Host(_) => Device::Cpu,
            Storage::Cuda { device, .. } => Device::Cuda(*device),
            Storage::Metal(data) => Device::Metal(data.device),
        }
    }

    pub fn rank(&self) -> (rank: usize)
        ensures
            rank == self.shape().len(),
    {
        self.layout.dims.len()
    }

    pub fn elem_count(&self) -> (count: usize)
        requires
            self.valid(),
        ensures
            count == self.count(),
    {
        self.layout.elem_count()
    }
}

} // verus!
