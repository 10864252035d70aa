//! What the parts of a launch say.
use crate::dtype::DType;
use crate::launch::{first_oversize, threads_for, KernelArg, Operand, Quantity, GROUP_THREADS};
use crate::layout::Layout;
use crate::scalar::Scalars;
use crate::setting::grouped_threads;
use crate::tensor::{Device, HostData, Storage, Tensor};
use vstd::prelude::*;

verus! {

/// The bytes of one element of the types that kernels read.
pub open spec fn width(dtype: DType) -> int {
    match dtype {
        DType::U8 => 1,
        DType::F16 | DType::BF16 => 2,
        DType::F32 => 4,
        _ => 0,
    }
}

/// `arg` is the buffer of tensor argument `position`, from byte `start` on.
pub open spec fn begins<N: Scalars>(arg: KernelArg<N>, position: int, start: int) -> bool {
    arg matches KernelArg::Buffer { operand: Operand::Argument(at), offset_in_bytes } && at
        == position && offset_in_bytes == start
}

/// `arg` is tensor argument `position`: its buffer from its first element on, where its elements
/// lie in row-major order, and else a copy in that order.
pub open spec fn reads<N: Scalars>(
    arg: KernelArg<N>,
    position: int,
    layout: Layout,
    dtype: DType,
) -> bool {
    if layout.contiguous() {
        begins(arg, position, layout.start_offset * width(dtype))
    } else {
        arg matches KernelArg::Buffer { operand: Operand::Compacted(at), offset_in_bytes } && at
            == position && offset_in_bytes == 0
    }
}

/// `arg` is output `position` of the launch, from its start on.
pub open spec fn writes<N: Scalars>(arg: KernelArg<N>, position: int) -> bool {
    arg matches KernelArg::Buffer { operand: Operand::Output(at), offset_in_bytes } && at
        == position && offset_in_bytes == 0
}

/// `arg` is the 32-bit number `n`.
pub open spec fn counts<N: Scalars>(arg: KernelArg<N>, n: int) -> bool {
    arg matches KernelArg::U32(m) && m == n
}

/// Sizes are accepted where all of them fit in 32 bits; otherwise the first that does not is named.
pub proof fn sizes_fit_in_32_bits(sizes: Seq<(usize, Quantity)>)
    ensures
        match first_oversize(sizes) {
            None => forall|i: int| 0 <= i < sizes.len() ==> (#[trigger] sizes[i]).0 <= 0xffff_ffff,
            Some(quantity) => exists|i: int|
                0 <= i < sizes.len() && (#[trigger] sizes[i]).0 > 0xffff_ffff && sizes[i].1
                    == quantity && forall|k: int|
                    0 <= k < i ==> (#[trigger] sizes[k]).0 <= 0xffff_ffff,
        },
    decreases sizes.len(),
{
    if sizes.len() > 0 {
        let rest = sizes.drop_last();
        sizes_fit_in_32_bits(rest);
        match first_oversize(rest) {
            Some(quantity) => {
                let i = choose|i: int|
                    0 <= i < rest.len() && (#[trigger] rest[i]).0 > 0xffff_ffff && rest[i].1
                        == quantity && forall|k: int|
                        0 <= k < i ==> (#[trigger] rest[k]).0 <= 0xffff_ffff;
                assert(sizes[i] == rest[i]);
                assert forall|k: int| 0 <= k < i implies (#[trigger] sizes[k]).0 <= 0xffff_ffff by {
                    assert(sizes[k] == rest[k]);
                }
            },
            None => {
                let last = sizes.len() - 1;
                assert forall|k: int| 0 <= k < last implies (#[trigger] sizes[k]).0
                    <= 0xffff_ffff by {
                    assert(sizes[k] == rest[k]);
                }
                assert(sizes[last] == sizes.last());
            },
        }
    }
}

/// A group has a thread for every item, as far as the device allows, and one where there is no item.
pub proof fn groups_are_as_large_as_they_can_be(items: int, max_threads: int)
    requires
        0 <= items,
        1 <= max_threads,
    ensures
        items == 0 ==> threads_for(items, max_threads) == 1,
        1 <= items <= max_threads ==> threads_for(items, max_threads) == items,
        max_threads <= items ==> threads_for(items, max_threads) == max_threads,
{
}

/// A tensor has the type of the elements that it holds, and is on the device that holds them.
pub proof fn tensors_have_the_type_of_their_elements<N: Scalars>(t: Tensor<N>)
    ensures
        t.storage matches Storage::Host(HostData::U8(_)) ==> t.spec_dtype() == DType::U8,
        t.storage matches Storage::Host(HostData::F16(_)) ==> t.spec_dtype() == DType::F16,
        t.storage matches Storage::Host(HostData::BF16(_)) ==> t.spec_dtype() == DType::BF16,
        t.storage matches Storage::Host(HostData::F32(_)) ==> t.spec_dtype() == DType::F32,
        t.storage matches Storage::Metal(data) ==> t.spec_dtype() == data.dtype && t.spec_device()
            == Device::Metal(data.device),
        t.storage is Host ==> t.spec_device() == Device::Cpu,
        t.storage is Cuda ==> t.spec_device() is Cuda,
{
}

/// Where every item has a group of its own, a group has 256 threads unless the setting says
/// otherwise.
pub proof fn groups_have_256_threads_by_default(max_threads: usize)
    requires
        256 <= max_threads,
    ensures
        grouped_threads(None, max_threads, GROUP_THREADS) == 256,
{
}

} // verus!
