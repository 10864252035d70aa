//! What an operation on a Metal device asks the device to do.
use crate::arith::{ceil_div, div_ceil, lemma_ceil_div, max_of, min_of, to_u32};
use crate::dtype::{byte_size, DType};
use crate::layout::Layout;
use crate::scalar::Scalars;
use crate::setting::{grouped_threads, text_of, turboquant_grouped_threads};
use crate::tensor::HostTensor;
use vstd::prelude::*;

verus! {

/// A buffer that a kernel reads or writes.
#[derive(Clone, Copy, Debug, PartialEq, Eq, Structural)]
pub enum Operand {
    /// The buffer of a tensor argument, by its position.
    Argument(usize),
    /// A copy of a tensor argument in row-major order, in a buffer of its own.
    Compacted(usize),
    /// A buffer with one zero of the given type.
    Placeholder(DType),
    /// The output of the launch before this one.
    Staged,
    /// An output of this launch, by its position.
    Output(usize),
}

/// A kernel argument, in the order in which the kernel takes them.
pub enum KernelArg<N: Scalars> {
    U32(u32),
    I32(i32),
    Size(usize),
    F32(N::F32),
    Buffer { operand: Operand, offset_in_bytes: usize },
}

/// How the threads of a launch are counted.
#[derive(Clone, Copy, Debug, PartialEq, Eq, Structural)]
pub enum Grid {
    /// One thread per item.
    PerItem(usize),
    /// One thread group per item.
    PerGroup(usize),
}

/// One kernel launch.
pub struct Launch<N: Scalars> {
    /// The number of the Metal device.
    pub device: usize,
    pub kernel: String,
    pub label: &'static str,
    pub args: Vec<KernelArg<N>>,
    pub grid: Grid,
}

/// A tensor on the device that an operation returns.
pub struct DeviceTensor {
    pub dtype: DType,
    pub dims: Vec<usize>,
}

/// What an operation comes to.
pub enum Outcome<N: Scalars> {
    /// The result, computed on the host.
    Host(HostTensor<N>),
    /// A result on the device without elements.
    Empty(DeviceTensor),
    /// A result on the device, which the launch fills.
    Launch(Launch<N>, DeviceTensor),
}

impl<N: Scalars> Launch<N> {
    pub open spec fn describes(
        &self,
        device: usize,
        kernel: Seq<char>,
        label: Seq<char>,
        args: Seq<KernelArg<N>>,
        grid: Grid,
    ) -> bool {
        &&& self.device == device
        &&& self.kernel@ == kernel
        &&& self.label@ == label
        &&& self.args@ == args
        &&& self.grid == grid
    }
}

impl DeviceTensor {
    pub open spec fn describes(&self, dtype: DType, dims: Seq<usize>) -> bool {
        &&& self.dtype == dtype
        &&& self.dims@ == dims
    }
}

/// A size that a kernel takes as a 32-bit number.
#[derive(Clone, Copy, Debug, PartialEq, Eq, Structural)]
pub enum Quantity {
    Bh,
    T,
    D,
    BhFull,
    FullHeads,
    KvHeads,
    RepeatFactor,
    Tokens,
    HeadDim,
    SubvectorDim,
    ScaleBlockDim,
    CodeBits,
    Rows,
    M,
    OutDim,
    InDim,
    BlocksPerRow,
}

/// The first of the sizes that does not fit in 32 bits.
pub open spec fn first_oversize(sizes: Seq<(usize, Quantity)>) -> Option<Quantity>
    decreases sizes.len(),
{
    if sizes.len() == 0 {
        None
    } else {
        match first_oversize(sizes.drop_last()) {
            Some(quantity) => Some(quantity),
            None => if sizes.last().0 > u32::MAX {
                Some(sizes.last().1)
            } else {
                None
            },
        }
    }
}

/// The sizes as kernel arguments.
pub open spec fn size_args<N: Scalars>(sizes: Seq<(usize, Quantity)>) -> Seq<KernelArg<N>> {
    Seq::new(sizes.len(), |i: int| KernelArg::U32(sizes[i].0 as u32))
}

/// Turns sizes into kernel arguments, unless one is too large.
pub fn collect_size_args<N: Scalars>(sizes: &[(usize, Quantity)]) -> (args: Result<
    Vec<KernelArg<N>>,
    Quantity,
>)
    ensures
        match args {
            Ok(args) => first_oversize(sizes@) is None && args@ == size_args::<N>(sizes@),
            Err(quantity) => first_oversize(sizes@) == Some(quantity),
        },
{
    let mut args: Vec<KernelArg<N>> = Vec::new();
    let mut i: usize = 0;
    proof {
        assert(sizes@.take(0).len() == 0);
    }
    while i < sizes.len()
        invariant
            i <= sizes@.len(),
            first_oversize(sizes@.take(i as int)) is None,
            args@ == size_args::<N>(sizes@.take(i as int)),
        decreases sizes@.len() - i,
    {
        let (size, quantity) = sizes[i];
        proof {
            assert(sizes@.take(i + 1).drop_last() =~= sizes@.take(i as int));
            assert(sizes@.take(i + 1).last() == sizes@[i as int]);
        }
        match to_u32(size) {
            Some(narrow) => {
                args.push(KernelArg::U32(narrow));
                proof {
                    assert(args@ =~= size_args::<N>(sizes@.take(i + 1)));
                }
            },
            None => {
                proof {
                    assert(first_oversize(sizes@.take(i + 1)) == Some(quantity));
                    lemma_oversize_prefix(sizes@, i + 1);
                }
                return Err(quantity);
            },
        }
        i += 1;
    }
    proof {
        assert(sizes@.take(sizes@.len() as int) =~= sizes@);
    }
    Ok(args)
}

/// What comes later does not change which size is the first that is too large.
proof fn lemma_oversize_prefix(sizes: Seq<(usize, Quantity)>, end: int)
    requires
        0 <= end <= sizes.len(),
        first_oversize(sizes.take(end)) is Some,
    ensures
        first_oversize(sizes) == first_oversize(sizes.take(end)),
    decreases sizes.len(),
{
    if end < sizes.len() {
        assert(sizes.drop_last().take(end) =~= sizes.take(end));
        lemma_oversize_prefix(sizes.drop_last(), end);
    } else {
        assert(sizes.take(end) =~= sizes);
    }
}

/// How kernel names spell the floating-point formats.
pub open spec fn float_tag(dtype: DType) -> Seq<char> {
    match dtype {
        DType::F32 => "f32"@,
        DType::F16 => "f16"@,
        _ => "bf16"@,
    }
}

pub fn float_tag_of(dtype: DType) -> (tag: &'static str)
    ensures
        tag@ == float_tag(dtype),
{
    match dtype {
        DType::F32 => "f32",
        DType::F16 => "f16",
        _ => "bf16",
    }
}

/// The name of a kernel that has one variant per floating-point format.
pub fn float_kernel(prefix: &str, dtype: DType) -> (name: String)
    ensures
        name@ == prefix@ + float_tag(dtype),
{
    prefix.to_owned().concat(float_tag_of(dtype))
}

/// The offset in bytes of a layout's first element, for elements of the given type.
pub open spec fn byte_offset(layout: Layout, dtype: DType) -> usize {
    (layout.start_offset * byte_size(dtype)) as usize
}

pub fn byte_offset_of(layout: &Layout, dtype: DType) -> (offset: usize)
    requires
        layout.start_offset * byte_size(dtype) <= usize::MAX,
    ensures
        offset == byte_offset(*layout, dtype),
        offset == layout.start_offset * byte_size(dtype),
{
    layout.start_offset * dtype.size_in_bytes()
}

/// A tensor argument as a kernel argument, copied first unless its elements lie in row-major
/// order; the offset counts elements of `dtype`.
pub open spec fn compact_arg<N: Scalars>(
    layout: Layout,
    position: usize,
    dtype: DType,
) -> KernelArg<N> {
    if layout.contiguous() {
        KernelArg::Buffer {
            operand: Operand::Argument(position),
            offset_in_bytes: byte_offset(layout, dtype),
        }
    } else {
        KernelArg::Buffer { operand: Operand::Compacted(position), offset_in_bytes: 0 }
    }
}

pub fn compact_buffer<N: Scalars>(layout: &Layout, position: usize, dtype: DType) -> (arg: KernelArg<
    N,
>)
    requires
        layout.valid(),
        layout.start_offset * byte_size(dtype) <= usize::MAX,
    ensures
        arg == compact_arg::<N>(*layout, position, dtype),
{
    if layout.is_contiguous() {
        KernelArg::Buffer {
            operand: Operand::Argument(position),
            offset_in_bytes: byte_offset_of(layout, dtype),
        }
    } else {
        KernelArg::Buffer { operand: Operand::Compacted(position), offset_in_bytes: 0 }
    }
}

/// A contiguous tensor argument as a kernel argument.
pub open spec fn argument<N: Scalars>(
    layout: Layout,
    position: usize,
    dtype: DType,
) -> KernelArg<N> {
    KernelArg::Buffer {
        operand: Operand::Argument(position),
        offset_in_bytes: byte_offset(layout, dtype),
    }
}

pub fn argument_buffer<N: Scalars>(layout: &Layout, position: usize, dtype: DType) -> (arg:
    KernelArg<N>)
    requires
        layout.start_offset * byte_size(dtype) <= usize::MAX,
    ensures
        arg == argument::<N>(*layout, position, dtype),
{
    KernelArg::Buffer {
        operand: Operand::Argument(position),
        offset_in_bytes: byte_offset_of(layout, dtype),
    }
}

/// The start of a buffer that belongs to the launch.
pub open spec fn own_buffer<N: Scalars>(operand: Operand) -> KernelArg<N> {
    KernelArg::Buffer { operand, offset_in_bytes: 0 }
}

/// Threads of a group and number of groups for `items` threads.
pub open spec fn threads_for(items: int, max_threads: int) -> int {
    min_of(max_threads, max_of(items, 1))
}

pub fn thread_groups(items: usize, max_threads: usize) -> (size: (usize, usize))
    requires
        max_threads > 0,
    ensures
        size.1 == threads_for(items as int, max_threads as int),
        size.0 == ceil_div(items as int, size.1 as int),
{
    let wanted: usize = if items >= 1 {
        items
    } else {
        1
    };
    let threads: usize = if max_threads <= wanted {
        max_threads
    } else {
        wanted
    };
    (div_ceil(items, threads), threads)
}

/// The threads of a group where every item has a group of its own.
pub const GROUP_THREADS: usize = 256;

impl Grid {
    /// The number of groups and the threads of a group, for groups of at most `max_threads`
    /// threads; `setting` is the text of `CANDELORA_TURBO_TG_SIZE`.
    pub fn size(&self, max_threads: usize, setting: Option<&str>) -> (size: (usize, usize))
        requires
            max_threads > 0,
        ensures
            match *self {
                Grid::PerItem(items) => size.1 == threads_for(items as int, max_threads as int)
                    && size.0 == ceil_div(items as int, size.1 as int),
                Grid::PerGroup(items) => size.0 == items && size.1 == grouped_threads(
                    text_of(setting),
                    max_threads,
                    GROUP_THREADS,
                ),
            },
    {
        match self {
            Grid::PerItem(items) => thread_groups(*items, max_threads),
            Grid::PerGroup(items) => (
                *items,
                turboquant_grouped_threads(setting, max_threads, GROUP_THREADS),
            ),
        }
    }
}

/// The groups of a launch hold a thread for every item, and no group is without one.
pub proof fn every_item_has_a_thread(items: int, max_threads: int)
    requires
        0 <= items,
        0 < max_threads,
    ensures
        0 < threads_for(items, max_threads) <= max_threads,
        items <= ceil_div(items, threads_for(items, max_threads)) * threads_for(items, max_threads),
        items > 0 ==> (ceil_div(items, threads_for(items, max_threads)) - 1) * threads_for(
            items,
            max_threads,
        ) < items,
{
    lemma_ceil_div(items, threads_for(items, max_threads));
}

} // verus!
