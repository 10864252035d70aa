//! How the elements of a tensor lie in its storage.
use crate::candle::{layout_contiguous_offsets, layout_is_contiguous, shape_elem_count};
use vstd::arithmetic::div_mod::lemma_fundamental_div_mod_converse;
use vstd::prelude::*;

verus! {

/// The product of all dimensions; one for no dimension.
pub open spec fn product(dims: Seq<usize>) -> nat
    decreases dims.len(),
{
    if dims.len() == 0 {
        1
    } else {
        product(dims.drop_last()) * dims.last() as nat
    }
}

/// Counting the elements from either end stays within a `usize`.
pub open spec fn countable(dims: Seq<usize>) -> bool {
    forall|k: int|
        #![trigger dims.take(k)]
        #![trigger dims.skip(k)]
        0 <= k <= dims.len() ==> product(dims.take(k)) <= usize::MAX && product(dims.skip(k))
            <= usize::MAX
}

/// Every axis longer than one advances by the number of elements in the axes behind it.
pub open spec fn row_major(dims: Seq<usize>, stride: Seq<usize>) -> bool {
    &&& stride.len() == dims.len()
    &&& forall|i: int|
        #![trigger stride[i]]
        0 <= i < dims.len() && dims[i] > 1 ==> stride[i] == product(dims.skip(i + 1))
}

/// Where element number `flat`, counted in row-major order, lies behind the first element.
pub open spec fn strided(dims: Seq<usize>, stride: Seq<usize>, flat: int) -> int
    decreases dims.len(),
{
    if dims.len() == 0 {
        0
    } else {
        strided(dims.drop_last(), stride.drop_last(), flat / dims.last() as int) + (flat
            % dims.last() as int) * stride.last()
    }
}

/// `dims` is `[a]`.
pub open spec fn dims_are_1(dims: Seq<usize>, a: int) -> bool {
    dims.len() == 1 && dims[0] == a
}

/// `dims` is `[a, b]`.
pub open spec fn dims_are_2(dims: Seq<usize>, a: int, b: int) -> bool {
    dims.len() == 2 && dims[0] == a && dims[1] == b
}

pub fn has_dims_1(dims: &Vec<usize>, a: usize) -> (yes: bool)
    ensures
        yes == dims_are_1(dims@, a as int),
{
    dims.len() == 1 && dims[0] == a
}

pub fn has_dims_2(dims: &Vec<usize>, a: usize, b: usize) -> (yes: bool)
    ensures
        yes == dims_are_2(dims@, a as int, b as int),
{
    dims.len() == 2 && dims[0] == a && dims[1] == b
}

pub fn same_dims(left: &Vec<usize>, right: &Vec<usize>) -> (yes: bool)
    ensures
        yes == (left@ == right@),
{
    if left.len() != right.len() {
        return false;
    }
    let mut i: usize = 0;
    while i < left.len()
        invariant
            left@.len() == right@.len(),
            i <= left@.len(),
            forall|k: int| 0 <= k < i ==> left@[k] == right@[k],
        decreases left@.len() - i,
    {
        if left[i] != right[i] {
            return false;
        }
        i += 1;
    }
    proof {
        assert(left@ =~= right@);
    }
    true
}

/// The dimensions, the strides and the first element of a tensor.
pub struct Layout {
    pub dims: Vec<usize>,
    pub stride: Vec<usize>,
    pub start_offset: usize,
}

impl Layout {
    /// The layout has one stride per axis and its elements can be counted.
    pub open spec fn valid(&self) -> bool {
        &&& self.stride@.len() == self.dims@.len()
        &&& countable(self.dims@)
    }

    pub open spec fn count(&self) -> nat {
        product(self.dims@)
    }

    pub open spec fn contiguous(&self) -> bool {
        row_major(self.dims@, self.stride@)
    }

    /// The place in the storage of element number `flat`.
    pub open spec fn place(&self, flat: int) -> int {
        self.start_offset + strided(self.dims@, self.stride@, flat)
    }

    /// Every element lies in a storage of `len` elements.
    pub open spec fn fits(&self, len: nat) -> bool {
        &&& self.start_offset <= len
        &&& forall|flat: int| 0 <= flat < self.count() ==> #[trigger] self.place(flat) < len
    }

    /// The elements in row-major order.
    pub open spec fn elements<T>(&self, values: Seq<T>) -> Seq<T> {
        Seq::new(self.count(), |flat: int| values[self.place(flat)])
    }

    pub fn elem_count(&self) -> (count: usize)
        requires
            self.valid(),
        ensures
            count == self.count(),
    {
        shape_elem_count(self.dims.as_slice())
    }

    pub fn is_contiguous(&self) -> (yes: bool)
        requires
            self.valid(),
        ensures
            yes == self.contiguous(),
    {
        layout_is_contiguous(self.dims.as_slice(), self.stride.as_slice(), self.start_offset)
    }

    /// The elements as one slice of the storage, where they lie in row-major order.
    pub fn contiguous_slice<'a, T>(&self, values: &'a [T]) -> (slice: Option<&'a [T]>)
        requires
            self.valid(),
            self.fits(values@.len()),
        ensures
            match slice {
                Some(slice) => self.contiguous() && slice@ == self.elements(values@),
                None => !self.contiguous(),
            },
    {
        let len: usize = values.len();
        proof {
            assert(len == values@.len());
            if self.contiguous() {
                lemma_contiguous_elements(*self, values@);
            }
        }
        match layout_contiguous_offsets(
            self.dims.as_slice(),
            self.stride.as_slice(),
            self.start_offset,
        ) {
            Some((start, end)) => Some(vstd::slice::slice_subrange(values, start, end)),
            None => None,
        }
    }

    /// The place of one element, by its row-major number.
    pub fn place_of(&self, flat: usize, len: usize) -> (place: usize)
        requires
            self.valid(),
            self.fits(len as nat),
            flat < self.count(),
        ensures
            place == self.place(flat as int),
            place < len,
    {
        let mut rest: usize = flat;
        let mut place: usize = self.start_offset;
        let mut axis: usize = self.dims.len();
        proof {
            assert(self.place(flat as int) < len);
            assert(self.dims@.take(axis as int) =~= self.dims@);
            assert(self.stride@.take(axis as int) =~= self.stride@);
            lemma_product_positive(self.dims@);
        }
        while axis > 0
            invariant
                axis <= self.dims@.len(),
                self.valid(),
                forall|i: int| 0 <= i < self.dims@.len() ==> #[trigger] self.dims@[i] > 0,
                self.place(flat as int) < len,
                place + strided(
                    self.dims@.take(axis as int),
                    self.stride@.take(axis as int),
                    rest as int,
                ) == self.place(flat as int),
            decreases axis,
        {
            let ghost old_axis = axis as int;
            axis -= 1;
            proof {
                let dims = self.dims@.take(old_axis);
                let stride = self.stride@.take(old_axis);
                assert(dims.drop_last() =~= self.dims@.take(axis as int));
                assert(stride.drop_last() =~= self.stride@.take(axis as int));
                let d = self.dims@[axis as int] as int;
                assert(rest as int / d >= 0) by (nonlinear_arith)
                    requires
                        rest >= 0,
                        d > 0,
                ;
                lemma_strided_nonneg(dims.drop_last(), stride.drop_last(), rest as int / d);
                let r = (rest as int) % d;
                let s = self.stride@[axis as int] as int;
                assert(r >= 0);
                assert(r * s >= 0) by (nonlinear_arith)
                    requires
                        r >= 0,
                        s >= 0,
                ;
            }
            let dim: usize = self.dims[axis];
            place = place + (rest % dim) * self.stride[axis];
            rest = rest / dim;
        }
        place
    }

    /// The layout after the elements were brought into row-major order: the same, where they
    /// are in that order, or that of a copy.
    pub fn compacted(&self) -> (layout: Layout)
        requires
            self.valid(),
        ensures
            layout.valid(),
            is_compacted(*self, layout),
    {
        let dims = copy_dims(&self.dims);
        if self.is_contiguous() {
            let stride = copy_dims(&self.stride);
            Layout { dims, stride, start_offset: self.start_offset }
        } else {
            let stride = row_major_stride(&dims);
            Layout { dims, stride, start_offset: 0 }
        }
    }

    /// Copies the elements out of the storage, in row-major order.
    pub fn gather<T: Copy>(&self, values: &[T]) -> (out: Vec<T>)
        requires
            self.valid(),
            self.fits(values@.len()),
        ensures
            out@ == self.elements(values@),
    {
        let count: usize = self.elem_count();
        let mut out: Vec<T> = Vec::new();
        let mut flat: usize = 0;
        while flat < count
            invariant
                flat <= count,
                count == self.count(),
                self.valid(),
                self.fits(values@.len()),
                out@ == self.elements(values@).take(flat as int),
            decreases count - flat,
        {
            let place: usize = self.place_of(flat, values.len());
            out.push(values[place]);
            proof {
                let whole = self.elements(values@);
                assert(whole.take(flat + 1) =~= whole.take(flat as int).push(whole[flat as int]));
            }
            flat += 1;
        }
        proof {
            assert(self.elements(values@).take(count as int) =~= self.elements(values@));
        }
        out
    }
}

/// `to` is the layout of a copy of `from` in row-major order, or `from` where its elements are in
/// that order.
pub open spec fn is_compacted(from: Layout, to: Layout) -> bool {
    &&& to.contiguous()
    &&& to.dims@ == from.dims@
    &&& to.start_offset == (if from.contiguous() {
        from.start_offset
    } else {
        0
    })
}

/// The layout of `len` elements in a row.
pub open spec fn is_vector(layout: Layout, len: int) -> bool {
    &&& layout.valid()
    &&& layout.contiguous()
    &&& layout.dims@.len() == 1
    &&& layout.dims@[0] == len
    &&& layout.start_offset == 0
}

pub fn vector_layout(len: usize) -> (layout: Layout)
    ensures
        is_vector(layout, len as int),
{
    let dims: Vec<usize> = vec![len];
    let stride: Vec<usize> = vec![1];
    let layout = Layout { dims, stride, start_offset: 0 };
    proof {
        lemma_rank_1(layout.dims@);
        assert forall|k: int| 0 <= k <= layout.dims@.len() implies product(
            #[trigger] layout.dims@.take(k),
        ) <= usize::MAX && product(layout.dims@.skip(k)) <= usize::MAX by {
            if k == 0 {
                assert(layout.dims@.take(0).len() == 0);
                assert(layout.dims@.skip(0) =~= layout.dims@);
            } else {
                assert(layout.dims@.take(1) =~= layout.dims@);
                assert(layout.dims@.skip(1).len() == 0);
            }
        }
        assert(layout.dims@.skip(1).len() == 0);
    }
    layout
}

/// The elements of a contiguous layout that covers the storage from its start are the storage.
pub proof fn lemma_whole_storage<T>(layout: Layout, values: Seq<T>)
    requires
        layout.contiguous(),
        layout.start_offset == 0,
        layout.count() == values.len(),
    ensures
        layout.fits(values.len()),
        layout.elements(values) == values,
{
    assert forall|flat: int| 0 <= flat < layout.count() implies #[trigger] layout.place(flat)
        == flat by {
        lemma_contiguous_place(layout, flat);
    }
    assert(layout.elements(values) =~= values);
}

pub fn copy_dims(dims: &Vec<usize>) -> (copy: Vec<usize>)
    ensures
        copy@ == dims@,
{
    let mut copy: Vec<usize> = Vec::new();
    let mut i: usize = 0;
    while i < dims.len()
        invariant
            i <= dims@.len(),
            copy@ == dims@.take(i as int),
        decreases dims@.len() - i,
    {
        copy.push(dims[i]);
        proof {
            assert(dims@.take(i + 1) =~= dims@.take(i as int).push(dims@[i as int]));
        }
        i += 1;
    }
    proof {
        assert(dims@.take(dims@.len() as int) =~= dims@);
    }
    copy
}

/// The strides of elements in row-major order.
fn row_major_stride(dims: &Vec<usize>) -> (stride: Vec<usize>)
    requires
        countable(dims@),
    ensures
        row_major(dims@, stride@),
{
    let rank: usize = dims.len();
    let mut stride: Vec<usize> = vec![1;rank];
    let mut unit: usize = 1;
    let mut i: usize = rank;
    proof {
        assert(dims@.skip(rank as int).len() == 0);
    }
    while i > 0
        invariant
            rank == dims@.len(),
            i <= rank,
            countable(dims@),
            stride@.len() == rank,
            unit == product(dims@.skip(i as int)),
            forall|k: int| i <= k < rank ==> #[trigger] stride@[k] == product(dims@.skip(k + 1)),
        decreases i,
    {
        i -= 1;
        stride[i] = unit;
        proof {
            lemma_product_first(dims@.skip(i as int));
            assert(dims@.skip(i as int).drop_first() =~= dims@.skip(i + 1));
            assert(product(dims@.skip(i as int)) <= usize::MAX);
        }
        unit = dims[i] * unit;
    }
    stride
}

/// The product of the dimensions is that of the first and that of the others.
proof fn lemma_product_first(dims: Seq<usize>)
    requires
        dims.len() > 0,
    ensures
        product(dims) == dims[0] * product(dims.drop_first()),
    decreases dims.len(),
{
    if dims.len() == 1 {
        lemma_rank_1(dims);
        assert(dims.drop_first().len() == 0);
        let one = product(dims.drop_first());
        assert(dims[0] * one == dims[0]) by (nonlinear_arith)
            requires
                one == 1,
        ;
    } else {
        lemma_product_first(dims.drop_last());
        assert(dims.drop_last().drop_first() =~= dims.drop_first().drop_last());
        let first = dims[0] as int;
        let inner = product(dims.drop_first().drop_last()) as int;
        let last = dims.last() as int;
        assert((first * inner) * last == first * (inner * last)) by (nonlinear_arith);
    }
}

proof fn lemma_product_positive(dims: Seq<usize>)
    requires
        product(dims) > 0,
    ensures
        forall|i: int| 0 <= i < dims.len() ==> #[trigger] dims[i] > 0,
    decreases dims.len(),
{
    if dims.len() > 0 {
        let head = product(dims.drop_last());
        let last = dims.last() as nat;
        assert(head > 0 && last > 0) by (nonlinear_arith)
            requires
                head * last > 0,
        ;
        lemma_product_positive(dims.drop_last());
        assert forall|i: int| 0 <= i < dims.len() implies #[trigger] dims[i] > 0 by {
            if i < dims.len() - 1 {
                assert(dims.drop_last()[i] > 0);
            }
        }
    }
}

proof fn lemma_strided_nonneg(dims: Seq<usize>, stride: Seq<usize>, flat: int)
    requires
        stride.len() == dims.len(),
        forall|i: int| 0 <= i < dims.len() ==> #[trigger] dims[i] > 0,
        flat >= 0,
    ensures
        strided(dims, stride, flat) >= 0,
    decreases dims.len(),
{
    if dims.len() > 0 {
        let d = dims.last() as int;
        let s = stride.last() as int;
        let r = flat % d;
        assert(flat / d >= 0) by (nonlinear_arith)
            requires
                flat >= 0,
                d > 0,
        ;
        lemma_strided_nonneg(dims.drop_last(), stride.drop_last(), flat / d);
        assert(r * s >= 0) by (nonlinear_arith)
            requires
                r >= 0,
                s >= 0,
        ;
    }
}

pub proof fn lemma_rank_1(dims: Seq<usize>)
    requires
        dims.len() == 1,
    ensures
        product(dims) == dims[0],
{
    assert(dims.drop_last().len() == 0);
    let one = product(dims.drop_last());
    assert(one * (dims[0] as nat) == dims[0] as nat) by (nonlinear_arith)
        requires
            one == 1,
    ;
}

pub proof fn lemma_rank_2(dims: Seq<usize>)
    requires
        dims.len() == 2,
    ensures
        product(dims) == dims[0] * dims[1],
{
    lemma_rank_1(dims.drop_last());
}

pub proof fn lemma_rank_3(dims: Seq<usize>)
    requires
        dims.len() == 3,
    ensures
        product(dims) == (dims[0] * dims[1]) * dims[2],
        countable(dims) ==> dims[0] * dims[1] <= usize::MAX,
{
    lemma_rank_2(dims.drop_last());
    assert(dims.take(2) =~= dims.drop_last());
}

pub proof fn lemma_rank_4(dims: Seq<usize>)
    requires
        dims.len() == 4,
    ensures
        product(dims) == ((dims[0] * dims[1]) * dims[2]) * dims[3],
        countable(dims) ==> dims[0] * dims[1] <= usize::MAX,
        countable(dims) ==> (dims[0] * dims[1]) * dims[2] <= usize::MAX,
{
    lemma_rank_3(dims.drop_last());
    lemma_rank_2(dims.drop_last().drop_last());
    assert(dims.take(3) =~= dims.drop_last());
    assert(dims.take(2) =~= dims.drop_last().drop_last());
}

pub proof fn lemma_countable(dims: Seq<usize>)
    requires
        countable(dims),
    ensures
        product(dims) <= usize::MAX,
{
    assert(dims.take(dims.len() as int) =~= dims);
}

/// With strides that are `unit` times those of a row-major layout, places go in steps of `unit`.
proof fn lemma_strided_by_unit(dims: Seq<usize>, stride: Seq<usize>, unit: nat, flat: int)
    requires
        stride.len() == dims.len(),
        forall|i: int|
            #![trigger stride[i]]
            0 <= i < dims.len() && dims[i] > 1 ==> stride[i] == product(dims.skip(i + 1)) * unit,
        0 <= flat < product(dims),
    ensures
        strided(dims, stride, flat) == flat * unit,
    decreases dims.len(),
{
    if dims.len() == 0 {
        assert(flat == 0);
        assert(0 * unit == 0) by (nonlinear_arith);
    } else {
        let n = dims.len() as int;
        let d = dims.last() as int;
        let head = product(dims.drop_last()) as int;
        lemma_product_positive(dims);
        let q = flat / d;
        let r = flat % d;
        assert(flat == q * d + r && 0 <= q < head) by (nonlinear_arith)
            requires
                0 <= flat < head * d,
                d > 0,
                q == flat / d,
                r == flat % d,
        ;
        let wider = unit * d as nat;
        assert forall|i: int|
            #![trigger stride.drop_last()[i]]
            0 <= i < n - 1 && dims.drop_last()[i] > 1 implies stride.drop_last()[i] == product(
            dims.drop_last().skip(i + 1),
        ) * wider by {
            let tail = dims.skip(i + 1);
            assert(tail.drop_last() =~= dims.drop_last().skip(i + 1));
            assert(tail.last() == dims.last());
            assert(stride[i] == product(tail) * unit);
            let inner = product(dims.drop_last().skip(i + 1));
            assert((inner * d as nat) * unit == inner * wider) by (nonlinear_arith)
                requires
                    wider == unit * d as nat,
            ;
        }
        lemma_strided_by_unit(dims.drop_last(), stride.drop_last(), wider, q);
        let s = stride.last() as int;
        if d > 1 {
            assert(stride[n - 1] == product(dims.skip(n)) * unit);
            assert(dims.skip(n).len() == 0);
            let one = product(dims.skip(n));
            assert(one * unit == unit) by (nonlinear_arith)
                requires
                    one == 1,
            ;
        } else {
            assert(r == 0);
        }
        assert(q * wider + r * s == flat * unit) by (nonlinear_arith)
            requires
                wider == unit * d as nat,
                d > 0,
                flat == q * d + r,
                s == unit || r == 0,
        ;
    }
}

/// In a contiguous layout, element number `flat` is `flat` places behind the first.
pub proof fn lemma_contiguous_place(layout: Layout, flat: int)
    requires
        layout.contiguous(),
        0 <= flat < layout.count(),
    ensures
        layout.place(flat) == layout.start_offset + flat,
{
    lemma_strided_by_unit(layout.dims@, layout.stride@, 1, flat);
}

proof fn lemma_contiguous_end(layout: Layout, len: nat)
    requires
        layout.contiguous(),
        layout.fits(len),
    ensures
        layout.start_offset + layout.count() <= len,
{
    if layout.count() > 0 {
        let last = layout.count() - 1;
        assert(layout.place(last) < len);
        lemma_contiguous_place(layout, last);
    }
}

/// The elements of a contiguous layout are one run of the storage.
pub proof fn lemma_contiguous_elements<T>(layout: Layout, values: Seq<T>)
    requires
        layout.contiguous(),
        layout.fits(values.len()),
    ensures
        layout.start_offset + layout.count() <= values.len(),
        layout.elements(values) == values.subrange(
            layout.start_offset as int,
            layout.start_offset + layout.count(),
        ),
{
    lemma_contiguous_end(layout, values.len());
    let run = values.subrange(layout.start_offset as int, layout.start_offset + layout.count());
    assert forall|flat: int| 0 <= flat < layout.count() implies layout.elements(values)[flat]
        == run[flat] by {
        lemma_contiguous_place(layout, flat);
    }
    assert(layout.elements(values) =~= run);
}

/// The number of an element in row-major order, by its indices.
pub open spec fn row_number(dims: Seq<usize>, index: Seq<int>) -> int
    decreases index.len(),
{
    if index.len() == 0 {
        0
    } else {
        row_number(dims.drop_last(), index.drop_last()) * dims.last() + index.last()
    }
}

/// The sum of every index times the stride of its axis.
pub open spec fn stride_sum(stride: Seq<usize>, index: Seq<int>) -> int
    decreases index.len(),
{
    if index.len() == 0 {
        0
    } else {
        stride_sum(stride.drop_last(), index.drop_last()) + index.last() * stride.last()
    }
}

/// An element lies behind the first one by its indices, each times the stride of its axis.
pub proof fn elements_lie_by_their_strides<T>(layout: Layout, values: Seq<T>, index: Seq<int>)
    requires
        layout.valid(),
        index.len() == layout.dims@.len(),
        forall|k: int| 0 <= k < index.len() ==> 0 <= #[trigger] index[k] < layout.dims@[k],
    ensures
        0 <= row_number(layout.dims@, index) < layout.count(),
        layout.elements(values)[row_number(layout.dims@, index)] == values[layout.start_offset
            + stride_sum(layout.stride@, index)],
{
    lemma_stride_sum(layout.dims@, layout.stride@, index);
}

proof fn lemma_stride_sum(dims: Seq<usize>, stride: Seq<usize>, index: Seq<int>)
    requires
        stride.len() == dims.len(),
        index.len() == dims.len(),
        forall|k: int| 0 <= k < index.len() ==> 0 <= #[trigger] index[k] < dims[k],
    ensures
        0 <= row_number(dims, index) < product(dims),
        strided(dims, stride, row_number(dims, index)) == stride_sum(stride, index),
    decreases dims.len(),
{
    if dims.len() > 0 {
        let rest = index.drop_last();
        assert forall|k: int| 0 <= k < rest.len() implies 0 <= #[trigger] rest[k]
            < dims.drop_last()[k] by {
            assert(0 <= index[k] < dims[k]);
        }
        lemma_stride_sum(dims.drop_last(), stride.drop_last(), rest);
        let last = index[index.len() - 1];
        let d = dims.last() as int;
        let head = row_number(dims.drop_last(), rest);
        let whole = product(dims.drop_last()) as int;
        lemma_fundamental_div_mod_converse(head * d + last, d, head, last);
        assert(0 <= head * d + last < whole * d) by (nonlinear_arith)
            requires
                0 <= head < whole,
                0 <= last < d,
        ;
    }
}

} // verus!
