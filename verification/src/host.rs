//! Reading host tensors in single precision, and writing results back in their own format.
use crate::layout::Layout;
use crate::scalar::Scalars;
use crate::tensor::{HostData, HostVec};
use vstd::prelude::*;

verus! {

/// `wide` is `narrow`, element by element, in single precision.
pub open spec fn widens_f16<N: Scalars>(narrow: Seq<N::F16>, wide: Seq<N::F32>) -> bool {
    &&& wide.len() == narrow.len()
    &&& forall|i: int|
        0 <= i < narrow.len() ==> call_ensures(N::widen_f16, (narrow[i],), #[trigger] wide[i])
}

/// `wide` is `narrow`, element by element, in single precision.
pub open spec fn widens_bf16<N: Scalars>(narrow: Seq<N::BF16>, wide: Seq<N::F32>) -> bool {
    &&& wide.len() == narrow.len()
    &&& forall|i: int|
        0 <= i < narrow.len() ==> call_ensures(N::widen_bf16, (narrow[i],), #[trigger] wide[i])
}

/// `wide` are the numbers `bytes`.
pub open spec fn widens_u8<N: Scalars>(bytes: Seq<u8>, wide: Seq<N::F32>) -> bool {
    &&& wide.len() == bytes.len()
    &&& forall|i: int|
        0 <= i < bytes.len() ==> call_ensures(
            N::from_i32,
            (bytes[i] as i32,),
            #[trigger] wide[i],
        )
}

/// `wide` are the elements of a host tensor, in row-major order and single precision.
pub open spec fn widens<N: Scalars>(data: HostData<N>, layout: Layout, wide: Seq<N::F32>) -> bool {
    match data {
        HostData::U8(values) => widens_u8::<N>(layout.elements(values@), wide),
        HostData::F16(values) => widens_f16::<N>(layout.elements(values@), wide),
        HostData::BF16(values) => widens_bf16::<N>(layout.elements(values@), wide),
        HostData::F32(values) => wide == layout.elements(values@),
        HostData::Other { .. } => false,
    }
}

/// The elements are floating-point numbers.
pub open spec fn is_float<N: Scalars>(data: HostData<N>) -> bool {
    data is F16 || data is BF16 || data is F32
}

/// `out` holds `wide`, element by element, in the format of `out`.
pub open spec fn narrows<N: Scalars>(wide: Seq<N::F32>, out: HostVec<N>) -> bool {
    match out {
        HostVec::U8(_) => false,
        HostVec::F16(values) => {
            &&& values@.len() == wide.len()
            &&& forall|i: int|
                0 <= i < wide.len() ==> call_ensures(
                    N::narrow_f16,
                    (wide[i],),
                    #[trigger] values@[i],
                )
        },
        HostVec::BF16(values) => {
            &&& values@.len() == wide.len()
            &&& forall|i: int|
                0 <= i < wide.len() ==> call_ensures(
                    N::narrow_bf16,
                    (wide[i],),
                    #[trigger] values@[i],
                )
        },
        HostVec::F32(values) => values@ == wide,
    }
}

pub fn widen_f16_slice<N: Scalars>(narrow: &[N::F16]) -> (wide: Vec<N::F32>)
    ensures
        widens_f16::<N>(narrow@, wide@),
{
    let mut wide: Vec<N::F32> = Vec::new();
    let mut i: usize = 0;
    while i < narrow.len()
        invariant
            i <= narrow@.len(),
            wide@.len() == i,
            forall|k: int|
                0 <= k < i ==> call_ensures(N::widen_f16, (narrow@[k],), #[trigger] wide@[k]),
        decreases narrow@.len() - i,
    {
        wide.push(N::widen_f16(narrow[i]));
        i += 1;
    }
    wide
}

pub fn widen_bf16_slice<N: Scalars>(narrow: &[N::BF16]) -> (wide: Vec<N::F32>)
    ensures
        widens_bf16::<N>(narrow@, wide@),
{
    let mut wide: Vec<N::F32> = Vec::new();
    let mut i: usize = 0;
    while i < narrow.len()
        invariant
            i <= narrow@.len(),
            wide@.len() == i,
            forall|k: int|
                0 <= k < i ==> call_ensures(N::widen_bf16, (narrow@[k],), #[trigger] wide@[k]),
        decreases narrow@.len() - i,
    {
        wide.push(N::widen_bf16(narrow[i]));
        i += 1;
    }
    wide
}

fn widen_u8_slice<N: Scalars>(bytes: &[u8]) -> (wide: Vec<N::F32>)
    ensures
        widens_u8::<N>(bytes@, wide@),
{
    let mut wide: Vec<N::F32> = Vec::new();
    let mut i: usize = 0;
    while i < bytes.len()
        invariant
            i <= bytes@.len(),
            wide@.len() == i,
            forall|k: int|
                0 <= k < i ==> call_ensures(
                    N::from_i32,
                    (bytes@[k] as i32,),
                    #[trigger] wide@[k],
                ),
        decreases bytes@.len() - i,
    {
        wide.push(N::from_i32(bytes[i] as i32));
        i += 1;
    }
    wide
}

/// The elements of a host tensor, in row-major order and single precision.
pub fn gather_wide<N: Scalars>(data: &HostData<N>, layout: &Layout) -> (wide: Vec<N::F32>)
    requires
        layout.valid(),
        layout.fits(data.spec_len()),
        !(*data is Other),
    ensures
        widens::<N>(*data, *layout, wide@),
{
    match data {
        HostData::U8(values) => widen_u8_slice::<N>(layout.gather(values).as_slice()),
        HostData::F16(values) => widen_f16_slice::<N>(layout.gather(values).as_slice()),
        HostData::BF16(values) => widen_bf16_slice::<N>(layout.gather(values).as_slice()),
        HostData::F32(values) => layout.gather(values),
        HostData::Other { .. } => Vec::new(),
    }
}

/// Elements in single precision, in place or converted.
pub enum Wide<'a, N: Scalars> {
    Borrowed(&'a [N::F32]),
    Owned(Vec<N::F32>),
}

impl<'a, N: Scalars> View for Wide<'a, N> {
    type V = Seq<N::F32>;

    open spec fn view(&self) -> Seq<N::F32> {
        match *self {
            Wide::Borrowed(values) => values@,
            Wide::Owned(values) => values@,
        }
    }
}

impl<'a, N: Scalars> Wide<'a, N> {
    pub fn as_slice(&self) -> (slice: &[N::F32])
        ensures
            slice@ == self@,
    {
        match self {
            Wide::Borrowed(values) => values,
            Wide::Owned(values) => values.as_slice(),
        }
    }
}

/// The elements of a contiguous host tensor, in single precision.
pub fn contiguous_wide<'a, N: Scalars>(data: &HostData<'a, N>, layout: &Layout) -> (wide: Option<
    Wide<'a, N>,
>)
    requires
        layout.valid(),
        layout.fits(data.spec_len()),
        is_float::<N>(*data),
    ensures
        match wide {
            Some(wide) => layout.contiguous() && widens::<N>(*data, *layout, wide@),
            None => !layout.contiguous(),
        },
{
    match data {
        HostData::F16(values) => match layout.contiguous_slice(values) {
            Some(slice) => Some(Wide::Owned(widen_f16_slice::<N>(slice))),
            None => None,
        },
        HostData::BF16(values) => match layout.contiguous_slice(values) {
            Some(slice) => Some(Wide::Owned(widen_bf16_slice::<N>(slice))),
            None => None,
        },
        HostData::F32(values) => match layout.contiguous_slice(values) {
            Some(slice) => Some(Wide::Borrowed(slice)),
            None => None,
        },
        _ => None,
    }
}

/// `wide` in the format of `like`, which holds floating-point numbers.
pub fn narrow_like<N: Scalars>(wide: Vec<N::F32>, like: &HostData<N>) -> (out: HostVec<N>)
    requires
        is_float::<N>(*like),
    ensures
        narrows::<N>(wide@, out),
        out is F16 <==> *like is F16,
        out is BF16 <==> *like is BF16,
        out is F32 <==> *like is F32,
{
    match like {
        HostData::F16(_) => {
            let mut values: Vec<N::F16> = Vec::new();
            let mut i: usize = 0;
            while i < wide.len()
                invariant
                    i <= wide@.len(),
                    values@.len() == i,
                    forall|k: int|
                        0 <= k < i ==> call_ensures(
                            N::narrow_f16,
                            (wide@[k],),
                            #[trigger] values@[k],
                        ),
                decreases wide@.len() - i,
            {
                values.push(N::narrow_f16(wide[i]));
                i += 1;
            }
            HostVec::F16(values)
        },
        HostData::BF16(_) => {
            let mut values: Vec<N::BF16> = Vec::new();
            let mut i: usize = 0;
            while i < wide.len()
                invariant
                    i <= wide@.len(),
                    values@.len() == i,
                    forall|k: int|
                        0 <= k < i ==> call_ensures(
                            N::narrow_bf16,
                            (wide@[k],),
                            #[trigger] values@[k],
                        ),
                decreases wide@.len() - i,
            {
                values.push(N::narrow_bf16(wide[i]));
                i += 1;
            }
            HostVec::BF16(values)
        },
        _ => HostVec::F32(wide),
    }
}

} // verus!
