//! Rows of numbers as small integers.
//!
//! A row is stored as one integer per column and one scale. In `Int8` rows an integer takes a
//! byte, offset by 128. In `Int4` rows two neighbouring columns share a byte, the even column in
//! its low half, in two's complement; the last half of an odd row is zero.
use crate::arith::{ceil_div, div_ceil, lemma_ceil_div};
use vstd::prelude::*;

verus! {

/// How the integers of a row are stored.
#[derive(Clone, Copy, Debug, PartialEq, Eq, Structural)]
pub enum RowwiseQuantKind {
    Int8,
    Int4,
}

/// The bytes of one row.
pub open spec fn packed_cols(head_dim: int, kind: RowwiseQuantKind) -> int {
    match kind {
        RowwiseQuantKind::Int8 => head_dim,
        RowwiseQuantKind::Int4 => ceil_div(head_dim, 2),
    }
}

pub fn expected_packed_cols(head_dim: usize, kind: RowwiseQuantKind) -> (cols: usize)
    ensures
        cols == packed_cols(head_dim as int, kind),
        cols <= head_dim,
{
    match kind {
        RowwiseQuantKind::Int8 => head_dim,
        RowwiseQuantKind::Int4 => {
            proof {
                lemma_ceil_div(head_dim as int, 2);
            }
            div_ceil(head_dim, 2)
        },
    }
}

/// Four bits as a number in two's complement.
pub open spec fn signed_nibble(nibble: int) -> int {
    if nibble >= 8 {
        nibble - 16
    } else {
        nibble
    }
}

/// The half of a byte that belongs to column `col`.
pub open spec fn nibble_of(byte: u8, col: int) -> int {
    if col % 2 == 0 {
        byte as int % 16
    } else {
        byte as int / 16
    }
}

/// The byte that holds the integer at a row and a column.
pub open spec fn code_place(row: int, col: int, head_dim: int, kind: RowwiseQuantKind) -> int {
    row * packed_cols(head_dim, kind) + match kind {
        RowwiseQuantKind::Int8 => col,
        RowwiseQuantKind::Int4 => col / 2,
    }
}

/// The integer at a row and a column.
pub open spec fn code_at(
    data: Seq<u8>,
    row: int,
    col: int,
    head_dim: int,
    kind: RowwiseQuantKind,
) -> int {
    let byte = data[code_place(row, col, head_dim, kind)];
    match kind {
        RowwiseQuantKind::Int8 => byte - 128,
        RowwiseQuantKind::Int4 => signed_nibble(nibble_of(byte, col)),
    }
}

/// The place of a row and a column is among the bytes of all rows.
pub proof fn lemma_code_in_bounds(
    rows: int,
    row: int,
    col: int,
    head_dim: int,
    kind: RowwiseQuantKind,
)
    requires
        0 <= row < rows,
        0 <= col < head_dim,
    ensures
        0 <= code_place(row, col, head_dim, kind) < rows * packed_cols(head_dim, kind),
{
    lemma_ceil_div(head_dim, 2);
    let cols = packed_cols(head_dim, kind);
    let place = match kind {
        RowwiseQuantKind::Int8 => col,
        RowwiseQuantKind::Int4 => col / 2,
    };
    assert(0 <= row * cols && row * cols + place < rows * cols) by (nonlinear_arith)
        requires
            0 <= row < rows,
            0 <= place < cols,
    ;
}

/// Reads the integer at a row and a column.
pub fn code_of(data: &[u8], row: usize, col: usize, head_dim: usize, kind: RowwiseQuantKind) -> (code:
    i32)
    requires
        code_place(row as int, col as int, head_dim as int, kind) < data@.len(),
    ensures
        code == code_at(data@, row as int, col as int, head_dim as int, kind),
        -128 <= code <= 127,
{
    let len: usize = data.len();
    proof {
        assert(len == data@.len());
        lemma_ceil_div(head_dim as int, 2);
        let cols = packed_cols(head_dim as int, kind);
        assert(0 <= row * cols) by (nonlinear_arith)
            requires
                0 <= row,
                0 <= cols,
        ;
    }
    match kind {
        RowwiseQuantKind::Int8 => data[row * head_dim + col] as i32 - 128,
        RowwiseQuantKind::Int4 => {
            let cols: usize = expected_packed_cols(head_dim, kind);
            let byte: u8 = data[row * cols + col / 2];
            proof {
                assert(byte & 0x0fu8 == byte % 16) by (bit_vector);
                assert((byte >> 4u8) & 0x0fu8 == byte / 16) by (bit_vector);
            }
            let nibble: u8 = if col % 2 == 0 {
                byte & 0x0f
            } else {
                (byte >> 4) & 0x0f
            };
            if nibble >= 8 {
                nibble as i32 - 16
            } else {
                nibble as i32
            }
        },
    }
}

} // verus!
