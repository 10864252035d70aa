//! Small values packed into bytes, lowest bit first.
use vstd::arithmetic::div_mod::lemma_mod_breakdown;
use vstd::prelude::*;

verus! {

/// Bit `k` of a byte.
pub open spec fn byte_bit(byte: u8, k: int) -> bool {
    (byte >> (k as u8)) & 1u8 == 1u8
}

/// Bit number `at` of a stream of bytes; zero behind its end.
pub open spec fn stream_bit(packed: Seq<u8>, at: int) -> bool {
    at / 8 < packed.len() && byte_bit(packed[at / 8], at % 8)
}

/// `value` is the `bits` bits of the stream that start at bit `at`.
pub open spec fn reads_value(packed: Seq<u8>, at: int, bits: int, value: u8) -> bool {
    forall|k: int|
        0 <= k < 8 ==> #[trigger] byte_bit(value, k) == (k < bits && stream_bit(packed, at + k))
}

/// `values` are the first values of `bits` bits each in the stream.
pub open spec fn unpacks(packed: Seq<u8>, bits: int, values: Seq<u8>) -> bool {
    forall|i: int|
        0 <= i < values.len() ==> reads_value(packed, i * bits, bits, #[trigger] values[i])
}

/// The byte at `at`, or zero behind the end.
fn byte_or_zero(packed: &[u8], at: usize) -> (byte: u8)
    ensures
        byte == (if at < packed@.len() {
            packed@[at as int]
        } else {
            0
        }),
{
    if at < packed.len() {
        packed[at]
    } else {
        0
    }
}

/// `width` bits of two neighbouring bytes, from bit `offset` of the first.
fn window(low: u8, high: u8, offset: usize, width: usize) -> (value: u8)
    requires
        offset < 8,
        0 < width <= 8,
    ensures
        forall|k: int|
            0 <= k < 8 ==> #[trigger] byte_bit(value, k) == (k < width && (if offset + k < 8 {
                byte_bit(low, offset + k)
            } else {
                byte_bit(high, offset + k - 8)
            })),
{
    let mut word: u16 = low as u16;
    if offset + width > 8 {
        word = word | ((high as u16) << 8u16);
    }
    let offset16: u16 = offset as u16;
    let width16: u16 = width as u16;
    assert((1u16 << width16) >= 1u16) by (bit_vector)
        requires
            0 < width16 <= 8,
    ;
    let mask: u16 = (1u16 << width16) - 1;
    let value: u8 = ((word >> offset16) & mask) as u8;
    proof {
        assert forall|k: int| 0 <= k < 8 implies #[trigger] byte_bit(value, k) == (k < width
            && (if offset + k < 8 {
            byte_bit(low, offset + k)
        } else {
            byte_bit(high, offset + k - 8)
        })) by {
            let k8 = k as u8;
            let o8 = offset as u8;
            let w8 = width as u8;
            assert(((value >> k8) & 1u8 == 1u8) == (k8 < w8 && (if o8 + k8 < 8 {
                (low >> ((o8 + k8) as u8)) & 1u8 == 1u8
            } else {
                (high >> ((o8 + k8 - 8) as u8)) & 1u8 == 1u8
            }))) by (bit_vector)
                requires
                    k8 < 8,
                    o8 < 8,
                    0 < w8 <= 8,
                    offset16 == o8,
                    width16 == w8,
                    o8 + w8 > 8 ==> word == (low as u16) | ((high as u16) << 8u16),
                    o8 + w8 <= 8 ==> word == low as u16,
                    mask == ((1u16 << width16) - 1) as u16,
                    value == ((word >> offset16) & mask) as u8,
            ;
        }
    }
    value
}

/// Reads `value_count` values of `bits_per_value` bits each; bits behind the end are zero.
pub fn unpack_packed_u8_values(
    packed: &[u8],
    bits_per_value: usize,
    value_count: usize,
) -> (values: Vec<u8>)
    requires
        0 < bits_per_value <= 8,
        value_count * bits_per_value <= usize::MAX,
    ensures
        values@.len() == value_count,
        unpacks(packed@, bits_per_value as int, values@),
{
    let mut values: Vec<u8> = Vec::new();
    let mut idx: usize = 0;
    while idx < value_count
        invariant
            0 < bits_per_value <= 8,
            value_count * bits_per_value <= usize::MAX,
            idx <= value_count,
            values@.len() == idx,
            unpacks(packed@, bits_per_value as int, values@),
        decreases value_count - idx,
    {
        proof {
            assert(0 <= idx * bits_per_value <= value_count * bits_per_value) by (nonlinear_arith)
                requires
                    0 <= idx <= value_count,
                    0 <= bits_per_value,
            ;
        }
        let start_bit: usize = idx * bits_per_value;
        let byte_idx: usize = start_bit / 8;
        let bit_offset: usize = start_bit % 8;
        let low: u8 = byte_or_zero(packed, byte_idx);
        let high: u8 = byte_or_zero(packed, byte_idx + 1);
        let value: u8 = window(low, high, bit_offset, bits_per_value);
        values.push(value);
        proof {
            assert forall|k: int| 0 <= k < 8 implies #[trigger] byte_bit(value, k) == (k
                < bits_per_value && stream_bit(packed@, start_bit + k)) by {
                lemma_zero_byte(bit_offset + k);
                lemma_zero_byte(bit_offset + k - 8);
                if bit_offset + k < 8 {
                    assert((start_bit + k) / 8 == byte_idx);
                    assert((start_bit + k) % 8 == bit_offset + k);
                } else {
                    assert((start_bit + k) / 8 == byte_idx + 1);
                    assert((start_bit + k) % 8 == bit_offset + k - 8);
                }
            }
            assert(reads_value(packed@, idx * bits_per_value, bits_per_value as int, value));
        }
        idx += 1;
    }
    values
}

proof fn lemma_zero_byte(k: int)
    ensures
        0 <= k < 8 ==> !byte_bit(0u8, k),
{
    if 0 <= k < 8 {
        let k8 = k as u8;
        assert((0u8 >> k8) & 1u8 != 1u8) by (bit_vector);
    }
}

/// A byte is determined by its bits.
proof fn lemma_byte_from_bits(a: u8, b: u8)
    requires
        forall|k: int| 0 <= k < 8 ==> #[trigger] byte_bit(a, k) == byte_bit(b, k),
    ensures
        a == b,
{
    assert(byte_bit(a, 0) == byte_bit(b, 0));
    assert(byte_bit(a, 1) == byte_bit(b, 1));
    assert(byte_bit(a, 2) == byte_bit(b, 2));
    assert(byte_bit(a, 3) == byte_bit(b, 3));
    assert(byte_bit(a, 4) == byte_bit(b, 4));
    assert(byte_bit(a, 5) == byte_bit(b, 5));
    assert(byte_bit(a, 6) == byte_bit(b, 6));
    assert(byte_bit(a, 7) == byte_bit(b, 7));
    assert(a == b) by (bit_vector)
        requires
            ((a >> 0u8) & 1u8 == 1u8) == ((b >> 0u8) & 1u8 == 1u8),
            ((a >> 1u8) & 1u8 == 1u8) == ((b >> 1u8) & 1u8 == 1u8),
            ((a >> 2u8) & 1u8 == 1u8) == ((b >> 2u8) & 1u8 == 1u8),
            ((a >> 3u8) & 1u8 == 1u8) == ((b >> 3u8) & 1u8 == 1u8),
            ((a >> 4u8) & 1u8 == 1u8) == ((b >> 4u8) & 1u8 == 1u8),
            ((a >> 5u8) & 1u8 == 1u8) == ((b >> 5u8) & 1u8 == 1u8),
            ((a >> 6u8) & 1u8 == 1u8) == ((b >> 6u8) & 1u8 == 1u8),
            ((a >> 7u8) & 1u8 == 1u8) == ((b >> 7u8) & 1u8 == 1u8),
    ;
}

/// A stream determines the values that are read from it: where `stored` was packed, `read` gives
/// it back.
pub proof fn unpacking_is_unique(packed: Seq<u8>, bits: int, stored: Seq<u8>, read: Seq<u8>)
    requires
        unpacks(packed, bits, stored),
        unpacks(packed, bits, read),
        stored.len() == read.len(),
    ensures
        stored == read,
{
    assert forall|i: int| 0 <= i < stored.len() implies stored[i] == read[i] by {
        assert(reads_value(packed, i * bits, bits, stored[i]));
        assert(reads_value(packed, i * bits, bits, read[i]));
        lemma_byte_from_bits(stored[i], read[i]);
    }
    assert(stored =~= read);
}

/// Two to the power `k`.
pub open spec fn power_of_two(k: int) -> int
    decreases k,
{
    if k <= 0 {
        1
    } else {
        2 * power_of_two(k - 1)
    }
}

/// Binary digit number `at` of a text of bytes, each of which gives its lowest digit first; zero
/// behind the end.
pub open spec fn digit(packed: Seq<u8>, at: int) -> int {
    if at / 8 < packed.len() {
        (packed[at / 8] as int / power_of_two(at % 8)) % 2
    } else {
        0
    }
}

/// The number with the `n` binary digits from digit `at` on, lowest first.
pub open spec fn number_of(packed: Seq<u8>, at: int, n: int) -> int
    decreases n,
{
    if n <= 0 {
        0
    } else {
        number_of(packed, at, n - 1) + digit(packed, at + n - 1) * power_of_two(n - 1)
    }
}

/// The digits of a byte are its bits.
proof fn lemma_digit(byte: u8, k: int)
    requires
        0 <= k < 8,
    ensures
        byte_bit(byte, k) == ((byte as int / power_of_two(k)) % 2 == 1),
{
    lemma_powers();
    assert(((byte >> 0u8) & 1u8 == 1u8) == ((byte / 1) % 2 == 1) && ((byte >> 1u8) & 1u8 == 1u8)
        == ((byte / 2) % 2 == 1) && ((byte >> 2u8) & 1u8 == 1u8) == ((byte / 4) % 2 == 1) && ((byte
        >> 3u8) & 1u8 == 1u8) == ((byte / 8) % 2 == 1)) by (bit_vector);
    assert(((byte >> 4u8) & 1u8 == 1u8) == ((byte / 16) % 2 == 1) && ((byte >> 5u8) & 1u8 == 1u8)
        == ((byte / 32) % 2 == 1) && ((byte >> 6u8) & 1u8 == 1u8) == ((byte / 64) % 2 == 1) && ((
    byte >> 7u8) & 1u8 == 1u8) == ((byte / 128) % 2 == 1)) by (bit_vector);
    if k == 0 {
    } else if k == 1 {
    } else if k == 2 {
    } else if k == 3 {
    } else if k == 4 {
    } else if k == 5 {
    } else if k == 6 {
    } else {
        assert(k == 7);
    }
}

proof fn lemma_powers()
    ensures
        power_of_two(0) == 1,
        power_of_two(1) == 2,
        power_of_two(2) == 4,
        power_of_two(3) == 8,
        power_of_two(4) == 16,
        power_of_two(5) == 32,
        power_of_two(6) == 64,
        power_of_two(7) == 128,
{
    reveal_with_fuel(power_of_two, 8);
}

/// The first digits of a value are those of the stream, and zeros behind them.
proof fn lemma_first_digits(packed: Seq<u8>, at: int, bits: int, value: u8, k: int)
    requires
        reads_value(packed, at, bits, value),
        0 <= at,
        0 < bits <= 8,
        0 <= k <= 8,
    ensures
        value as int % power_of_two(k) == number_of(
            packed,
            at,
            if k <= bits {
                k
            } else {
                bits
            },
        ),
        power_of_two(k) > 0,
    decreases k,
{
    if k > 0 {
        let j = k - 1;
        lemma_first_digits(packed, at, bits, value, j);
        let m = power_of_two(j);
        lemma_mod_breakdown(value as int, m, 2);
        assert(power_of_two(k) == m * 2);
        assert(byte_bit(value, j) == (j < bits && stream_bit(packed, at + j)));
        lemma_digit(value, j);
        let place = at + j;
        if place / 8 < packed.len() {
            lemma_digit(packed[place / 8], place % 8);
        }
        let here = (value as int / m) % 2;
        assert(here == 0 || here == 1);
        assert(here == (if j < bits {
            digit(packed, place)
        } else {
            0
        }));
        assert(m * here == here * m) by (nonlinear_arith);
        assert(0 * m == 0) by (nonlinear_arith);
    }
}

/// A value that is read from a stream is the number with its binary digits: value number `i` of
/// `bits` digits each has the digits from digit `i * bits` on.
pub proof fn values_are_numbers_of_digits(packed: Seq<u8>, bits: int, values: Seq<u8>, i: int)
    requires
        unpacks(packed, bits, values),
        0 < bits <= 8,
        0 <= i < values.len(),
    ensures
        values[i] == number_of(packed, i * bits, bits),
{
    let at = i * bits;
    assert(0 <= at) by (nonlinear_arith)
        requires
            at == i * bits,
            0 <= i,
            0 < bits,
    ;
    assert(reads_value(packed, at, bits, values[i]));
    lemma_first_digits(packed, at, bits, values[i], 8);
    lemma_powers();
    assert(power_of_two(8) == 256);
    let value = values[i] as int;
    assert(0 <= value < 256 && value % 256 == value);
}

} // verus!
