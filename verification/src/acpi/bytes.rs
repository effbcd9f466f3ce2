//! Sums of bytes and little-endian numbers, as the firmware's tables use
//! them.

use vstd::prelude::*;

verus! {

/// The sum of all bytes of `bytes`.
pub open spec fn byte_sum(bytes: Seq<u8>) -> int
    decreases bytes.len(),
{
    if bytes.len() == 0 {
        0
    } else {
        byte_sum(bytes.drop_last()) + bytes.last()
    }
}

/// The four bytes from `at` on, read as a little-endian number.
pub open spec fn le_u32(bytes: Seq<u8>, at: int) -> int {
    bytes[at] + bytes[at + 1] * 0x100 + bytes[at + 2] * 0x1_0000 + bytes[at + 3] * 0x100_0000
}

/// The eight bytes from `at` on, read as a little-endian number.
pub open spec fn le_u64(bytes: Seq<u8>, at: int) -> int {
    le_u32(bytes, at) + le_u32(bytes, at + 4) * 0x1_0000_0000
}

/// The four bytes that spell `value` as a little-endian number.
pub open spec fn u32_le_bytes(value: u32) -> Seq<u8> {
    seq![
        (value % 0x100) as u8,
        (value / 0x100 % 0x100) as u8,
        (value / 0x1_0000 % 0x100) as u8,
        (value / 0x100_0000) as u8,
    ]
}

/// The eight bytes that spell `value` as a little-endian number.
pub open spec fn u64_le_bytes(value: u64) -> Seq<u8> {
    u32_le_bytes((value % 0x1_0000_0000) as u32) + u32_le_bytes((value / 0x1_0000_0000) as u32)
}

/// The digits of a number written to the base 256 are its remainders.
proof fn lemma_base_256_digits(b0: int, b1: int, b2: int, b3: int)
    requires
        0 <= b0 < 0x100,
        0 <= b1 < 0x100,
        0 <= b2 < 0x100,
        0 <= b3 < 0x100,
    ensures
        ({
            let value = b0 + b1 * 0x100 + b2 * 0x1_0000 + b3 * 0x100_0000;
            &&& 0 <= value <= u32::MAX
            &&& value % 0x100 == b0
            &&& value / 0x100 % 0x100 == b1
            &&& value / 0x1_0000 % 0x100 == b2
            &&& value / 0x100_0000 == b3
        }),
{
    let value = b0 + b1 * 0x100 + b2 * 0x1_0000 + b3 * 0x100_0000;
    assert(value == b0 + 0x100 * (b1 + 0x100 * (b2 + 0x100 * b3)));
    assert(value / 0x100 == b1 + 0x100 * (b2 + 0x100 * b3));
    assert(value / 0x1_0000 == b2 + 0x100 * b3);
}

/// The halves of a 64-bit number are its quotient and remainder by 2^32.
proof fn lemma_halves(low: int, high: int)
    requires
        0 <= low <= u32::MAX,
        0 <= high <= u32::MAX,
    ensures
        ({
            let value = low + high * 0x1_0000_0000;
            &&& 0 <= value <= u64::MAX
            &&& value % 0x1_0000_0000 == low
            &&& value / 0x1_0000_0000 == high
        }),
{
}

/// Four bytes are the little-endian spelling of the number they are read as.
pub proof fn lemma_u32_bytes_of_value(bytes: Seq<u8>, at: int)
    requires
        0 <= at,
        at + 4 <= bytes.len(),
    ensures
        0 <= le_u32(bytes, at) <= u32::MAX,
        u32_le_bytes(le_u32(bytes, at) as u32) == bytes.subrange(at, at + 4),
{
    lemma_base_256_digits(
        bytes[at] as int,
        bytes[at + 1] as int,
        bytes[at + 2] as int,
        bytes[at + 3] as int,
    );
    assert(u32_le_bytes(le_u32(bytes, at) as u32) =~= bytes.subrange(at, at + 4));
}

/// Eight bytes are the little-endian spelling of the number they are read as.
pub proof fn lemma_u64_bytes_of_value(bytes: Seq<u8>, at: int)
    requires
        0 <= at,
        at + 8 <= bytes.len(),
    ensures
        0 <= le_u64(bytes, at) <= u64::MAX,
        u64_le_bytes(le_u64(bytes, at) as u64) == bytes.subrange(at, at + 8),
{
    lemma_u32_bytes_of_value(bytes, at);
    lemma_u32_bytes_of_value(bytes, at + 4);
    let low = le_u32(bytes, at);
    let high = le_u32(bytes, at + 4);
    lemma_halves(low, high);
    let value = le_u64(bytes, at) as u64;
    assert((value % 0x1_0000_0000) as u32 == low);
    assert((value / 0x1_0000_0000) as u32 == high);
    assert(u64_le_bytes(value) == bytes.subrange(at, at + 4) + bytes.subrange(at + 4, at + 8));
    assert(bytes.subrange(at, at + 4) + bytes.subrange(at + 4, at + 8) =~= bytes.subrange(
        at,
        at + 8,
    ));
}

/// A number is what its little-endian spelling is read as.
pub proof fn lemma_u32_value_of_bytes(value: u32)
    ensures
        u32_le_bytes(value).len() == 4,
        le_u32(u32_le_bytes(value), 0) == value,
{
    let v = value as int;
    assert(v == v % 0x100 + 0x100 * (v / 0x100));
    assert(v / 0x100 == v / 0x100 % 0x100 + 0x100 * (v / 0x1_0000));
    assert(v / 0x1_0000 == v / 0x1_0000 % 0x100 + 0x100 * (v / 0x100_0000));
}

/// A number is what its little-endian spelling is read as.
pub proof fn lemma_u64_value_of_bytes(value: u64)
    ensures
        u64_le_bytes(value).len() == 8,
        le_u64(u64_le_bytes(value), 0) == value,
{
    let low = (value % 0x1_0000_0000) as u32;
    let high = (value / 0x1_0000_0000) as u32;
    lemma_u32_value_of_bytes(low);
    lemma_u32_value_of_bytes(high);
    let spelled = u64_le_bytes(value);
    assert(spelled.len() == 8);
    assert(le_u32(spelled, 0) == le_u32(u32_le_bytes(low), 0));
    assert(le_u32(spelled, 4) == le_u32(u32_le_bytes(high), 0));
}

/// The sum modulo 256 of the `count` bytes of `bytes` from `from` on.
pub(crate) fn checksum(bytes: &[u8], from: usize, count: usize) -> (sum: u8)
    requires
        from + count <= bytes.len(),
    ensures
        sum == byte_sum(bytes@.subrange(from as int, from + count)) % 256,
{
    let mut sum: u8 = 0;
    let mut i: usize = 0;
    while i < count
        invariant
            i <= count,
            from + count <= bytes.len(),
            sum == byte_sum(bytes@.subrange(from as int, from + i)) % 256,
        decreases count - i,
    {
        let byte: u8 = bytes[from + i];
        proof {
            let longer = bytes@.subrange(from as int, from + i + 1);
            assert(longer.drop_last() == bytes@.subrange(from as int, from + i));
            assert(longer.last() == byte);
        }
        sum = ((sum as u16 + byte as u16) % 256) as u8;
        i += 1;
    }
    sum
}

/// The little-endian number in the four bytes of `bytes` from `at` on.
pub(crate) fn read_u32(bytes: &[u8], at: usize) -> (value: u32)
    requires
        at + 4 <= bytes.len(),
    ensures
        value == le_u32(bytes@, at as int),
{
    bytes[at] as u32 + bytes[at + 1] as u32 * 0x100 + bytes[at + 2] as u32 * 0x1_0000 + bytes[at
        + 3] as u32 * 0x100_0000
}

/// The little-endian number in the eight bytes of `bytes` from `at` on.
pub(crate) fn read_u64(bytes: &[u8], at: usize) -> (value: u64)
    requires
        at + 8 <= bytes.len(),
    ensures
        value == le_u64(bytes@, at as int),
{
    read_u32(bytes, at) as u64 + read_u32(bytes, at + 4) as u64 * 0x1_0000_0000
}

} // verus!
