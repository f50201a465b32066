//! The guest/host ABI: the packed `(ptr << 32) | len` return value of a
//! guest's `process` export, and the host's bounds check on the region it
//! names.

use vstd::prelude::*;

verus! {

/// Largest output payload the host reads back from a guest (1 MiB).
pub const MAX_OUTPUT_BYTES: usize = 1048576;

/// Two to the thirty-second: the weight of the pointer word in a packed value.
pub open spec fn word_base() -> int {
    0x1_0000_0000
}

/// The unsigned 32-bit word with the same bits as `x`.
pub open spec fn unsigned_word(x: i32) -> int {
    if x < 0 {
        x + word_base()
    } else {
        x as int
    }
}

/// The 64 bits of a packed value, read as an unsigned number.
pub open spec fn packed_bits(packed: i64) -> int {
    (packed as u64) as int
}

/// The pointer word of a packed value: its high 32 bits.
pub open spec fn packed_ptr(packed: i64) -> int {
    packed_bits(packed) / word_base()
}

/// The length word of a packed value: its low 32 bits.
pub open spec fn packed_len(packed: i64) -> int {
    packed_bits(packed) % word_base()
}

/// Pack a `(pointer, length)` pair into one `i64`: the high 32 bits hold the
/// pointer and the low 32 bits the length, each taken as an unsigned word.
pub fn pack(ptr: i32, len: i32) -> (r: i64)
    ensures
        packed_bits(r) == unsigned_word(ptr) * word_base() + unsigned_word(len),
{
    let r: i64 = ((ptr as u32 as i64) << 32u64) | (len as u32 as i64);
    assert(ptr as u32 == (if ptr < 0 { ptr + 0x1_0000_0000 } else { ptr as int })) by (bit_vector);
    assert(len as u32 == (if len < 0 { len + 0x1_0000_0000 } else { len as int })) by (bit_vector);
    assert((((ptr as u32 as i64) << 32u64) | (len as u32 as i64)) as u64
        == (ptr as u32 as u64) * 0x1_0000_0000u64 + (len as u32 as u64)) by (bit_vector);
    r
}

/// The host accepts the region a packed return names: its length is at most
/// [`MAX_OUTPUT_BYTES`] and it lies inside a memory of `mem_size` bytes.
pub open spec fn output_region_ok(packed: i64, mem_size: int) -> bool {
    packed_len(packed) <= MAX_OUTPUT_BYTES && packed_ptr(packed) + packed_len(packed) <= mem_size
}

/// Unpacking a packed pair gives back the pointer and the length, each as an
/// unsigned 32-bit word.
pub proof fn lemma_unpack_pack(packed: i64, ptr: i32, len: i32)
    requires
        packed_bits(packed) == unsigned_word(ptr) * word_base() + unsigned_word(len),
    ensures
        packed_ptr(packed) == unsigned_word(ptr),
        packed_len(packed) == unsigned_word(len),
{
    let p = unsigned_word(ptr);
    let l = unsigned_word(len);
    let v = packed_bits(packed);
    assert(v / 0x1_0000_0000 == p && v % 0x1_0000_0000 == l) by (nonlinear_arith)
        requires
            v == p * 0x1_0000_0000 + l,
            0 <= l < 0x1_0000_0000,
            0 <= p,
    ;
}

/// Every 64-bit value is the packing of its two words, and the two words
/// determine the value: packing and unpacking are inverse bijections.
pub proof fn lemma_pack_unpack(a: i64, b: i64)
    ensures
        0 <= packed_ptr(a) < word_base(),
        0 <= packed_len(a) < word_base(),
        packed_bits(a) == packed_ptr(a) * word_base() + packed_len(a),
        packed_ptr(a) == packed_ptr(b) && packed_len(a) == packed_len(b) ==> a == b,
{
    let x = a as u64;
    let y = b as u64;
    assert(x / 0x1_0000_0000 < 0x1_0000_0000);
    assert(x == (x / 0x1_0000_0000) * 0x1_0000_0000 + x % 0x1_0000_0000);
    if packed_ptr(a) == packed_ptr(b) && packed_len(a) == packed_len(b) {
        assert(y == (y / 0x1_0000_0000) * 0x1_0000_0000 + y % 0x1_0000_0000);
        assert(x == y);
        assert(a as u64 == b as u64 ==> a == b) by (bit_vector);
    }
}

/// The host accepts the region named by `pack(ptr, len)` exactly when the
/// length word is at most [`MAX_OUTPUT_BYTES`] and the region of the two
/// unsigned words fits in the memory.
pub proof fn lemma_decode_pack(packed: i64, ptr: i32, len: i32, mem_size: usize)
    requires
        packed_bits(packed) == unsigned_word(ptr) * word_base() + unsigned_word(len),
    ensures
        output_region_ok(packed, mem_size as int) <==> unsigned_word(len) <= MAX_OUTPUT_BYTES
            && unsigned_word(ptr) + unsigned_word(len) <= mem_size,
{
    lemma_unpack_pack(packed, ptr, len);
}

/// Why the host refused the output region that a guest's packed return names.
#[derive(Debug, Clone, Copy, PartialEq, Eq)]
pub enum OutputRegionError {
    /// The length word exceeds [`MAX_OUTPUT_BYTES`].
    TooLong { len: usize },
    /// `ptr + len` does not fit in `usize`.
    Overflow,
    /// The region ends past the guest's linear memory.
    OutOfBounds { end: usize, mem_size: usize },
}

/// Unpack a guest's packed return into an `(offset, length)` region of its
/// linear memory of `mem_size` bytes, refusing a length over the output cap and
/// any region that does not lie wholly inside the memory.
pub fn decode_output_region(packed: i64, mem_size: usize) -> (r: Result<(usize, usize), OutputRegionError>)
    ensures
        r is Ok <==> output_region_ok(packed, mem_size as int),
        r matches Ok((off, len)) ==> off == packed_ptr(packed) && len == packed_len(packed) && len
            <= MAX_OUTPUT_BYTES && off + len <= mem_size,
        (r matches Err(OutputRegionError::TooLong { .. })) <==> packed_len(packed) > MAX_OUTPUT_BYTES,
        r matches Err(OutputRegionError::TooLong { len }) ==> len == packed_len(packed),
        (r matches Err(OutputRegionError::Overflow)) <==> packed_len(packed) <= MAX_OUTPUT_BYTES
            && packed_ptr(packed) + packed_len(packed) > usize::MAX,
        (r matches Err(OutputRegionError::OutOfBounds { .. })) <==> packed_len(packed)
            <= MAX_OUTPUT_BYTES && mem_size < packed_ptr(packed) + packed_len(packed) <= usize::MAX,
        r matches Err(OutputRegionError::OutOfBounds { end, mem_size: m }) ==> end == packed_ptr(
            packed,
        ) + packed_len(packed) && m == mem_size,
{
    let bits: u64 = packed as u64;
    let ptr: u64 = bits >> 32u64;
    let len: u64 = bits & 0xFFFF_FFFFu64;
    assert(ptr == bits / 0x1_0000_0000u64 && len == bits % 0x1_0000_0000u64) by (bit_vector)
        requires
            ptr == bits >> 32u64,
            len == bits & 0xFFFF_FFFFu64,
    ;
    if len > MAX_OUTPUT_BYTES as u64 {
        return Err(OutputRegionError::TooLong { len: len as usize });
    }
    let end: u64 = ptr + len;
    if end > usize::MAX as u64 {
        return Err(OutputRegionError::Overflow);
    }
    if end > mem_size as u64 {
        return Err(OutputRegionError::OutOfBounds { end: end as usize, mem_size });
    }
    Ok((ptr as usize, len as usize))
}

} // verus!
