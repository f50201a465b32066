//! The guest side of the ABI: the sizes a guest's exports act on.

use vstd::prelude::*;

verus! {

/// The number of input bytes a guest's `process(in_ptr, in_len)` reads: all
/// `in_len` of them when the pointer is not null and the length is positive,
/// and none otherwise (the guest then handles an empty input).
pub fn guest_input_len(in_ptr: i32, in_len: i32) -> (r: usize)
    ensures
        r == (if in_ptr != 0 && in_len > 0 {
            in_len as int
        } else {
            0
        }),
{
    if in_ptr != 0 && in_len > 0 {
        in_len as usize
    } else {
        0
    }
}

/// The size of the allocation a guest's `module_alloc(len)` makes: `len`
/// bytes when `len` is positive, and none (the null answer) otherwise.
pub fn guest_alloc_size(len: i32) -> (r: Option<usize>)
    ensures
        r is Some <==> len > 0,
        r matches Some(n) ==> n == len,
{
    if len <= 0 {
        None
    } else {
        Some(len as usize)
    }
}

/// The size of the allocation a guest's `module_dealloc(ptr, len)` frees:
/// `len` bytes when the pointer is not null and `len` is positive; otherwise
/// the call does nothing.
pub fn guest_dealloc_size(ptr: i32, len: i32) -> (r: Option<usize>)
    ensures
        r is Some <==> ptr != 0 && len > 0,
        r matches Some(n) ==> n == len,
{
    if ptr == 0 || len <= 0 {
        None
    } else {
        Some(len as usize)
    }
}

} // verus!
