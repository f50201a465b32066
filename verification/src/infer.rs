//! The host side of the `kelvane::infer` import: which requests a guest may
//! make, and what the host writes back.
//!
//! A guest calls `infer(in_ptr, in_len, out_ptr, out_cap)`: `in_len` little-
//! endian `f32` values at `in_ptr` are the model input, and up to `out_cap`
//! scores are written at `out_ptr`. The answer is the number of scores written,
//! or [`INFER_FAILED`] when the request is refused.

use vstd::prelude::*;
use crate::tensor::{bytes_of, le_bytes, lemma_words_of_bytes, words_of};

verus! {

/// The module name of the inference import.
pub const INFER_MODULE: &'static str = "kelvane";

/// The field name of the inference import.
pub const INFER_NAME: &'static str = "infer";

/// What the import answers to a refused request.
pub const INFER_FAILED: i32 = -1;

/// Why the host refused an inference request.
#[derive(Debug, Clone, Copy, PartialEq, Eq)]
pub enum InferReject {
    /// No model is loaded.
    NoModel,
    /// `in_len` or `out_cap` is zero or negative.
    NonPositiveLength,
    /// The guest exports no memory.
    NoMemory,
    /// The input tensor does not lie inside the guest's memory.
    InputOutOfBounds,
    /// The input tensor does not have the model's input length.
    InputLenMismatch { expected: usize, got: usize },
    /// The scores would not fit inside the guest's memory at `out_ptr`.
    OutputOutOfBounds,
}

/// A region of `bytes` bytes at a guest offset `ptr` lies inside a memory of
/// `mem_size` bytes.
pub open spec fn region_fits(ptr: i32, bytes: int, mem_size: int) -> bool {
    0 <= ptr && ptr + bytes <= mem_size
}

/// The request passes every check: a model is loaded, both lengths are
/// positive, the guest has a memory, the input tensor lies inside it, and the
/// tensor has the model's input length.
pub open spec fn request_accepted(
    model_input_len: Option<usize>,
    in_ptr: i32,
    in_len: i32,
    out_cap: i32,
    mem_size: Option<usize>,
) -> bool {
    &&& model_input_len is Some
    &&& in_len > 0 && out_cap > 0
    &&& mem_size is Some
    &&& region_fits(in_ptr, 4 * in_len, mem_size.unwrap() as int)
    &&& in_len == model_input_len.unwrap()
}

/// The answer of the import when the host holds no model: the request is
/// refused whatever it asks.
pub fn infer_unavailable(in_ptr: i32, in_len: i32, out_ptr: i32, out_cap: i32) -> (r: i32)
    ensures
        r == INFER_FAILED,
{
    INFER_FAILED
}

/// Check an inference request and locate its input tensor: the byte offset and
/// the byte length to read from the guest's memory.
///
/// `model_input_len` is the number of values the loaded model takes, if one is
/// loaded; `mem_size` is the size of the guest's exported memory, if it has
/// one. The checks run in this order, and the first that fails names the
/// refusal: model, lengths, memory, bounds, input length. The bounds are
/// checked before anything the size of `in_len` is allocated.
pub fn infer_input_region(
    model_input_len: Option<usize>,
    in_ptr: i32,
    in_len: i32,
    out_cap: i32,
    mem_size: Option<usize>,
) -> (r: Result<(usize, usize), InferReject>)
    ensures
        r is Ok <==> request_accepted(model_input_len, in_ptr, in_len, out_cap, mem_size),
        r matches Ok((off, n)) ==> off == in_ptr && n == 4 * in_len,
        (r matches Err(InferReject::NoModel)) <==> model_input_len is None,
        (r matches Err(InferReject::NonPositiveLength)) <==> model_input_len is Some && (in_len <= 0
            || out_cap <= 0),
        (r matches Err(InferReject::NoMemory)) <==> model_input_len is Some && in_len > 0 && out_cap
            > 0 && mem_size is None,
        (r matches Err(InferReject::InputOutOfBounds)) <==> model_input_len is Some && in_len > 0
            && out_cap > 0 && mem_size is Some && !region_fits(
            in_ptr,
            4 * in_len,
            mem_size.unwrap() as int,
        ),
        (r matches Err(InferReject::InputLenMismatch { .. })) <==> model_input_len is Some && in_len
            > 0 && out_cap > 0 && mem_size is Some && region_fits(
            in_ptr,
            4 * in_len,
            mem_size.unwrap() as int,
        ) && in_len != model_input_len.unwrap(),
        r matches Err(InferReject::InputLenMismatch { expected, got }) ==> expected
            == model_input_len.unwrap() && got == in_len,
        !(r matches Err(InferReject::OutputOutOfBounds)),
{
    let expected: usize = match model_input_len {
        Some(n) => n,
        None => return Err(InferReject::NoModel),
    };
    if in_len <= 0 || out_cap <= 0 {
        return Err(InferReject::NonPositiveLength);
    }
    let size: usize = match mem_size {
        Some(s) => s,
        None => return Err(InferReject::NoMemory),
    };
    if in_ptr < 0 {
        return Err(InferReject::InputOutOfBounds);
    }
    let end: u64 = in_ptr as u64 + 4 * (in_len as u64);
    if end > size as u64 {
        return Err(InferReject::InputOutOfBounds);
    }
    let byte_len: usize = (4 * (in_len as u64)) as usize;
    if in_len as usize != expected {
        return Err(InferReject::InputLenMismatch { expected, got: in_len as usize });
    }
    Ok((in_ptr as usize, byte_len))
}

/// What the host writes back for an accepted request.
pub struct InferWrite {
    /// Guest offset to write the scores at.
    pub offset: usize,
    /// The scores, as little-endian bytes.
    pub bytes: Vec<u8>,
    /// How many scores the bytes hold: the import's answer.
    pub count: i32,
}

/// The number of scores written back: as many as the model produced, but no
/// more than the guest has room for.
pub open spec fn reply_count(n_scores: int, out_cap: i32) -> int {
    if n_scores <= out_cap { n_scores } else { out_cap as int }
}

/// Prepare the reply to an accepted request: the first `min(scores, out_cap)`
/// scores (as bit patterns) in little-endian bytes at `out_ptr`, refused when
/// they would not fit inside the guest's memory of `mem_size` bytes.
pub fn infer_reply(scores: &[u32], out_ptr: i32, out_cap: i32, mem_size: usize) -> (r: Result<InferWrite, InferReject>)
    requires
        out_cap > 0,
    ensures
        r is Ok <==> region_fits(out_ptr, 4 * reply_count(scores.len() as int, out_cap), mem_size as int),
        r matches Ok(w) ==> w.offset == out_ptr && w.count == reply_count(scores.len() as int, out_cap)
            && w.bytes@ == bytes_of(scores@.take(reply_count(scores.len() as int, out_cap))),
        r matches Err(e) ==> e == InferReject::OutputOutOfBounds,
        r matches Ok(w) ==> w.count == (if scores.len() <= out_cap as int {
            scores.len() as int
        } else {
            out_cap as int
        }),
        r matches Ok(w) ==> w.bytes@.len() == 4 * w.count && words_of(w.bytes@) == scores@.take(
            w.count as int,
        ),
{
    let n: usize = if scores.len() <= out_cap as usize {
        scores.len()
    } else {
        out_cap as usize
    };
    if out_ptr < 0 {
        return Err(InferReject::OutputOutOfBounds);
    }
    let end: u64 = out_ptr as u64 + 4 * (n as u64);
    if end > mem_size as u64 {
        return Err(InferReject::OutputOutOfBounds);
    }
    let mut kept: Vec<u32> = Vec::new();
    let mut i: usize = 0;
    while i < n
        invariant
            n <= scores.len(),
            i <= n,
            kept@ == scores@.take(i as int),
        decreases n - i,
    {
        kept.push(scores[i]);
        i = i + 1;
        assert(kept@ =~= scores@.take(i as int));
    }
    let bytes = le_bytes(kept.as_slice());
    proof {
        lemma_words_of_bytes(kept@);
    }
    Ok(InferWrite { offset: out_ptr as usize, bytes, count: n as i32 })
}

/// The reply count is the smaller of the number of scores and the room the
/// guest gave: it is one of the two, and exceeds neither.
pub proof fn lemma_reply_count_is_min(n_scores: int, out_cap: i32)
    requires
        n_scores >= 0,
        out_cap > 0,
    ensures
        reply_count(n_scores, out_cap) <= n_scores,
        reply_count(n_scores, out_cap) <= out_cap,
        reply_count(n_scores, out_cap) == n_scores || reply_count(n_scores, out_cap) == out_cap,
{
}

} // verus!
