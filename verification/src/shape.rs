//! The flat length of a model's fixed input shape, and the check that an
//! input tensor has it.

use vstd::prelude::*;

verus! {

/// The product of the dimensions of `shape` (1 for the empty shape).
pub open spec fn shape_product(shape: Seq<usize>) -> int
    decreases shape.len(),
{
    if shape.len() == 0 {
        1
    } else {
        shape_product(shape.drop_last()) * shape.last()
    }
}

/// A shape with no zero dimension has a product no smaller than that of any
/// of its prefixes.
proof fn lemma_prefix_product_le(shape: Seq<usize>, i: int)
    requires
        0 <= i <= shape.len(),
        forall|j: int| 0 <= j < shape.len() ==> shape[j] >= 1,
    ensures
        1 <= shape_product(shape.take(i)) <= shape_product(shape),
    decreases shape.len() - i,
{
    if i == shape.len() {
        assert(shape.take(i) =~= shape);
        lemma_product_positive(shape);
    } else {
        lemma_prefix_product_le(shape, i + 1);
        let t = shape.take(i + 1);
        assert(t.drop_last() =~= shape.take(i));
        lemma_product_positive(shape.take(i));
        let p = shape_product(shape.take(i));
        let d = shape[i] as int;
        assert(p <= p * d) by (nonlinear_arith)
            requires
                p >= 1,
                d >= 1,
        ;
    }
}

/// A shape with no zero dimension has a positive product.
proof fn lemma_product_positive(shape: Seq<usize>)
    requires
        forall|j: int| 0 <= j < shape.len() ==> shape[j] >= 1,
    ensures
        shape_product(shape) >= 1,
    decreases shape.len(),
{
    if shape.len() > 0 {
        lemma_product_positive(shape.drop_last());
        let p = shape_product(shape.drop_last());
        let d = shape.last() as int;
        assert(p * d >= 1) by (nonlinear_arith)
            requires
                p >= 1,
                d >= 1,
        ;
    }
}

/// A shape with a zero dimension has product zero.
proof fn lemma_product_zero(shape: Seq<usize>, k: int)
    requires
        0 <= k < shape.len(),
        shape[k] == 0,
    ensures
        shape_product(shape) == 0,
    decreases shape.len(),
{
    let p = shape_product(shape.drop_last());
    let d = shape.last() as int;
    assert(shape_product(shape) == p * d);
    if k == shape.len() - 1 {
        assert(d == 0);
        assert(p * d == 0) by (nonlinear_arith)
            requires
                d == 0,
        ;
    } else {
        lemma_product_zero(shape.drop_last(), k);
        assert(p * d == 0) by (nonlinear_arith)
            requires
                p == 0,
        ;
    }
}

/// The number of values a tensor of shape `shape` holds, or `None` when that
/// number does not fit in `usize`.
pub fn shape_len(shape: &[usize]) -> (r: Option<usize>)
    ensures
        r is Some <==> shape_product(shape@) <= usize::MAX,
        r matches Some(n) ==> n == shape_product(shape@),
{
    let mut k: usize = 0;
    while k < shape.len()
        invariant
            k <= shape.len(),
            forall|j: int| 0 <= j < k ==> shape@[j] >= 1,
        decreases shape.len() - k,
    {
        if shape[k] == 0 {
            proof {
                lemma_product_zero(shape@, k as int);
            }
            return Some(0);
        }
        k = k + 1;
    }
    let mut acc: usize = 1;
    let mut i: usize = 0;
    while i < shape.len()
        invariant
            i <= shape.len(),
            forall|j: int| 0 <= j < shape.len() ==> shape@[j] >= 1,
            acc == shape_product(shape@.take(i as int)),
        decreases shape.len() - i,
    {
        proof {
            assert(shape@.take(i + 1).drop_last() =~= shape@.take(i as int));
            lemma_prefix_product_le(shape@, i + 1);
        }
        match acc.checked_mul(shape[i]) {
            Some(next) => {
                acc = next;
            },
            None => {
                return None;
            },
        }
        i = i + 1;
    }
    assert(shape@.take(shape.len() as int) =~= shape@);
    Some(acc)
}

/// An input tensor whose length is not the model's input length.
#[derive(Debug, Clone, Copy, PartialEq, Eq)]
pub struct InputLenMismatch {
    pub expected: usize,
    pub got: usize,
}

/// Accept an input tensor of `got` values for a model that takes `expected`.
pub fn check_input_len(expected: usize, got: usize) -> (r: Result<(), InputLenMismatch>)
    ensures
        r is Ok <==> got == expected,
        r matches Err(e) ==> e.expected == expected && e.got == got,
{
    if got != expected {
        Err(InputLenMismatch { expected, got })
    } else {
        Ok(())
    }
}

} // verus!
