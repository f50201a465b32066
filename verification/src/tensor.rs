//! Little-endian 32-bit words, the wire form of the `f32` tensors that cross
//! the inference boundary. Words are handled as their bit patterns; turning a
//! pattern into a float is left to the caller.

use vstd::prelude::*;

verus! {

/// The value of the 32-bit little-endian word that starts at byte `4 * i`.
pub open spec fn word_at(bytes: Seq<u8>, i: int) -> int {
    bytes[4 * i] + 256 * bytes[4 * i + 1] + 65536 * bytes[4 * i + 2] + 16777216 * bytes[4 * i + 3]
}

/// The whole words of `bytes`, in order; a trailing partial word is dropped.
pub open spec fn words_of(bytes: Seq<u8>) -> Seq<u32> {
    Seq::new(bytes.len() / 4, |i: int| word_at(bytes, i) as u32)
}

/// Byte `k` (0 for the least significant) of the word `w`.
pub open spec fn byte_of(w: u32, k: int) -> u8 {
    if k == 0 {
        (w % 256) as u8
    } else if k == 1 {
        ((w / 256) % 256) as u8
    } else if k == 2 {
        ((w / 65536) % 256) as u8
    } else {
        ((w / 16777216) % 256) as u8
    }
}

/// The little-endian bytes of `words`, four per word.
pub open spec fn bytes_of(words: Seq<u32>) -> Seq<u8> {
    Seq::new(words.len() * 4, |j: int| byte_of(words[j / 4], j % 4))
}

/// Split `bytes` into little-endian 32-bit words, one per whole group of four
/// bytes; a trailing partial group is ignored.
pub fn le_words(bytes: &[u8]) -> (r: Vec<u32>)
    ensures
        r@ == words_of(bytes@),
        r.len() == bytes.len() / 4,
{
    let n: usize = bytes.len() / 4;
    let mut out: Vec<u32> = Vec::new();
    let mut i: usize = 0;
    while i < n
        invariant
            n == bytes.len() / 4,
            i <= n,
            out.len() == i,
            forall|j: int| 0 <= j < i ==> out@[j] == word_at(bytes@, j) as u32,
        decreases n - i,
    {
        let k: usize = 4 * i;
        let b0: u32 = bytes[k] as u32;
        let b1: u32 = bytes[k + 1] as u32;
        let b2: u32 = bytes[k + 2] as u32;
        let b3: u32 = bytes[k + 3] as u32;
        let w: u32 = b0 + 256 * b1 + 65536 * b2 + 16777216 * b3;
        out.push(w);
        i = i + 1;
    }
    assert(out@ =~= words_of(bytes@));
    out
}

/// The little-endian bytes of `words`: four bytes per word, least significant
/// first.
pub fn le_bytes(words: &[u32]) -> (r: Vec<u8>)
    requires
        words.len() * 4 <= usize::MAX,
    ensures
        r@ == bytes_of(words@),
        r.len() == words.len() * 4,
{
    let mut out: Vec<u8> = Vec::new();
    let mut i: usize = 0;
    while i < words.len()
        invariant
            words.len() * 4 <= usize::MAX,
            i <= words.len(),
            out.len() == 4 * i,
            forall|j: int| 0 <= j < 4 * i ==> out@[j] == byte_of(words@[j / 4], j % 4),
        decreases words.len() - i,
    {
        let w: u32 = words[i];
        out.push((w % 256) as u8);
        out.push(((w / 256) % 256) as u8);
        out.push(((w / 65536) % 256) as u8);
        out.push(((w / 16777216) % 256) as u8);
        proof {
            assert forall|j: int| 4 * i <= j < 4 * i + 4 implies out@[j] == byte_of(words@[j / 4], j % 4) by {
                assert(j / 4 == i as int);
                assert(j % 4 == j - 4 * i);
            }
        }
        i = i + 1;
    }
    assert(out@ =~= bytes_of(words@));
    out
}

/// A word is the sum of its four bytes, each weighted by its place.
proof fn lemma_word_from_bytes(w: u32)
    ensures
        w == (w % 256) + 256 * ((w / 256) % 256) + 65536 * ((w / 65536) % 256) + 16777216 * ((w
            / 16777216) % 256),
{
    assert(w == (w % 256) + 256 * ((w / 256) % 256) + 65536 * ((w / 65536) % 256) + 16777216 * ((
    w / 16777216) % 256)) by (bit_vector);
}

/// Reading back the words of what [`le_bytes`] wrote gives the words that were
/// written.
pub proof fn lemma_words_of_bytes(words: Seq<u32>)
    ensures
        words_of(bytes_of(words)) == words,
{
    let b = bytes_of(words);
    assert(b.len() / 4 == words.len()) by (nonlinear_arith)
        requires
            b.len() == words.len() * 4,
    ;
    assert forall|i: int| 0 <= i < words.len() implies word_at(b, i) as u32 == words[i] by {
        lemma_word_from_bytes(words[i]);
        assert((4 * i) / 4 == i && (4 * i + 1) / 4 == i && (4 * i + 2) / 4 == i && (4 * i + 3) / 4
            == i);
        assert((4 * i) % 4 == 0 && (4 * i + 1) % 4 == 1 && (4 * i + 2) % 4 == 2 && (4 * i + 3) % 4
            == 3);
    }
    assert(words_of(b) =~= words);
}

/// Writing the words of `bytes` back out reproduces `bytes` whenever its length
/// is a whole number of words.
pub proof fn lemma_bytes_of_words(bytes: Seq<u8>)
    requires
        bytes.len() % 4 == 0,
    ensures
        bytes_of(words_of(bytes)) == bytes,
{
    let ws = words_of(bytes);
    assert forall|j: int| 0 <= j < bytes.len() implies byte_of(ws[j / 4], j % 4) == bytes[j] by {
        let i = j / 4;
        let k = j % 4;
        let w = word_at(bytes, i);
        assert(0 <= w < 0x1_0000_0000);
        lemma_bytes_of_word(bytes[4 * i], bytes[4 * i + 1], bytes[4 * i + 2], bytes[4 * i + 3]);
        assert(j == 4 * i + k);
    }
    assert(bytes_of(ws) =~= bytes);
}

/// The bytes of a word built from four bytes are those four bytes.
proof fn lemma_bytes_of_word(b0: u8, b1: u8, b2: u8, b3: u8)
    ensures
        ({
            let w = (b0 + 256 * b1 + 65536 * b2 + 16777216 * b3) as u32;
            &&& byte_of(w, 0) == b0
            &&& byte_of(w, 1) == b1
            &&& byte_of(w, 2) == b2
            &&& byte_of(w, 3) == b3
        }),
{
    let w: u32 = ((b0 as u32) + 256 * (b1 as u32) + 65536 * (b2 as u32) + 16777216 * (b3 as u32)) as u32;
    assert(w % 256 == b0 && (w / 256) % 256 == b1 && (w / 65536) % 256 == b2 && (w / 16777216) % 256
        == b3) by (bit_vector)
        requires
            w == (b0 as u32) + 256 * (b1 as u32) + 65536 * (b2 as u32) + 16777216 * (b3 as u32),
    ;
}

} // verus!
