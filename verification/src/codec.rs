//! Little-endian framing of binary32 words: the wire format of every tensor.
use vstd::prelude::*;
use vstd::bytes::{
    spec_u32_from_le_bytes, spec_u32_to_le_bytes, lemma_auto_spec_u32_to_from_le_bytes,
    u32_from_le_bytes, u32_to_le_bytes,
};
use vstd::slice::slice_subrange;

verus! {

/// Number of bytes in one binary32 word.
pub const WORD_BYTES: usize = 4;

/// The `i`-th little-endian word of `bytes`.
pub open spec fn word_at(bytes: Seq<u8>, i: int) -> u32 {
    spec_u32_from_le_bytes(bytes.subrange(4 * i, 4 * i + 4))
}

/// The whole little-endian words of `bytes`, in order; trailing bytes that
/// do not fill a word are ignored.
pub open spec fn decode_words(bytes: Seq<u8>) -> Seq<u32> {
    Seq::new(bytes.len() / 4, |i: int| word_at(bytes, i))
}

/// The little-endian encoding of `words`, word after word.
pub open spec fn encode_words(words: Seq<u32>) -> Seq<u8>
    decreases words.len(),
{
    if words.len() == 0 {
        Seq::empty()
    } else {
        encode_words(words.drop_last()) + spec_u32_to_le_bytes(words.last())
    }
}

/// Every word takes four bytes.
pub proof fn lemma_encode_len(words: Seq<u32>)
    ensures
        encode_words(words).len() == 4 * words.len(),
    decreases words.len(),
{
    lemma_auto_spec_u32_to_from_le_bytes();
    if words.len() > 0 {
        lemma_encode_len(words.drop_last());
    }
}

/// The bytes of word `i` in an encoding are the encoding of that word.
pub proof fn lemma_encode_chunk(words: Seq<u32>, i: int)
    requires
        0 <= i < words.len(),
    ensures
        encode_words(words).subrange(4 * i, 4 * i + 4) == spec_u32_to_le_bytes(words[i]),
    decreases words.len(),
{
    lemma_auto_spec_u32_to_from_le_bytes();
    let n = words.len() as int;
    lemma_encode_len(words.drop_last());
    if i == n - 1 {
        assert(encode_words(words).subrange(4 * i, 4 * i + 4) =~= spec_u32_to_le_bytes(words[i]));
    } else {
        lemma_encode_chunk(words.drop_last(), i);
        assert(encode_words(words).subrange(4 * i, 4 * i + 4) =~= encode_words(
            words.drop_last(),
        ).subrange(4 * i, 4 * i + 4));
    }
}

/// Decoding gives back every word that was encoded.
pub proof fn lemma_decode_encode(words: Seq<u32>)
    ensures
        decode_words(encode_words(words)) == words,
{
    lemma_auto_spec_u32_to_from_le_bytes();
    lemma_encode_len(words);
    let d = decode_words(encode_words(words));
    assert forall|i: int| 0 <= i < words.len() implies d[i] == words[i] by {
        lemma_encode_chunk(words, i);
        assert(spec_u32_to_le_bytes(words[i]).len() == 4);
    }
    assert(d =~= words);
}

/// Encoding the words of a whole number of words gives back the bytes.
pub proof fn lemma_encode_decode(bytes: Seq<u8>)
    requires
        bytes.len() % 4 == 0,
    ensures
        encode_words(decode_words(bytes)) == bytes,
{
    lemma_auto_spec_u32_to_from_le_bytes();
    let words = decode_words(bytes);
    let e = encode_words(words);
    lemma_encode_len(words);
    assert forall|k: int| 0 <= k < bytes.len() implies e[k] == bytes[k] by {
        let i = k / 4;
        lemma_encode_chunk(words, i);
        assert(bytes.subrange(4 * i, 4 * i + 4).len() == 4);
        assert(spec_u32_to_le_bytes(word_at(bytes, i)) == bytes.subrange(4 * i, 4 * i + 4));
        assert(e[k] == e.subrange(4 * i, 4 * i + 4)[k - 4 * i]);
    }
    assert(e =~= bytes);
}

/// Splits `bytes` into little-endian binary32 words (as bit patterns),
/// ignoring a trailing partial word.
pub fn decode_f32_le(bytes: &[u8]) -> (words: Vec<u32>)
    ensures
        words@ == decode_words(bytes@),
{
    let n = bytes.len() / WORD_BYTES;
    let mut words: Vec<u32> = Vec::with_capacity(n);
    let mut i: usize = 0;
    while i < n
        invariant
            n == bytes@.len() / 4,
            bytes@.len() == bytes.len(),
            i <= n,
            words@ =~= decode_words(bytes@).take(i as int),
        decreases n - i,
    {
        assert(4 * i + 4 <= bytes@.len());
        let chunk = slice_subrange(bytes, 4 * i, 4 * i + 4);
        words.push(u32_from_le_bytes(chunk));
        i = i + 1;
    }
    words
}

/// Joins binary32 words (as bit patterns) into their little-endian bytes.
pub fn encode_f32_le(words: &[u32]) -> (bytes: Vec<u8>)
    requires
        words@.len() * 4 <= usize::MAX,
    ensures
        bytes@ == encode_words(words@),
{
    let mut bytes: Vec<u8> = Vec::with_capacity(words.len() * 4);
    let mut i: usize = 0;
    while i < words.len()
        invariant
            i <= words@.len(),
            bytes@ == encode_words(words@.take(i as int)),
        decreases words@.len() - i,
    {
        let mut chunk = u32_to_le_bytes(words[i]);
        bytes.append(&mut chunk);
        assert(words@.take(i + 1).drop_last() =~= words@.take(i as int));
        i = i + 1;
    }
    assert(words@.take(words@.len() as int) =~= words@);
    bytes
}

} // verus!
