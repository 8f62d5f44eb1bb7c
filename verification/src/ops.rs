//! The MNIST forward-pass steps that need no arithmetic on values: the
//! activation, the evaluation-mode dropout, the final argmax, and the
//! framing checks in front of the fully-connected layers.
use vstd::prelude::*;
use vstd::slice::slice_to_vec;
use crate::codec::{decode_words, encode_words, decode_f32_le, encode_f32_le, lemma_encode_decode};
use crate::ieee::{is_nan, gt, relu_word, positive, greater, is_finite, scaled_value, POS_INFINITY_BITS};
use crate::laws::{law_argmax_is_greatest_value, law_relu_bytes_by_value};

verus! {

/// Input features of the first layer (a 28x28 image).
pub const FC1_IN: usize = 784;

/// Outputs of the first layer.
pub const FC1_OUT: usize = 512;

/// Outputs of the second layer.
pub const FC2_OUT: usize = 128;

/// Outputs of the third layer: one logit per digit.
pub const FC3_OUT: usize = 10;

/// The activation applied to every word.
pub open spec fn relu_words(words: Seq<u32>) -> Seq<u32> {
    words.map_values(|w: u32| relu_word(w))
}

/// The bytes that the activation step produces from `pre`.
pub open spec fn relu_bytes(pre: Seq<u8>) -> Seq<u8> {
    encode_words(relu_words(decode_words(pre)))
}

/// Every word of `pre` that encodes a number greater than zero is kept by
/// the activation, every other word becomes positive zero.
pub open spec fn keeps_positive_words(pre: Seq<u8>, out: Seq<u8>) -> bool {
    forall|i: int|
        0 <= i < pre.len() / 4 ==> {
            let w = #[trigger] decode_words(pre)[i];
            decode_words(out)[i] == if (is_finite(w) && scaled_value(w) > 0) || w == POS_INFINITY_BITS {
                w
            } else {
                0
            }
        }
}

/// When every logit is finite, logit `i` encodes the greatest number and
/// every earlier logit a smaller one.
pub open spec fn holds_greatest_value(logits: Seq<u32>, i: int) -> bool {
    (forall|j: int| 0 <= j < logits.len() ==> is_finite(#[trigger] logits[j])) ==> {
        &&& forall|j: int| 0 <= j < logits.len() ==> scaled_value(#[trigger] logits[j]) <= scaled_value(logits[i])
        &&& forall|j: int| 0 <= j < i ==> scaled_value(#[trigger] logits[j]) < scaled_value(logits[i])
    }
}

/// `i` is the index that the argmax step selects in `logits`: the first
/// index of a greatest value, comparing as binary32 and never selecting a
/// NaN; when the first logit is NaN nothing compares greater than it and
/// the index is 0.
pub open spec fn is_argmax(logits: Seq<u32>, i: int) -> bool {
    if is_nan(logits[0]) {
        i == 0
    } else {
        &&& 0 <= i < logits.len()
        &&& !is_nan(logits[i])
        &&& forall|j: int| 0 <= j < logits.len() ==> !gt(#[trigger] logits[j], logits[i])
        &&& forall|j: int| 0 <= j < i ==> gt(logits[i], #[trigger] logits[j]) || is_nan(logits[j])
    }
}

/// Replaces the contents of `out` with the activation of each word of `input`.
pub fn relu(input: &[u32], out: &mut Vec<u32>)
    ensures
        final(out)@ == relu_words(input@),
{
    out.clear();
    out.reserve(input.len());
    let mut i: usize = 0;
    while i < input.len()
        invariant
            i <= input@.len(),
            out@ =~= relu_words(input@).take(i as int),
        decreases input@.len() - i,
    {
        let x = input[i];
        out.push(if positive(x) { x } else { 0 });
        i = i + 1;
    }
}

/// Index of the first greatest logit (see `is_argmax`).
pub fn argmax(logits: &[u32]) -> (best: usize)
    requires
        logits@.len() > 0,
    ensures
        best < logits@.len(),
        is_argmax(logits@, best as int),
        holds_greatest_value(logits@, best as int),
{
    let ghost s = logits@;
    let mut best: usize = 0;
    let mut best_val = logits[0];
    let mut i: usize = 1;
    while i < logits.len()
        invariant
            s == logits@,
            1 <= i <= s.len(),
            best < i,
            best_val == s[best as int],
            is_nan(s[0]) ==> best == 0,
            !is_nan(s[0]) ==> !is_nan(best_val),
            !is_nan(s[0]) ==> forall|j: int| 0 <= j < i ==> !gt(#[trigger] s[j], best_val),
            !is_nan(s[0]) ==> forall|j: int|
                0 <= j < best ==> gt(best_val, #[trigger] s[j]) || is_nan(s[j]),
        decreases s.len() - i,
    {
        let v = logits[i];
        if greater(v, best_val) {
            best_val = v;
            best = i;
        }
        i = i + 1;
    }
    proof {
        if forall|j: int| 0 <= j < s.len() ==> is_finite(#[trigger] s[j]) {
            law_argmax_is_greatest_value(s, best as int);
        }
    }
    best
}

/// Step 2: activation, 512 words in, 512 words out.
pub fn relu_512(_model_id: u64, pre: &[u8]) -> (r: Result<Vec<u8>, &'static str>)
    ensures
        r is Ok <==> pre@.len() == FC1_OUT * 4,
        r matches Ok(out) ==> out@ == relu_bytes(pre@),
        r matches Ok(out) ==> keeps_positive_words(pre@, out@),
        r matches Err(e) ==> e@ == "krain-aivm: relu_512: wrong input length"@,
{
    if pre.len() != FC1_OUT * 4 {
        return Err("krain-aivm: relu_512: wrong input length");
    }
    Ok(relu_frame(pre))
}

/// Step 5: activation, 128 words in, 128 words out.
pub fn relu_128(_model_id: u64, pre: &[u8]) -> (r: Result<Vec<u8>, &'static str>)
    ensures
        r is Ok <==> pre@.len() == FC2_OUT * 4,
        r matches Ok(out) ==> out@ == relu_bytes(pre@),
        r matches Ok(out) ==> keeps_positive_words(pre@, out@),
        r matches Err(e) ==> e@ == "krain-aivm: relu_128: wrong input length"@,
{
    if pre.len() != FC2_OUT * 4 {
        return Err("krain-aivm: relu_128: wrong input length");
    }
    Ok(relu_frame(pre))
}

/// Decodes, applies the activation, and encodes again.
fn relu_frame(pre: &[u8]) -> (out: Vec<u8>)
    requires
        pre@.len() <= 4096,
    ensures
        out@ == relu_bytes(pre@),
        keeps_positive_words(pre@, out@),
{
    proof {
        assert forall|i: int| 0 <= i < pre@.len() / 4 implies {
            let w = #[trigger] decode_words(pre@)[i];
            decode_words(relu_bytes(pre@))[i] == if (is_finite(w) && scaled_value(w) > 0) || w == POS_INFINITY_BITS {
                w
            } else {
                0
            }
        } by {
            law_relu_bytes_by_value(pre@, i);
        }
    }
    let input = decode_f32_le(pre);
    let mut output: Vec<u32> = Vec::new();
    relu(input.as_slice(), &mut output);
    encode_f32_le(output.as_slice())
}

/// Step 3: dropout in evaluation mode, the identity on 512 words.
pub fn dropout_noop_512(_model_id: u64, pre: &[u8]) -> (r: Result<Vec<u8>, &'static str>)
    ensures
        r is Ok <==> pre@.len() == FC1_OUT * 4,
        r matches Ok(out) ==> out@ == pre@,
        r matches Err(e) ==> e@ == "krain-aivm: dropout_noop_512: wrong input length"@,
{
    if pre.len() != FC1_OUT * 4 {
        return Err("krain-aivm: dropout_noop_512: wrong input length");
    }
    Ok(slice_to_vec(pre))
}

/// Step 6: dropout in evaluation mode, the identity on 128 words.
pub fn dropout_noop_128(_model_id: u64, pre: &[u8]) -> (r: Result<Vec<u8>, &'static str>)
    ensures
        r is Ok <==> pre@.len() == FC2_OUT * 4,
        r matches Ok(out) ==> out@ == pre@,
        r matches Err(e) ==> e@ == "krain-aivm: dropout_noop_128: wrong input length"@,
{
    if pre.len() != FC2_OUT * 4 {
        return Err("krain-aivm: dropout_noop_128: wrong input length");
    }
    Ok(slice_to_vec(pre))
}

/// Step 8: the predicted digit followed by the ten logits, 41 bytes.
pub fn argmax_result(_model_id: u64, pre: &[u8]) -> (r: Result<Vec<u8>, &'static str>)
    ensures
        r is Ok <==> pre@.len() == FC3_OUT * 4,
        r matches Ok(out) ==> {
            &&& out@.len() == 1 + FC3_OUT * 4
            &&& is_argmax(decode_words(pre@), out@[0] as int)
            &&& holds_greatest_value(decode_words(pre@), out@[0] as int)
            &&& out@.subrange(1, out@.len() as int) == pre@
        },
        r matches Err(e) ==> e@ == "krain-aivm: argmax_result: wrong input length"@,
{
    if pre.len() != FC3_OUT * 4 {
        return Err("krain-aivm: argmax_result: wrong input length");
    }
    let logits = decode_f32_le(pre);
    let digit = argmax(logits.as_slice());
    let mut out: Vec<u8> = Vec::with_capacity(1 + FC3_OUT * 4);
    out.push(digit as u8);
    let mut tail = encode_f32_le(logits.as_slice());
    proof {
        lemma_encode_decode(pre@);
    }
    out.append(&mut tail);
    assert(out@.subrange(1, out@.len() as int) =~= pre@);
    Ok(out)
}

} // verus!
