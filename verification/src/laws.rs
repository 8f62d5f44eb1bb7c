//! Properties of the forward-pass steps that span several calls or hold
//! for every input.
use vstd::prelude::*;
use crate::codec::{decode_words, lemma_decode_encode, lemma_encode_len};
use crate::ieee::{
    is_nan, gt, is_positive, order_key, relu_word, is_finite, exponent_field, fraction_field,
    scaled_value, lemma_fields, lemma_magnitude_order, POS_INFINITY_BITS, NEG_INFINITY_BITS,
};
use crate::layers::Layer;
use crate::ops::{relu_words, relu_bytes, is_argmax, FC1_OUT, FC2_OUT, FC3_OUT};
use crate::weights::{ModelWeights, block_start, WEIGHTS_BYTES, WEIGHTS_WORDS};

verus! {

/// Comparison of binary32 values is a strict order away from NaN, and the
/// two zeros compare equal.
pub proof fn law_order_is_strict(a: u32, b: u32, c: u32)
    ensures
        !gt(a, a),
        gt(a, b) ==> !gt(b, a),
        gt(a, b) && gt(b, c) ==> gt(a, c),
        !is_nan(a) && !is_nan(b) ==> (gt(a, b) || gt(b, a) || order_key(a) == order_key(b)),
        !gt(0, 0x8000_0000) && !gt(0x8000_0000, 0),
{
}

/// Applying the activation twice gives what applying it once gives.
pub proof fn law_relu_idempotent(pre: Seq<u8>)
    ensures
        relu_bytes(relu_bytes(pre)) == relu_bytes(pre),
{
    let once = relu_words(decode_words(pre));
    lemma_decode_encode(once);
    assert(relu_words(once) =~= once);
}

/// The activation keeps the length of a whole number of words, and every
/// word it produces is positive zero or a value greater than zero.
pub proof fn law_relu_output(pre: Seq<u8>)
    requires
        pre.len() % 4 == 0,
    ensures
        relu_bytes(pre).len() == pre.len(),
        forall|i: int|
            0 <= i < pre.len() / 4 ==> {
                let w = #[trigger] decode_words(relu_bytes(pre))[i];
                w == 0 || is_positive(w)
            },
{
    let once = relu_words(decode_words(pre));
    lemma_encode_len(once);
    lemma_decode_encode(once);
}

/// At most one index is the argmax of a non-empty sequence of logits.
pub proof fn law_argmax_unique(logits: Seq<u32>, i: int, k: int)
    requires
        logits.len() > 0,
        is_argmax(logits, i),
        is_argmax(logits, k),
    ensures
        i == k,
{
    if !is_nan(logits[0]) {
        if i < k {
            assert(gt(logits[k], logits[i]));
        } else if k < i {
            assert(gt(logits[i], logits[k]));
        }
    }
}

/// When no logit is NaN, the argmax holds a greatest value: no logit
/// compares greater, and every earlier logit compares smaller.
pub proof fn law_argmax_is_first_maximum(logits: Seq<u32>, i: int)
    requires
        logits.len() > 0,
        forall|j: int| 0 <= j < logits.len() ==> !is_nan(#[trigger] logits[j]),
        is_argmax(logits, i),
    ensures
        0 <= i < logits.len(),
        forall|j: int| 0 <= j < logits.len() ==> order_key(#[trigger] logits[j]) <= order_key(logits[i]),
        forall|j: int| 0 <= j < i ==> order_key(#[trigger] logits[j]) < order_key(logits[i]),
{
    assert(!is_nan(logits[0]));
}

/// The steps chain: each layer's output is as long as the next step's
/// input, and the last layer yields one logit per digit.
pub proof fn law_pipeline_shapes()
    ensures
        Layer::Fc1.spec_out_features() == FC1_OUT,
        Layer::Fc2.spec_in_features() == FC1_OUT,
        Layer::Fc2.spec_out_features() == FC2_OUT,
        Layer::Fc3.spec_in_features() == FC2_OUT,
        Layer::Fc3.spec_out_features() == FC3_OUT,
        FC3_OUT == 10,
{
}

/// The blocks taken from a weights file cover it exactly, in order, and
/// have the shapes of the layers: one row of inputs per output, one bias
/// per output.
pub proof fn law_weights_cover_file(w: ModelWeights, data: Seq<u8>)
    requires
        data.len() == WEIGHTS_BYTES,
        w.from_words(decode_words(data)),
    ensures
        w.fc1_w@ + w.fc1_b@ + w.fc2_w@ + w.fc2_b@ + w.fc3_w@ + w.fc3_b@ == decode_words(data),
        forall|layer: Layer|
            #![trigger w.spec_matrix(layer)]
            w.spec_matrix(layer).len() == layer.spec_in_features() * layer.spec_out_features()
                && w.spec_bias(layer).len() == layer.spec_out_features(),
{
    let words = decode_words(data);
    assert(words.len() == WEIGHTS_WORDS);
    assert(w.block(0) == words.subrange(block_start(0), block_start(1)));
    assert(w.block(1) == words.subrange(block_start(1), block_start(2)));
    assert(w.block(2) == words.subrange(block_start(2), block_start(3)));
    assert(w.block(3) == words.subrange(block_start(3), block_start(4)));
    assert(w.block(4) == words.subrange(block_start(4), block_start(5)));
    assert(w.block(5) == words.subrange(block_start(5), block_start(6)));
    assert(w.fc1_w@ + w.fc1_b@ + w.fc2_w@ + w.fc2_b@ + w.fc3_w@ + w.fc3_b@ =~= words);
    assert forall|layer: Layer|
        #![trigger w.spec_matrix(layer)]
        w.spec_matrix(layer).len() == layer.spec_in_features() * layer.spec_out_features()
            && w.spec_bias(layer).len() == layer.spec_out_features() by {
        match layer {
            Layer::Fc1 => assert(w.fc1_w@.len() == 784 * 512),
            Layer::Fc2 => assert(w.fc2_w@.len() == 512 * 128),
            Layer::Fc3 => assert(w.fc3_w@.len() == 128 * 10),
        }
    }
}

/// A word is NaN exactly when its exponent field is all ones and its
/// fraction field is not zero; in particular no finite word is NaN.
pub proof fn law_nan_is_all_ones_exponent_with_fraction(w: u32)
    ensures
        is_nan(w) <==> (exponent_field(w) == 0xff && fraction_field(w) != 0),
        is_finite(w) ==> !is_nan(w),
{
    lemma_fields(w);
}

/// On finite words, `gt` is the order of the real numbers they encode.
pub proof fn law_gt_is_order_of_values(a: u32, b: u32)
    requires
        is_finite(a),
        is_finite(b),
    ensures
        gt(a, b) <==> scaled_value(a) > scaled_value(b),
{
    lemma_fields(a);
    lemma_fields(b);
    lemma_magnitude_order(a, b);
    lemma_magnitude_order(b, a);
}

/// Positive infinity is greater than every other non-NaN word, negative
/// infinity smaller, and nothing compares with NaN.
pub proof fn law_gt_infinities_and_nan(a: u32, b: u32)
    ensures
        !is_nan(b) && b != POS_INFINITY_BITS ==> gt(POS_INFINITY_BITS, b),
        !is_nan(b) && b != NEG_INFINITY_BITS ==> gt(b, NEG_INFINITY_BITS),
        !gt(b, POS_INFINITY_BITS) && !gt(NEG_INFINITY_BITS, b),
        is_nan(a) || is_nan(b) ==> !gt(a, b),
{
}

/// The activation keeps exactly the words that encode a number greater
/// than zero (a finite positive number or positive infinity) and maps
/// every other word to positive zero.
pub proof fn law_relu_keeps_positive_values(w: u32)
    ensures
        is_finite(w) ==> relu_word(w) == (if scaled_value(w) > 0 { w } else { 0 }),
        w == POS_INFINITY_BITS ==> relu_word(w) == w,
        !is_finite(w) && w != POS_INFINITY_BITS ==> relu_word(w) == 0,
{
    lemma_fields(w);
    lemma_fields(0);
    if is_finite(w) {
        law_gt_is_order_of_values(w, 0);
        assert(scaled_value(0) == 0);
    }
}

/// Word `i` of the activation step's output is word `i` of its input when
/// that word encodes a number greater than zero, positive zero otherwise.
pub proof fn law_relu_bytes_by_value(pre: Seq<u8>, i: int)
    requires
        0 <= i < pre.len() / 4,
    ensures
        ({
            let w = decode_words(pre)[i];
            let out = decode_words(relu_bytes(pre))[i];
            &&& (is_finite(w) && scaled_value(w) > 0) || w == POS_INFINITY_BITS ==> out == w
            &&& !((is_finite(w) && scaled_value(w) > 0) || w == POS_INFINITY_BITS) ==> out == 0
        }),
{
    let once = relu_words(decode_words(pre));
    lemma_decode_encode(once);
    law_relu_keeps_positive_values(decode_words(pre)[i]);
}

/// When every logit is finite, the argmax holds a greatest value: no logit
/// encodes a larger number, and every earlier logit a smaller one.
pub proof fn law_argmax_is_greatest_value(logits: Seq<u32>, i: int)
    requires
        logits.len() > 0,
        forall|j: int| 0 <= j < logits.len() ==> is_finite(#[trigger] logits[j]),
        is_argmax(logits, i),
    ensures
        0 <= i < logits.len(),
        forall|j: int| 0 <= j < logits.len() ==> scaled_value(#[trigger] logits[j]) <= scaled_value(logits[i]),
        forall|j: int| 0 <= j < i ==> scaled_value(#[trigger] logits[j]) < scaled_value(logits[i]),
{
    law_nan_is_all_ones_exponent_with_fraction(logits[0]);
    assert forall|j: int| 0 <= j < logits.len() implies scaled_value(#[trigger] logits[j]) <= scaled_value(logits[i]) by {
        law_gt_is_order_of_values(logits[j], logits[i]);
    }
    assert forall|j: int| 0 <= j < i implies scaled_value(#[trigger] logits[j]) < scaled_value(logits[i]) by {
        law_nan_is_all_ones_exponent_with_fraction(logits[j]);
        law_gt_is_order_of_values(logits[i], logits[j]);
    }
}

} // verus!
