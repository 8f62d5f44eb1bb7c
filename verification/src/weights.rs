//! Layout of the weights file: six row-major blocks of binary32 words,
//! fc1 weights [512x784], fc1 bias [512], fc2 weights [128x512],
//! fc2 bias [128], fc3 weights [10x128], fc3 bias [10].
use vstd::prelude::*;
use vstd::slice::{slice_subrange, slice_to_vec};
use crate::codec::{decode_words, decode_f32_le};
use crate::layers::Layer;
use crate::ops::{FC1_IN, FC1_OUT, FC2_OUT, FC3_OUT};

verus! {

/// Words in the fc1 weight matrix.
pub const FC1_W_WORDS: usize = FC1_OUT * FC1_IN;

/// Words in the fc2 weight matrix.
pub const FC2_W_WORDS: usize = FC2_OUT * FC1_OUT;

/// Words in the fc3 weight matrix.
pub const FC3_W_WORDS: usize = FC3_OUT * FC2_OUT;

/// Words in the whole file.
pub const WEIGHTS_WORDS: usize = FC1_W_WORDS + FC1_OUT + FC2_W_WORDS + FC2_OUT + FC3_W_WORDS + FC3_OUT;

/// Bytes in the whole file.
pub const WEIGHTS_BYTES: usize = WEIGHTS_WORDS * 4;

/// The six blocks of the model, as binary32 bit patterns.
pub struct ModelWeights {
    pub fc1_w: Vec<u32>,
    pub fc1_b: Vec<u32>,
    pub fc2_w: Vec<u32>,
    pub fc2_b: Vec<u32>,
    pub fc3_w: Vec<u32>,
    pub fc3_b: Vec<u32>,
}

/// Word offset at which each block starts, in file order; the last entry
/// is the end of the file.
pub open spec fn block_start(k: int) -> int {
    if k <= 0 {
        0
    } else if k == 1 {
        FC1_W_WORDS as int
    } else if k == 2 {
        FC1_W_WORDS + FC1_OUT
    } else if k == 3 {
        FC1_W_WORDS + FC1_OUT + FC2_W_WORDS
    } else if k == 4 {
        FC1_W_WORDS + FC1_OUT + FC2_W_WORDS + FC2_OUT
    } else if k == 5 {
        FC1_W_WORDS + FC1_OUT + FC2_W_WORDS + FC2_OUT + FC3_W_WORDS
    } else {
        WEIGHTS_WORDS as int
    }
}

impl ModelWeights {
    /// Block `k` of the file, in file order.
    pub open spec fn block(self, k: int) -> Seq<u32> {
        if k <= 0 {
            self.fc1_w@
        } else if k == 1 {
            self.fc1_b@
        } else if k == 2 {
            self.fc2_w@
        } else if k == 3 {
            self.fc2_b@
        } else if k == 4 {
            self.fc3_w@
        } else {
            self.fc3_b@
        }
    }

    /// Each block is the matching range of the file's words.
    pub open spec fn from_words(self, words: Seq<u32>) -> bool {
        forall|k: int| 0 <= k < 6 ==> #[trigger] self.block(k) == words.subrange(block_start(k), block_start(k + 1))
    }

    /// Weight matrix of `layer`, row-major, one row per output.
    pub open spec fn spec_matrix(self, layer: Layer) -> Seq<u32> {
        match layer {
            Layer::Fc1 => self.fc1_w@,
            Layer::Fc2 => self.fc2_w@,
            Layer::Fc3 => self.fc3_w@,
        }
    }

    /// Bias of `layer`, one word per output.
    pub open spec fn spec_bias(self, layer: Layer) -> Seq<u32> {
        match layer {
            Layer::Fc1 => self.fc1_b@,
            Layer::Fc2 => self.fc2_b@,
            Layer::Fc3 => self.fc3_b@,
        }
    }

    /// Weight matrix and bias of `layer`.
    pub fn layer(&self, layer: Layer) -> (r: (&Vec<u32>, &Vec<u32>))
        ensures
            r.0@ == self.spec_matrix(layer),
            r.1@ == self.spec_bias(layer),
    {
        match layer {
            Layer::Fc1 => (&self.fc1_w, &self.fc1_b),
            Layer::Fc2 => (&self.fc2_w, &self.fc2_b),
            Layer::Fc3 => (&self.fc3_w, &self.fc3_b),
        }
    }
}

/// Splits the contents of a weights file into its six blocks.  `None` when
/// the file is not exactly `WEIGHTS_BYTES` long.
pub fn split_weights(data: &[u8]) -> (r: Option<ModelWeights>)
    ensures
        r is Some <==> data@.len() == WEIGHTS_BYTES,
        r matches Some(w) ==> w.from_words(decode_words(data@)),
{
    if data.len() != WEIGHTS_BYTES {
        return None;
    }
    let words = decode_f32_le(data);
    let all = words.as_slice();
    let a: usize = FC1_W_WORDS;
    let b: usize = a + FC1_OUT;
    let c: usize = b + FC2_W_WORDS;
    let d: usize = c + FC2_OUT;
    let e: usize = d + FC3_W_WORDS;
    let f: usize = e + FC3_OUT;
    let w = ModelWeights {
        fc1_w: slice_to_vec(slice_subrange(all, 0, a)),
        fc1_b: slice_to_vec(slice_subrange(all, a, b)),
        fc2_w: slice_to_vec(slice_subrange(all, b, c)),
        fc2_b: slice_to_vec(slice_subrange(all, c, d)),
        fc3_w: slice_to_vec(slice_subrange(all, d, e)),
        fc3_b: slice_to_vec(slice_subrange(all, e, f)),
    };
    assert forall|k: int| 0 <= k < 6 implies #[trigger] w.block(k) == words@.subrange(
        block_start(k),
        block_start(k + 1),
    ) by {
        if k == 0 {
        } else if k == 1 {
        } else if k == 2 {
        } else if k == 3 {
        } else if k == 4 {
        } else {
        }
    }
    Some(w)
}

} // verus!
