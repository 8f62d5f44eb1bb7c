//! The fully-connected layers: their shapes, and the checks made before the
//! weights are applied.  The products and sums themselves are binary32
//! arithmetic and are done by the host on the decoded words.
use vstd::prelude::*;
use crate::codec::{decode_words, decode_f32_le};
use crate::ops::{FC1_IN, FC1_OUT, FC2_OUT, FC3_OUT};

verus! {

/// One of the three fully-connected layers.
#[derive(Clone, Copy, Debug, PartialEq, Eq, Structural)]
pub enum Layer {
    /// 784 inputs, 512 outputs.
    Fc1,
    /// 512 inputs, 128 outputs.
    Fc2,
    /// 128 inputs, 10 outputs.
    Fc3,
}

impl Layer {
    /// Number of input words.
    pub open spec fn spec_in_features(self) -> nat {
        match self {
            Layer::Fc1 => FC1_IN as nat,
            Layer::Fc2 => FC1_OUT as nat,
            Layer::Fc3 => FC2_OUT as nat,
        }
    }

    /// Number of output words.
    pub open spec fn spec_out_features(self) -> nat {
        match self {
            Layer::Fc1 => FC1_OUT as nat,
            Layer::Fc2 => FC2_OUT as nat,
            Layer::Fc3 => FC3_OUT as nat,
        }
    }

    /// Text of the error for an input of the wrong length.
    pub open spec fn spec_wrong_length(self) -> Seq<char> {
        match self {
            Layer::Fc1 => "krain-aivm: fc1_linear: wrong input length"@,
            Layer::Fc2 => "krain-aivm: fc2_linear: wrong input length"@,
            Layer::Fc3 => "krain-aivm: fc3_linear: wrong input length"@,
        }
    }

    /// Number of input words.
    pub fn in_features(&self) -> (n: usize)
        ensures
            n == self.spec_in_features(),
    {
        match self {
            Layer::Fc1 => FC1_IN,
            Layer::Fc2 => FC1_OUT,
            Layer::Fc3 => FC2_OUT,
        }
    }

    /// Number of output words.
    pub fn out_features(&self) -> (n: usize)
        ensures
            n == self.spec_out_features(),
    {
        match self {
            Layer::Fc1 => FC1_OUT,
            Layer::Fc2 => FC2_OUT,
            Layer::Fc3 => FC3_OUT,
        }
    }

    /// The error for an input of the wrong length.
    pub fn wrong_length(&self) -> (e: &'static str)
        ensures
            e@ == self.spec_wrong_length(),
    {
        match self {
            Layer::Fc1 => "krain-aivm: fc1_linear: wrong input length",
            Layer::Fc2 => "krain-aivm: fc2_linear: wrong input length",
            Layer::Fc3 => "krain-aivm: fc3_linear: wrong input length",
        }
    }
}

/// Checks a layer's request and decodes its input words: weights that were
/// never loaded are reported first, then an input of the wrong length.
pub fn linear_input(layer: Layer, initialised: bool, pre: &[u8]) -> (r: Result<Vec<u32>, &'static str>)
    ensures
        r is Ok <==> initialised && pre@.len() == 4 * layer.spec_in_features(),
        r matches Ok(words) ==> words@ == decode_words(pre@),
        r matches Err(e) ==> e@ == (if !initialised {
            "krain-aivm: not initialised"@
        } else {
            layer.spec_wrong_length()
        }),
{
    if !initialised {
        return Err("krain-aivm: not initialised");
    }
    if pre.len() != layer.in_features() * 4 {
        return Err(layer.wrong_length());
    }
    Ok(decode_f32_le(pre))
}

} // verus!
