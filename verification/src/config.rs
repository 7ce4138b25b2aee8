//! Settings of the CTC model.

use vstd::prelude::*;

verus! {

/// What the CTC model's vocabulary looks like.
#[derive(Debug, Clone, Copy, PartialEq, Eq, Structural)]
pub struct ModelConfig {
    /// Number of tokens, the padding token included.
    pub vocab_size: usize,
    /// The padding token, which CTC decoding uses as its blank.
    pub pad_token_id: usize,
}

} // verus!
