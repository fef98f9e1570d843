//! The Qwen2 architecture.
pub mod forward;
pub mod graph;
pub mod host_meaning;
pub mod loader;
pub mod meaning;
pub mod pass;
pub mod pass_meaning;
pub mod tensor_names;

use crate::models::OffloadState;
use crate::tensor::Tensor;
use vstd::prelude::*;

use self::loader::{HParams, LayerWeights};

verus! {

/// A model with its weights.
pub struct Qwen2Model {
    pub hparams: HParams,
    pub tok_embd: Option<Tensor>,
    pub output_norm: Option<Tensor>,
    pub output: Option<Tensor>,
    pub output_b: Option<Tensor>,
    pub layers: Vec<LayerWeights>,
    /// Prefix of the names of its weights; empty for the first model of a
    /// process.
    pub ns: String,
    /// The head is the token embedding.
    pub tied: bool,
    pub offload: OffloadState,
}

impl Qwen2Model {
    /// Number of blocks.
    pub fn n_layer(&self) -> (n: usize)
        ensures
            n == self.layers@.len(),
    {
        self.layers.len()
    }
}

} // verus!
