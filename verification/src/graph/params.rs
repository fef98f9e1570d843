//! What the topology of a graph depends on.
use vstd::prelude::*;

verus! {

/// Whether a graph processes a prompt or a single token.
#[derive(Debug, Clone, Copy, PartialEq, Eq, Structural)]
pub enum GraphType {
    Prefill,
    Decode,
}

/// Settings that shape the graph.
#[derive(Debug, Clone, Copy, PartialEq, Eq, Structural)]
pub struct CParams {
    /// Rows of a key/value region.
    pub n_ctx: usize,
    pub flash_attn: bool,
    /// Positions do not bound every query's window.
    pub explicit_span: bool,
    /// A device takes part.
    pub gpu: bool,
    /// The attention projections of a single token may be fused.
    pub fuse_qkv: bool,
    /// The feed-forward projections of a single token may be fused.
    pub fuse_ffn: bool,
}

/// The identity of a graph: equal parameters build equal graphs.
#[derive(Debug, Clone, Copy, PartialEq, Eq, Structural)]
pub struct GraphParams {
    pub n_tokens: usize,
    /// Rows of logits.
    pub n_out: usize,
    pub gtype: GraphType,
    pub cparams: CParams,
    pub weights_version: u64,
}

/// What the build knows of the machine.
#[derive(Debug, Clone, Copy, PartialEq, Eq, Structural)]
pub struct Platform {
    /// Weights can be registered with Metal.
    pub metal: bool,
    /// Weights can be registered with CUDA.
    pub cuda: bool,
    /// A CUDA device is up.
    pub cuda_ready: bool,
    /// The fused feed-forward pass is built from single nodes.
    pub ffn_composition: bool,
}

} // verus!
