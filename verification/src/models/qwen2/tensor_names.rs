//! Names of the tensors of a Qwen2 model.
use crate::text::{block_name, block_tensor};
use vstd::prelude::*;

verus! {

/// The token embedding.
pub const TOKEN_EMBD: &'static str = "token_embd.weight";

/// The norm before the output head.
pub const OUTPUT_NORM: &'static str = "output_norm.weight";

/// The output head.
pub const OUTPUT: &'static str = "output.weight";

/// The bias of the output head.
pub const OUTPUT_BIAS: &'static str = "output.bias";

/// Of block `i`: the norm before attention.
pub fn attn_norm(i: usize) -> (s: String)
    ensures
        s@ == block_name(i as nat, "attn_norm.weight"@),
{
    block_tensor(i, "attn_norm.weight")
}

/// Of block `i`: the query projection.
pub fn attn_q(i: usize) -> (s: String)
    ensures
        s@ == block_name(i as nat, "attn_q.weight"@),
{
    block_tensor(i, "attn_q.weight")
}

/// Of block `i`: the query bias.
pub fn attn_q_bias(i: usize) -> (s: String)
    ensures
        s@ == block_name(i as nat, "attn_q.bias"@),
{
    block_tensor(i, "attn_q.bias")
}

/// Of block `i`: the key projection.
pub fn attn_k(i: usize) -> (s: String)
    ensures
        s@ == block_name(i as nat, "attn_k.weight"@),
{
    block_tensor(i, "attn_k.weight")
}

/// Of block `i`: the key bias.
pub fn attn_k_bias(i: usize) -> (s: String)
    ensures
        s@ == block_name(i as nat, "attn_k.bias"@),
{
    block_tensor(i, "attn_k.bias")
}

/// Of block `i`: the value projection.
pub fn attn_v(i: usize) -> (s: String)
    ensures
        s@ == block_name(i as nat, "attn_v.weight"@),
{
    block_tensor(i, "attn_v.weight")
}

/// Of block `i`: the value bias.
pub fn attn_v_bias(i: usize) -> (s: String)
    ensures
        s@ == block_name(i as nat, "attn_v.bias"@),
{
    block_tensor(i, "attn_v.bias")
}

/// Of block `i`: the output projection.
pub fn attn_out(i: usize) -> (s: String)
    ensures
        s@ == block_name(i as nat, "attn_output.weight"@),
{
    block_tensor(i, "attn_output.weight")
}

/// Of block `i`: the norm before the feed-forward part.
pub fn ffn_norm(i: usize) -> (s: String)
    ensures
        s@ == block_name(i as nat, "ffn_norm.weight"@),
{
    block_tensor(i, "ffn_norm.weight")
}

/// Of block `i`: the gating projection.
pub fn ffn_gate(i: usize) -> (s: String)
    ensures
        s@ == block_name(i as nat, "ffn_gate.weight"@),
{
    block_tensor(i, "ffn_gate.weight")
}

/// Of block `i`: the up projection.
pub fn ffn_up(i: usize) -> (s: String)
    ensures
        s@ == block_name(i as nat, "ffn_up.weight"@),
{
    block_tensor(i, "ffn_up.weight")
}

/// Of block `i`: the down projection.
pub fn ffn_down(i: usize) -> (s: String)
    ensures
        s@ == block_name(i as nat, "ffn_down.weight"@),
{
    block_tensor(i, "ffn_down.weight")
}

} // verus!
