//! Loads a Qwen2 model from its files.
use crate::bits::{div_toward_zero, trunc_div, Real, ONE, ONE_MILLIONTH, TEN_THOUSAND};
use crate::gguf::{GgufContext, GgufModel, GgufPart};
use crate::graph::ops::{InvSqrt, RopeStyle};
use crate::loader::{find_tensor, load_named, locate, named_fits, tensor_named, Geometry};
use crate::model::{vocab_size, vocab_spec};
use crate::models::meta::{
    find_token_id, float, float_readable, float_spec, number, number_readable, number_spec,
    token_id_spec, tokens_are_text,
};
use crate::models::OffloadState;
use crate::tensor::{opt_view, Tensor, TensorView};
use crate::text::block_name;
use vstd::prelude::*;

use super::tensor_names as tn;
use super::Qwen2Model;

verus! {

/// Hyperparameters.
#[derive(Debug, Clone, Copy, PartialEq, Eq, Structural)]
pub struct HParams {
    pub n_embd: i64,
    pub n_head: i64,
    pub n_head_kv: i64,
    pub n_layer: i64,
    pub n_ff: i64,
    pub n_vocab: i64,
    pub max_seq_len: i64,
    pub f_norm_rms_eps: Real,
    pub rope_freq_base: Real,
    pub rope_freq_scale: Real,
    pub eos_token_id: u32,
    pub im_end_token_id: Option<u32>,
    pub rope_style: RopeStyle,
    /// Elements of one key or value row.
    pub n_kv_embd: i64,
}

impl HParams {
    /// Elements of one head.
    pub fn n_embd_head(&self) -> (r: i64)
        requires
            self.n_head != 0,
            !(self.n_embd == i64::MIN && self.n_head == -1),
        ensures
            r == trunc_div(self.n_embd as int, self.n_head as int),
    {
        div_toward_zero(self.n_embd, self.n_head)
    }

    /// The factor on the attention scores.
    pub fn attention_scale(&self) -> (r: InvSqrt)
        requires
            self.n_head != 0,
            !(self.n_embd == i64::MIN && self.n_head == -1),
        ensures
            r.head_dim == trunc_div(self.n_embd as int, self.n_head as int),
    {
        InvSqrt { head_dim: self.n_embd_head() }
    }
}

/// Weights of one block.
#[derive(Clone)]
pub struct LayerWeights {
    pub attn_norm: Option<Tensor>,
    pub wq: Option<Tensor>,
    pub bq: Option<Tensor>,
    pub wk: Option<Tensor>,
    pub bk: Option<Tensor>,
    pub wv: Option<Tensor>,
    pub bv: Option<Tensor>,
    pub wo: Option<Tensor>,
    pub ffn_norm: Option<Tensor>,
    pub ffn_gate: Option<Tensor>,
    pub ffn_up: Option<Tensor>,
    pub ffn_down: Option<Tensor>,
}

/// A block without weights.
pub open spec fn no_weights() -> LayerWeights {
    LayerWeights {
        attn_norm: None,
        wq: None,
        bq: None,
        wk: None,
        bk: None,
        wv: None,
        bv: None,
        wo: None,
        ffn_norm: None,
        ffn_gate: None,
        ffn_up: None,
        ffn_down: None,
    }
}

impl LayerWeights {
    /// A block without weights.
    pub fn new() -> (l: LayerWeights)
        ensures
            l == no_weights(),
    {
        LayerWeights {
            attn_norm: None,
            wq: None,
            bq: None,
            wk: None,
            bk: None,
            wv: None,
            bv: None,
            wo: None,
            ffn_norm: None,
            ffn_gate: None,
            ffn_up: None,
            ffn_down: None,
        }
    }
}

/// Elements of one head according to the keys.
pub open spec fn head_dim(ctx: &GgufContext) -> int {
    trunc_div(number_spec(ctx, "qwen2.embedding_length"@, "llama.embedding_length"@)->0 as int, number_spec(ctx, "qwen2.attention.head_count"@, "llama.attention.head_count"@)->0 as int)
}

/// Key/value heads according to the keys: as many as query heads, if the file
/// does not say.
pub open spec fn kv_heads(ctx: &GgufContext) -> i64 {
    match number_spec(ctx, "qwen2.attention.head_count_kv"@, "llama.attention.head_count_kv"@) {
        Some(v) => v,
        None => number_spec(ctx, "qwen2.attention.head_count"@, "llama.attention.head_count"@)->0,
    }
}

/// Whether the file gives every dimension that has no stand-in.
pub open spec fn dims_given(ctx: &GgufContext) -> bool {
    &&& number_spec(ctx, "qwen2.embedding_length"@, "llama.embedding_length"@) is Some
    &&& number_spec(ctx, "qwen2.attention.head_count"@, "llama.attention.head_count"@) is Some
    &&& number_spec(ctx, "qwen2.block_count"@, "llama.block_count"@) is Some
    &&& number_spec(ctx, "qwen2.feed_forward_length"@, "llama.feed_forward_length"@) is Some
}

/// Whether every key that is looked at can be read: the dimensions one after the other,
/// the rest only if none of them is missing.
pub open spec fn keys_readable(ctx: &GgufContext) -> bool {
    let embd = number_spec(ctx, "qwen2.embedding_length"@, "llama.embedding_length"@) is Some;
    let head = number_spec(ctx, "qwen2.attention.head_count"@, "llama.attention.head_count"@) is Some;
    let block = number_spec(ctx, "qwen2.block_count"@, "llama.block_count"@) is Some;
    &&& number_readable(ctx, "qwen2.embedding_length"@, "llama.embedding_length"@)
    &&& embd ==> number_readable(ctx, "qwen2.attention.head_count"@, "llama.attention.head_count"@)
    &&& embd && head ==> number_readable(ctx, "qwen2.attention.head_count_kv"@, "llama.attention.head_count_kv"@)
    &&& embd && head ==> number_readable(ctx, "qwen2.block_count"@, "llama.block_count"@)
    &&& embd && head && block ==> number_readable(ctx, "qwen2.feed_forward_length"@, "llama.feed_forward_length"@)
    &&& dims_given(ctx) ==> {
        &&& ctx.integer_readable("tokenizer.ggml.eos_token_id"@)
        &&& tokens_are_text(ctx)
        &&& number_readable(ctx, "qwen2.context_length"@, "llama.context_length"@)
        &&& float_readable(ctx, "qwen2.attention.layer_norm_rms_epsilon"@, "llama.attention.layer_norm_rms_epsilon"@)
        &&& float_readable(ctx, "qwen2.rope.freq_base"@, "llama.rope.freq_base"@)
        &&& float_readable(ctx, "qwen2.rope.frequency_scale"@, "llama.rope.frequency_scale"@)
    }
}

/// Dimensions that can be divided and multiplied without overflow.
pub open spec fn dims_ok(ctx: &GgufContext) -> bool {
    let n_embd = number_spec(ctx, "qwen2.embedding_length"@, "llama.embedding_length"@)->0;
    let n_head = number_spec(ctx, "qwen2.attention.head_count"@, "llama.attention.head_count"@)->0;
    &&& n_head != 0
    &&& !(n_embd == i64::MIN && n_head == -1)
    &&& i64::MIN <= kv_heads(ctx) * head_dim(ctx) <= i64::MAX
}

/// The end-of-sequence token; 0 if the file does not say.
pub open spec fn eos_spec(ctx: &GgufContext) -> u32 {
    match ctx.u32_spec("tokenizer.ggml.eos_token_id"@) {
        Some(v) => v,
        None => 0,
    }
}

/// The hyperparameters that the keys give: `None` without one of the dimensions.
pub open spec fn hparams_spec(ctx: &GgufContext) -> Option<HParams> {
    if !dims_given(ctx) {
        None
    } else {
        Some(
            HParams {
                n_embd: number_spec(ctx, "qwen2.embedding_length"@, "llama.embedding_length"@)->0,
                n_head: number_spec(ctx, "qwen2.attention.head_count"@, "llama.attention.head_count"@)->0,
                n_head_kv: kv_heads(ctx),
                n_layer: number_spec(ctx, "qwen2.block_count"@, "llama.block_count"@)->0,
                n_ff: number_spec(ctx, "qwen2.feed_forward_length"@, "llama.feed_forward_length"@)->0,
                n_vocab: vocab_spec(ctx.kv@),
                max_seq_len: match number_spec(ctx, "qwen2.context_length"@, "llama.context_length"@) {
                    Some(v) => v,
                    None => 32768,
                },
                f_norm_rms_eps: float_spec(
                    ctx,
                    "qwen2.attention.layer_norm_rms_epsilon"@,
                    "llama.attention.layer_norm_rms_epsilon"@,
                    ONE_MILLIONTH,
                ),
                rope_freq_base: float_spec(
                    ctx,
                    "qwen2.rope.freq_base"@,
                    "llama.rope.freq_base"@,
                    TEN_THOUSAND,
                ),
                rope_freq_scale: float_spec(
                    ctx,
                    "qwen2.rope.frequency_scale"@,
                    "llama.rope.frequency_scale"@,
                    ONE,
                ),
                eos_token_id: eos_spec(ctx),
                im_end_token_id: match token_id_spec(ctx.kv@, "<|im_end|>"@) {
                    Some(t) => Some(t),
                    None => Some(eos_spec(ctx)),
                },
                rope_style: RopeStyle::NonInterleaved,
                n_kv_embd: (kv_heads(ctx) * head_dim(ctx)) as i64,
            },
        )
    }
}

/// Reads the hyperparameters from a file's keys.
pub fn hparams_from_gguf(ctx: &GgufContext) -> (r: Option<HParams>)
    requires
        keys_readable(ctx),
        dims_given(ctx) ==> dims_ok(ctx),
    ensures
        r == hparams_spec(ctx),
{
    let n_vocab: i64 = vocab_size(ctx);
    let n_embd: i64 = number(ctx, "qwen2.embedding_length", "llama.embedding_length")?;
    let n_head: i64 = number(ctx, "qwen2.attention.head_count", "llama.attention.head_count")?;
    let n_head_kv: i64 = match number(
        ctx,
        "qwen2.attention.head_count_kv",
        "llama.attention.head_count_kv",
    ) {
        Some(v) => v,
        None => n_head,
    };
    let n_layer: i64 = number(ctx, "qwen2.block_count", "llama.block_count")?;
    let n_ff: i64 = number(ctx, "qwen2.feed_forward_length", "llama.feed_forward_length")?;
    let n_embd_head: i64 = div_toward_zero(n_embd, n_head);
    let eos: u32 = match ctx.get_key_val_u32("tokenizer.ggml.eos_token_id") {
        Some(v) => v,
        None => 0,
    };
    let im_end: u32 = match find_token_id(ctx, "<|im_end|>") {
        Some(t) => t,
        None => eos,
    };
    let max_seq_len: i64 = match number(ctx, "qwen2.context_length", "llama.context_length") {
        Some(v) => v,
        None => 32768,
    };
    Some(
        HParams {
            n_embd,
            n_head,
            n_head_kv,
            n_layer,
            n_ff,
            n_vocab,
            max_seq_len,
            f_norm_rms_eps: float(
                ctx,
                "qwen2.attention.layer_norm_rms_epsilon",
                "llama.attention.layer_norm_rms_epsilon",
                ONE_MILLIONTH,
            ),
            rope_freq_base: float(
                ctx,
                "qwen2.rope.freq_base",
                "llama.rope.freq_base",
                TEN_THOUSAND,
            ),
            rope_freq_scale: float(
                ctx,
                "qwen2.rope.frequency_scale",
                "llama.rope.frequency_scale",
                ONE,
            ),
            eos_token_id: eos,
            im_end_token_id: Some(im_end),
            rope_style: RopeStyle::NonInterleaved,
            n_kv_embd: n_head_kv * n_embd_head,
        },
    )
}

/// The parts of a block that have a tensor.
pub open spec fn layer_suffix(s: Seq<char>) -> bool {
    s == "attn_norm.weight"@
        || s == "attn_q.weight"@
        || s == "attn_q.bias"@
        || s == "attn_k.weight"@
        || s == "attn_k.bias"@
        || s == "attn_v.weight"@
        || s == "attn_v.bias"@
        || s == "attn_output.weight"@
        || s == "ffn_norm.weight"@
        || s == "ffn_gate.weight"@
        || s == "ffn_up.weight"@
        || s == "ffn_down.weight"@
}

/// The tensors of a model of `n` blocks.
pub open spec fn model_tensor(name: Seq<char>, n: int) -> bool {
    name == tn::TOKEN_EMBD@ || name == tn::OUTPUT_NORM@ || name == tn::OUTPUT@ || name
        == tn::OUTPUT_BIAS@ || exists|i: nat, s: Seq<char>|
        i < n && layer_suffix(s) && name == #[trigger] block_name(i, s)
}

/// The tensor called `name`, registered in the namespace `ns`.
pub open spec fn own(parts: Seq<GgufPart>, ns: Seq<char>, name: Seq<char>) -> Option<TensorView> {
    tensor_named(parts, name, ns + name, Geometry::Held)
}

/// `l` holds the tensors of block `i`.
pub open spec fn layer_loaded(
    l: LayerWeights,
    parts: Seq<GgufPart>,
    ns: Seq<char>,
    i: nat,
) -> bool {
    &&& opt_view(l.attn_norm) == own(parts, ns, block_name(i, "attn_norm.weight"@))
    &&& opt_view(l.wq) == own(parts, ns, block_name(i, "attn_q.weight"@))
    &&& opt_view(l.bq) == own(parts, ns, block_name(i, "attn_q.bias"@))
    &&& opt_view(l.wk) == own(parts, ns, block_name(i, "attn_k.weight"@))
    &&& opt_view(l.bk) == own(parts, ns, block_name(i, "attn_k.bias"@))
    &&& opt_view(l.wv) == own(parts, ns, block_name(i, "attn_v.weight"@))
    &&& opt_view(l.bv) == own(parts, ns, block_name(i, "attn_v.bias"@))
    &&& opt_view(l.wo) == own(parts, ns, block_name(i, "attn_output.weight"@))
    &&& opt_view(l.ffn_norm) == own(parts, ns, block_name(i, "ffn_norm.weight"@))
    &&& opt_view(l.ffn_gate) == own(parts, ns, block_name(i, "ffn_gate.weight"@))
    &&& opt_view(l.ffn_up) == own(parts, ns, block_name(i, "ffn_up.weight"@))
    &&& opt_view(l.ffn_down) == own(parts, ns, block_name(i, "ffn_down.weight"@))
}

/// The hyperparameters of a model: the width of a key row is that of the first
/// key projection, where the file has one.
pub open spec fn model_hparams(parts: Seq<GgufPart>) -> Option<HParams> {
    match hparams_spec(&parts[0].ctx) {
        None => None,
        Some(h) => Some(
            HParams {
                n_kv_embd: match locate(parts, block_name(0, "attn_k.weight"@)) {
                    Some((p, i)) => parts[p].ctx.info@[i].ne@[1],
                    None => h.n_kv_embd,
                },
                ..h
            },
        ),
    }
}

/// What loading a model gives. Without a head of its own the model uses its
/// embedding.
pub open spec fn model_loaded(m: Qwen2Model, parts: Seq<GgufPart>, ns: Seq<char>) -> bool {
    let embd = own(parts, ns, tn::TOKEN_EMBD@);
    let head = own(parts, ns, tn::OUTPUT@);
    &&& Some(m.hparams) == model_hparams(parts)
    &&& m.ns@ == ns
    &&& m.tied == (head is None)
    &&& opt_view(m.tok_embd) == embd
    &&& embd is Some
    &&& opt_view(m.output_norm) == own(parts, ns, tn::OUTPUT_NORM@)
    &&& opt_view(m.output) == (if head is Some {
        head
    } else {
        embd
    })
    &&& opt_view(m.output_b) == own(parts, ns, tn::OUTPUT_BIAS@)
    &&& m.layers@.len() == m.hparams.n_layer
    &&& forall|i: int|
        0 <= i < m.layers@.len() ==> layer_loaded(#[trigger] m.layers@[i], parts, ns, i as nat)
}

fn load_one(parts: &Vec<GgufPart>, ns: &str, name: &str) -> (r: Option<Tensor>)
    requires
        named_fits(parts@, name@, Geometry::Held),
    ensures
        opt_view(r) == own(parts@, ns@, name@),
{
    let mut reg: String = ns.to_owned();
    reg.append(name);
    load_named(parts, name, reg.as_str(), Geometry::Held)
}

fn load_own(parts: &Vec<GgufPart>, ns: &str, name: String) -> (r: Option<Tensor>)
    requires
        named_fits(parts@, name@, Geometry::Held),
    ensures
        opt_view(r) == own(parts@, ns@, name@),
{
    load_one(parts, ns, name.as_str())
}

fn load_layer(parts: &Vec<GgufPart>, ns: &str, i: usize, Ghost(n): Ghost<int>) -> (l: LayerWeights)
    requires
        i < n,
        forall|name: Seq<char>| model_tensor(name, n) ==> #[trigger] named_fits(parts@, name, Geometry::Held),
    ensures
        layer_loaded(l, parts@, ns@, i as nat),
{
    proof {
        assert forall|s: Seq<char>| layer_suffix(s) implies #[trigger] named_fits(
            parts@,
            block_name(i as nat, s),
            Geometry::Held,
        ) by {
            assert(model_tensor(block_name(i as nat, s), n));
        }
    }
    let mut layer: LayerWeights = LayerWeights::new();
    layer.attn_norm = load_own(parts, ns, tn::attn_norm(i));
    layer.wq = load_own(parts, ns, tn::attn_q(i));
    layer.bq = load_own(parts, ns, tn::attn_q_bias(i));
    layer.wk = load_own(parts, ns, tn::attn_k(i));
    layer.bk = load_own(parts, ns, tn::attn_k_bias(i));
    layer.wv = load_own(parts, ns, tn::attn_v(i));
    layer.bv = load_own(parts, ns, tn::attn_v_bias(i));
    layer.wo = load_own(parts, ns, tn::attn_out(i));
    layer.ffn_norm = load_own(parts, ns, tn::ffn_norm(i));
    layer.ffn_gate = load_own(parts, ns, tn::ffn_gate(i));
    layer.ffn_up = load_own(parts, ns, tn::ffn_up(i));
    layer.ffn_down = load_own(parts, ns, tn::ffn_down(i));
    layer
}

/// Files that a model can be loaded from: their values and tensors lie where the
/// index says.
pub open spec fn loadable(parts: Seq<GgufPart>) -> bool {
    &&& parts.len() >= 1
    &&& keys_readable(&parts[0].ctx)
    &&& dims_given(&parts[0].ctx) ==> dims_ok(&parts[0].ctx)
    &&& model_hparams(parts) matches Some(h) ==> 0 <= h.n_layer <= usize::MAX
        && forall|name: Seq<char>|
        model_tensor(name, h.n_layer as int) ==> #[trigger] named_fits(parts, name, Geometry::Held)
}

/// Loads a model into the namespace `ns`; `None` if a dimension or the token
/// embedding is missing.
pub fn load(model: &GgufModel, ns: &str, offload: OffloadState) -> (r: Option<Qwen2Model>)
    requires
        loadable(model.parts@),
    ensures
        r is Some <==> model_hparams(model.parts@) is Some && own(
            model.parts@,
            ns@,
            tn::TOKEN_EMBD@,
        ) is Some,
        r matches Some(m) ==> model_loaded(m, model.parts@, ns@) && m.offload == offload,
{
    let parts: &Vec<GgufPart> = &model.parts;
    let mut hparams: HParams = hparams_from_gguf(&parts[0].ctx)?;
    let first_k: String = tn::attn_k(0);
    match find_tensor(parts, first_k.as_str()) {
        Some((p, i)) => {
            hparams.n_kv_embd = parts[p].ctx.info[i].ne[1];
        },
        None => {},
    }
    let ghost n = hparams.n_layer as int;
    proof {
        assert(model_tensor(tn::TOKEN_EMBD@, n));
        assert(model_tensor(tn::OUTPUT_NORM@, n));
        assert(model_tensor(tn::OUTPUT@, n));
        assert(model_tensor(tn::OUTPUT_BIAS@, n));
    }
    let tok_embd: Tensor = load_one(parts, ns, tn::TOKEN_EMBD)?;
    let output_norm: Option<Tensor> = load_one(parts, ns, tn::OUTPUT_NORM);
    let own_head: Option<Tensor> = load_one(parts, ns, tn::OUTPUT);
    let tied: bool = own_head.is_none();
    let output: Tensor = match own_head {
        Some(t) => t,
        None => tok_embd.duplicate(),
    };
    let output_b: Option<Tensor> = load_one(parts, ns, tn::OUTPUT_BIAS);
    let n_layer: usize = hparams.n_layer as usize;
    let mut layers: Vec<LayerWeights> = Vec::new();
    let mut i: usize = 0;
    while i < n_layer
        invariant
            i <= n_layer,
            n_layer == n,
            layers@.len() == i,
            forall|name: Seq<char>| model_tensor(name, n) ==> #[trigger] named_fits(parts@, name, Geometry::Held),
            forall|k: int|
                0 <= k < i ==> layer_loaded(#[trigger] layers@[k], parts@, ns@, k as nat),
        decreases n_layer - i,
    {
        let layer: LayerWeights = load_layer(parts, ns, i, Ghost(n));
        layers.push(layer);
        i = i + 1;
    }
    Some(
        Qwen2Model {
            hparams,
            tok_embd: Some(tok_embd),
            output_norm,
            output: Some(output),
            output_b,
            layers,
            ns: ns.to_owned(),
            tied,
            offload,
        },
    )
}

/// The weights of a model are named for what they are used for, behind the model's own
/// prefix. A model without a head uses its embedding.
pub proof fn law_weights_are_named_for_their_use(
    m: Qwen2Model,
    parts: Seq<GgufPart>,
    ns: Seq<char>,
    i: int,
)
    requires
        model_loaded(m, parts, ns),
        0 <= i < m.layers@.len(),
    ensures
        ({
            let l = m.layers@[i];
            &&& l.attn_norm matches Some(t) ==> t.name@ == ns + block_name(i as nat, "attn_norm.weight"@)
            &&& l.wq matches Some(t) ==> t.name@ == ns + block_name(i as nat, "attn_q.weight"@)
            &&& l.bq matches Some(t) ==> t.name@ == ns + block_name(i as nat, "attn_q.bias"@)
            &&& l.wk matches Some(t) ==> t.name@ == ns + block_name(i as nat, "attn_k.weight"@)
            &&& l.bk matches Some(t) ==> t.name@ == ns + block_name(i as nat, "attn_k.bias"@)
            &&& l.wv matches Some(t) ==> t.name@ == ns + block_name(i as nat, "attn_v.weight"@)
            &&& l.bv matches Some(t) ==> t.name@ == ns + block_name(i as nat, "attn_v.bias"@)
            &&& l.wo matches Some(t) ==> t.name@ == ns + block_name(i as nat, "attn_output.weight"@)
            &&& l.ffn_norm matches Some(t) ==> t.name@ == ns + block_name(i as nat, "ffn_norm.weight"@)
            &&& l.ffn_gate matches Some(t) ==> t.name@ == ns + block_name(i as nat, "ffn_gate.weight"@)
            &&& l.ffn_up matches Some(t) ==> t.name@ == ns + block_name(i as nat, "ffn_up.weight"@)
            &&& l.ffn_down matches Some(t) ==> t.name@ == ns + block_name(i as nat, "ffn_down.weight"@)
            &&& m.tok_embd matches Some(t) && t.name@ == ns + "token_embd.weight"@
            &&& m.output_norm matches Some(t) ==> t.name@ == ns + "output_norm.weight"@
            &&& m.output_b matches Some(t) ==> t.name@ == ns + "output.bias"@
            &&& m.output is Some
            &&& !m.tied ==> m.output->0.name@ == ns + "output.weight"@
            &&& m.tied ==> m.output->0@ == m.tok_embd->0@
        }),
{
    assert(layer_loaded(m.layers@[i], parts, ns, i as nat));
}

/// What the hyperparameters are read from, and what they are where a file does not say:
/// as many heads of keys as of queries, a context of 32768, an epsilon of a millionth, a
/// base of ten thousand, a scale of one, and for the end of a message that of a text.
/// There is nothing without the sizes of a row, a head, a stack and a feed-forward part.
pub proof fn law_where_hyperparameters_come_from(ctx: &GgufContext)
    requires
        dims_ok(ctx),
    ensures
        hparams_spec(ctx) is Some <==> number_spec(ctx, "qwen2.embedding_length"@, "llama.embedding_length"@) is Some && number_spec(ctx, "qwen2.attention.head_count"@, "llama.attention.head_count"@) is Some && number_spec(ctx, "qwen2.block_count"@, "llama.block_count"@) is Some && number_spec(ctx, "qwen2.feed_forward_length"@, "llama.feed_forward_length"@) is Some,
        hparams_spec(ctx) matches Some(h) ==> {
            &&& Some(h.n_embd) == number_spec(ctx, "qwen2.embedding_length"@, "llama.embedding_length"@)
            &&& Some(h.n_head) == number_spec(ctx, "qwen2.attention.head_count"@, "llama.attention.head_count"@)
            &&& Some(h.n_layer) == number_spec(ctx, "qwen2.block_count"@, "llama.block_count"@)
            &&& Some(h.n_ff) == number_spec(ctx, "qwen2.feed_forward_length"@, "llama.feed_forward_length"@)
            &&& number_spec(ctx, "qwen2.attention.head_count_kv"@, "llama.attention.head_count_kv"@) is Some ==> Some(h.n_head_kv) == number_spec(ctx, "qwen2.attention.head_count_kv"@, "llama.attention.head_count_kv"@)
            &&& number_spec(ctx, "qwen2.attention.head_count_kv"@, "llama.attention.head_count_kv"@) is None ==> h.n_head_kv == h.n_head
            &&& number_spec(ctx, "qwen2.context_length"@, "llama.context_length"@) is Some ==> Some(h.max_seq_len) == number_spec(ctx, "qwen2.context_length"@, "llama.context_length"@)
            &&& number_spec(ctx, "qwen2.context_length"@, "llama.context_length"@) is None ==> h.max_seq_len == 32768
            &&& h.f_norm_rms_eps == float_spec(ctx, "qwen2.attention.layer_norm_rms_epsilon"@, "llama.attention.layer_norm_rms_epsilon"@, 0x358637BD)
            &&& h.rope_freq_base == float_spec(ctx, "qwen2.rope.freq_base"@, "llama.rope.freq_base"@, 0x461C4000)
            &&& h.rope_freq_scale == float_spec(ctx, "qwen2.rope.frequency_scale"@, "llama.rope.frequency_scale"@, 0x3F800000)
            &&& ctx.u32_spec("tokenizer.ggml.eos_token_id"@) is Some ==> Some(h.eos_token_id) == ctx.u32_spec("tokenizer.ggml.eos_token_id"@)
            &&& ctx.u32_spec("tokenizer.ggml.eos_token_id"@) is None ==> h.eos_token_id == 0
            &&& token_id_spec(ctx.kv@, "<|im_end|>"@) is Some ==> h.im_end_token_id == token_id_spec(ctx.kv@, "<|im_end|>"@)
            &&& token_id_spec(ctx.kv@, "<|im_end|>"@) is None ==> h.im_end_token_id == Some(h.eos_token_id)
            &&& h.rope_style is NonInterleaved
            &&& h.n_embd >= 0 && h.n_head > 0 ==> exists|hd: int|
                h.n_kv_embd == h.n_head_kv * hd && #[trigger] (h.n_head * hd) <= h.n_embd < h.n_head
                    * hd + h.n_head
        },
{
    let h = hparams_spec(ctx)->0;
    if hparams_spec(ctx) is Some && h.n_embd >= 0 && h.n_head > 0 {
        let ne = h.n_embd as int;
        let nh = h.n_head as int;
        vstd::arithmetic::div_mod::lemma_fundamental_div_mod(ne, nh);
        vstd::arithmetic::div_mod::lemma_mod_bound(ne, nh);
        let hd = ne / nh;
        assert(h.n_head * hd <= h.n_embd < h.n_head * hd + h.n_head);
        assert(h.n_kv_embd == h.n_head_kv * hd);
    }
}

/// The rows of keys are as wide as the first weight that makes them, where there is one.
pub proof fn law_key_rows_are_as_wide_as_their_weight(parts: Seq<GgufPart>)
    ensures
        model_hparams(parts) is Some <==> hparams_spec(&parts[0].ctx) is Some,
        model_hparams(parts) matches Some(h) ==> match locate(parts, block_name(0, "attn_k.weight"@)) {
            Some((p, i)) => h.n_kv_embd == parts[p].ctx.info@[i].ne@[1],
            None => h.n_kv_embd == hparams_spec(&parts[0].ctx)->0.n_kv_embd,
        },
        model_hparams(parts) matches Some(h) ==> h == (HParams {
            n_kv_embd: h.n_kv_embd,
            ..hparams_spec(&parts[0].ctx)->0
        }),
{
}

} // verus!
