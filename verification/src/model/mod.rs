//! The plain model: hyperparameters and weights of a transformer.
pub mod tensor_names;

use crate::bits::{div_toward_zero, trunc_div, Real, ONE, ONE_MILLIONTH, TEN_THOUSAND};
use crate::gguf::{GgufContext, GgufKv};
use crate::tensor::Tensor;
use crate::text::same;
use vstd::prelude::*;

verus! {

/// Architectures.
#[derive(Debug, Clone, Copy, PartialEq, Eq, Structural)]
pub enum ModelType {
    Qwen2,
    Unknown,
}

/// Hyperparameters.
#[derive(Debug, Clone, Copy, PartialEq, Eq, Structural)]
pub struct HParams {
    pub n_embd: i64,
    pub n_head: i64,
    pub n_head_kv: i64,
    pub n_layer: i64,
    pub n_ff: i64,
    pub n_vocab: i64,
    pub max_seq_len: i64,
    pub f_norm_rms_eps: Real,
    pub rope_freq_base: Real,
    pub rope_freq_scale: Real,
}

impl HParams {
    /// No dimensions, the usual constants.
    pub fn new() -> (h: HParams)
        ensures
            h == (HParams {
                n_embd: 0,
                n_head: 0,
                n_head_kv: 0,
                n_layer: 0,
                n_ff: 0,
                n_vocab: 0,
                max_seq_len: 0,
                f_norm_rms_eps: Real::Single(ONE_MILLIONTH),
                rope_freq_base: Real::Single(TEN_THOUSAND),
                rope_freq_scale: Real::Single(ONE),
            }),
    {
        HParams {
            n_embd: 0,
            n_head: 0,
            n_head_kv: 0,
            n_layer: 0,
            n_ff: 0,
            n_vocab: 0,
            max_seq_len: 0,
            f_norm_rms_eps: Real::Single(ONE_MILLIONTH),
            rope_freq_base: Real::Single(TEN_THOUSAND),
            rope_freq_scale: Real::Single(ONE),
        }
    }

    /// Elements of one head.
    pub fn n_embd_head(&self) -> (r: i64)
        requires
            self.n_head != 0,
            !(self.n_embd == i64::MIN && self.n_head == -1),
        ensures
            r == trunc_div(self.n_embd as int, self.n_head as int),
    {
        div_toward_zero(self.n_embd, self.n_head)
    }

    /// Rotated elements of one head: all of them.
    pub fn n_rot(&self) -> (r: i64)
        requires
            self.n_head != 0,
            !(self.n_embd == i64::MIN && self.n_head == -1),
        ensures
            r == trunc_div(self.n_embd as int, self.n_head as int),
    {
        self.n_embd_head()
    }
}

/// Weights of one block.
#[derive(Clone)]
pub struct LayerWeights {
    pub attn_norm: Option<Tensor>,
    pub wq: Option<Tensor>,
    pub bq: Option<Tensor>,
    pub wk: Option<Tensor>,
    pub bk: Option<Tensor>,
    pub wv: Option<Tensor>,
    pub bv: Option<Tensor>,
    pub wo: Option<Tensor>,
    pub ffn_norm: Option<Tensor>,
    pub ffn_gate: Option<Tensor>,
    pub ffn_up: Option<Tensor>,
    pub ffn_down: Option<Tensor>,
}

/// A block without weights.
pub open spec fn no_weights() -> LayerWeights {
    LayerWeights {
        attn_norm: None,
        wq: None,
        bq: None,
        wk: None,
        bk: None,
        wv: None,
        bv: None,
        wo: None,
        ffn_norm: None,
        ffn_gate: None,
        ffn_up: None,
        ffn_down: None,
    }
}

impl LayerWeights {
    /// A block without weights.
    pub fn new() -> (l: LayerWeights)
        ensures
            l == no_weights(),
    {
        LayerWeights {
            attn_norm: None,
            wq: None,
            bq: None,
            wk: None,
            bk: None,
            wv: None,
            bv: None,
            wo: None,
            ffn_norm: None,
            ffn_gate: None,
            ffn_up: None,
            ffn_down: None,
        }
    }
}

/// A model: embeddings, head and blocks.
#[derive(Clone)]
pub struct Model {
    pub hparams: HParams,
    pub arch: ModelType,
    pub tok_embd: Option<Tensor>,
    pub output_norm: Option<Tensor>,
    pub output: Option<Tensor>,
    pub output_b: Option<Tensor>,
    pub layers: Vec<LayerWeights>,
}

impl Model {
    /// A model with the given dimensions and no weights.
    pub fn new(hparams: HParams) -> (m: Model)
        requires
            0 <= hparams.n_layer <= usize::MAX,
        ensures
            m.hparams == hparams,
            m.arch == ModelType::Qwen2,
            m.tok_embd is None,
            m.output_norm is None,
            m.output is None,
            m.output_b is None,
            m.layers@.len() == hparams.n_layer,
            forall|i: int| 0 <= i < hparams.n_layer ==> #[trigger] m.layers@[i] == no_weights(),
    {
        let n: usize = hparams.n_layer as usize;
        let mut layers: Vec<LayerWeights> = Vec::new();
        let mut i: usize = 0;
        while i < n
            invariant
                i <= n,
                layers@.len() == i,
                forall|k: int| 0 <= k < i ==> #[trigger] layers@[k] == no_weights(),
            decreases n - i,
        {
            layers.push(LayerWeights::new());
            i = i + 1;
        }
        Model {
            hparams,
            arch: ModelType::Qwen2,
            tok_embd: None,
            output_norm: None,
            output: None,
            output_b: None,
            layers,
        }
    }

    /// Sets the token embedding.
    pub fn set_tok_embd(&mut self, tensor: Tensor)
        ensures
            *final(self) == (Model { tok_embd: Some(tensor), ..*old(self) }),
    {
        self.tok_embd = Some(tensor);
    }

    /// Sets the norm before the head.
    pub fn set_output_norm(&mut self, tensor: Tensor)
        ensures
            *final(self) == (Model { output_norm: Some(tensor), ..*old(self) }),
    {
        self.output_norm = Some(tensor);
    }

    /// Sets the head.
    pub fn set_output(&mut self, tensor: Tensor)
        ensures
            *final(self) == (Model { output: Some(tensor), ..*old(self) }),
    {
        self.output = Some(tensor);
    }

    /// Sets the bias of the head.
    pub fn set_output_b(&mut self, tensor: Tensor)
        ensures
            *final(self) == (Model { output_b: Some(tensor), ..*old(self) }),
    {
        self.output_b = Some(tensor);
    }

    /// The weights of a block.
    pub fn layer(&self, idx: usize) -> (l: &LayerWeights)
        requires
            idx < self.layers@.len(),
        ensures
            *l == self.layers@[idx as int],
    {
        &self.layers[idx]
    }

    /// The weights of a block, to be changed.
    pub fn layer_mut(&mut self, idx: usize) -> (l: &mut LayerWeights)
        requires
            idx < old(self).layers@.len(),
        ensures
            *l == old(self).layers@[idx as int],
            final(self).layers@ == old(self).layers@.update(idx as int, *final(l)),
            final(self).hparams == old(self).hparams,
            final(self).arch == old(self).arch,
            final(self).tok_embd == old(self).tok_embd,
            final(self).output_norm == old(self).output_norm,
            final(self).output == old(self).output,
            final(self).output_b == old(self).output_b,
    {
        &mut self.layers[idx]
    }

    /// Number of blocks.
    pub fn n_layer(&self) -> (n: usize)
        ensures
            n == self.layers@.len(),
    {
        self.layers.len()
    }
}

/// Number of tokens: the length of the first token list; 0 if there is none.
pub open spec fn vocab_spec(kv: Seq<GgufKv>) -> i64
    decreases kv.len(),
{
    if kv.len() == 0 {
        0
    } else if kv[0].key@ == "tokenizer.ggml.tokens"@ && kv[0].is_array {
        kv[0].ne_spec() as i64
    } else {
        vocab_spec(kv.drop_first())
    }
}

/// Number of tokens.
pub fn vocab_size(ctx: &GgufContext) -> (n: i64)
    ensures
        n == vocab_spec(ctx.kv@),
{
    let mut i: usize = 0;
    assert(ctx.kv@.skip(0) =~= ctx.kv@);
    while i < ctx.kv.len()
        invariant
            i <= ctx.kv@.len(),
            vocab_spec(ctx.kv@) == vocab_spec(ctx.kv@.skip(i as int)),
        decreases ctx.kv@.len() - i,
    {
        assert(ctx.kv@.skip(i as int)[0] == ctx.kv@[i as int]);
        assert(ctx.kv@.skip(i as int).drop_first() =~= ctx.kv@.skip(i + 1));
        if same(ctx.kv[i].key.as_str(), "tokenizer.ggml.tokens") && ctx.kv[i].is_array {
            return ctx.kv[i].get_ne() as i64;
        }
        i = i + 1;
    }
    0
}

/// Whether every key that is looked at can be read: the architecture first, then the
/// dimensions one after the other, the rest only if none of them is missing.
pub open spec fn keys_readable(ctx: &GgufContext) -> bool {
    let arch = ctx.str_spec("general.architecture"@) is Some;
    let embd = arch && ctx.i64_spec("qwen2.embedding_length"@) is Some;
    let head = embd && ctx.i64_spec("qwen2.attention.head_count"@) is Some;
    let head_kv = head && ctx.i64_spec("qwen2.attention.head_count_kv"@) is Some;
    let block = head_kv && ctx.i64_spec("qwen2.block_count"@) is Some;
    let ff = block && ctx.i64_spec("qwen2.feed_forward_length"@) is Some;
    &&& arch ==> ctx.integer_readable("qwen2.embedding_length"@)
    &&& embd ==> ctx.integer_readable("qwen2.attention.head_count"@)
    &&& head ==> ctx.integer_readable("qwen2.attention.head_count_kv"@)
    &&& head_kv ==> ctx.integer_readable("qwen2.block_count"@)
    &&& block ==> ctx.integer_readable("qwen2.feed_forward_length"@)
    &&& ff ==> {
        &&& ctx.integer_readable("qwen2.context_length"@)
        &&& ctx.float_readable("qwen2.attention.layer_norm_rms_epsilon"@)
        &&& ctx.float_readable("qwen2.rope.freq_base"@)
        &&& ctx.float_readable("qwen2.rope.frequency_scale"@)
    }
}

/// An optional number or its stand-in.
pub open spec fn or_i64(v: Option<i64>, d: i64) -> i64 {
    match v {
        Some(x) => x,
        None => d,
    }
}

/// An optional float or its stand-in.
pub open spec fn or_float(v: Option<Real>, d: u32) -> Real {
    match v {
        Some(x) => x,
        None => Real::Single(d),
    }
}

/// The hyperparameters of a file: `None` without an architecture or without one
/// of the dimensions.
pub open spec fn hparams_spec(ctx: &GgufContext) -> Option<HParams> {
    if ctx.str_spec("general.architecture"@) is None || ctx.i64_spec("qwen2.embedding_length"@) is None
        || ctx.i64_spec("qwen2.attention.head_count"@) is None || ctx.i64_spec(
        "qwen2.attention.head_count_kv"@,
    ) is None || ctx.i64_spec("qwen2.block_count"@) is None || ctx.i64_spec(
        "qwen2.feed_forward_length"@,
    ) is None {
        None
    } else {
        Some(
            HParams {
                n_embd: ctx.i64_spec("qwen2.embedding_length"@)->0,
                n_head: ctx.i64_spec("qwen2.attention.head_count"@)->0,
                n_head_kv: ctx.i64_spec("qwen2.attention.head_count_kv"@)->0,
                n_layer: ctx.i64_spec("qwen2.block_count"@)->0,
                n_ff: ctx.i64_spec("qwen2.feed_forward_length"@)->0,
                n_vocab: vocab_spec(ctx.kv@),
                max_seq_len: or_i64(ctx.i64_spec("qwen2.context_length"@), 32768),
                f_norm_rms_eps: or_float(
                    ctx.float_spec("qwen2.attention.layer_norm_rms_epsilon"@),
                    ONE_MILLIONTH,
                ),
                rope_freq_base: or_float(ctx.float_spec("qwen2.rope.freq_base"@), TEN_THOUSAND),
                rope_freq_scale: or_float(ctx.float_spec("qwen2.rope.frequency_scale"@), ONE),
            },
        )
    }
}

/// Reads the hyperparameters from a file's keys.
pub fn hparams_from_gguf(ctx: &GgufContext) -> (r: Option<HParams>)
    requires
        keys_readable(ctx),
    ensures
        r == hparams_spec(ctx),
{
    let n_vocab: i64 = vocab_size(ctx);
    match ctx.get_key_val_str("general.architecture") {
        None => {
            return None;
        },
        Some(_) => {},
    }
    let n_embd: i64 = ctx.get_key_val_i64("qwen2.embedding_length")?;
    let n_head: i64 = ctx.get_key_val_i64("qwen2.attention.head_count")?;
    let n_head_kv: i64 = ctx.get_key_val_i64("qwen2.attention.head_count_kv")?;
    let n_layer: i64 = ctx.get_key_val_i64("qwen2.block_count")?;
    let n_ff: i64 = ctx.get_key_val_i64("qwen2.feed_forward_length")?;
    Some(
        HParams {
            n_embd,
            n_head,
            n_head_kv,
            n_layer,
            n_ff,
            n_vocab,
            max_seq_len: ctx.get_key_val_i64("qwen2.context_length").unwrap_or(32768),
            f_norm_rms_eps: ctx.get_key_val_f32(
                "qwen2.attention.layer_norm_rms_epsilon",
            ).unwrap_or(Real::Single(ONE_MILLIONTH)),
            rope_freq_base: ctx.get_key_val_f32("qwen2.rope.freq_base").unwrap_or(
                Real::Single(TEN_THOUSAND),
            ),
            rope_freq_scale: ctx.get_key_val_f32("qwen2.rope.frequency_scale").unwrap_or(
                Real::Single(ONE),
            ),
        },
    )
}

/// The vocabulary is as large as the first token list; there is none without one.
pub proof fn law_vocabulary_is_the_token_list(kv: Seq<GgufKv>, i: int)
    requires
        0 <= i <= kv.len(),
        forall|k: int|
            0 <= k < i ==> !((#[trigger] kv[k]).key@ == "tokenizer.ggml.tokens"@ && kv[k].is_array),
        i < kv.len() ==> kv[i].key@ == "tokenizer.ggml.tokens"@ && kv[i].is_array,
    ensures
        i < kv.len() ==> vocab_spec(kv) == kv[i].ne_spec() as i64,
        i == kv.len() ==> vocab_spec(kv) == 0,
    decreases kv.len(),
{
    if i > 0 {
        let rest = kv.drop_first();
        assert(!(kv[0].key@ == "tokenizer.ggml.tokens"@ && kv[0].is_array));
        assert forall|k: int| 0 <= k < i - 1 implies !((#[trigger] rest[k]).key@
            == "tokenizer.ggml.tokens"@ && rest[k].is_array) by {
            assert(rest[k] == kv[k + 1]);
        }
        law_vocabulary_is_the_token_list(rest, i - 1);
    }
}

/// What the hyperparameters are read from, and what they are where a file does not say: a
/// context of 32768, an epsilon of a millionth, a base of ten thousand, a scale of one.
pub proof fn law_where_hyperparameters_come_from(ctx: &GgufContext)
    ensures
        hparams_spec(ctx) is Some <==> ctx.str_spec("general.architecture"@) is Some && ctx.i64_spec("qwen2.embedding_length"@) is Some && ctx.i64_spec("qwen2.attention.head_count"@) is Some && ctx.i64_spec("qwen2.attention.head_count_kv"@) is Some && ctx.i64_spec("qwen2.block_count"@) is Some && ctx.i64_spec("qwen2.feed_forward_length"@) is Some,
        hparams_spec(ctx) matches Some(h) ==> {
            &&& Some(h.n_embd) == ctx.i64_spec("qwen2.embedding_length"@)
            &&& Some(h.n_head) == ctx.i64_spec("qwen2.attention.head_count"@)
            &&& Some(h.n_head_kv) == ctx.i64_spec("qwen2.attention.head_count_kv"@)
            &&& Some(h.n_layer) == ctx.i64_spec("qwen2.block_count"@)
            &&& Some(h.n_ff) == ctx.i64_spec("qwen2.feed_forward_length"@)
            &&& h.n_vocab == vocab_spec(ctx.kv@)
            &&& ctx.i64_spec("qwen2.context_length"@) is Some ==> Some(h.max_seq_len) == ctx.i64_spec("qwen2.context_length"@)
            &&& ctx.i64_spec("qwen2.context_length"@) is None ==> h.max_seq_len == 32768
            &&& h.f_norm_rms_eps == match ctx.float_spec("qwen2.attention.layer_norm_rms_epsilon"@) {
                Some(v) => v,
                None => Real::Single(0x358637BD),
            }
            &&& h.rope_freq_base == match ctx.float_spec("qwen2.rope.freq_base"@) {
                Some(v) => v,
                None => Real::Single(0x461C4000),
            }
            &&& h.rope_freq_scale == match ctx.float_spec("qwen2.rope.frequency_scale"@) {
                Some(v) => v,
                None => Real::Single(0x3F800000),
            }
        },
{
}

} // verus!
