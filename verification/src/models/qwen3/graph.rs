//! The Qwen3 forward pass as a compute graph.
use crate::bits::Real;
use crate::graph::builder::{
    input_node, matmul_node, op_node, plain_node, rows_node, weight_meta,
    weight_name, GraphBuilder,
};
use crate::graph::ops::{
    AttnMeta, AttnMode, FusedFfnMeta, FusedQkvNormMeta, InvSqrt, NodeMeta, Op, RoPEMeta,
};
use crate::graph::params::{CParams, GraphParams, GraphType, Platform};
use crate::graph::{ComputeGraph, DType, NodeId, NodeView};
use crate::metal::concat::{can_stack, concat_rows_feasible, sound_sizes};
use crate::metal::MpsState;
use crate::models::forward::{to_u32, BatchPlan};
use crate::models::weights::{device_of, device_spec, CudaRegistry, CudaTypes, Role, Weight};
use crate::models::Device;
use crate::tensor::Tensor;
use crate::text::{block_name, block_tensor};
use vstd::prelude::*;

use super::loader::{HParams, LayerWeights};
use super::Qwen3Model;

verus! {

/// Builds the graph of a forward pass.
pub struct Qwen3Graph;

/// The sizes that the graph is built from.
#[derive(Clone, Copy)]
pub struct Dims {
    pub nt: usize,
    pub n_out: usize,
    pub ne: usize,
    pub nh: usize,
    pub nk: usize,
    pub hd: usize,
    pub nkt: usize,
    pub nf: usize,
    pub n_ctx: usize,
}

/// The sizes of a model for the given parameters.
pub open spec fn dims_spec(hp: HParams, p: GraphParams) -> Dims {
    Dims {
        nt: p.n_tokens,
        n_out: p.n_out,
        ne: hp.n_embd as usize,
        nh: hp.n_head as usize,
        nk: hp.n_head_kv as usize,
        hd: hp.n_embd_head as usize,
        nkt: hp.n_kv_embd as usize,
        nf: hp.n_ff as usize,
        n_ctx: p.cparams.n_ctx,
    }
}

/// Sizes that a graph can be built from.
pub open spec fn dims_ok(hp: HParams, p: GraphParams) -> bool {
    &&& 0 <= hp.n_embd <= usize::MAX
    &&& 0 <= hp.n_head <= usize::MAX
    &&& 0 <= hp.n_embd_head <= usize::MAX
    &&& 0 < hp.n_head_kv <= usize::MAX
    &&& 0 <= hp.n_kv_embd <= usize::MAX
    &&& 0 <= hp.n_ff <= usize::MAX
    &&& hp.n_head * hp.n_embd_head <= usize::MAX
    &&& hp.n_kv_embd * p.cparams.n_ctx <= usize::MAX
}

/// A block with all its matrices, whose sizes machine words hold.
pub open spec fn layer_ok(l: LayerWeights) -> bool {
    &&& l.wq is Some && l.wk is Some && l.wv is Some && l.wo is Some
    &&& l.ffn_gate is Some && l.ffn_up is Some && l.ffn_down is Some
    &&& sound_sizes(seq![&l.wq->0, &l.wk->0, &l.wv->0])
    &&& sound_sizes(seq![&l.ffn_gate->0, &l.ffn_up->0])
}

/// A model that a graph can be built for.
pub open spec fn model_ok(m: &Qwen3Model, p: GraphParams) -> bool {
    &&& dims_ok(m.hparams, p)
    &&& m.tok_embd is Some
    &&& m.output is Some
    &&& forall|i: int| 0 <= i < m.layers@.len() ==> layer_ok(#[trigger] m.layers@[i])
}

/// An optional weight by reference.
pub open spec fn opt_ref(t: Option<Tensor>) -> Option<&'static Tensor> {
    match t {
        None => None,
        Some(t) => Some(&t),
    }
}

/// How a block computes queries, keys and values.
pub enum QkvClass {
    /// One multiplication by the stacked weights, norms, rotation and store in
    /// the same pass.
    Stacked,
    /// Every step by itself.
    Single,
}

/// Fusing pays for a single token on Metal, where both norms are there and the
/// weights stack.
pub open spec fn qkv_class_spec(l: LayerWeights, p: GraphParams, e: Platform) -> QkvClass {
    if p.n_tokens == 1 && p.cparams.gpu && p.cparams.fuse_qkv && l.q_norm is Some && l.k_norm is Some
        && e.metal && can_stack(seq![&l.wq->0, &l.wk->0, &l.wv->0]) {
        QkvClass::Stacked
    } else {
        QkvClass::Single
    }
}

/// Whether gate and up projection are one multiplication: for a single token on
/// a device, unless the stacked weight would be too tall to be faster.
pub open spec fn fuse_ffn_spec(l: LayerWeights, d: Dims, p: GraphParams, e: Platform) -> bool {
    p.n_tokens == 1 && p.cparams.gpu && p.cparams.fuse_ffn && (e.metal || e.cuda) && can_stack(
        seq![&l.ffn_gate->0, &l.ffn_up->0],
    ) && d.nf <= 16384
}

/// The attention kernel family.
pub open spec fn mode_spec(p: GraphParams) -> AttnMode {
    if p.cparams.flash_attn {
        AttnMode::Flash
    } else {
        AttnMode::Gqa
    }
}

/// The attention node of block `il`.
pub open spec fn attn_node(hp: HParams, d: Dims, p: GraphParams, il: usize, q: usize, kv: usize) -> NodeView {
    op_node(
        Op::Attn { mode: mode_spec(p), explicit_span: false },
        seq![q, kv, 1],
        Some(il),
        NodeMeta::Attn(
            AttnMeta {
                layer: il,
                n_head: d.nh,
                n_head_kv: d.nk,
                hd: d.hd,
                hd_kv: (d.nkt / d.nk) as usize,
                nkt: d.nkt,
                scale: InvSqrt { head_dim: hp.n_embd_head },
            },
        ),
        Seq::empty(),
    )
}

/// A norm with an optional weight.
pub open spec fn norm_node(x: usize, layer: Option<usize>, w: Option<Tensor>, eps: Real) -> NodeView {
    op_node(
        Op::RmsNorm { eps },
        seq![x],
        layer,
        weight_meta(opt_ref(w)),
        seq![weight_name(opt_ref(w))],
    )
}

/// A rotation of `heads` heads.
pub open spec fn rope_node(hp: HParams, d: Dims, il: usize, x: usize, heads: usize) -> NodeView {
    op_node(
        Op::RoPE { style: hp.rope_style },
        seq![x, 1],
        Some(il),
        NodeMeta::RoPE(
            RoPEMeta {
                freq_base: hp.rope_freq_base,
                freq_scale: hp.rope_freq_scale,
                n_head: heads,
                hd: d.hd,
            },
        ),
        Seq::empty(),
    )
}

/// The read of a block's keys and values.
pub open spec fn load_node(d: Dims, il: usize) -> NodeView {
    op_node(
        Op::KvcacheLoad { layer: il },
        Seq::empty(),
        Some(il),
        NodeMeta::Kv { nkt: d.nkt, n_ctx: d.n_ctx, nk: d.nk },
        Seq::empty(),
    )
}

/// A per-head norm.
pub open spec fn head_norm_node(
    x: usize,
    il: usize,
    w: Option<Tensor>,
    hd: usize,
    nh: usize,
    eps: Real,
) -> NodeView {
    op_node(
        Op::QkNorm { hd, nh, eps },
        seq![x],
        Some(il),
        weight_meta(opt_ref(w)),
        seq![weight_name(opt_ref(w))],
    )
}

/// Queries, keys and values in one pass from the normed state `n`.
pub open spec fn stacked_nodes(m: &Qwen3Model, p: GraphParams, il: usize, n: int) -> Seq<NodeView> {
    let hp = m.hparams;
    let d = dims_spec(hp, p);
    let l = m.layers@[il as int];
    seq![
        op_node(
            Op::FusedQkvNorm { layer: il },
            seq![n as usize, 1],
            Some(il),
            NodeMeta::FusedQkvNorm(
                FusedQkvNormMeta {
                    weight_ttype: l.wq->0.ttype,
                    in_dim: d.ne,
                    nqt: (d.nh * d.hd) as usize,
                    nkt: d.nkt,
                    hd: d.hd,
                    nh: d.nh,
                    nk: d.nk,
                    freq_base: hp.rope_freq_base,
                    freq_scale: hp.rope_freq_scale,
                    rope_style: hp.rope_style,
                    kv_elems: (d.nkt * d.n_ctx) as usize,
                    eps: hp.f_norm_rms_eps,
                },
            ),
            seq![
                Some(m.ns@ + block_name(il as nat, "attn_qkv"@)),
                weight_name(opt_ref(l.q_norm)),
                weight_name(opt_ref(l.k_norm)),
            ],
        ),
        load_node(d, il),
    ]
}

/// Every step by itself, from the normed state `n`: queries and keys are normed
/// per head before they are rotated.
pub open spec fn single_nodes(m: &Qwen3Model, p: GraphParams, il: usize, n: int) -> Seq<NodeView> {
    let hp = m.hparams;
    let d = dims_spec(hp, p);
    let l = m.layers@[il as int];
    let lay = Some(il);
    let x = n as usize;
    seq![
        matmul_node(x, lay, &l.wq->0, None),
        matmul_node(x, lay, &l.wk->0, None),
        matmul_node(x, lay, &l.wv->0, None),
        head_norm_node((n + 1) as usize, il, l.q_norm, d.hd, d.nh, hp.f_norm_rms_eps),
        head_norm_node((n + 2) as usize, il, l.k_norm, d.hd, d.nk, hp.f_norm_rms_eps),
        rope_node(hp, d, il, (n + 4) as usize, d.nh),
        rope_node(hp, d, il, (n + 5) as usize, d.nk),
        op_node(
            Op::KvcacheStore { layer: il },
            seq![(n + 7) as usize, (n + 3) as usize, 1],
            lay,
            NodeMeta::Kv { nkt: 0, n_ctx: d.n_ctx, nk: 0 },
            Seq::empty(),
        ),
        load_node(d, il),
    ]
}

/// Queries, keys and values of block `il` from the normed state `n`: what comes
/// out is the queries' node and, last, the read of keys and values.
pub open spec fn qkv_nodes(m: &Qwen3Model, p: GraphParams, e: Platform, il: usize, n: int) -> (
    usize,
    Seq<NodeView>,
) {
    match qkv_class_spec(m.layers@[il as int], p, e) {
        QkvClass::Stacked => ((n + 1) as usize, stacked_nodes(m, p, il, n)),
        QkvClass::Single => ((n + 6) as usize, single_nodes(m, p, il, n)),
    }
}

/// Attention of block `il`, whose first node is `n`; the hidden state is the
/// node before. The last node is the output projection.
#[verifier::opaque]
pub open spec fn attn_nodes(
    m: &Qwen3Model,
    p: GraphParams,
    e: Platform,
    il: usize,
    n: int,
) -> Seq<NodeView> {
    let hp = m.hparams;
    let l = m.layers@[il as int];
    let (q, qkv) = qkv_nodes(m, p, e, il, n);
    let kv = n + qkv.len();
    seq![norm_node((n - 1) as usize, Some(il), l.attn_norm, hp.f_norm_rms_eps)] + qkv + seq![
        attn_node(hp, dims_spec(hp, p), p, il, q, kv as usize),
        matmul_node((kv + 1) as usize, Some(il), &l.wo->0, None),
    ]
}

/// The sum of the hidden state `h` and the attention output `w`; in the last
/// block only of the rows whose logits are wanted, which are an input here. The
/// first node is `w + 1`.
pub open spec fn residual_nodes(d: Dims, il: usize, last: bool, h: int, w: int) -> Seq<NodeView> {
    if last && d.n_out < d.nt {
        let shape = [d.ne, d.n_out, 1, 1];
        seq![
            input_node("tail_ids"@, [d.n_out, 1, 1, 1], DType::I32),
            rows_node(seq![w as usize, (w + 1) as usize], Some(il), shape),
            rows_node(seq![h as usize, (w + 1) as usize], Some(il), shape),
            plain_node(Op::Add, seq![(w + 3) as usize, (w + 2) as usize], Some(il)),
        ]
    } else {
        seq![plain_node(Op::Add, seq![h as usize, w as usize], Some(il))]
    }
}

/// The feed-forward part, whose first node is `n`; its input is the node before.
#[verifier::opaque]
pub open spec fn ffn_nodes(
    m: &Qwen3Model,
    p: GraphParams,
    e: Platform,
    il: usize,
    n: int,
) -> Seq<NodeView> {
    let hp = m.hparams;
    let d = dims_spec(hp, p);
    let l = m.layers@[il as int];
    let lay = Some(il);
    let h = (n - 1) as usize;
    let x = n as usize;
    let weight = m.ns@ + block_name(il as nat, "ffn_gu"@);
    let ttype = l.ffn_gate->0.ttype;
    seq![norm_node(h, lay, l.ffn_norm, hp.f_norm_rms_eps)] + (if fuse_ffn_spec(l, d, p, e) {
        seq![
            op_node(
                Op::FusedFFN,
                seq![x],
                lay,
                NodeMeta::FusedFfn(FusedFfnMeta { weight_ttype: ttype, in_dim: d.ne, nf: d.nf }),
                seq![Some(weight)],
            ),
            matmul_node((n + 1) as usize, lay, &l.ffn_down->0, None),
            plain_node(Op::Add, seq![h, (n + 2) as usize], lay),
        ]
    } else {
        seq![
            matmul_node(x, lay, &l.ffn_gate->0, None),
            matmul_node(x, lay, &l.ffn_up->0, None),
            plain_node(Op::Silu, seq![(n + 1) as usize], lay),
            plain_node(Op::Mul, seq![(n + 3) as usize, (n + 2) as usize], lay),
            matmul_node((n + 4) as usize, lay, &l.ffn_down->0, None),
            plain_node(Op::Add, seq![h, (n + 5) as usize], lay),
        ]
    })
}

/// Block `il`, whose first node is `n`; the hidden state comes in as the node
/// before and goes out as the last one.
pub open spec fn layer_nodes(
    m: &Qwen3Model,
    p: GraphParams,
    e: Platform,
    il: usize,
    n: int,
) -> Seq<NodeView> {
    let d = dims_spec(m.hparams, p);
    let attn = attn_nodes(m, p, e, il, n);
    let w = n + attn.len() - 1;
    let res = residual_nodes(d, il, il + 1 == m.layers@.len(), n - 1, w);
    attn + res + ffn_nodes(m, p, e, il, n + attn.len() + res.len())
}

/// The first `k` blocks; the first node is `base`.
pub open spec fn blocks_nodes(
    m: &Qwen3Model,
    p: GraphParams,
    e: Platform,
    base: int,
    k: int,
) -> Seq<NodeView>
    decreases k,
{
    if k <= 0 {
        Seq::empty()
    } else {
        let before = blocks_nodes(m, p, e, base, k - 1);
        before + layer_nodes(m, p, e, (k - 1) as usize, base + before.len())
    }
}

/// The inputs and the embedding.
pub open spec fn head_nodes(m: &Qwen3Model, p: GraphParams) -> Seq<NodeView> {
    seq![
        input_node("token_ids"@, [p.n_tokens, 1, 1, 1], DType::I32),
        input_node("positions"@, [p.n_tokens, 1, 1, 1], DType::I32),
        op_node(
            Op::GetRows,
            seq![0],
            None,
            NodeMeta::Weight(m.tok_embd->0.ttype),
            seq![Some(m.tok_embd->0.name@)],
        ),
    ]
}

/// The norm and the head, whose first node is `n`.
pub open spec fn tail_nodes(m: &Qwen3Model, n: int) -> Seq<NodeView> {
    seq![
        norm_node((n - 1) as usize, None, m.output_norm, m.hparams.f_norm_rms_eps),
        matmul_node(n as usize, None, &m.output->0, opt_ref(m.output_b)),
    ]
}

/// The whole forward pass.
pub open spec fn graph_nodes(m: &Qwen3Model, p: GraphParams, e: Platform) -> Seq<NodeView> {
    let head = head_nodes(m, p);
    let body = head + blocks_nodes(m, p, e, head.len() as int, m.layers@.len() as int);
    body + tail_nodes(m, body.len() as int)
}

/// Where the last block's row input stands, if there is one: behind that block's
/// attention.
pub open spec fn tail_input(m: &Qwen3Model, p: GraphParams, e: Platform) -> Seq<usize> {
    let n = m.layers@.len() as int;
    if n > 0 && p.n_out < p.n_tokens {
        let base = 3 + blocks_nodes(m, p, e, 3, n - 1).len();
        seq![(base + attn_nodes(m, p, e, (n - 1) as usize, base as int).len()) as usize]
    } else {
        Seq::empty()
    }
}

/// The ids of the inputs: tokens, positions and, where not all rows are wanted,
/// the rows.
pub open spec fn graph_inputs(m: &Qwen3Model, p: GraphParams, e: Platform) -> Seq<usize> {
    seq![0usize, 1] + tail_input(m, p, e)
}

impl Qwen3Graph {
    fn dims(hp: &HParams, p: &GraphParams) -> (d: Dims)
        requires
            dims_ok(*hp, *p),
        ensures
            d == dims_spec(*hp, *p),
            d.hd == hp.n_embd_head,
            d.nh * d.hd <= usize::MAX,
            d.nkt * d.n_ctx <= usize::MAX,
            d.nk > 0,
    {
        Dims {
            nt: p.n_tokens,
            n_out: p.n_out,
            ne: hp.n_embd as usize,
            nh: hp.n_head as usize,
            nk: hp.n_head_kv as usize,
            hd: hp.n_embd_head() as usize,
            nkt: hp.n_kv_embd as usize,
            nf: hp.n_ff as usize,
            n_ctx: p.cparams.n_ctx,
        }
    }

    /// Whether the three attention projections stack.
    fn qkv_concat_available(l: &LayerWeights, e: &Platform) -> (r: bool)
        requires
            layer_ok(*l),
        ensures
            r == (e.metal && can_stack(seq![&l.wq->0, &l.wk->0, &l.wv->0])),
    {
        if !e.metal {
            return false;
        }
        match (&l.wq, &l.wk, &l.wv) {
            (Some(wq), Some(wk), Some(wv)) => {
                let ts: [&Tensor; 3] = [wq, wk, wv];
                assert(ts@ =~= seq![&l.wq->0, &l.wk->0, &l.wv->0]);
                concat_rows_feasible(ts.as_slice())
            },
            _ => false,
        }
    }

    /// Whether gate and up projection stack.
    fn gu_concat_available(l: &LayerWeights, e: &Platform) -> (r: bool)
        requires
            layer_ok(*l),
        ensures
            r == ((e.metal || e.cuda) && can_stack(seq![&l.ffn_gate->0, &l.ffn_up->0])),
    {
        if !(e.metal || e.cuda) {
            return false;
        }
        match (&l.ffn_gate, &l.ffn_up) {
            (Some(fg), Some(fu)) => {
                let ts: [&Tensor; 2] = [fg, fu];
                assert(ts@ =~= seq![&l.ffn_gate->0, &l.ffn_up->0]);
                concat_rows_feasible(ts.as_slice())
            },
            _ => false,
        }
    }

    fn qkv_class(l: &LayerWeights, p: &GraphParams, e: &Platform) -> (r: QkvClass)
        requires
            layer_ok(*l),
        ensures
            r == qkv_class_spec(*l, *p, *e),
    {
        if p.n_tokens == 1 && p.cparams.gpu && p.cparams.fuse_qkv && l.q_norm.is_some()
            && l.k_norm.is_some() && Self::qkv_concat_available(l, e) {
            QkvClass::Stacked
        } else {
            QkvClass::Single
        }
    }

    fn stacked(
        b: &mut GraphBuilder,
        m: &Qwen3Model,
        p: &GraphParams,
        il: usize,
        normed: NodeId,
    ) -> (r: (NodeId, NodeId))
        requires
            old(b).wf(),
            old(b).layer == Some(il),
            model_ok(m, *p),
            il < m.layers@.len(),
            normed + 1 == old(b).nodes@.len(),
            normed >= 2,
        ensures
            final(b).extends(old(b), stacked_nodes(m, *p, il, normed as int)),
            r.0 == normed + 1,
            r.1 + 1 == final(b).nodes@.len(),
    {
        let hp: &HParams = &m.hparams;
        let d: Dims = Self::dims(hp, p);
        let l: &LayerWeights = &m.layers[il];
        let ghost start = b.views();
        let pos: usize = 1;
        let mut weight: String = m.ns.clone();
        let part: String = block_tensor(il, "attn_qkv");
        weight.append(part.as_str());
        let q: usize = b.fused_qkv_norm(
            normed,
            pos,
            il,
            weight,
            l.q_norm.as_ref(),
            l.k_norm.as_ref(),
            FusedQkvNormMeta {
                weight_ttype: l.wq.as_ref().unwrap().ttype,
                in_dim: d.ne,
                nqt: d.nh * d.hd,
                nkt: d.nkt,
                hd: d.hd,
                nh: d.nh,
                nk: d.nk,
                freq_base: hp.rope_freq_base,
                freq_scale: hp.rope_freq_scale,
                rope_style: hp.rope_style,
                kv_elems: d.nkt * d.n_ctx,
                eps: hp.f_norm_rms_eps,
            },
        );
        let kv: usize = b.kvcache_load(il, d.nkt, d.n_ctx, d.nk);
        assert(b.views() =~= start + stacked_nodes(m, *p, il, normed as int));
        (q, kv)
    }

    fn single(
        b: &mut GraphBuilder,
        m: &Qwen3Model,
        p: &GraphParams,
        il: usize,
        normed: NodeId,
    ) -> (r: (NodeId, NodeId))
        requires
            old(b).wf(),
            old(b).layer == Some(il),
            model_ok(m, *p),
            il < m.layers@.len(),
            normed + 1 == old(b).nodes@.len(),
            normed >= 2,
        ensures
            final(b).extends(old(b), single_nodes(m, *p, il, normed as int)),
            r.0 == normed + 6,
            r.1 + 1 == final(b).nodes@.len(),
    {
        let hp: &HParams = &m.hparams;
        let d: Dims = Self::dims(hp, p);
        let l: &LayerWeights = &m.layers[il];
        let ghost start = b.views();
        let pos: usize = 1;
        let q: usize = b.matmul(normed, l.wq.as_ref().unwrap(), None);
        let k: usize = b.matmul(normed, l.wk.as_ref().unwrap(), None);
        let v: usize = b.matmul(normed, l.wv.as_ref().unwrap(), None);
        let q: usize = b.qk_norm(q, l.q_norm.as_ref(), d.hd, d.nh, hp.f_norm_rms_eps);
        let k: usize = b.qk_norm(k, l.k_norm.as_ref(), d.hd, d.nk, hp.f_norm_rms_eps);
        let q: usize = b.rope(
            q,
            pos,
            hp.rope_style,
            RoPEMeta {
                freq_base: hp.rope_freq_base,
                freq_scale: hp.rope_freq_scale,
                n_head: d.nh,
                hd: d.hd,
            },
        );
        let k: usize = b.rope(
            k,
            pos,
            hp.rope_style,
            RoPEMeta {
                freq_base: hp.rope_freq_base,
                freq_scale: hp.rope_freq_scale,
                n_head: d.nk,
                hd: d.hd,
            },
        );
        let _store: usize = b.kvcache_store_at(il, k, v, pos, d.n_ctx);
        let kv: usize = b.kvcache_load(il, d.nkt, d.n_ctx, d.nk);
        assert(b.views() =~= start + single_nodes(m, *p, il, normed as int));
        (q, kv)
    }

    fn attention(
        b: &mut GraphBuilder,
        m: &Qwen3Model,
        p: &GraphParams,
        e: &Platform,
        il: usize,
        h: NodeId,
    ) -> (w: NodeId)
        requires
            old(b).wf(),
            old(b).layer == Some(il),
            !old(b).explicit_span,
            model_ok(m, *p),
            il < m.layers@.len(),
            h + 1 == old(b).nodes@.len(),
            h >= 2,
        ensures
            final(b).extends(old(b), attn_nodes(m, *p, *e, il, old(b).nodes@.len() as int)),
            w + 1 == final(b).nodes@.len(),
            w > h,
    {
        reveal(attn_nodes);
        let hp: &HParams = &m.hparams;
        let d: Dims = Self::dims(hp, p);
        let l: &LayerWeights = &m.layers[il];
        let ghost n = b.nodes@.len() as int;
        let ghost start = b.views();
        let mode: AttnMode = if p.cparams.flash_attn {
            AttnMode::Flash
        } else {
            AttnMode::Gqa
        };
        let meta: AttnMeta = AttnMeta {
            layer: il,
            n_head: d.nh,
            n_head_kv: d.nk,
            hd: d.hd,
            hd_kv: d.nkt / d.nk,
            nkt: d.nkt,
            scale: hp.attention_scale(),
        };
        let normed: usize = b.rms_norm(h, l.attn_norm.as_ref(), hp.f_norm_rms_eps);
        let (q, kv): (usize, usize) = match Self::qkv_class(l, p, e) {
            QkvClass::Stacked => Self::stacked(b, m, p, il, normed),
            QkvClass::Single => Self::single(b, m, p, il, normed),
        };
        let ghost qkv = qkv_nodes(m, *p, *e, il, n);
        assert(b.views() =~= start + seq![
            norm_node(h, Some(il), l.attn_norm, hp.f_norm_rms_eps),
        ] + qkv.1);
        assert(q == qkv.0 && kv == n + qkv.1.len());
        let out: usize = b.attn(q, kv, 1, mode, meta);
        let w: usize = b.matmul(out, l.wo.as_ref().unwrap(), None);
        assert(b.views() =~= start + attn_nodes(m, *p, *e, il, n));
        w
    }

    fn residual(
        b: &mut GraphBuilder,
        d: &Dims,
        il: usize,
        last: bool,
        h: NodeId,
        w: NodeId,
    ) -> (r: NodeId)
        requires
            old(b).wf(),
            old(b).layer == Some(il),
            h <= w,
            w + 1 == old(b).nodes@.len(),
        ensures
            final(b).wf(),
            final(b).views() == old(b).views() + residual_nodes(
                *d,
                il,
                last,
                h as int,
                w as int,
            ),
            final(b).inputs@ == old(b).inputs@ + (if last && d.n_out < d.nt {
                seq![(w + 1) as usize]
            } else {
                Seq::empty()
            }),
            final(b).outputs@ == old(b).outputs@,
            final(b).explicit_span == old(b).explicit_span,
            final(b).layer == old(b).layer,
            r + 1 == final(b).nodes@.len(),
            r > w,
    {
        let ghost start = b.views();
        let ghost inputs = b.inputs@;
        let r: usize = if last && d.n_out < d.nt {
            let tail: usize = b.input("tail_ids", [d.n_out, 1, 1, 1], DType::I32);
            assert(b.inputs@ =~= inputs + seq![(w + 1) as usize]);
            let cur: usize = b.get_rows(w, tail, [d.ne, d.n_out, 1, 1]);
            let res: usize = b.get_rows(h, tail, [d.ne, d.n_out, 1, 1]);
            b.add(res, cur)
        } else {
            assert(b.inputs@ =~= inputs + Seq::<usize>::empty());
            b.add(h, w)
        };
        assert(b.views() =~= start + residual_nodes(*d, il, last, h as int, w as int));
        r
    }

    fn feed_forward(
        b: &mut GraphBuilder,
        m: &Qwen3Model,
        p: &GraphParams,
        e: &Platform,
        il: usize,
        h: NodeId,
    ) -> (r: NodeId)
        requires
            old(b).wf(),
            old(b).layer == Some(il),
            model_ok(m, *p),
            il < m.layers@.len(),
            h + 1 == old(b).nodes@.len(),
        ensures
            final(b).extends(old(b), ffn_nodes(m, *p, *e, il, old(b).nodes@.len() as int)),
            r + 1 == final(b).nodes@.len(),
            r > h,
    {
        reveal(ffn_nodes);
        let hp: &HParams = &m.hparams;
        let d: Dims = Self::dims(hp, p);
        let l: &LayerWeights = &m.layers[il];
        let ghost n = b.nodes@.len() as int;
        let ghost start = b.views();
        let normed: usize = b.rms_norm(h, l.ffn_norm.as_ref(), hp.f_norm_rms_eps);
        let gate_w: &Tensor = l.ffn_gate.as_ref().unwrap();
        let down_w: &Tensor = l.ffn_down.as_ref().unwrap();
        let fuse: bool = p.n_tokens == 1 && p.cparams.gpu && p.cparams.fuse_ffn
            && Self::gu_concat_available(l, e) && d.nf <= 16384;
        let out: usize = if fuse {
            let mut weight: String = m.ns.clone();
            let part: String = block_tensor(il, "ffn_gu");
            weight.append(part.as_str());
            let gu: usize = b.fused_ffn(
                normed,
                weight,
                FusedFfnMeta { weight_ttype: gate_w.ttype, in_dim: d.ne, nf: d.nf },
            );
            b.matmul(gu, down_w, None)
        } else {
            let gate: usize = b.matmul(normed, gate_w, None);
            let up: usize = b.matmul(normed, l.ffn_up.as_ref().unwrap(), None);
            let g: usize = b.silu(gate);
            let sw: usize = b.mul(g, up);
            b.matmul(sw, down_w, None)
        };
        let r: usize = b.add(h, out);
        assert(b.views() =~= start + ffn_nodes(m, *p, *e, il, n));
        r
    }

    /// Builds the graph of one forward pass. It depends on the model, the
    /// parameters and the machine alone.
    pub fn build(m: &Qwen3Model, p: &GraphParams, e: &Platform) -> (g: ComputeGraph)
        requires
            model_ok(m, *p),
        ensures
            g.wf(),
            g.view_nodes() == graph_nodes(m, *p, *e),
            g.inputs@ == graph_inputs(m, *p, *e),
            g.outputs@ == seq![(graph_nodes(m, *p, *e).len() - 1) as usize],
    {
        let d: Dims = Self::dims(&m.hparams, p);
        let mut b: GraphBuilder = GraphBuilder::new();
        let ids: usize = b.input("token_ids", [p.n_tokens, 1, 1, 1], DType::I32);
        let _pos: usize = b.input("positions", [p.n_tokens, 1, 1, 1], DType::I32);
        let mut h: usize = b.embedding(ids, m.tok_embd.as_ref().unwrap());
        let ghost head = head_nodes(m, *p);
        assert(b.views() =~= head);
        assert(b.inputs@ =~= seq![0usize, 1]);
        let mut il: usize = 0;
        while il < m.layers.len()
            invariant
                il <= m.layers@.len(),
                model_ok(m, *p),
                d == dims_spec(m.hparams, *p),
                b.wf(),
                !b.explicit_span,
                b.inputs@ == (if il == m.layers@.len() {
                    graph_inputs(m, *p, *e)
                } else {
                    seq![0usize, 1]
                }),
                b.outputs@ == Seq::<usize>::empty(),
                head == head_nodes(m, *p),
                b.views() == head + blocks_nodes(m, *p, *e, head.len() as int, il as int),
                h + 1 == b.nodes@.len(),
                h >= 2,
            decreases m.layers@.len() - il,
        {
            b.set_layer(Some(il));
            let ghost start = b.views();
            let ghost n = b.nodes@.len() as int;
            let ghost inputs = b.inputs@;
            assert(n == start.len());
            let w: usize = Self::attention(&mut b, m, p, e, il, h);
            let last: bool = il == m.layers.len() - 1;
            let h2: usize = Self::residual(&mut b, &d, il, last, h, w);
            let h3: usize = Self::feed_forward(&mut b, m, p, e, il, h2);
            assert(b.views() =~= start + layer_nodes(m, *p, *e, il, n));
            assert(b.views() =~= head + blocks_nodes(m, *p, *e, head.len() as int, il + 1));
            proof {
                if last {
                    assert(n == 3 + blocks_nodes(m, *p, *e, 3, il as int).len());
                    assert(b.inputs@ =~= graph_inputs(m, *p, *e));
                } else {
                    assert(b.inputs@ =~= inputs);
                }
            }
            h = h3;
            il = il + 1;
        }
        b.set_layer(None);
        let ghost body = b.views();
        let normed: usize = b.rms_norm(h, m.output_norm.as_ref(), m.hparams.f_norm_rms_eps);
        let logits: usize = b.matmul(normed, m.output.as_ref().unwrap(), m.output_b.as_ref());
        b.output(logits);
        assert(b.views() =~= graph_nodes(m, *p, *e));
        assert(b.outputs@ =~= seq![(graph_nodes(m, *p, *e).len() - 1) as usize]);
        b.build()
    }
}

/// The layer of an attention node.
pub open spec fn attn_layer(n: NodeView) -> usize {
    match n.meta {
        NodeMeta::Attn(m) => m.layer,
        _ => 0,
    }
}

/// Whether a node stores the keys and values of a layer.
pub open spec fn stores(n: NodeView, layer: usize) -> bool {
    n.op == (Op::KvcacheStore { layer }) || n.op == (Op::FusedQkvNorm { layer })
}

/// Whether node `i` of `s`, if it is attention, comes after a store of its
/// layer.
pub open spec fn stored_before(s: Seq<NodeView>, i: int) -> bool {
    s[i].op is Attn ==> exists|j: int| 0 <= j < i && stores(#[trigger] s[j], attn_layer(s[i]))
}

/// Every attention node comes after a store of its layer.
pub open spec fn all_stored(s: Seq<NodeView>) -> bool {
    forall|i: int| 0 <= i < s.len() ==> #[trigger] stored_before(s, i)
}

proof fn lemma_stored_concat(a: Seq<NodeView>, b: Seq<NodeView>)
    requires
        all_stored(a),
        all_stored(b),
    ensures
        all_stored(a + b),
{
    let s = a + b;
    assert forall|i: int| 0 <= i < s.len() implies #[trigger] stored_before(s, i) by {
        if s[i].op is Attn {
            if i < a.len() {
                assert(stored_before(a, i));
                let j = choose|j: int| 0 <= j < i && stores(#[trigger] a[j], attn_layer(a[i]));
                assert(s[j] == a[j]);
            } else {
                let k = i - a.len();
                assert(s[i] == b[k]);
                assert(stored_before(b, k));
                let j = choose|j: int| 0 <= j < k && stores(#[trigger] b[j], attn_layer(b[k]));
                assert(s[a.len() + j] == b[j]);
            }
        }
    }
}

proof fn lemma_no_attention(s: Seq<NodeView>)
    requires
        forall|i: int| 0 <= i < s.len() ==> !((#[trigger] s[i]).op is Attn),
    ensures
        all_stored(s),
{
}

proof fn lemma_attn_stored(m: &Qwen3Model, p: GraphParams, e: Platform, il: usize, n: int)
    ensures
        all_stored(attn_nodes(m, p, e, il, n)),
{
    reveal(attn_nodes);
    let s = attn_nodes(m, p, e, il, n);
    let k = s.len() - 2;
    match qkv_class_spec(m.layers@[il as int], p, e) {
        QkvClass::Stacked => {
            assert(s.len() == 5);
            assert(stores(s[1], il));
        },
        QkvClass::Single => {
            assert(s.len() == 12);
            assert(stores(s[8], il));
        },
    }
    assert(attn_layer(s[k]) == il);
}

proof fn lemma_layer_stored(m: &Qwen3Model, p: GraphParams, e: Platform, il: usize, n: int)
    ensures
        all_stored(layer_nodes(m, p, e, il, n)),
{
    let d = dims_spec(m.hparams, p);
    let attn = attn_nodes(m, p, e, il, n);
    let w = n + attn.len() - 1;
    let res = residual_nodes(d, il, il + 1 == m.layers@.len(), n - 1, w);
    let ffn = ffn_nodes(m, p, e, il, n + attn.len() + res.len());
    lemma_attn_stored(m, p, e, il, n);
    lemma_no_attention(res);
    assert(forall|i: int| 0 <= i < ffn.len() ==> !((#[trigger] ffn[i]).op is Attn)) by {
        reveal(ffn_nodes);
    }
    lemma_no_attention(ffn);
    lemma_stored_concat(attn, res);
    lemma_stored_concat(attn + res, ffn);
}

proof fn lemma_blocks_stored(m: &Qwen3Model, p: GraphParams, e: Platform, base: int, k: int)
    ensures
        all_stored(blocks_nodes(m, p, e, base, k)),
    decreases k,
{
    if k > 0 {
        lemma_blocks_stored(m, p, e, base, k - 1);
        let before = blocks_nodes(m, p, e, base, k - 1);
        lemma_layer_stored(m, p, e, (k - 1) as usize, base + before.len());
        lemma_stored_concat(
            before,
            layer_nodes(m, p, e, (k - 1) as usize, base + before.len()),
        );
    }
}

/// Nodes run in build order, and every attention node comes after a node that
/// stores the keys and values of its layer: attention never reads rows that the
/// same pass has yet to write.
pub proof fn law_store_precedes_attention(m: &Qwen3Model, p: GraphParams, e: Platform, i: int)
    requires
        0 <= i < graph_nodes(m, p, e).len(),
        graph_nodes(m, p, e)[i].op is Attn,
    ensures
        exists|j: int|
            0 <= j < i && stores(
                #[trigger] graph_nodes(m, p, e)[j],
                attn_layer(graph_nodes(m, p, e)[i]),
            ),
{
    let head = head_nodes(m, p);
    let blocks = blocks_nodes(m, p, e, head.len() as int, m.layers@.len() as int);
    let body = head + blocks;
    let tail = tail_nodes(m, body.len() as int);
    lemma_no_attention(head);
    lemma_blocks_stored(m, p, e, head.len() as int, m.layers@.len() as int);
    lemma_no_attention(tail);
    lemma_stored_concat(head, blocks);
    lemma_stored_concat(body, tail);
    assert(stored_before(graph_nodes(m, p, e), i));
}

/// A node that computes queries, keys and values in a fused pass.
pub open spec fn fused_qkv(n: NodeView) -> bool {
    n.op is FusedQkvNorm
}

/// A node of a fused feed-forward pass.
pub open spec fn fused_ffn(n: NodeView) -> bool {
    n.op is FusedFFN
}

/// No node of a fused pass that the parameters do not ask for: they ask for single
/// tokens on a device, each kind of pass by its own switch.
pub open spec fn only_asked(s: Seq<NodeView>, p: GraphParams) -> bool {
    let single = p.n_tokens == 1 && p.cparams.gpu;
    forall|i: int|
        0 <= i < s.len() ==> {
            &&& fused_qkv(#[trigger] s[i]) ==> single && p.cparams.fuse_qkv
            &&& fused_ffn(s[i]) ==> single && p.cparams.fuse_ffn
        }
}

proof fn lemma_blocks_only_asked(m: &Qwen3Model, p: GraphParams, e: Platform, base: int, k: int)
    ensures
        only_asked(blocks_nodes(m, p, e, base, k), p),
    decreases k,
{
    if k > 0 {
        lemma_blocks_only_asked(m, p, e, base, k - 1);
        let before = blocks_nodes(m, p, e, base, k - 1);
        let il = (k - 1) as usize;
        let n = base + before.len();
        let d = dims_spec(m.hparams, p);
        let attn = attn_nodes(m, p, e, il, n);
        let w = n + attn.len() - 1;
        let res = residual_nodes(d, il, il + 1 == m.layers@.len(), n - 1, w);
        let ffn = ffn_nodes(m, p, e, il, n + attn.len() + res.len());
        assert(only_asked(attn, p)) by {
            reveal(attn_nodes);
        }
        assert(only_asked(ffn, p)) by {
            reveal(ffn_nodes);
        }
        assert(only_asked(res, p));
        assert(only_asked(layer_nodes(m, p, e, il, n), p));
    }
}

/// Fused passes are for single tokens on a device, where they are switched on: the
/// graph of a prompt, of a model on the host, or built with the switch off, has none.
pub proof fn law_only_asked_passes_fuse(m: &Qwen3Model, p: GraphParams, e: Platform)
    ensures
        only_asked(graph_nodes(m, p, e), p),
{
    let head = head_nodes(m, p);
    lemma_blocks_only_asked(m, p, e, head.len() as int, m.layers@.len() as int);
    let body = head + blocks_nodes(m, p, e, head.len() as int, m.layers@.len() as int);
    assert(only_asked(head, p));
    assert(only_asked(tail_nodes(m, body.len() as int), p));
}

proof fn lemma_blocks_stack(
    m: &Qwen3Model,
    p: GraphParams,
    e: Platform,
    base: int,
    k: int,
    il: usize,
) -> (i: int)
    requires
        il < k <= usize::MAX,
        qkv_class_spec(m.layers@[il as int], p, e) is Stacked,
    ensures
        0 <= i < blocks_nodes(m, p, e, base, k).len(),
        blocks_nodes(m, p, e, base, k)[i].op == (Op::FusedQkvNorm { layer: il }),
    decreases k,
{
    let before = blocks_nodes(m, p, e, base, k - 1);
    if il < k - 1 {
        lemma_blocks_stack(m, p, e, base, k - 1, il)
    } else {
        let n = base + before.len();
        let attn = attn_nodes(m, p, e, il, n);
        assert(attn.len() > 1 && attn[1].op == (Op::FusedQkvNorm { layer: il })) by {
            reveal(attn_nodes);
        }
        assert(layer_nodes(m, p, e, il, n)[1] == attn[1]);
        before.len() as int + 1
    }
}

/// A block whose projections stack is computed in one pass when that is asked for.
pub proof fn law_stacking_blocks_fuse(m: &Qwen3Model, p: GraphParams, e: Platform, il: usize)
    requires
        il < m.layers@.len(),
        qkv_class_spec(m.layers@[il as int], p, e) is Stacked,
    ensures
        exists|i: int|
            0 <= i < graph_nodes(m, p, e).len() && (#[trigger] graph_nodes(m, p, e)[i]).op == (
            Op::FusedQkvNorm { layer: il }),
{
    let head = head_nodes(m, p);
    let n = m.layers.len() as int;
    assert(n == m.layers@.len());
    let i = lemma_blocks_stack(m, p, e, head.len() as int, n, il);
    assert(graph_nodes(m, p, e)[head.len() + i] == blocks_nodes(m, p, e, head.len() as int, n)[i]);
}

/// A weight and its role.
pub open spec fn role_of(t: Option<Tensor>, role: Role) -> Weight<'static> {
    Weight { tensor: opt_ref(t), role }
}

/// The weights of a block.
pub open spec fn layer_roles(l: LayerWeights) -> Seq<Weight<'static>> {
    seq![
        role_of(l.attn_norm, Role::Plain),
        role_of(l.wq, Role::Matmul),
        role_of(l.wk, Role::Matmul),
        role_of(l.wv, Role::Matmul),
        role_of(l.wo, Role::Matmul),
        role_of(l.q_norm, Role::Plain),
        role_of(l.k_norm, Role::Plain),
        role_of(l.ffn_norm, Role::Plain),
        role_of(l.ffn_gate, Role::Matmul),
        role_of(l.ffn_up, Role::Matmul),
        role_of(l.ffn_down, Role::Matmul),
    ]
}

/// The weights outside the blocks.
pub open spec fn head_roles(m: &Qwen3Model) -> Seq<Weight<'static>> {
    seq![
        role_of(m.tok_embd, Role::Embed),
        role_of(m.output, Role::Matmul),
        role_of(m.output_norm, Role::Plain),
        role_of(m.output_b, Role::Plain),
    ]
}

/// The weights of the head and the first `k` blocks.
pub open spec fn model_roles(m: &Qwen3Model, k: int) -> Seq<Weight<'static>>
    decreases k,
{
    if k <= 0 {
        head_roles(m)
    } else {
        model_roles(m, k - 1) + layer_roles(m.layers@[k - 1])
    }
}

fn weight(t: &Option<Tensor>, role: Role) -> (w: Weight<'_>)
    ensures
        w == role_of(*t, role),
{
    Weight { tensor: t.as_ref(), role }
}

impl Qwen3Graph {
    /// Every weight that the graph reads, with its role.
    pub fn graph_weights(m: &Qwen3Model) -> (ws: Vec<Weight<'_>>)
        ensures
            ws@ == model_roles(m, m.layers@.len() as int),
    {
        let mut ws: Vec<Weight<'_>> = vec![
            weight(&m.tok_embd, Role::Embed),
            weight(&m.output, Role::Matmul),
            weight(&m.output_norm, Role::Plain),
            weight(&m.output_b, Role::Plain),
        ];
        assert(ws@ =~= head_roles(m));
        let mut il: usize = 0;
        while il < m.layers.len()
            invariant
                il <= m.layers@.len(),
                ws@ == model_roles(m, il as int),
            decreases m.layers@.len() - il,
        {
            let l: &LayerWeights = &m.layers[il];
            let ghost before = ws@;
            ws.push(weight(&l.attn_norm, Role::Plain));
            ws.push(weight(&l.wq, Role::Matmul));
            ws.push(weight(&l.wk, Role::Matmul));
            ws.push(weight(&l.wv, Role::Matmul));
            ws.push(weight(&l.wo, Role::Matmul));
            ws.push(weight(&l.q_norm, Role::Plain));
            ws.push(weight(&l.k_norm, Role::Plain));
            ws.push(weight(&l.ffn_norm, Role::Plain));
            ws.push(weight(&l.ffn_gate, Role::Matmul));
            ws.push(weight(&l.ffn_up, Role::Matmul));
            ws.push(weight(&l.ffn_down, Role::Matmul));
            assert(ws@ =~= before + layer_roles(*l));
            il = il + 1;
        }
        ws
    }

    /// Where the model's forward passes run: the one authority for it.
    pub fn device(
        m: &Qwen3Model,
        mps: Option<&MpsState>,
        cuda: Option<&CudaRegistry>,
    ) -> (d: Device)
        ensures
            d == device_spec(
                model_roles(m, m.layers@.len() as int),
                CudaTypes { q5_0: false },
                mps,
                cuda,
            ),
    {
        let ws: Vec<Weight<'_>> = Self::graph_weights(m);
        device_of(&ws, CudaTypes { q5_0: false }, mps, cuda)
    }

    /// Lays out a forward pass over one sequence: its parameters, the rows whose
    /// logits are wanted and the positions as the device reads them. The wanted rows
    /// are picked in the last block, so they are an input only of a model of which
    /// `blocks` tells that it has one.
    pub fn plan(
        blocks: bool,
        positions: &Vec<usize>,
        n_out: usize,
        n_ctx: usize,
        device: Device,
        no_fuse_qkv: bool,
        no_fuse_ffn: bool,
    ) -> (r: BatchPlan)
        requires
            n_out <= positions@.len(),
            forall|i: int| 0 <= i < positions@.len() ==> (#[trigger] positions@[i]) < n_ctx,
        ensures
            r.params == params_of(
                positions@.len() as usize,
                n_out,
                n_ctx,
                device,
                no_fuse_qkv,
                no_fuse_ffn,
            ),
            r.out_rows@ == Seq::new(n_out as nat, |i: int| (positions@.len() - n_out + i) as u32),
            r.positions@ == positions@.map_values(|p: usize| p as u32),
            r.fill_tail == (blocks && n_out < positions@.len()),
    {
        let nt: usize = positions.len();
        let gpu: bool = device.is_gpu();
        let params: GraphParams = GraphParams {
            n_tokens: nt,
            n_out,
            gtype: if nt == 1 {
                GraphType::Decode
            } else {
                GraphType::Prefill
            },
            cparams: CParams {
                n_ctx,
                flash_attn: false,
                explicit_span: false,
                gpu,
                fuse_qkv: nt == 1 && device == Device::Metal && !no_fuse_qkv,
                fuse_ffn: nt == 1 && gpu && !no_fuse_ffn,
            },
            weights_version: 1,
        };
        let ghost want = Seq::new(n_out as nat, |i: int| (positions@.len() - n_out + i) as u32);
        let mut out_rows: Vec<u32> = Vec::new();
        let mut i: usize = 0;
        while i < n_out
            invariant
                i <= n_out <= nt,
                nt == positions@.len(),
                want == Seq::new(n_out as nat, |i: int| (positions@.len() - n_out + i) as u32),
                out_rows@ == want.take(i as int),
            decreases n_out - i,
        {
            out_rows.push((nt - n_out + i) as u32);
            assert(want.take(i + 1) =~= want.take(i as int).push(want[i as int]));
            i = i + 1;
        }
        assert(want.take(i as int) =~= want);
        BatchPlan { params, out_rows, positions: to_u32(positions), fill_tail: blocks && n_out < nt }
    }
}

/// The parameters of a forward pass of `nt` tokens. The attention projections
/// are fused on Metal only.
pub open spec fn params_of(
    nt: usize,
    n_out: usize,
    n_ctx: usize,
    device: Device,
    no_fuse_qkv: bool,
    no_fuse_ffn: bool,
) -> GraphParams {
    let gpu = !(device is Cpu);
    GraphParams {
        n_tokens: nt,
        n_out,
        gtype: if nt == 1 {
            GraphType::Decode
        } else {
            GraphType::Prefill
        },
        cparams: CParams {
            n_ctx,
            flash_attn: false,
            explicit_span: false,
            gpu,
            fuse_qkv: nt == 1 && device is Metal && !no_fuse_qkv,
            fuse_ffn: nt == 1 && gpu && !no_fuse_ffn,
        },
        weights_version: 1,
    }
}

/// What a pass asks for. One token is a step of decoding. Only such a step on a GPU
/// fuses, and nothing that is switched off: the projections on Metal, the feed-forward
/// part on any.
pub proof fn law_what_a_pass_asks_for(
    nt: usize,
    n_out: usize,
    n_ctx: usize,
    device: Device,
    no_fuse_qkv: bool,
    no_fuse_ffn: bool,
)
    ensures
        ({
            let p = params_of(nt, n_out, n_ctx, device, no_fuse_qkv, no_fuse_ffn);
            let c = p.cparams;
            &&& p.n_tokens == nt && p.n_out == n_out && p.weights_version == 1
            &&& c.n_ctx == n_ctx && !c.explicit_span && !c.flash_attn
            &&& nt == 1 ==> p.gtype is Decode
            &&& nt != 1 ==> p.gtype is Prefill && !c.fuse_qkv && !c.fuse_ffn
            &&& device == Device::Cpu ==> !c.gpu && !c.fuse_qkv && !c.fuse_ffn
            &&& device != Device::Cpu ==> c.gpu
            &&& device == Device::Cuda ==> !c.fuse_qkv
            &&& no_fuse_qkv ==> !c.fuse_qkv
            &&& no_fuse_ffn ==> !c.fuse_ffn
            &&& nt == 1 && device != Device::Cpu && !no_fuse_ffn ==> c.fuse_ffn
            &&& nt == 1 && device == Device::Metal && !no_fuse_qkv ==> c.fuse_qkv
        }),
{
}

/// The weights of a block with what they are used for: its matrices are multiplied with,
/// the others are read as they are. There are no others.
pub proof fn law_uses_of_a_blocks_weights(l: LayerWeights)
    ensures
        ({
            let r = layer_roles(l);
            &&& r.len() == 11
            &&& r.contains(role_of(l.wq, Role::Matmul))
            &&& r.contains(role_of(l.wk, Role::Matmul))
            &&& r.contains(role_of(l.wv, Role::Matmul))
            &&& r.contains(role_of(l.wo, Role::Matmul))
            &&& r.contains(role_of(l.ffn_gate, Role::Matmul))
            &&& r.contains(role_of(l.ffn_up, Role::Matmul))
            &&& r.contains(role_of(l.ffn_down, Role::Matmul))
            &&& r.contains(role_of(l.attn_norm, Role::Plain))
            &&& r.contains(role_of(l.q_norm, Role::Plain))
            &&& r.contains(role_of(l.k_norm, Role::Plain))
            &&& r.contains(role_of(l.ffn_norm, Role::Plain))
        }),
{
    let r = layer_roles(l);
    assert(r[0] == role_of(l.attn_norm, Role::Plain));
    assert(r[1] == role_of(l.wq, Role::Matmul));
    assert(r[2] == role_of(l.wk, Role::Matmul));
    assert(r[3] == role_of(l.wv, Role::Matmul));
    assert(r[4] == role_of(l.wo, Role::Matmul));
    assert(r[5] == role_of(l.q_norm, Role::Plain));
    assert(r[6] == role_of(l.k_norm, Role::Plain));
    assert(r[7] == role_of(l.ffn_norm, Role::Plain));
    assert(r[8] == role_of(l.ffn_gate, Role::Matmul));
    assert(r[9] == role_of(l.ffn_up, Role::Matmul));
    assert(r[10] == role_of(l.ffn_down, Role::Matmul));
}

/// The weights of a model: first the embedding, whose rows are gathered, then the head,
/// then what is read behind the blocks, then those of the blocks one after the other.
pub proof fn law_uses_of_a_models_weights(m: &Qwen3Model, k: int)
    requires
        0 <= k <= m.layers@.len(),
    ensures
        ({
            let r = model_roles(m, k);
            &&& r.len() == 4 + 11 * k
            &&& r[0] == role_of(m.tok_embd, Role::Embed)
            &&& r[1] == role_of(m.output, Role::Matmul)
            &&& r[2] == role_of(m.output_norm, Role::Plain)
            &&& r[3] == role_of(m.output_b, Role::Plain)
            &&& forall|i: int, j: int|
                0 <= i < k && 0 <= j < 11 ==> #[trigger] r[4 + 11 * i + j]
                    == #[trigger] layer_roles(m.layers@[i])[j]
        }),
    decreases k,
{
    if k > 0 {
        law_uses_of_a_models_weights(m, k - 1);
        let before = model_roles(m, k - 1);
        let r = model_roles(m, k);
        assert forall|i: int, j: int| 0 <= i < k && 0 <= j < 11 implies #[trigger] r[4 + 11 * i + j]
            == #[trigger] layer_roles(m.layers@[i])[j] by {
            if i < k - 1 {
                assert(before[4 + 11 * i + j] == layer_roles(m.layers@[i])[j]);
            }
        }
    }
}

/// When the projections of a block are fused: only in a step of one token on Metal that
/// asks for it, in a block with both norms whose weights stack.
pub proof fn law_when_projections_fuse(l: LayerWeights, p: GraphParams, e: Platform)
    ensures
        ({
            let c = qkv_class_spec(l, p, e);
            let asked = p.n_tokens == 1 && p.cparams.gpu && p.cparams.fuse_qkv;
            let stacks = can_stack(seq![&l.wq->0, &l.wk->0, &l.wv->0]);
            &&& !asked || !e.metal || !stacks ==> c is Single
            &&& l.q_norm is None || l.k_norm is None ==> c is Single
            &&& asked && e.metal && stacks && l.q_norm is Some && l.k_norm is Some ==> c is Stacked
        }),
{
}

/// When gate and up projection are one: only in a step of one token on a GPU that asks for
/// it, where the weights stack and are not too tall.
pub proof fn law_when_gate_and_up_fuse(l: LayerWeights, d: Dims, p: GraphParams, e: Platform)
    ensures
        ({
            let fused = fuse_ffn_spec(l, d, p, e);
            let asked = p.n_tokens == 1 && p.cparams.gpu && p.cparams.fuse_ffn;
            let stacks = can_stack(seq![&l.ffn_gate->0, &l.ffn_up->0]);
            &&& fused ==> asked && stacks && d.nf <= 16384 && (e.metal || e.cuda)
            &&& asked && stacks && d.nf <= 16384 && e.metal ==> fused
            &&& asked && stacks && d.nf <= 16384 && e.cuda ==> fused
        }),
{
}

/// The inputs of a graph: the tokens, the positions and, where the blocks have rows to drop,
/// the wanted ones.
pub proof fn law_inputs_of_the_graph(m: &Qwen3Model, p: GraphParams, e: Platform, i: int)
    requires
        0 <= i < graph_inputs(m, p, e).len(),
        graph_nodes(m, p, e).len() <= usize::MAX,
    ensures
        ({
            let n = graph_nodes(m, p, e)[graph_inputs(m, p, e)[i] as int];
            &&& graph_inputs(m, p, e).len() == (if m.layers@.len() > 0 && p.n_out < p.n_tokens {
                3int
            } else {
                2
            })
            &&& n.op is Input
            &&& n.name == (if i == 0 {
                "token_ids"@
            } else if i == 1 {
                "positions"@
            } else {
                "tail_ids"@
            })
        }),
{
    if i == 2 {
        let k = m.layers.len() as int;
        assert(k == m.layers@.len());
        let il = (k - 1) as usize;
        let before = blocks_nodes(m, p, e, 3, k - 1);
        let base = 3 + before.len() as int;
        let attn = attn_nodes(m, p, e, il, base);
        let at = base + attn.len();
        let layer = layer_nodes(m, p, e, il, base);
        let res = residual_nodes(
            dims_spec(m.hparams, p),
            il,
            true,
            base - 1,
            base + attn.len() - 1,
        );
        assert(layer[attn.len() as int] == res[0]);
        assert(blocks_nodes(m, p, e, 3, k)[at - 3] == res[0]);
        assert(graph_nodes(m, p, e)[at] == res[0]);
    }
}

} // verus!
