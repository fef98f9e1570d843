//! What the graph of a Qwen3 pass computes.
use super::graph::{
    attn_nodes, blocks_nodes, dims_spec, ffn_nodes, graph_nodes, head_nodes, layer_nodes,
    layer_ok, model_ok, qkv_class_spec, qkv_nodes, residual_nodes, single_nodes, stacked_nodes,
    tail_nodes, QkvClass,
};
use super::Qwen3Model;
use crate::graph::meaning::{
    after_nodes, belongs, fed, found, kind_of, lemma_next_node, lemma_nodes_join,
    lemma_values_stay, name_if, no_values, normed, numbers, product, with_attention, RowsOf, Term,
    Values,
};
use crate::graph::ops::{AttnMeta, AttnMode, InvSqrt};
use crate::graph::params::{GraphParams, Platform};
use crate::tensor::Tensor;
use crate::text::block_name;
use vstd::prelude::*;

verus! {

/// The elements of a head.
pub open spec fn head_dim(m: &Qwen3Model) -> usize {
    m.hparams.n_embd_head as usize
}

/// The positions of the tokens.
pub open spec fn positions(p: GraphParams) -> Term {
    numbers("positions"@, p.n_tokens)
}

/// The rows whose logits are wanted, where they are not all rows.
pub open spec fn wanted(m: &Qwen3Model, p: GraphParams) -> Option<(Term, [usize; 4])> {
    if p.n_out < p.n_tokens {
        Some(
            (numbers("tail_ids"@, p.n_out), [m.hparams.n_embd as usize, p.n_out, 1, 1]),
        )
    } else {
        None
    }
}

/// `heads` heads of a value, turned by their positions.
pub open spec fn turned(m: &Qwen3Model, p: GraphParams, x: Term, heads: i64) -> Term {
    Term::Turned {
        x: Box::new(x),
        positions: Box::new(positions(p)),
        style: m.hparams.rope_style,
        base: m.hparams.rope_freq_base,
        scale: m.hparams.rope_freq_scale,
        width: heads * head_dim(m),
        hd: head_dim(m),
    }
}

/// The norm of each head.
pub open spec fn head_normed(m: &Qwen3Model, x: Term, w: Option<Tensor>, heads: i64) -> Term {
    Term::HeadNorm {
        x: Box::new(x),
        weight: name_if(w),
        hd: head_dim(m),
        heads: heads as usize,
        eps: m.hparams.f_norm_rms_eps,
    }
}

/// The queries of block `il` from the normed state `x`: normed head by head, then turned.
pub open spec fn queries(m: &Qwen3Model, p: GraphParams, il: int, x: Term) -> Term {
    let l = m.layers@[il];
    let hp = m.hparams;
    turned(m, p, head_normed(m, product(x, l.wq->0, None), l.q_norm, hp.n_head), hp.n_head)
}

/// Its keys: normed head by head, then turned.
pub open spec fn keys(m: &Qwen3Model, p: GraphParams, il: int, x: Term) -> Term {
    let l = m.layers@[il];
    let hp = m.hparams;
    turned(m, p, head_normed(m, product(x, l.wk->0, None), l.k_norm, hp.n_head_kv), hp.n_head_kv)
}

/// Its values.
pub open spec fn values(m: &Qwen3Model, il: int, x: Term) -> Term {
    product(x, m.layers@[il].wv->0, None)
}

/// The output of the attention of block `il` from the normed state `x`: what its queries
/// find in its keys and values, projected.
pub open spec fn attention(m: &Qwen3Model, p: GraphParams, il: int, x: Term) -> Term {
    let hp = m.hparams;
    let meta = AttnMeta {
        layer: il as usize,
        n_head: hp.n_head as usize,
        n_head_kv: hp.n_head_kv as usize,
        hd: head_dim(m),
        hd_kv: (hp.n_kv_embd as int / hp.n_head_kv as int) as usize,
        nkt: hp.n_kv_embd as usize,
        scale: InvSqrt { head_dim: m.hparams.n_embd_head },
    };
    let mode = if p.cparams.flash_attn {
        AttnMode::Flash
    } else {
        AttnMode::Gqa
    };
    let found = found(
        queries(m, p, il, x),
        keys(m, p, il, x),
        values(m, il, x),
        positions(p),
        mode,
        false,
        meta,
        p.cparams.n_ctx,
    );
    product(found, m.layers@[il].wo->0, None)
}

/// The hidden state behind block `il`, from the one before it: attention on top, then the
/// feed-forward part. The last block goes on with the wanted rows alone.
pub open spec fn block(m: &Qwen3Model, p: GraphParams, il: int, h: Term) -> Term {
    let l = m.layers@[il];
    let eps = m.hparams.f_norm_rms_eps;
    let w = attention(m, p, il, normed(h, l.attn_norm, eps));
    let rows = if il == m.layers@.len() - 1 {
        wanted(m, p)
    } else {
        None
    };
    fed(
        with_attention(h, w, rows),
        l.ffn_norm,
        l.ffn_gate->0,
        l.ffn_up->0,
        l.ffn_down->0,
        eps,
    )
}

/// The hidden state behind the first `k` blocks.
pub open spec fn hidden(m: &Qwen3Model, p: GraphParams, k: int) -> Term
    decreases k,
{
    if k <= 0 {
        Term::Embedded {
            ids: Box::new(numbers("token_ids"@, p.n_tokens)),
            table: Some(m.tok_embd->0.name@),
            kind: kind_of(m.tok_embd->0),
        }
    } else {
        block(m, p, k - 1, hidden(m, p, k - 1))
    }
}

/// The logits: the head's product with the norm of the hidden state behind the last block.
pub open spec fn logits(m: &Qwen3Model, p: GraphParams) -> Term {
    let h = hidden(m, p, m.layers@.len() as int);
    product(normed(h, m.output_norm, m.hparams.f_norm_rms_eps), m.output->0, m.output_b)
}

/// Whether the stacked weights of a model are what their names say: the rows of the three
/// projections of a block, and those of its gate and up projection.
pub open spec fn stacks_are(m: &Qwen3Model, rows_of: RowsOf) -> bool {
    let nqt = m.hparams.n_head * head_dim(m);
    let nkt = m.hparams.n_kv_embd as int;
    let nf = m.hparams.n_ff as int;
    forall|il: int|
        0 <= il < m.layers@.len() ==> {
            let l = #[trigger] m.layers@[il];
            let qkv = m.ns@ + block_name(il as nat, "attn_qkv"@);
            let gu = m.ns@ + block_name(il as nat, "ffn_gu"@);
            &&& rows_of(qkv, 0, nqt) == l.wq->0.name@
            &&& rows_of(qkv, nqt, nkt) == l.wk->0.name@
            &&& rows_of(qkv, nqt + nkt, nkt) == l.wv->0.name@
            &&& rows_of(gu, 0, nf) == l.ffn_gate->0.name@
            &&& rows_of(gu, nf, nf) == l.ffn_up->0.name@
        }
}

/// The keys and values of block `il` as its attention reads them.
pub open spec fn cached(m: &Qwen3Model, p: GraphParams, il: int, x: Term) -> Term {
    let hp = m.hparams;
    Term::Cached {
        layer: il as usize,
        k: Box::new(keys(m, p, il, x)),
        v: Box::new(values(m, il, x)),
        kind: crate::graph::ops::NodeMeta::Kv {
            nkt: hp.n_kv_embd as usize,
            n_ctx: p.cparams.n_ctx,
            nk: hp.n_head_kv as usize,
        },
    }
}

proof fn lemma_stacked(
    m: &Qwen3Model,
    p: GraphParams,
    e: Platform,
    il: usize,
    n: int,
    s: Values,
    x: Term,
    rows_of: RowsOf,
)
    requires
        model_ok(m, p),
        stacks_are(m, rows_of),
        0 <= il < m.layers@.len(),
        n >= 2,
        s.vals.len() == n + 1,
        n + 32 <= usize::MAX,
        s.vals[n] == x,
        s.vals[1] == positions(p),
        qkv_class_spec(m.layers@[il as int], p, e) is Stacked,
    ensures
        ({
            let r = after_nodes(s, stacked_nodes(m, p, il, n), rows_of);
            &&& r.vals[n + 1] == queries(m, p, il as int, x)
            &&& r.kept == s.kept.insert(il, (keys(m, p, il as int, x), values(m, il as int, x)))
            &&& r.vals.last() == cached(m, p, il as int, x)
        }),
{
    let nodes = stacked_nodes(m, p, il, n);
    assert(nodes.len() == 2);
    assert(layer_ok(m.layers@[il as int]));
    lemma_next_node(s, nodes, 0, rows_of);
    lemma_next_node(s, nodes, 1, rows_of);
}

proof fn lemma_single(
    m: &Qwen3Model,
    p: GraphParams,
    e: Platform,
    il: usize,
    n: int,
    s: Values,
    x: Term,
    rows_of: RowsOf,
)
    requires
        model_ok(m, p),
        stacks_are(m, rows_of),
        0 <= il < m.layers@.len(),
        n >= 2,
        s.vals.len() == n + 1,
        n + 32 <= usize::MAX,
        s.vals[n] == x,
        s.vals[1] == positions(p),
    ensures
        ({
            let r = after_nodes(s, single_nodes(m, p, il, n), rows_of);
            &&& r.vals[n + 6] == queries(m, p, il as int, x)
            &&& r.kept == s.kept.insert(il, (keys(m, p, il as int, x), values(m, il as int, x)))
            &&& r.vals.last() == cached(m, p, il as int, x)
        }),
{
    let nodes = single_nodes(m, p, il, n);
    assert(nodes.len() == 9);
    assert(layer_ok(m.layers@[il as int]));
    lemma_next_node(s, nodes, 0, rows_of);
    lemma_next_node(s, nodes, 1, rows_of);
    lemma_next_node(s, nodes, 2, rows_of);
    lemma_next_node(s, nodes, 3, rows_of);
    lemma_next_node(s, nodes, 4, rows_of);
    lemma_next_node(s, nodes, 5, rows_of);
    lemma_next_node(s, nodes, 6, rows_of);
    lemma_next_node(s, nodes, 7, rows_of);
    lemma_next_node(s, nodes, 8, rows_of);
}

proof fn lemma_attention(
    m: &Qwen3Model,
    p: GraphParams,
    e: Platform,
    il: usize,
    n: int,
    s: Values,
    h: Term,
    rows_of: RowsOf,
)
    requires
        model_ok(m, p),
        stacks_are(m, rows_of),
        0 <= il < m.layers@.len(),
        n >= 3,
        s.vals.len() == n,
        n + 64 <= usize::MAX,
        s.vals[n - 1] == h,
        s.vals[1] == positions(p),
    ensures
        after_nodes(s, attn_nodes(m, p, e, il, n), rows_of).vals.last() == attention(
            m,
            p,
            il as int,
            normed(h, m.layers@[il as int].attn_norm, m.hparams.f_norm_rms_eps),
        ),
        attn_nodes(m, p, e, il, n).len() <= 16,
{
    reveal(attn_nodes);
    let l = m.layers@[il as int];
    let all = attn_nodes(m, p, e, il, n);
    let (q, qkv) = qkv_nodes(m, p, e, il, n);
    let kv = n + qkv.len();
    let first = all.take(1);
    let last = all.skip(1 + qkv.len() as int);
    assert(all =~= first + qkv + last);
    lemma_nodes_join(s, first + qkv, last, rows_of);
    lemma_nodes_join(s, first, qkv, rows_of);
    let x = normed(h, l.attn_norm, m.hparams.f_norm_rms_eps);
    lemma_next_node(s, first, 0, rows_of);
    let s1 = after_nodes(s, first, rows_of);
    assert(layer_ok(l));
    assert(s1.vals[n] == x);
    let s2 = after_nodes(s1, qkv, rows_of);
    match qkv_class_spec(m.layers@[il as int], p, e) {
        QkvClass::Stacked => lemma_stacked(m, p, e, il, n, s1, x, rows_of),
        QkvClass::Single => lemma_single(m, p, e, il, n, s1, x, rows_of),
    }
    lemma_values_stay(s, first, rows_of);
    lemma_values_stay(s1, qkv, rows_of);
    lemma_next_node(s2, last, 0, rows_of);
    lemma_next_node(s2, last, 1, rows_of);
    assert(s2.vals[1] == positions(p));
    assert(s2.vals[kv] == cached(m, p, il as int, x));
    assert(s2.vals[q as int] == queries(m, p, il as int, x));
}

proof fn lemma_residual(
    m: &Qwen3Model,
    p: GraphParams,
    il: usize,
    hn: int,
    w: int,
    s: Values,
    rows_of: RowsOf,
)
    requires
        0 <= il < m.layers@.len(),
        2 <= hn <= w,
        s.vals.len() == w + 1,
        w + 16 <= usize::MAX,
    ensures
        ({
            let last = il + 1 == m.layers@.len();
            let nodes = residual_nodes(dims_spec(m.hparams, p), il, last, hn, w);
            let rows = if last {
                wanted(m, p)
            } else {
                None
            };
            &&& nodes.len() <= 4
            &&& after_nodes(s, nodes, rows_of).vals.last() == with_attention(
                s.vals[hn],
                s.vals[w],
                rows,
            )
        }),
{
    let last = il + 1 == m.layers@.len();
    let nodes = residual_nodes(dims_spec(m.hparams, p), il, last, hn, w);
    lemma_next_node(s, nodes, 0, rows_of);
    if last && p.n_out < p.n_tokens {
        lemma_next_node(s, nodes, 1, rows_of);
        lemma_next_node(s, nodes, 2, rows_of);
        lemma_next_node(s, nodes, 3, rows_of);
    }
}

proof fn lemma_feed(
    m: &Qwen3Model,
    p: GraphParams,
    e: Platform,
    il: usize,
    n: int,
    s: Values,
    h: Term,
    rows_of: RowsOf,
)
    requires
        model_ok(m, p),
        stacks_are(m, rows_of),
        0 <= il < m.layers@.len(),
        n >= 3,
        s.vals.len() == n,
        n + 32 <= usize::MAX,
        s.vals[n - 1] == h,
    ensures
        ({
            let l = m.layers@[il as int];
            after_nodes(s, ffn_nodes(m, p, e, il, n), rows_of).vals.last() == fed(
                h,
                l.ffn_norm,
                l.ffn_gate->0,
                l.ffn_up->0,
                l.ffn_down->0,
                m.hparams.f_norm_rms_eps,
            )
        }),
{
    reveal(ffn_nodes);
    let l = m.layers@[il as int];
    assert(layer_ok(l));
    let nodes = ffn_nodes(m, p, e, il, n);
    lemma_next_node(s, nodes, 0, rows_of);
    lemma_next_node(s, nodes, 1, rows_of);
    lemma_next_node(s, nodes, 2, rows_of);
    lemma_next_node(s, nodes, 3, rows_of);
    if nodes.len() == 7 {
        lemma_next_node(s, nodes, 4, rows_of);
        lemma_next_node(s, nodes, 5, rows_of);
        lemma_next_node(s, nodes, 6, rows_of);
    }
}

proof fn lemma_block(
    m: &Qwen3Model,
    p: GraphParams,
    e: Platform,
    il: usize,
    n: int,
    s: Values,
    h: Term,
    rows_of: RowsOf,
)
    requires
        model_ok(m, p),
        stacks_are(m, rows_of),
        0 <= il < m.layers@.len(),
        n >= 3,
        s.vals.len() == n,
        n + 64 <= usize::MAX,
        s.vals[n - 1] == h,
        s.vals[1] == positions(p),
    ensures
        after_nodes(s, layer_nodes(m, p, e, il, n), rows_of).vals.last() == block(
            m,
            p,
            il as int,
            h,
        ),
{
    let d = dims_spec(m.hparams, p);
    let attn = attn_nodes(m, p, e, il, n);
    let w = n + attn.len() - 1;
    let res = residual_nodes(d, il, il + 1 == m.layers@.len(), n - 1, w);
    let ffn = ffn_nodes(m, p, e, il, n + attn.len() + res.len());
    lemma_nodes_join(s, attn + res, ffn, rows_of);
    lemma_nodes_join(s, attn, res, rows_of);
    let s1 = after_nodes(s, attn, rows_of);
    let s2 = after_nodes(s1, res, rows_of);
    lemma_attention(m, p, e, il, n, s, h, rows_of);
    lemma_values_stay(s, attn, rows_of);
    assert(attn.len() > 0) by {
        reveal(attn_nodes);
    }
    lemma_residual(m, p, il, n - 1, w, s1, rows_of);
    lemma_values_stay(s1, res, rows_of);
    lemma_feed(m, p, e, il, n + attn.len() + res.len(), s2, s2.vals.last(), rows_of);
}

proof fn lemma_blocks(
    m: &Qwen3Model,
    p: GraphParams,
    e: Platform,
    base: int,
    k: int,
    s: Values,
    rows_of: RowsOf,
)
    requires
        model_ok(m, p),
        stacks_are(m, rows_of),
        0 <= k <= m.layers@.len(),
        3 <= base,
        s.vals.len() == base,
        base + blocks_nodes(m, p, e, base, k).len() + 64 <= usize::MAX,
        s.vals[base - 1] == hidden(m, p, 0),
        s.vals[1] == positions(p),
    ensures
        after_nodes(s, blocks_nodes(m, p, e, base, k), rows_of).vals.last() == hidden(m, p, k),
    decreases k,
{
    if k > 0 {
        let before = blocks_nodes(m, p, e, base, k - 1);
        let il = (k - 1) as usize;
        let n = base + before.len();
        lemma_blocks(m, p, e, base, k - 1, s, rows_of);
        lemma_values_stay(s, before, rows_of);
        let s1 = after_nodes(s, before, rows_of);
        assert(k - 1 < m.layers.len());
        lemma_block(m, p, e, il, n, s1, s1.vals.last(), rows_of);
        lemma_nodes_join(s, before, layer_nodes(m, p, e, il, n), rows_of);
    }
}

/// What the graph of a pass computes: the embedding of the tokens, block after block the
/// attention and the feed-forward part on top of it, at the end the norm and the head. It
/// does not depend on the machine or on what is fused: that changes the nodes, not what
/// the last one computes.
pub proof fn law_graph_computes_the_logits(
    m: &Qwen3Model,
    p: GraphParams,
    e: Platform,
    rows_of: RowsOf,
)
    requires
        model_ok(m, p),
        stacks_are(m, rows_of),
        graph_nodes(m, p, e).len() + 64 <= usize::MAX,
    ensures
        after_nodes(no_values(), graph_nodes(m, p, e), rows_of).vals.last() == logits(m, p),
        after_nodes(no_values(), graph_nodes(m, p, e), rows_of).vals.len() == graph_nodes(
            m,
            p,
            e,
        ).len(),
{
    let s = no_values();
    let head = head_nodes(m, p);
    let blocks = blocks_nodes(m, p, e, head.len() as int, m.layers@.len() as int);
    let body = head + blocks;
    let tail = tail_nodes(m, body.len() as int);
    lemma_next_node(s, head, 0, rows_of);
    lemma_next_node(s, head, 1, rows_of);
    lemma_next_node(s, head, 2, rows_of);
    if head.len() == 4 {
        lemma_next_node(s, head, 3, rows_of);
    }
    let s1 = after_nodes(s, head, rows_of);
    lemma_values_stay(s, head, rows_of);
    lemma_blocks(m, p, e, head.len() as int, m.layers@.len() as int, s1, rows_of);
    lemma_nodes_join(s, head, blocks, rows_of);
    let s2 = after_nodes(s, body, rows_of);
    lemma_values_stay(s, body, rows_of);
    lemma_next_node(s2, tail, 0, rows_of);
    lemma_next_node(s2, tail, 1, rows_of);
    lemma_nodes_join(s, body, tail, rows_of);
    lemma_values_stay(s, graph_nodes(m, p, e), rows_of);
}

proof fn lemma_nodes_belong(
    m: &Qwen3Model,
    p: GraphParams,
    e: Platform,
    il: usize,
    n: int,
)
    requires
        model_ok(m, p),
        il < m.layers@.len(),
    ensures
        forall|j: int|
            0 <= j < attn_nodes(m, p, e, il, n).len() ==> belongs(
                #[trigger] attn_nodes(m, p, e, il, n)[j],
                il,
                m.hparams.n_embd as int,
                p.cparams.n_ctx,
            ),
        forall|j: int|
            0 <= j < ffn_nodes(m, p, e, il, n).len() ==> belongs(
                #[trigger] ffn_nodes(m, p, e, il, n)[j],
                il,
                m.hparams.n_embd as int,
                p.cparams.n_ctx,
            ),
{
    reveal(attn_nodes);
    reveal(ffn_nodes);
    let l = m.layers@[il as int];
    let ne = m.hparams.n_embd as int;
    let n_ctx = p.cparams.n_ctx;
    if qkv_class_spec(l, p, e) is Stacked {
        let nodes = stacked_nodes(m, p, il, n);
        assert(forall|j: int| 0 <= j < nodes.len() ==> belongs(#[trigger] nodes[j], il, ne, n_ctx));
    } else {
        let nodes = single_nodes(m, p, il, n);
        assert(forall|j: int| 0 <= j < nodes.len() ==> belongs(#[trigger] nodes[j], il, ne, n_ctx));
    }
}

/// Every node of a block belongs to it; the nodes before and behind the blocks belong to
/// none.
pub proof fn law_nodes_belong_to_their_blocks(
    m: &Qwen3Model,
    p: GraphParams,
    e: Platform,
    il: usize,
    n: int,
    i: int,
)
    requires
        model_ok(m, p),
        il < m.layers@.len(),
    ensures
        0 <= i < layer_nodes(m, p, e, il, n).len() ==> belongs(
            layer_nodes(m, p, e, il, n)[i],
            il,
            m.hparams.n_embd as int,
            p.cparams.n_ctx,
        ),
        0 <= i < head_nodes(m, p).len() ==> head_nodes(m, p)[i].layer is None,
        0 <= i < tail_nodes(m, n).len() ==> tail_nodes(m, n)[i].layer is None,
{
    let d = dims_spec(m.hparams, p);
    let attn = attn_nodes(m, p, e, il, n);
    let w = n + attn.len() - 1;
    let res = residual_nodes(d, il, il + 1 == m.layers@.len(), n - 1, w);
    let k = n + attn.len() + res.len();
    lemma_nodes_belong(m, p, e, il, n);
    lemma_nodes_belong(m, p, e, il, k);
    assert(forall|j: int|
        0 <= j < res.len() ==> belongs(
            #[trigger] res[j],
            il,
            m.hparams.n_embd as int,
            p.cparams.n_ctx,
        ));
}

} // verus!
