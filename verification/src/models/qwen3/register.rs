//! What a Qwen3 model puts onto a device beside its own tensors: stacked weights,
//! and the weights that are unpacked ahead of time.
use crate::graph::offload::OffloadPlan;
use crate::metal::concat::sound_sizes;
use crate::models::register::{
    gate_up_stacks, qkv_stack, stack_gate_up, stack_qkv, stack_views, three, two, StackedUpload,
    StackedView, Targets,
};
use crate::tensor::Tensor;
use crate::text::block_name;
use vstd::prelude::*;

use super::loader::LayerWeights;
use super::tensor_names as tn;
use super::Qwen3Model;

verus! {

/// The stacked weights of the first `n` blocks.
pub open spec fn stacks_spec(
    m: &Qwen3Model,
    plan: OffloadPlan,
    to: Targets,
    no_fuse_ffn: bool,
    n: int,
) -> Seq<StackedView>
    decreases n,
{
    if n <= 0 {
        Seq::empty()
    } else {
        let l = m.layers@[n - 1];
        let il = (n - 1) as usize;
        stacks_spec(m, plan, to, no_fuse_ffn, n - 1) + qkv_stack(
            three(l.wq, l.wk, l.wv),
            m.ns@,
            il,
            plan,
            to,
        ) + gate_up_stacks(two(l.ffn_gate, l.ffn_up), m.ns@, il, plan, to, no_fuse_ffn)
    }
}

/// Whether the sizes of a block's matrices can be added up.
pub open spec fn stackable(l: LayerWeights) -> bool {
    &&& three(l.wq, l.wk, l.wv) matches Some(ts) ==> sound_sizes(ts)
    &&& two(l.ffn_gate, l.ffn_up) matches Some((g, u)) ==> sound_sizes(seq![g, u]) && g.shape@[1]
        + u.shape@[1] <= usize::MAX
}

/// The stacked weights of a model, block by block.
pub fn stacks(m: &Qwen3Model, plan: OffloadPlan, to: Targets, no_fuse_ffn: bool) -> (r: Vec<
    StackedUpload,
>)
    requires
        forall|i: int| 0 <= i < m.layers@.len() ==> stackable(#[trigger] m.layers@[i]),
    ensures
        stack_views(r@) == stacks_spec(m, plan, to, no_fuse_ffn, m.layers@.len() as int),
{
    let mut r: Vec<StackedUpload> = Vec::new();
    let mut i: usize = 0;
    assert(stack_views(r@) =~= Seq::<StackedView>::empty());
    while i < m.layers.len()
        invariant
            i <= m.layers@.len(),
            forall|i: int| 0 <= i < m.layers@.len() ==> stackable(#[trigger] m.layers@[i]),
            stack_views(r@) == stacks_spec(m, plan, to, no_fuse_ffn, i as int),
        decreases m.layers@.len() - i,
    {
        let l: &LayerWeights = &m.layers[i];
        assert(stackable(m.layers@[i as int]));
        stack_qkv(&l.wq, &l.wk, &l.wv, m.ns.as_str(), i, plan, to, &mut r);
        stack_gate_up(&l.ffn_gate, &l.ffn_up, m.ns.as_str(), i, plan, to, no_fuse_ffn, &mut r);
        i = i + 1;
    }
    r
}

/// The name of a weight, if the model has it.
pub open spec fn name_if(t: Option<Tensor>, name: Seq<char>) -> Seq<Seq<char>> {
    match t {
        Some(_) => seq![name],
        None => Seq::empty(),
    }
}

/// The names of a block's matrices.
pub open spec fn warm_layer(l: LayerWeights, i: nat) -> Seq<Seq<char>> {
    name_if(l.wq, block_name(i, "attn_q.weight"@)) + name_if(
        l.wk,
        block_name(i, "attn_k.weight"@),
    ) + name_if(l.wv, block_name(i, "attn_v.weight"@)) + name_if(
        l.wo,
        block_name(i, "attn_output.weight"@),
    ) + name_if(l.ffn_gate, block_name(i, "ffn_gate.weight"@)) + name_if(
        l.ffn_up,
        block_name(i, "ffn_up.weight"@),
    ) + name_if(l.ffn_down, block_name(i, "ffn_down.weight"@))
}

/// The names of the matrices of the first `n` blocks.
pub open spec fn warm_layers(layers: Seq<LayerWeights>, n: int) -> Seq<Seq<char>>
    decreases n,
{
    if n <= 0 {
        Seq::empty()
    } else {
        warm_layers(layers, n - 1) + warm_layer(layers[n - 1], (n - 1) as nat)
    }
}

/// The bytes of a weight, if the model has it.
pub open spec fn bytes_if(t: Option<Tensor>) -> int {
    match t {
        Some(t) => t.data@.len() as int,
        None => 0,
    }
}

/// The bytes of a block's matrices.
pub open spec fn layer_bytes(l: LayerWeights) -> int {
    bytes_if(l.wq) + bytes_if(l.wk) + bytes_if(l.wv) + bytes_if(l.wo) + bytes_if(l.ffn_gate)
        + bytes_if(l.ffn_up) + bytes_if(l.ffn_down)
}

/// The bytes of the matrices of the first `n` blocks.
pub open spec fn matrix_bytes(layers: Seq<LayerWeights>, n: int) -> int
    decreases n,
{
    if n <= 0 {
        0
    } else {
        matrix_bytes(layers, n - 1) + layer_bytes(layers[n - 1])
    }
}

proof fn lemma_bytes_grow(layers: Seq<LayerWeights>, k: int, n: int)
    requires
        0 <= k <= n,
    ensures
        0 <= matrix_bytes(layers, k) <= matrix_bytes(layers, n),
    decreases n,
{
    if k < n {
        lemma_bytes_grow(layers, k, n - 1);
    } else if k > 0 {
        lemma_bytes_grow(layers, k - 1, n - 1);
    }
}

/// The names of the weights to unpack ahead of time: all matrices of a model that
/// is large enough to repay it, unless the packed bytes are multiplied as they
/// are.
pub open spec fn warm_spec(m: &Qwen3Model, threshold: usize, mmq_active: bool) -> Seq<Seq<char>> {
    let n = m.layers@.len() as int;
    if matrix_bytes(m.layers@, n) >= threshold && !mmq_active {
        warm_layers(m.layers@, n) + name_if(m.output, tn::OUTPUT@)
    } else {
        Seq::empty()
    }
}

/// The texts of some strings.
pub open spec fn texts(v: Seq<String>) -> Seq<Seq<char>> {
    v.map_values(|s: String| s@)
}

fn push_if(t: &Option<Tensor>, name: String, out: &mut Vec<String>)
    ensures
        texts(final(out)@) == texts(old(out)@) + name_if(*t, name@),
{
    let ghost before = out@;
    let ghost text = name@;
    if t.is_some() {
        out.push(name);
        assert(texts(out@) =~= texts(before).push(text));
    }
    assert(texts(out@) =~= texts(before) + name_if(*t, text));
}

fn len_if(t: &Option<Tensor>) -> (n: usize)
    ensures
        n == bytes_if(*t),
{
    match t {
        Some(t) => t.data.len(),
        None => 0,
    }
}

fn total_bytes(layers: &Vec<LayerWeights>) -> (n: usize)
    requires
        matrix_bytes(layers@, layers@.len() as int) <= usize::MAX,
    ensures
        n == matrix_bytes(layers@, layers@.len() as int),
{
    let mut n: usize = 0;
    let mut i: usize = 0;
    while i < layers.len()
        invariant
            i <= layers@.len(),
            matrix_bytes(layers@, layers@.len() as int) <= usize::MAX,
            n == matrix_bytes(layers@, i as int),
        decreases layers@.len() - i,
    {
        proof {
            lemma_bytes_grow(layers@, i + 1, layers@.len() as int);
            lemma_bytes_grow(layers@, i as int, layers@.len() as int);
        }
        let l: &LayerWeights = &layers[i];
        n = n + len_if(&l.wq) + len_if(&l.wk) + len_if(&l.wv) + len_if(&l.wo) + len_if(&l.ffn_gate)
            + len_if(&l.ffn_up) + len_if(&l.ffn_down);
        i = i + 1;
    }
    n
}

fn push_layer(l: &LayerWeights, i: usize, out: &mut Vec<String>)
    ensures
        texts(final(out)@) == texts(old(out)@) + warm_layer(*l, i as nat),
{
    let ghost before = texts(out@);
    push_if(&l.wq, tn::attn_q(i), out);
    push_if(&l.wk, tn::attn_k(i), out);
    push_if(&l.wv, tn::attn_v(i), out);
    push_if(&l.wo, tn::attn_out(i), out);
    push_if(&l.ffn_gate, tn::ffn_gate(i), out);
    push_if(&l.ffn_up, tn::ffn_up(i), out);
    push_if(&l.ffn_down, tn::ffn_down(i), out);
    assert(texts(out@) =~= before + warm_layer(*l, i as nat));
}

/// The names of the weights to unpack ahead of time.
pub fn warm(m: &Qwen3Model, threshold: usize, mmq_active: bool) -> (r: Vec<String>)
    requires
        matrix_bytes(m.layers@, m.layers@.len() as int) <= usize::MAX,
    ensures
        texts(r@) == warm_spec(m, threshold, mmq_active),
{
    let mut r: Vec<String> = Vec::new();
    assert(texts(r@) =~= Seq::<Seq<char>>::empty());
    if total_bytes(&m.layers) < threshold || mmq_active {
        return r;
    }
    let mut i: usize = 0;
    while i < m.layers.len()
        invariant
            i <= m.layers@.len(),
            texts(r@) == warm_layers(m.layers@, i as int),
        decreases m.layers@.len() - i,
    {
        push_layer(&m.layers[i], i, &mut r);
        i = i + 1;
    }
    push_if(&m.output, tn::OUTPUT.to_owned(), &mut r);
    r
}

/// The matrices of a block that are prepared ahead of time are those it has, under their
/// names, in the order in which they are used; their bytes are what counts.
pub proof fn law_matrices_of_a_block(l: LayerWeights, i: nat)
    requires
        l.wq is Some && l.wk is Some && l.wv is Some && l.wo is Some,
        l.ffn_gate is Some && l.ffn_up is Some && l.ffn_down is Some,
    ensures
        warm_layer(l, i) == seq![
            block_name(i, "attn_q.weight"@),
            block_name(i, "attn_k.weight"@),
            block_name(i, "attn_v.weight"@),
            block_name(i, "attn_output.weight"@),
            block_name(i, "ffn_gate.weight"@),
            block_name(i, "ffn_up.weight"@),
            block_name(i, "ffn_down.weight"@),
        ],
        layer_bytes(l) == l.wq->0.data@.len() + l.wk->0.data@.len() + l.wv->0.data@.len()
            + l.wo->0.data@.len() + l.ffn_gate->0.data@.len() + l.ffn_up->0.data@.len()
            + l.ffn_down->0.data@.len(),
{
}

/// Matrices are prepared ahead of time only where they are large enough together and the
/// kernels that need it are not in use.
pub proof fn law_when_matrices_are_prepared(m: &Qwen3Model, threshold: usize, mmq_active: bool)
    ensures
        ({
            let n = m.layers@.len() as int;
            let r = warm_spec(m, threshold, mmq_active);
            &&& mmq_active || matrix_bytes(m.layers@, n) < threshold ==> r.len() == 0
            &&& !mmq_active && matrix_bytes(m.layers@, n) >= threshold ==> r == warm_layers(
                m.layers@,
                n,
            ) + (if m.output is Some {
                seq!["output.weight"@]
            } else {
                Seq::empty()
            })
        }),
{
}

/// The stacks of a model are those of its blocks, in their order: first the projections of
/// a block, then its gate and up projection.
pub proof fn law_stacks_block_by_block(
    m: &Qwen3Model,
    plan: OffloadPlan,
    to: Targets,
    no_fuse_ffn: bool,
    n: int,
)
    requires
        0 < n <= m.layers@.len(),
    ensures
        ({
            let l = m.layers@[n - 1];
            let il = (n - 1) as usize;
            let before = stacks_spec(m, plan, to, no_fuse_ffn, n - 1);
            let a = qkv_stack(three(l.wq, l.wk, l.wv), m.ns@, il, plan, to);
            let b = gate_up_stacks(two(l.ffn_gate, l.ffn_up), m.ns@, il, plan, to, no_fuse_ffn);
            let r = stacks_spec(m, plan, to, no_fuse_ffn, n);
            &&& r.len() == before.len() + a.len() + b.len()
            &&& r.take(before.len() as int) == before
            &&& r.subrange(before.len() as int, (before.len() + a.len()) as int) == a
            &&& r.skip((before.len() + a.len()) as int) == b
            &&& stacks_spec(m, plan, to, no_fuse_ffn, 0).len() == 0
        }),
{
    let l = m.layers@[n - 1];
    let il = (n - 1) as usize;
    let before = stacks_spec(m, plan, to, no_fuse_ffn, n - 1);
    let a = qkv_stack(three(l.wq, l.wk, l.wv), m.ns@, il, plan, to);
    let b = gate_up_stacks(two(l.ffn_gate, l.ffn_up), m.ns@, il, plan, to, no_fuse_ffn);
    let r = stacks_spec(m, plan, to, no_fuse_ffn, n);
    assert(r.take(before.len() as int) =~= before);
    assert(r.subrange(before.len() as int, (before.len() + a.len()) as int) =~= a);
    assert(r.skip((before.len() + a.len()) as int) =~= b);
}

} // verus!
