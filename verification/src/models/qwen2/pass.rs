//! Forward passes of a Qwen2 model through its compute graph.
use crate::graph::batch::{
    law_order_moves_rows, law_single_is_one_sequence, lemma_some_run, reordered, same_run, Batch,
};
use crate::graph::cache::GraphCache;
use crate::graph::params::GraphParams;
use crate::graph::ComputeGraph;
use crate::models::forward::{
    clamp_context, clamped, serves, span_spec, start_of, BatchPlan, ForwardPass, PassSettings,
};
use crate::models::weights::{device_spec, CudaTypes};
use crate::models::Device;
use vstd::prelude::*;

use super::graph::{graph_inputs, graph_nodes, model_ok, model_roles, Qwen2Graph};
use super::Qwen2Model;

verus! {

/// Where a pass runs: where all of the model's weights are.
pub open spec fn runs_on(m: &Qwen2Model, s: &PassSettings<'_>) -> Device {
    device_spec(
        model_roles(m, m.layers@.len() as int),
        CudaTypes { q5_0: true },
        s.mps,
        s.cuda,
    )
}

/// The parameters of a pass over a batch.
pub open spec fn pass_params(
    m: &Qwen2Model,
    batch: &Batch,
    n_out: usize,
    n_ctx: usize,
    starts: Seq<(u32, usize)>,
    s: &PassSettings<'_>,
) -> GraphParams {
    Qwen2Graph::batch_params(
        batch,
        n_out as int,
        n_ctx,
        starts,
        runs_on(m, s),
        s.no_fuse_qkv,
        s.no_fuse_ffn,
    )
}

/// A model that a graph with this context can be built of.
pub open spec fn sizes_ok(m: &Qwen2Model, n_ctx: usize) -> bool {
    forall|p: GraphParams| p.cparams.n_ctx == n_ctx ==> #[trigger] model_ok(m, p)
}

/// A batch that a pass can be run over.
pub open spec fn batch_ok(
    m: &Qwen2Model,
    batch: &Batch,
    n_out: usize,
    n_ctx: usize,
) -> bool {
    &&& batch.check_spec() is Ok
    &&& batch.groups_spec().len() <= 1 ==> n_out <= batch.size()
    &&& forall|i: int|
        0 <= i < batch.positions@.len() ==> (#[trigger] batch.positions@[i]) < n_ctx
    &&& sizes_ok(m, n_ctx)
    &&& 0 <= m.hparams.n_vocab <= usize::MAX
    &&& batch.out_rows_spec(n_out as int).len() * m.hparams.n_vocab <= usize::MAX
}

/// Whether a pass over a batch is laid out as it should be: it runs where the
/// weights are, its parameters, its wanted rows and its positions are those of the
/// batch, a graph is built exactly
/// if the last one does not serve, and as many logits are read out as the wanted
/// rows have.
pub open spec fn pass_laid_out(
    r: ForwardPass,
    m: &Qwen2Model,
    batch: &Batch,
    n_out: usize,
    n_ctx: usize,
    starts: Seq<(u32, usize)>,
    s: &PassSettings<'_>,
    cache: &GraphCache,
) -> bool {
    let p = pass_params(m, batch, n_out, n_ctx, starts, s);
    &&& r.device == runs_on(m, s)
    &&& r.plan.params == p
    &&& r.plan.out_rows@ == batch.out_rows_spec(n_out as int)
    &&& r.plan.positions@ == batch.positions@.map_values(|p: usize| p as u32)
    &&& r.plan.fill_tail == (p.n_out < p.n_tokens)
    &&& r.graph is None <==> serves(cache, p)
    &&& r.graph matches Some(g) ==> {
        &&& g.wf()
        &&& g.view_nodes() == graph_nodes(m, p, s.platform)
        &&& g.inputs@ == graph_inputs(p)
        &&& g.outputs@ == seq![(graph_nodes(m, p, s.platform).len() - 1) as usize]
    }
    &&& r.logits == batch.out_rows_spec(n_out as int).len() * m.hparams.n_vocab
}

impl Qwen2Graph {
    /// Lays out a pass over a batch.
    pub fn forward_batch(
        m: &Qwen2Model,
        batch: &Batch,
        n_out: usize,
        n_ctx: usize,
        starts: &Vec<(u32, usize)>,
        s: &PassSettings<'_>,
        cache: &GraphCache,
    ) -> (r: ForwardPass)
        requires
            batch_ok(m, batch, n_out, n_ctx),
        ensures
            pass_laid_out(r, m, batch, n_out, n_ctx, starts@, s, cache),
    {
        let device: Device = Self::device(m, s.mps, s.cuda);
        let plan: BatchPlan = Self::plan_batch(
            batch,
            n_out,
            n_ctx,
            starts,
            device,
            s.no_fuse_qkv,
            s.no_fuse_ffn,
        );
        let graph: Option<ComputeGraph> = if cache.try_reuse(&plan.params) {
            None
        } else {
            Some(Self::build(m, &plan.params, &s.platform))
        };
        let logits: usize = plan.out_rows.len() * m.hparams.n_vocab as usize;
        ForwardPass { device, plan, graph, logits }
    }

    /// Lays out a pass over one sequence: a batch of one.
    pub fn forward_cached(
        m: &Qwen2Model,
        tokens: &Vec<u32>,
        positions: &Vec<usize>,
        n_out: usize,
        n_ctx: usize,
        starts: &Vec<(u32, usize)>,
        s: &PassSettings<'_>,
        cache: &GraphCache,
    ) -> (r: (Batch, ForwardPass))
        requires
            sequence_ok(m, tokens@, positions@, n_out, n_ctx),
        ensures
            is_sequence(r.0, tokens@, positions@),
            pass_laid_out(r.1, m, &r.0, n_out, n_ctx, starts@, s, cache),
            r.1.plan.out_rows@ == Seq::new(
                n_out as nat,
                |i: int| (tokens@.len() - n_out + i) as u32,
            ),
    {
        let _n: usize = tokens.len();
        let batch: Batch = Batch::single(tokens, positions);
        proof {
            law_single_is_one_sequence(&batch);
        }
        let pass: ForwardPass = Self::forward_batch(m, &batch, n_out, n_ctx, starts, s, cache);
        (batch, pass)
    }

    /// Lays out a pass over one sequence in a context that is no longer than the
    /// model's.
    pub fn forward(
        m: &Qwen2Model,
        tokens: &Vec<u32>,
        positions: &Vec<usize>,
        n_out: usize,
        n_ctx: usize,
        starts: &Vec<(u32, usize)>,
        s: &PassSettings<'_>,
        cache: &GraphCache,
    ) -> (r: (Batch, ForwardPass))
        requires
            0 <= m.hparams.max_seq_len <= usize::MAX,
            sequence_ok(m, tokens@, positions@, n_out, clamped(n_ctx, m.hparams.max_seq_len)),
        ensures
            is_sequence(r.0, tokens@, positions@),
            pass_laid_out(
                r.1,
                m,
                &r.0,
                n_out,
                clamped(n_ctx, m.hparams.max_seq_len),
                starts@,
                s,
                cache,
            ),
    {
        let n: usize = clamp_context(n_ctx, m.hparams.max_seq_len);
        Self::forward_cached(m, tokens, positions, n_out, n, starts, s, cache)
    }
}

/// A sequence that a pass can be run over.
pub open spec fn sequence_ok(
    m: &Qwen2Model,
    tokens: Seq<u32>,
    positions: Seq<usize>,
    n_out: usize,
    n_ctx: usize,
) -> bool {
    &&& tokens.len() > 0
    &&& positions.len() == tokens.len()
    &&& n_out <= tokens.len()
    &&& forall|i: int| 0 <= i < positions.len() ==> (#[trigger] positions[i]) < n_ctx
    &&& sizes_ok(m, n_ctx)
    &&& 0 <= m.hparams.n_vocab <= usize::MAX
    &&& n_out * m.hparams.n_vocab <= usize::MAX
}

/// A batch that is one sequence of these tokens.
pub open spec fn is_sequence(b: Batch, tokens: Seq<u32>, positions: Seq<usize>) -> bool {
    &&& b.tokens@ == tokens
    &&& b.positions@ == positions
    &&& b.seq_ids@ == Seq::new(tokens.len(), |i: int| 0u32)
}

/// The order of the sequences in a batch does not matter to any of them: two passes over
/// the same sequences in another order run on the same device with the same parameters,
/// so the same graph, and read as many logits. Each sequence's rows hold the same tokens
/// at the same positions, and its wanted row, which moves with it, is its last.
pub proof fn law_batch_order_is_irrelevant(
    ra: ForwardPass,
    rb: ForwardPass,
    m: &Qwen2Model,
    a: &Batch,
    b: &Batch,
    order: Seq<int>,
    n_out: usize,
    n_ctx: usize,
    starts: Seq<(u32, usize)>,
    s: &PassSettings<'_>,
    cache: &GraphCache,
)
    requires
        reordered(a, b, order),
        a.size() <= usize::MAX,
        pass_laid_out(ra, m, a, n_out, n_ctx, starts, s, cache),
        pass_laid_out(rb, m, b, n_out, n_ctx, starts, s, cache),
    ensures
        ra.device == rb.device,
        ra.plan.params == rb.plan.params,
        ra.plan.fill_tail == rb.plan.fill_tail,
        ra.graph is Some <==> rb.graph is Some,
        ra.graph matches Some(g) ==> g.view_nodes() == rb.graph->0.view_nodes() && g.inputs@
            == rb.graph->0.inputs@ && g.outputs@ == rb.graph->0.outputs@,
        ra.logits == rb.logits,
        ra.plan.out_rows@.len() == rb.plan.out_rows@.len(),
        forall|j: int|
            0 <= j < order.len() ==> {
                let ga = a.groups_spec()[#[trigger] order[j]];
                let gb = b.groups_spec()[j];
                &&& same_run(a, b, ga, gb)
                &&& forall|k: int|
                    0 <= k < gb.end - gb.start ==> ra.plan.positions@[ga.start + k]
                        == #[trigger] rb.plan.positions@[gb.start + k]
                &&& order.len() > 1 ==> ra.plan.out_rows@[order[j]] == (ga.end - 1) as u32
                    && rb.plan.out_rows@[j] == (gb.end - 1) as u32
            },
        order.len() <= 1 ==> ra.plan.out_rows@ == rb.plan.out_rows@,
{
    let ga = a.groups_spec();
    let gb = b.groups_spec();
    lemma_some_run(b);
    assert(order.len() > 0);
    law_order_moves_rows(a, b, order, n_out as int, 0);
    assert forall|j: int| 0 <= j < order.len() implies ({
        let ga = a.groups_spec()[#[trigger] order[j]];
        let gb = b.groups_spec()[j];
        &&& same_run(a, b, ga, gb)
        &&& forall|k: int|
            0 <= k < gb.end - gb.start ==> ra.plan.positions@[ga.start + k]
                == #[trigger] rb.plan.positions@[gb.start + k]
        &&& order.len() > 1 ==> ra.plan.out_rows@[order[j]] == (ga.end - 1) as u32
            && rb.plan.out_rows@[j] == (gb.end - 1) as u32
    }) by {
        law_order_moves_rows(a, b, order, n_out as int, j);
        let ga = a.groups_spec()[order[j]];
        let gb = b.groups_spec()[j];
        assert forall|k: int| 0 <= k < gb.end - gb.start implies ra.plan.positions@[ga.start + k]
            == #[trigger] rb.plan.positions@[gb.start + k] by {
            assert(a.positions@[ga.start + k] == b.positions@[gb.start + k]);
        }
    }
    if order.len() == 1 {
        assert(order[0] == 0);
        assert(ga[0].seq == gb[0].seq);
        assert(span_spec(ga, starts) == (start_of(starts, ga[0].seq) != 0));
        assert(span_spec(gb, starts) == (start_of(starts, gb[0].seq) != 0));
    }
}

} // verus!
