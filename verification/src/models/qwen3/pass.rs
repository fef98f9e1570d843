//! Forward passes of a Qwen3 model through its compute graph.
use crate::graph::cache::GraphCache;
use crate::graph::params::GraphParams;
use crate::graph::ComputeGraph;
use crate::models::forward::{
    clamp_context, clamped, serves, BatchPlan, ForwardPass, PassSettings,
};
use crate::models::weights::{device_spec, CudaTypes};
use crate::models::Device;
use vstd::prelude::*;

use super::graph::{graph_inputs, graph_nodes, model_ok, model_roles, params_of, Qwen3Graph};
use super::Qwen3Model;

verus! {

/// A model that a graph with this context can be built of.
pub open spec fn sizes_ok(m: &Qwen3Model, n_ctx: usize) -> bool {
    forall|p: GraphParams| p.cparams.n_ctx == n_ctx ==> #[trigger] model_ok(m, p)
}

/// Where a pass runs: where all of the model's weights are.
pub open spec fn runs_on(m: &Qwen3Model, s: &PassSettings<'_>) -> Device {
    device_spec(
        model_roles(m, m.layers@.len() as int),
        CudaTypes { q5_0: false },
        s.mps,
        s.cuda,
    )
}

/// A sequence that a pass can be run over.
pub open spec fn sequence_ok(
    m: &Qwen3Model,
    positions: Seq<usize>,
    n_out: usize,
    n_ctx: usize,
) -> bool {
    &&& n_out <= positions.len()
    &&& forall|i: int| 0 <= i < positions.len() ==> (#[trigger] positions[i]) < n_ctx
    &&& sizes_ok(m, n_ctx)
    &&& 0 <= m.hparams.n_vocab <= usize::MAX
    &&& n_out * m.hparams.n_vocab <= usize::MAX
}

/// Whether a pass is laid out as it should be: it runs where the weights are, its
/// parameters, its wanted rows and its positions are those of the sequence, the wanted
/// rows are filled in if the graph has them as an input, a graph is built exactly if
/// the last one does not serve, and as many logits are read out as the wanted rows
/// have.
pub open spec fn pass_laid_out(
    r: ForwardPass,
    m: &Qwen3Model,
    positions: Seq<usize>,
    n_out: usize,
    n_ctx: usize,
    s: &PassSettings<'_>,
    cache: &GraphCache,
) -> bool {
    let p = params_of(
        positions.len() as usize,
        n_out,
        n_ctx,
        runs_on(m, s),
        s.no_fuse_qkv,
        s.no_fuse_ffn,
    );
    &&& r.device == runs_on(m, s)
    &&& r.plan.params == p
    &&& r.plan.out_rows@ == Seq::new(
        n_out as nat,
        |i: int| (positions.len() - n_out + i) as u32,
    )
    &&& r.plan.positions@ == positions.map_values(|p: usize| p as u32)
    &&& r.plan.fill_tail == (m.layers@.len() > 0 && n_out < positions.len())
    &&& r.graph is None <==> serves(cache, p)
    &&& r.graph matches Some(g) ==> {
        &&& g.wf()
        &&& g.view_nodes() == graph_nodes(m, p, s.platform)
        &&& g.inputs@ == graph_inputs(m, p, s.platform)
        &&& g.outputs@ == seq![(graph_nodes(m, p, s.platform).len() - 1) as usize]
    }
    &&& r.logits == n_out * m.hparams.n_vocab
}

impl Qwen3Graph {
    /// Lays out a pass over one sequence.
    pub fn forward_cached(
        m: &Qwen3Model,
        positions: &Vec<usize>,
        n_out: usize,
        n_ctx: usize,
        s: &PassSettings<'_>,
        cache: &GraphCache,
    ) -> (r: ForwardPass)
        requires
            sequence_ok(m, positions@, n_out, n_ctx),
        ensures
            pass_laid_out(r, m, positions@, n_out, n_ctx, s, cache),
    {
        let device: Device = Self::device(m, s.mps, s.cuda);
        let plan: BatchPlan = Self::plan(
            m.layers.len() > 0,
            positions,
            n_out,
            n_ctx,
            device,
            s.no_fuse_qkv,
            s.no_fuse_ffn,
        );
        let graph: Option<ComputeGraph> = if cache.try_reuse(&plan.params) {
            None
        } else {
            Some(Self::build(m, &plan.params, &s.platform))
        };
        let logits: usize = n_out * m.hparams.n_vocab as usize;
        ForwardPass { device, plan, graph, logits }
    }

    /// Lays out a pass over one sequence in a context that is no longer than the
    /// model's.
    pub fn forward(
        m: &Qwen3Model,
        positions: &Vec<usize>,
        n_out: usize,
        n_ctx: usize,
        s: &PassSettings<'_>,
        cache: &GraphCache,
    ) -> (r: ForwardPass)
        requires
            0 <= m.hparams.max_seq_len <= usize::MAX,
            sequence_ok(m, positions@, n_out, clamped(n_ctx, m.hparams.max_seq_len)),
        ensures
            pass_laid_out(
                r,
                m,
                positions@,
                n_out,
                clamped(n_ctx, m.hparams.max_seq_len),
                s,
                cache,
            ),
    {
        let n: usize = clamp_context(n_ctx, m.hparams.max_seq_len);
        Self::forward_cached(m, positions, n_out, n, s, cache)
    }
}

/// The wanted rows are filled in exactly if the graph has them as an input, behind the
/// tokens and the positions.
pub proof fn law_filled_rows_are_an_input(
    r: ForwardPass,
    m: &Qwen3Model,
    positions: Seq<usize>,
    n_out: usize,
    n_ctx: usize,
    s: &PassSettings<'_>,
    cache: &GraphCache,
)
    requires
        positions.len() <= usize::MAX,
        pass_laid_out(r, m, positions, n_out, n_ctx, s, cache),
    ensures
        r.plan.fill_tail <==> graph_inputs(m, r.plan.params, s.platform).len() == 3,
        !r.plan.fill_tail <==> graph_inputs(m, r.plan.params, s.platform).len() == 2,
{
}

} // verus!
