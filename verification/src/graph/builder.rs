//! Builds a compute graph one node at a time.
use crate::graph::ops::{
    AttnMeta, AttnMode, FusedFfnMeta, FusedQkvMeta, FusedQkvNormMeta, NodeMeta, Op,
    QkvBiasRopeStoreMeta, RoPEMeta, RopeStyle,
};
use crate::graph::{
    node_views, sources_precede, text_of, CNode, ComputeGraph, DType, NodeId, NodeView,
};
use crate::bits::Real;
use crate::tensor::{Tensor, TensorType};
use vstd::prelude::*;

verus! {

/// A graph under construction.
pub struct GraphBuilder {
    pub nodes: Vec<CNode>,
    pub inputs: Vec<NodeId>,
    pub outputs: Vec<NodeId>,
    /// Set on attention nodes whose window is not bounded by positions alone.
    pub explicit_span: bool,
    /// The block that new nodes belong to.
    pub layer: Option<usize>,
}

/// The name of an optional weight.
pub open spec fn weight_name(t: Option<&Tensor>) -> Option<Seq<char>> {
    match t {
        None => None,
        Some(t) => Some(t.name@),
    }
}

/// The attributes of a node that reads an optional weight.
pub open spec fn weight_meta(t: Option<&Tensor>) -> NodeMeta {
    match t {
        None => NodeMeta::Plain,
        Some(t) => NodeMeta::Weight(t.ttype),
    }
}

/// A node that computes.
pub open spec fn op_node(
    op: Op,
    src: Seq<usize>,
    layer: Option<usize>,
    meta: NodeMeta,
    weights: Seq<Option<Seq<char>>>,
) -> NodeView {
    NodeView {
        name: Seq::empty(),
        op,
        src,
        shape: None,
        out_dtype: DType::F32,
        layer,
        backend: None,
        meta,
        weights,
    }
}

/// A node that gathers rows into a declared shape.
pub open spec fn rows_node(src: Seq<usize>, layer: Option<usize>, shape: [usize; 4]) -> NodeView {
    NodeView {
        shape: Some(shape),
        ..op_node(Op::GetRows, src, layer, NodeMeta::Plain, Seq::empty())
    }
}

/// A window of `shape` starting `offset` elements into the source.
pub open spec fn view_node(
    src: Seq<usize>,
    layer: Option<usize>,
    offset: usize,
    shape: [usize; 4],
) -> NodeView {
    NodeView {
        shape: Some(shape),
        ..op_node(Op::View { offset, shape }, src, layer, NodeMeta::Plain, Seq::empty())
    }
}

/// A node that holds data from outside.
pub open spec fn input_node(name: Seq<char>, shape: [usize; 4], dtype: DType) -> NodeView {
    NodeView {
        name,
        op: Op::Input,
        src: Seq::empty(),
        shape: Some(shape),
        out_dtype: dtype,
        layer: None,
        backend: None,
        meta: NodeMeta::Plain,
        weights: Seq::empty(),
    }
}

/// The two windows of a concatenated gate and up projection and their product.
pub open spec fn ffn_composition_nodes(
    n: int,
    x: usize,
    layer: Option<usize>,
    weight: Seq<char>,
    ttype: TensorType,
    nf: usize,
) -> Seq<NodeView> {
    seq![
        op_node(
            Op::MatMul { transpose_b: false },
            seq![x],
            layer,
            NodeMeta::Weight(ttype),
            seq![Some(weight), None],
        ),
        view_node(seq![n as usize], layer, 0, [nf, 1, 1, 1]),
        view_node(seq![n as usize], layer, nf, [nf, 1, 1, 1]),
        op_node(
            Op::SwiGLU,
            seq![(n + 1) as usize, (n + 2) as usize],
            layer,
            NodeMeta::Plain,
            Seq::empty(),
        ),
    ]
}

fn opt_name(t: Option<&Tensor>) -> (r: Option<String>)
    ensures
        text_of(r) == weight_name(t),
{
    match t {
        None => None,
        Some(t) => Some(t.name.clone()),
    }
}

fn opt_meta(t: Option<&Tensor>) -> (r: NodeMeta)
    ensures
        r == weight_meta(t),
{
    match t {
        None => NodeMeta::Plain,
        Some(t) => NodeMeta::Weight(t.ttype),
    }
}

impl GraphBuilder {
    /// The nodes so far.
    pub open spec fn views(&self) -> Seq<NodeView> {
        node_views(self.nodes@)
    }

    /// Sources precede their consumers and the id lists stay inside the graph.
    pub open spec fn wf(&self) -> bool {
        &&& sources_precede(self.views())
        &&& forall|i: int|
            0 <= i < self.inputs@.len() ==> (#[trigger] self.inputs@[i]) < self.nodes@.len()
        &&& forall|i: int|
            0 <= i < self.outputs@.len() ==> (#[trigger] self.outputs@[i]) < self.nodes@.len()
    }

    /// `self` is `before` with the nodes `added` behind its own.
    pub open spec fn extends(&self, before: &GraphBuilder, added: Seq<NodeView>) -> bool {
        &&& self.wf()
        &&& self.views() == before.views() + added
        &&& self.inputs@ == before.inputs@
        &&& self.outputs@ == before.outputs@
        &&& self.explicit_span == before.explicit_span
        &&& self.layer == before.layer
    }

    /// An empty graph.
    pub fn new() -> (b: GraphBuilder)
        ensures
            b.wf(),
            b.views() == Seq::<NodeView>::empty(),
            b.inputs@ == Seq::<usize>::empty(),
            b.outputs@ == Seq::<usize>::empty(),
            !b.explicit_span,
            b.layer is None,
    {
        let b = GraphBuilder {
            nodes: Vec::new(),
            inputs: Vec::new(),
            outputs: Vec::new(),
            explicit_span: false,
            layer: None,
        };
        assert(b.views() =~= Seq::<NodeView>::empty());
        b
    }

    fn append(&mut self, node: CNode) -> (id: NodeId)
        requires
            old(self).wf(),
            forall|k: int| 0 <= k < node.src@.len() ==> (#[trigger] node.src@[k]) < old(self).nodes@.len(),
        ensures
            final(self).extends(old(self), seq![node@]),
            id == old(self).nodes@.len(),
            final(self).nodes@.len() == old(self).nodes@.len() + 1,
    {
        let id: usize = self.nodes.len();
        let ghost before = self.views();
        self.nodes.push(node);
        assert(self.views() =~= before + seq![node@]);
        proof {
            assert forall|i: int, k: int|
                0 <= i < self.views().len() && 0 <= k < self.views()[i].src.len() implies (
            #[trigger] self.views()[i].src[k]) < i by {
                if i < before.len() {
                    assert(self.views()[i] == before[i]);
                    assert(before[i].src[k] < i);
                } else {
                    assert(self.views()[i] == node@);
                    assert(node.src@[k] < old(self).nodes@.len());
                }
            }
        }
        id
    }

    fn op(
        &mut self,
        op: Op,
        src: Vec<NodeId>,
        meta: NodeMeta,
        weights: Vec<Option<String>>,
        Ghost(names): Ghost<Seq<Option<Seq<char>>>>,
    ) -> (id: NodeId)
        requires
            old(self).wf(),
            forall|k: int| 0 <= k < src@.len() ==> (#[trigger] src@[k]) < old(self).nodes@.len(),
            weights@.len() == names.len(),
            forall|k: int| 0 <= k < names.len() ==> text_of(#[trigger] weights@[k]) == names[k],
        ensures
            final(self).extends(
                old(self),
                seq![op_node(op, src@, old(self).layer, meta, names)],
            ),
            id == old(self).nodes@.len(),
            final(self).nodes@.len() == old(self).nodes@.len() + 1,
    {
        let node = CNode {
            name: String::new(),
            op,
            src,
            shape: None,
            out_dtype: DType::F32,
            layer: self.layer,
            backend: None,
            meta,
            weights,
        };
        assert(node@.weights =~= names);
        assert(node@.name =~= Seq::<char>::empty());
        self.append(node)
    }

    /// Declares an input of the given shape.
    pub fn input(&mut self, name: &str, shape: [usize; 4], dtype: DType) -> (id: NodeId)
        requires
            old(self).wf(),
        ensures
            final(self).wf(),
            final(self).views() == old(self).views().push(input_node(name@, shape, dtype)),
            final(self).inputs@ == old(self).inputs@.push(id),
            final(self).outputs@ == old(self).outputs@,
            final(self).explicit_span == old(self).explicit_span,
            final(self).layer == old(self).layer,
            id == old(self).nodes@.len(),
            final(self).nodes@.len() == old(self).nodes@.len() + 1,
    {
        let node = CNode {
            name: name.to_owned(),
            op: Op::Input,
            src: Vec::new(),
            shape: Some(shape),
            out_dtype: dtype,
            layer: None,
            backend: None,
            meta: NodeMeta::Plain,
            weights: Vec::new(),
        };
        assert(node@.weights =~= Seq::<Option<Seq<char>>>::empty());
        let id: usize = self.append(node);
        self.inputs.push(id);
        assert(self.views() =~= old(self).views().push(input_node(name@, shape, dtype)));
        id
    }

    /// Marks a node as an output of the graph.
    pub fn output(&mut self, id: NodeId)
        requires
            old(self).wf(),
            id < old(self).nodes@.len(),
        ensures
            final(self).wf(),
            final(self).views() == old(self).views(),
            final(self).inputs@ == old(self).inputs@,
            final(self).outputs@ == old(self).outputs@.push(id),
            final(self).explicit_span == old(self).explicit_span,
            final(self).layer == old(self).layer,
            final(self).nodes@.len() == old(self).nodes@.len(),
    {
        self.outputs.push(id);
    }

    /// Sets the window flag of the attention nodes to come.
    pub fn set_explicit_span(&mut self, on: bool)
        ensures
            *final(self) == (GraphBuilder { explicit_span: on, ..*old(self) }),
    {
        self.explicit_span = on;
    }

    /// Sets the block that the nodes to come belong to.
    pub fn set_layer(&mut self, layer: Option<usize>)
        ensures
            *final(self) == (GraphBuilder { layer, ..*old(self) }),
    {
        self.layer = layer;
    }

    /// The finished graph.
    pub fn build(self) -> (g: ComputeGraph)
        requires
            self.wf(),
        ensures
            g.wf(),
            g.view_nodes() == self.views(),
            g.inputs@ == self.inputs@,
            g.outputs@ == self.outputs@,
            g.uid == 0,
    {
        ComputeGraph { uid: 0, nodes: self.nodes, inputs: self.inputs, outputs: self.outputs }
    }

    /// Gathers the rows `ids` of an embedding table.
    pub fn embedding(&mut self, ids: NodeId, table: &Tensor) -> (id: NodeId)
        requires
            old(self).wf(),
            ids < old(self).nodes@.len(),
        ensures
            final(self).extends(
                old(self),
                seq![
                    op_node(
                        Op::GetRows,
                        seq![ids],
                        old(self).layer,
                        NodeMeta::Weight(table.ttype),
                        seq![Some(table.name@)],
                    ),
                ],
            ),
            id == old(self).nodes@.len(),
            final(self).nodes@.len() == old(self).nodes@.len() + 1,
    {
        let src: Vec<usize> = vec![ids];
        let weights: Vec<Option<String>> = vec![Some(table.name.clone())];
        assert(src@ =~= seq![ids]);
        let ghost names = seq![Some(table.name@)];
        self.op(
            Op::GetRows,
            src,
            NodeMeta::Weight(table.ttype),
            weights,
            Ghost(names),
        )
    }

    /// Root-mean-square norm, scaled by an optional weight.
    pub fn rms_norm(&mut self, x: NodeId, weight: Option<&Tensor>, eps: Real) -> (id: NodeId)
        requires
            old(self).wf(),
            x < old(self).nodes@.len(),
        ensures
            final(self).extends(
                old(self),
                seq![
                    op_node(
                        Op::RmsNorm { eps },
                        seq![x],
                        old(self).layer,
                        weight_meta(weight),
                        seq![weight_name(weight)],
                    ),
                ],
            ),
            id == old(self).nodes@.len(),
            final(self).nodes@.len() == old(self).nodes@.len() + 1,
    {
        let src: Vec<usize> = vec![x];
        let weights: Vec<Option<String>> = vec![opt_name(weight)];
        assert(src@ =~= seq![x]);
        let ghost names = seq![weight_name(weight)];
        self.op(
            Op::RmsNorm { eps },
            src,
            opt_meta(weight),
            weights,
            Ghost(names),
        )
    }

    /// Per-head norm of `nh` heads of `hd` elements.
    pub fn qk_norm(
        &mut self,
        x: NodeId,
        weight: Option<&Tensor>,
        hd: usize,
        nh: usize,
        eps: Real,
    ) -> (id: NodeId)
        requires
            old(self).wf(),
            x < old(self).nodes@.len(),
        ensures
            final(self).extends(
                old(self),
                seq![
                    op_node(
                        Op::QkNorm { hd, nh, eps },
                        seq![x],
                        old(self).layer,
                        weight_meta(weight),
                        seq![weight_name(weight)],
                    ),
                ],
            ),
            id == old(self).nodes@.len(),
            final(self).nodes@.len() == old(self).nodes@.len() + 1,
    {
        let src: Vec<usize> = vec![x];
        let weights: Vec<Option<String>> = vec![opt_name(weight)];
        assert(src@ =~= seq![x]);
        let ghost names = seq![weight_name(weight)];
        self.op(
            Op::QkNorm { hd, nh, eps },
            src,
            opt_meta(weight),
            weights,
            Ghost(names),
        )
    }

    /// Multiplies by a weight and adds an optional bias.
    pub fn matmul(&mut self, x: NodeId, weight: &Tensor, bias: Option<&Tensor>) -> (id: NodeId)
        requires
            old(self).wf(),
            x < old(self).nodes@.len(),
        ensures
            final(self).extends(old(self), seq![matmul_node(x, old(self).layer, weight, bias)]),
            id == old(self).nodes@.len(),
            final(self).nodes@.len() == old(self).nodes@.len() + 1,
    {
        let src: Vec<usize> = vec![x];
        let weights: Vec<Option<String>> = vec![Some(weight.name.clone()), opt_name(bias)];
        assert(src@ =~= seq![x]);
        let ghost names = seq![Some(weight.name@), weight_name(bias)];
        self.op(
            Op::MatMul { transpose_b: false },
            src,
            NodeMeta::Weight(weight.ttype),
            weights,
            Ghost(names),
        )
    }

    /// Rotary embedding by position.
    pub fn rope(&mut self, x: NodeId, pos: NodeId, style: RopeStyle, meta: RoPEMeta) -> (id: NodeId)
        requires
            old(self).wf(),
            x < old(self).nodes@.len(),
            pos < old(self).nodes@.len(),
        ensures
            final(self).extends(
                old(self),
                seq![
                    op_node(
                        Op::RoPE { style },
                        seq![x, pos],
                        old(self).layer,
                        NodeMeta::RoPE(meta),
                        Seq::empty(),
                    ),
                ],
            ),
            id == old(self).nodes@.len(),
            final(self).nodes@.len() == old(self).nodes@.len() + 1,
    {
        let src: Vec<usize> = vec![x, pos];
        assert(src@ =~= seq![x, pos]);
        self.op(
            Op::RoPE { style },
            src,
            NodeMeta::RoPE(meta),
            Vec::new(),
            Ghost(Seq::empty()),
        )
    }

    /// Stores keys and values in a layer's region of `n_ctx` rows; `at` are
    /// further operands that say where the rows go.
    fn store(&mut self, layer: usize, src: Vec<NodeId>, n_ctx: usize) -> (id: NodeId)
        requires
            old(self).wf(),
            forall|k: int| 0 <= k < src@.len() ==> (#[trigger] src@[k]) < old(self).nodes@.len(),
        ensures
            final(self).extends(
                old(self),
                seq![
                    op_node(
                        Op::KvcacheStore { layer },
                        src@,
                        old(self).layer,
                        NodeMeta::Kv { nkt: 0, n_ctx, nk: 0 },
                        Seq::empty(),
                    ),
                ],
            ),
            id == old(self).nodes@.len(),
            final(self).nodes@.len() == old(self).nodes@.len() + 1,
    {
        self.op(
            Op::KvcacheStore { layer },
            src,
            NodeMeta::Kv { nkt: 0, n_ctx, nk: 0 },
            Vec::new(),
            Ghost(Seq::empty()),
        )
    }

    /// Stores keys and values in a layer's region; the rows are resolved when
    /// the graph runs.
    pub fn kvcache_store(&mut self, layer: usize, k: NodeId, v: NodeId, n_ctx: usize) -> (id: NodeId)
        requires
            old(self).wf(),
            k < old(self).nodes@.len(),
            v < old(self).nodes@.len(),
        ensures
            final(self).extends(
                old(self),
                seq![
                    op_node(
                        Op::KvcacheStore { layer },
                        seq![k, v],
                        old(self).layer,
                        NodeMeta::Kv { nkt: 0, n_ctx, nk: 0 },
                        Seq::empty(),
                    ),
                ],
            ),
            id == old(self).nodes@.len(),
            final(self).nodes@.len() == old(self).nodes@.len() + 1,
    {
        let src: Vec<usize> = vec![k, v];
        assert(src@ =~= seq![k, v]);
        self.store(layer, src, n_ctx)
    }

    /// Stores keys and values in the rows that `pos` names.
    pub fn kvcache_store_at(
        &mut self,
        layer: usize,
        k: NodeId,
        v: NodeId,
        pos: NodeId,
        n_ctx: usize,
    ) -> (id: NodeId)
        requires
            old(self).wf(),
            k < old(self).nodes@.len(),
            v < old(self).nodes@.len(),
            pos < old(self).nodes@.len(),
        ensures
            final(self).extends(
                old(self),
                seq![
                    op_node(
                        Op::KvcacheStore { layer },
                        seq![k, v, pos],
                        old(self).layer,
                        NodeMeta::Kv { nkt: 0, n_ctx, nk: 0 },
                        Seq::empty(),
                    ),
                ],
            ),
            id == old(self).nodes@.len(),
            final(self).nodes@.len() == old(self).nodes@.len() + 1,
    {
        let src: Vec<usize> = vec![k, v, pos];
        assert(src@ =~= seq![k, v, pos]);
        self.store(layer, src, n_ctx)
    }

    /// Reads a layer's keys and values back: `n_ctx` rows of `nkt` elements.
    pub fn kvcache_load(&mut self, layer: usize, nkt: usize, n_ctx: usize, nk: usize) -> (id: NodeId)
        requires
            old(self).wf(),
        ensures
            final(self).extends(
                old(self),
                seq![
                    op_node(
                        Op::KvcacheLoad { layer },
                        Seq::empty(),
                        old(self).layer,
                        NodeMeta::Kv { nkt, n_ctx, nk },
                        Seq::empty(),
                    ),
                ],
            ),
            id == old(self).nodes@.len(),
            final(self).nodes@.len() == old(self).nodes@.len() + 1,
    {
        self.op(
            Op::KvcacheLoad { layer },
            Vec::new(),
            NodeMeta::Kv { nkt, n_ctx, nk },
            Vec::new(),
            Ghost(Seq::empty()),
        )
    }

    /// Attention of queries over a layer's keys and values.
    pub fn attn(
        &mut self,
        q: NodeId,
        kv: NodeId,
        pos: NodeId,
        mode: AttnMode,
        meta: AttnMeta,
    ) -> (id: NodeId)
        requires
            old(self).wf(),
            q < old(self).nodes@.len(),
            kv < old(self).nodes@.len(),
            pos < old(self).nodes@.len(),
        ensures
            final(self).extends(
                old(self),
                seq![
                    op_node(
                        Op::Attn { mode, explicit_span: old(self).explicit_span },
                        seq![q, kv, pos],
                        old(self).layer,
                        NodeMeta::Attn(meta),
                        Seq::empty(),
                    ),
                ],
            ),
            id == old(self).nodes@.len(),
            final(self).nodes@.len() == old(self).nodes@.len() + 1,
    {
        let src: Vec<usize> = vec![q, kv, pos];
        assert(src@ =~= seq![q, kv, pos]);
        let explicit_span: bool = self.explicit_span;
        self.op(
            Op::Attn { mode, explicit_span },
            src,
            NodeMeta::Attn(meta),
            Vec::new(),
            Ghost(Seq::empty()),
        )
    }

    /// One pass over the concatenated projections: multiply, add the biases,
    /// rotate and store.
    pub fn fused_qkv(
        &mut self,
        x: NodeId,
        pos: NodeId,
        layer: usize,
        weight: String,
        bias_q: Option<&Tensor>,
        bias_k: Option<&Tensor>,
        bias_v: Option<&Tensor>,
        meta: FusedQkvMeta,
    ) -> (id: NodeId)
        requires
            old(self).wf(),
            x < old(self).nodes@.len(),
            pos < old(self).nodes@.len(),
        ensures
            final(self).extends(
                old(self),
                seq![
                    op_node(
                        Op::FusedQKV { layer },
                        seq![x, pos],
                        old(self).layer,
                        NodeMeta::FusedQkv(meta),
                        seq![
                            Some(weight@),
                            weight_name(bias_q),
                            weight_name(bias_k),
                            weight_name(bias_v),
                        ],
                    ),
                ],
            ),
            id == old(self).nodes@.len(),
            final(self).nodes@.len() == old(self).nodes@.len() + 1,
    {
        let ghost names = seq![
            Some(weight@),
            weight_name(bias_q),
            weight_name(bias_k),
            weight_name(bias_v),
        ];
        let src: Vec<usize> = vec![x, pos];
        assert(src@ =~= seq![x, pos]);
        let weights: Vec<Option<String>> = vec![
            Some(weight),
            opt_name(bias_q),
            opt_name(bias_k),
            opt_name(bias_v),
        ];
        self.op(Op::FusedQKV { layer }, src, NodeMeta::FusedQkv(meta), weights, Ghost(names))
    }

    /// The epilogue of three separate projections: add the biases, rotate and
    /// store.
    pub fn qkv_bias_rope_store(
        &mut self,
        q: NodeId,
        k: NodeId,
        v: NodeId,
        pos: NodeId,
        layer: usize,
        bias_q: Option<&Tensor>,
        bias_k: Option<&Tensor>,
        bias_v: Option<&Tensor>,
        meta: QkvBiasRopeStoreMeta,
    ) -> (id: NodeId)
        requires
            old(self).wf(),
            q < old(self).nodes@.len(),
            k < old(self).nodes@.len(),
            v < old(self).nodes@.len(),
            pos < old(self).nodes@.len(),
        ensures
            final(self).extends(
                old(self),
                seq![
                    op_node(
                        Op::QkvBiasRopeStore { layer },
                        seq![q, k, v, pos],
                        old(self).layer,
                        NodeMeta::QkvBiasRopeStore(meta),
                        seq![weight_name(bias_q), weight_name(bias_k), weight_name(bias_v)],
                    ),
                ],
            ),
            id == old(self).nodes@.len(),
            final(self).nodes@.len() == old(self).nodes@.len() + 1,
    {
        let src: Vec<usize> = vec![q, k, v, pos];
        assert(src@ =~= seq![q, k, v, pos]);
        let weights: Vec<Option<String>> = vec![opt_name(bias_q), opt_name(bias_k), opt_name(bias_v)];
        let ghost names = seq![weight_name(bias_q), weight_name(bias_k), weight_name(bias_v)];
        self.op(
            Op::QkvBiasRopeStore { layer },
            src,
            NodeMeta::QkvBiasRopeStore(meta),
            weights,
            Ghost(names),
        )
    }

    /// One pass over the concatenated projections: multiply, norm per head,
    /// rotate and store.
    pub fn fused_qkv_norm(
        &mut self,
        x: NodeId,
        pos: NodeId,
        layer: usize,
        weight: String,
        q_norm: Option<&Tensor>,
        k_norm: Option<&Tensor>,
        meta: FusedQkvNormMeta,
    ) -> (id: NodeId)
        requires
            old(self).wf(),
            x < old(self).nodes@.len(),
            pos < old(self).nodes@.len(),
        ensures
            final(self).extends(
                old(self),
                seq![
                    op_node(
                        Op::FusedQkvNorm { layer },
                        seq![x, pos],
                        old(self).layer,
                        NodeMeta::FusedQkvNorm(meta),
                        seq![Some(weight@), weight_name(q_norm), weight_name(k_norm)],
                    ),
                ],
            ),
            id == old(self).nodes@.len(),
            final(self).nodes@.len() == old(self).nodes@.len() + 1,
    {
        let ghost names = seq![Some(weight@), weight_name(q_norm), weight_name(k_norm)];
        let src: Vec<usize> = vec![x, pos];
        assert(src@ =~= seq![x, pos]);
        let weights: Vec<Option<String>> = vec![Some(weight), opt_name(q_norm), opt_name(k_norm)];
        self.op(
            Op::FusedQkvNorm { layer },
            src,
            NodeMeta::FusedQkvNorm(meta),
            weights,
            Ghost(names),
        )
    }

    /// Gate and up projection in one pass, activated in place.
    pub fn fused_ffn(&mut self, x: NodeId, weight: String, meta: FusedFfnMeta) -> (id: NodeId)
        requires
            old(self).wf(),
            x < old(self).nodes@.len(),
        ensures
            final(self).extends(
                old(self),
                seq![
                    op_node(
                        Op::FusedFFN,
                        seq![x],
                        old(self).layer,
                        NodeMeta::FusedFfn(meta),
                        seq![Some(weight@)],
                    ),
                ],
            ),
            id == old(self).nodes@.len(),
            final(self).nodes@.len() == old(self).nodes@.len() + 1,
    {
        let ghost names = seq![Some(weight@)];
        let src: Vec<usize> = vec![x];
        assert(src@ =~= seq![x]);
        let weights: Vec<Option<String>> = vec![Some(weight)];
        self.op(Op::FusedFFN, src, NodeMeta::FusedFfn(meta), weights, Ghost(names))
    }

    /// Gathers rows of `x` into a declared shape.
    pub fn get_rows(&mut self, x: NodeId, ids: NodeId, shape: [usize; 4]) -> (id: NodeId)
        requires
            old(self).wf(),
            x < old(self).nodes@.len(),
            ids < old(self).nodes@.len(),
        ensures
            final(self).extends(old(self), seq![rows_node(seq![x, ids], old(self).layer, shape)]),
            id == old(self).nodes@.len(),
            final(self).nodes@.len() == old(self).nodes@.len() + 1,
    {
        let src: Vec<usize> = vec![x, ids];
        assert(src@ =~= seq![x, ids]);
        let node = CNode {
            name: String::new(),
            op: Op::GetRows,
            src,
            shape: Some(shape),
            out_dtype: DType::F32,
            layer: self.layer,
            backend: None,
            meta: NodeMeta::Plain,
            weights: Vec::new(),
        };
        assert(node@ =~= rows_node(seq![x, ids], self.layer, shape));
        self.append(node)
    }

    /// A window into `x`.
    pub fn window(&mut self, x: NodeId, offset: usize, shape: [usize; 4]) -> (id: NodeId)
        requires
            old(self).wf(),
            x < old(self).nodes@.len(),
        ensures
            final(self).extends(old(self), seq![view_node(seq![x], old(self).layer, offset, shape)]),
            id == old(self).nodes@.len(),
            final(self).nodes@.len() == old(self).nodes@.len() + 1,
    {
        let src: Vec<usize> = vec![x];
        assert(src@ =~= seq![x]);
        let node = CNode {
            name: String::new(),
            op: Op::View { offset, shape },
            src,
            shape: Some(shape),
            out_dtype: DType::F32,
            layer: self.layer,
            backend: None,
            meta: NodeMeta::Plain,
            weights: Vec::new(),
        };
        assert(node@ =~= view_node(seq![x], self.layer, offset, shape));
        self.append(node)
    }

    fn plain(&mut self, op: Op, src: Vec<NodeId>) -> (id: NodeId)
        requires
            old(self).wf(),
            forall|k: int| 0 <= k < src@.len() ==> (#[trigger] src@[k]) < old(self).nodes@.len(),
        ensures
            final(self).extends(old(self), seq![plain_node(op, src@, old(self).layer)]),
            id == old(self).nodes@.len(),
            final(self).nodes@.len() == old(self).nodes@.len() + 1,
    {
        self.op(op, src, NodeMeta::Plain, Vec::new(), Ghost(Seq::empty()))
    }

    /// The element-wise sum.
    pub fn add(&mut self, a: NodeId, b: NodeId) -> (id: NodeId)
        requires
            old(self).wf(),
            a < old(self).nodes@.len(),
            b < old(self).nodes@.len(),
        ensures
            final(self).extends(old(self), seq![plain_node(Op::Add, seq![a, b], old(self).layer)]),
            id == old(self).nodes@.len(),
            final(self).nodes@.len() == old(self).nodes@.len() + 1,
    {
        let src: Vec<usize> = vec![a, b];
        assert(src@ =~= seq![a, b]);
        self.plain(Op::Add, src)
    }

    /// The element-wise product.
    pub fn mul(&mut self, a: NodeId, b: NodeId) -> (id: NodeId)
        requires
            old(self).wf(),
            a < old(self).nodes@.len(),
            b < old(self).nodes@.len(),
        ensures
            final(self).extends(old(self), seq![plain_node(Op::Mul, seq![a, b], old(self).layer)]),
            id == old(self).nodes@.len(),
            final(self).nodes@.len() == old(self).nodes@.len() + 1,
    {
        let src: Vec<usize> = vec![a, b];
        assert(src@ =~= seq![a, b]);
        self.plain(Op::Mul, src)
    }

    /// The sigmoid-weighted identity.
    pub fn silu(&mut self, x: NodeId) -> (id: NodeId)
        requires
            old(self).wf(),
            x < old(self).nodes@.len(),
        ensures
            final(self).extends(old(self), seq![plain_node(Op::Silu, seq![x], old(self).layer)]),
            id == old(self).nodes@.len(),
            final(self).nodes@.len() == old(self).nodes@.len() + 1,
    {
        let src: Vec<usize> = vec![x];
        assert(src@ =~= seq![x]);
        self.plain(Op::Silu, src)
    }

    /// `silu(gate) * up`.
    pub fn swiglu(&mut self, gate: NodeId, up: NodeId) -> (id: NodeId)
        requires
            old(self).wf(),
            gate < old(self).nodes@.len(),
            up < old(self).nodes@.len(),
        ensures
            final(self).extends(
                old(self),
                seq![plain_node(Op::SwiGLU, seq![gate, up], old(self).layer)],
            ),
            id == old(self).nodes@.len(),
            final(self).nodes@.len() == old(self).nodes@.len() + 1,
    {
        let src: Vec<usize> = vec![gate, up];
        assert(src@ =~= seq![gate, up]);
        self.plain(Op::SwiGLU, src)
    }

    /// The fused feed-forward pass spelled out: a multiplication by the
    /// concatenated weight, its two windows and their product.
    pub fn fused_ffn_composition(
        &mut self,
        x: NodeId,
        weight: String,
        ttype: TensorType,
        nf: usize,
    ) -> (id: NodeId)
        requires
            old(self).wf(),
            x < old(self).nodes@.len(),
        ensures
            final(self).extends(
                old(self),
                ffn_composition_nodes(
                    old(self).nodes@.len() as int,
                    x,
                    old(self).layer,
                    weight@,
                    ttype,
                    nf,
                ),
            ),
            id == old(self).nodes@.len() + 3,
            final(self).nodes@.len() == old(self).nodes@.len() + 4,
    {
        let ghost names: Seq<Option<Seq<char>>> = seq![Some(weight@), None];
        let ghost layer = self.layer;
        let ghost n = self.nodes@.len() as int;
        let src: Vec<usize> = vec![x];
        assert(src@ =~= seq![x]);
        let weights: Vec<Option<String>> = vec![Some(weight), None];
        let gu: usize = self.op(
            Op::MatMul { transpose_b: false },
            src,
            NodeMeta::Weight(ttype),
            weights,
            Ghost(names),
        );
        let gate: usize = self.window(gu, 0, [nf, 1, 1, 1]);
        let up: usize = self.window(gu, nf, [nf, 1, 1, 1]);
        let r: usize = self.swiglu(gate, up);
        assert(self.views() =~= old(self).views() + ffn_composition_nodes(
            n,
            x,
            layer,
            names[0]->Some_0,
            ttype,
            nf,
        ));
        r
    }
}

/// A multiplication by a weight, with an optional bias.
pub open spec fn matmul_node(
    x: usize,
    layer: Option<usize>,
    weight: &Tensor,
    bias: Option<&Tensor>,
) -> NodeView {
    op_node(
        Op::MatMul { transpose_b: false },
        seq![x],
        layer,
        NodeMeta::Weight(weight.ttype),
        seq![Some(weight.name@), weight_name(bias)],
    )
}

/// A computing node without attributes.
pub open spec fn plain_node(op: Op, src: Seq<usize>, layer: Option<usize>) -> NodeView {
    op_node(op, src, layer, NodeMeta::Plain, Seq::empty())
}

} // verus!
