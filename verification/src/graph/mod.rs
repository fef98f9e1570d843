//! The compute graph: nodes in build order, each naming its sources.
pub mod allocator;
pub mod batch;
pub mod builder;
pub mod cache;
pub mod meaning;
pub mod offload;
pub mod ops;
pub mod params;
pub mod run;
pub mod scheduler;

use crate::graph::ops::{NodeMeta, Op};
use vstd::prelude::*;

verus! {

/// A node's position in its graph.
pub type NodeId = usize;

/// Where a node runs.
#[allow(clippy::upper_case_acronyms)]
#[derive(Debug, Clone, Copy, PartialEq, Eq, Structural)]
pub enum Backend {
    CPU,
    METAL,
    CUDA,
}

impl Backend {
    /// The backend as configuration spells it.
    pub open spec fn name_spec(self) -> Seq<char> {
        match self {
            Backend::CPU => "cpu"@,
            Backend::METAL => "metal"@,
            Backend::CUDA => "cuda"@,
        }
    }

    /// The backend as messages print it.
    pub open spec fn label_spec(self) -> Seq<char> {
        match self {
            Backend::CPU => "CPU"@,
            Backend::METAL => "METAL"@,
            Backend::CUDA => "CUDA"@,
        }
    }

    /// The backend as configuration spells it.
    pub fn name(self) -> (r: &'static str)
        ensures
            r@ == self.name_spec(),
    {
        match self {
            Backend::CPU => "cpu",
            Backend::METAL => "metal",
            Backend::CUDA => "cuda",
        }
    }

    /// The backend as messages print it.
    pub fn label(self) -> (r: &'static str)
        ensures
            r@ == self.label_spec(),
    {
        match self {
            Backend::CPU => "CPU",
            Backend::METAL => "METAL",
            Backend::CUDA => "CUDA",
        }
    }
}

/// Element type of a node's output.
#[derive(Debug, Clone, Copy, PartialEq, Eq, Structural)]
pub enum DType {
    F32,
    I32,
}

/// One node: an operator, the nodes it reads and the weights it names.
pub struct CNode {
    /// The name of an input; empty for every other node.
    pub name: String,
    pub op: Op,
    /// Sources, in operand order.
    pub src: Vec<NodeId>,
    /// The declared shape; the other nodes take theirs from their sources.
    pub shape: Option<[usize; 4]>,
    pub out_dtype: DType,
    /// The transformer block that the node belongs to.
    pub layer: Option<usize>,
    pub backend: Option<Backend>,
    pub meta: NodeMeta,
    /// Names of the weights that the node reads, in operand order.
    pub weights: Vec<Option<String>>,
}

/// What a node is, apart from how it is held.
#[verifier::ext_equal]
pub struct NodeView {
    pub name: Seq<char>,
    pub op: Op,
    pub src: Seq<usize>,
    pub shape: Option<[usize; 4]>,
    pub out_dtype: DType,
    pub layer: Option<usize>,
    pub backend: Option<Backend>,
    pub meta: NodeMeta,
    pub weights: Seq<Option<Seq<char>>>,
}

/// The text of an optional string.
pub open spec fn text_of(s: Option<String>) -> Option<Seq<char>> {
    match s {
        None => None,
        Some(s) => Some(s@),
    }
}

impl View for CNode {
    type V = NodeView;

    open spec fn view(&self) -> NodeView {
        NodeView {
            name: self.name@,
            op: self.op,
            src: self.src@,
            shape: self.shape,
            out_dtype: self.out_dtype,
            layer: self.layer,
            backend: self.backend,
            meta: self.meta,
            weights: self.weights@.map_values(|s: Option<String>| text_of(s)),
        }
    }
}

impl CNode {
    /// Whether the node holds data from outside the graph.
    pub fn is_input(&self) -> (r: bool)
        ensures
            r == (self.op is Input),
    {
        matches!(self.op, Op::Input)
    }
}

/// A graph: its nodes in execution order, its inputs and its outputs.
pub struct ComputeGraph {
    /// Tells this graph from the others of its cache; 0 before it has a place in one.
    pub uid: u64,
    pub nodes: Vec<CNode>,
    pub inputs: Vec<NodeId>,
    pub outputs: Vec<NodeId>,
}

/// The views of a sequence of nodes.
pub open spec fn node_views(nodes: Seq<CNode>) -> Seq<NodeView> {
    nodes.map_values(|n: CNode| n@)
}

/// Every source stands before its consumer.
pub open spec fn sources_precede(nodes: Seq<NodeView>) -> bool {
    forall|i: int, k: int|
        0 <= i < nodes.len() && 0 <= k < nodes[i].src.len() ==> (#[trigger] nodes[i].src[k]) < i
}

impl ComputeGraph {
    /// The nodes without their storage.
    pub open spec fn view_nodes(&self) -> Seq<NodeView> {
        node_views(self.nodes@)
    }

    /// Build order is an execution order, and the id lists stay inside it.
    pub open spec fn wf(&self) -> bool {
        &&& sources_precede(self.view_nodes())
        &&& forall|i: int| 0 <= i < self.inputs@.len() ==> (#[trigger] self.inputs@[i]) < self.nodes@.len()
        &&& forall|i: int| 0 <= i < self.outputs@.len() ==> (#[trigger] self.outputs@[i]) < self.nodes@.len()
    }

    /// Number of nodes.
    pub fn n_nodes(&self) -> (n: usize)
        ensures
            n == self.nodes@.len(),
    {
        self.nodes.len()
    }

    /// The node at `id`.
    pub fn node(&self, id: NodeId) -> (n: &CNode)
        requires
            id < self.nodes@.len(),
        ensures
            *n == self.nodes@[id as int],
    {
        &self.nodes[id]
    }
}

/// The names of the backends, in small letters and as messages print them.
pub proof fn law_names_of_the_backends(b: Backend)
    ensures
        b == Backend::CPU ==> b.name_spec() == "cpu"@ && b.label_spec() == "CPU"@,
        b == Backend::METAL ==> b.name_spec() == "metal"@ && b.label_spec() == "METAL"@,
        b == Backend::CUDA ==> b.name_spec() == "cuda"@ && b.label_spec() == "CUDA"@,
        crate::text::lower(b.label_spec()) == b.name_spec(),
{
    reveal_strlit("cpu");
    reveal_strlit("metal");
    reveal_strlit("cuda");
    reveal_strlit("CPU");
    reveal_strlit("METAL");
    reveal_strlit("CUDA");
    assert(crate::text::lower(b.label_spec()) =~= b.name_spec());
}

} // verus!
