//! Keeps the last graph for as long as its parameters recur.
use crate::graph::params::GraphParams;
use crate::graph::ComputeGraph;
use vstd::prelude::*;

verus! {

/// The last graph and what it was built for.
pub struct GraphCache {
    pub current: Option<(ComputeGraph, GraphParams)>,
    /// Graphs built so far.
    pub built: u64,
}

impl GraphCache {
    /// No graph yet.
    pub fn new() -> (c: GraphCache)
        ensures
            c.current is None,
            c.built == 0,
    {
        GraphCache { current: None, built: 0 }
    }

    /// Whether the last graph serves the given parameters.
    pub fn try_reuse(&self, params: &GraphParams) -> (r: bool)
        ensures
            r == (self.current matches Some(c) && c.1 == *params),
    {
        match &self.current {
            None => false,
            Some(c) => c.1 == *params,
        }
    }

    /// Replaces the graph; it gets an identity of its own.
    pub fn replace_graph(&mut self, graph: ComputeGraph, params: GraphParams)
        ensures
            final(self).built == old(self).built.wrapping_add(1),
            final(self).current == Some(
                (ComputeGraph { uid: final(self).built, ..graph }, params),
            ),
    {
        self.built = self.built.wrapping_add(1);
        let graph: ComputeGraph = ComputeGraph {
            uid: self.built,
            nodes: graph.nodes,
            inputs: graph.inputs,
            outputs: graph.outputs,
        };
        self.current = Some((graph, params));
    }
}

} // verus!
