//! Cuts a graph into runs of one backend and lays out their execution.
use crate::graph::allocator::{kv_of, source_of, BufRef, GraphAllocator, KvPair, ReadError};
use crate::graph::ops::{op_label, op_label_spec, NodeMeta, Op};
use crate::graph::{Backend, CNode, ComputeGraph, NodeId, NodeView};
use crate::text::{decimal, push_decimal};
use vstd::prelude::*;

verus! {

/// A contiguous run of nodes on one backend.
pub struct Split {
    pub backend: Backend,
    /// The nodes `[start, end)`.
    pub node_range: (usize, usize),
    /// Nodes of other splits that this one reads, in order of first reading.
    pub inputs: Vec<NodeId>,
    /// Nodes of this split that others read, in order of first reading.
    pub outputs: Vec<NodeId>,
}

/// The backend a node runs on: its own, or that of the node before it.
pub open spec fn effective(nodes: Seq<NodeView>, i: int) -> Backend
    decreases i,
{
    match nodes[i].backend {
        Some(b) => b,
        None => if i <= 0 {
            Backend::CPU
        } else {
            effective(nodes, i - 1)
        },
    }
}

/// Split `j` ends where the next one begins, on another backend.
pub open spec fn meets(splits: Seq<Split>, j: int) -> bool {
    splits[j].node_range.1 == splits[j + 1].node_range.0 && splits[j].backend != splits[j
        + 1].backend
}

/// `splits` are the maximal runs of equal effective backend, in order. A graph
/// without nodes is one empty run on the host.
pub open spec fn is_partition(splits: Seq<Split>, nodes: Seq<NodeView>) -> bool {
    &&& splits.len() >= 1
    &&& splits[0].node_range.0 == 0
    &&& splits[splits.len() - 1].node_range.1 == nodes.len()
    &&& forall|j: int| 0 <= j < splits.len() - 1 ==> #[trigger] meets(splits, j)
    &&& forall|j: int|
        0 <= j < splits.len() && nodes.len() > 0 ==> (#[trigger] splits[j]).node_range.0
            < splits[j].node_range.1
    &&& forall|j: int, i: int|
        0 <= j < splits.len() && splits[j].node_range.0 <= i < splits[j].node_range.1
            ==> #[trigger] effective(nodes, i) == (#[trigger] splits[j]).backend
    &&& nodes.len() == 0 ==> splits.len() == 1 && splits[0].backend == Backend::CPU
}

/// What the nodes of `[lo, hi)` read from outside it, in order of first
/// reading, after the nodes before `id` and `k` sources of node `id`.
pub open spec fn reads_in(nodes: Seq<NodeView>, lo: int, hi: int, id: int, k: int) -> Seq<usize>
    decreases id, k,
{
    if k > 0 {
        let before = reads_in(nodes, lo, hi, id, k - 1);
        let s = nodes[id].src[k - 1];
        if lo <= id < hi && !(lo <= s < hi) && !before.contains(s) {
            before.push(s)
        } else {
            before
        }
    } else if id > 0 {
        reads_in(nodes, lo, hi, id - 1, nodes[id - 1].src.len() as int)
    } else {
        Seq::empty()
    }
}

/// What is read of `[lo, hi)` by nodes outside it, in order of first reading,
/// after the nodes before `id` and `k` sources of node `id`.
pub open spec fn reads_out(nodes: Seq<NodeView>, lo: int, hi: int, id: int, k: int) -> Seq<usize>
    decreases id, k,
{
    if k > 0 {
        let before = reads_out(nodes, lo, hi, id, k - 1);
        let s = nodes[id].src[k - 1];
        if !(lo <= id < hi) && lo <= s < hi && !before.contains(s) {
            before.push(s)
        } else {
            before
        }
    } else if id > 0 {
        reads_out(nodes, lo, hi, id - 1, nodes[id - 1].src.len() as int)
    } else {
        Seq::empty()
    }
}

/// The split lists of the whole graph.
pub open spec fn crossings(splits: Seq<Split>, nodes: Seq<NodeView>, id: int, k: int) -> bool {
    forall|j: int|
        0 <= j < splits.len() ==> (#[trigger] splits[j]).inputs@ == reads_in(
            nodes,
            splits[j].node_range.0 as int,
            splits[j].node_range.1 as int,
            id,
            k,
        ) && splits[j].outputs@ == reads_out(
            nodes,
            splits[j].node_range.0 as int,
            splits[j].node_range.1 as int,
            id,
            k,
        )
}

/// The splits of a graph.
pub open spec fn splits_of(splits: Seq<Split>, nodes: Seq<NodeView>) -> bool {
    is_partition(splits, nodes) && crossings(splits, nodes, nodes.len() as int, 0)
}

/// Every source is a node of the graph.
pub open spec fn sources_exist(nodes: Seq<NodeView>) -> bool {
    forall|i: int, k: int|
        0 <= i < nodes.len() && 0 <= k < nodes[i].src.len() ==> (#[trigger] nodes[i].src[k])
            < nodes.len()
}

fn listed(v: &Vec<NodeId>, x: NodeId) -> (r: bool)
    ensures
        r == v@.contains(x),
{
    let mut i: usize = 0;
    while i < v.len()
        invariant
            i <= v@.len(),
            forall|k: int| 0 <= k < i ==> v@[k] != x,
        decreases v@.len() - i,
    {
        if v[i] == x {
            return true;
        }
        i = i + 1;
    }
    false
}

impl Split {
    fn new(backend: Backend, start: usize) -> (s: Split)
        ensures
            s.backend == backend,
            s.node_range == (start, start),
            s.inputs@ == Seq::<usize>::empty(),
            s.outputs@ == Seq::<usize>::empty(),
    {
        Split { backend, node_range: (start, start), inputs: Vec::new(), outputs: Vec::new() }
    }
}

/// Plans the execution of graphs.
pub struct BackendScheduler;

impl Default for BackendScheduler {
    fn default() -> (s: Self)
        ensures
            s == BackendScheduler,
    {
        BackendScheduler
    }
}

/// The nodes after assignment: an explicit backend stays, otherwise the
/// capability answer holds, otherwise the host.
pub open spec fn assigned(nodes: Seq<NodeView>, supported: Seq<Option<Backend>>) -> Seq<NodeView> {
    nodes.map(
        |i: int, n: NodeView|
            NodeView {
                backend: Some(
                    match n.backend {
                        Some(b) => b,
                        None => match supported[i] {
                            Some(b) => b,
                            None => Backend::CPU,
                        },
                    },
                ),
                ..n
            },
    )
}

impl BackendScheduler {
    /// A scheduler.
    pub fn new() -> (s: Self)
        ensures
            s == BackendScheduler,
    {
        BackendScheduler
    }

    /// Gives every node a backend; `supported[i]` is the best backend that can
    /// run node `i`, taking the node's block into account.
    pub fn assign_backends(&self, graph: &mut ComputeGraph, supported: &Vec<Option<Backend>>)
        requires
            supported@.len() == old(graph).nodes@.len(),
        ensures
            final(graph).view_nodes() == assigned(old(graph).view_nodes(), supported@),
            final(graph).inputs@ == old(graph).inputs@,
            final(graph).outputs@ == old(graph).outputs@,
            final(graph).uid == old(graph).uid,
    {
        let ghost before = graph.view_nodes();
        let n: usize = graph.nodes.len();
        let mut i: usize = 0;
        while i < n
            invariant
                i <= n,
                n == graph.nodes@.len(),
                n == before.len(),
                supported@.len() == n,
                graph.inputs@ == old(graph).inputs@,
                graph.outputs@ == old(graph).outputs@,
                graph.uid == old(graph).uid,
                forall|k: int|
                    0 <= k < i ==> (#[trigger] graph.nodes@[k])@ == assigned(before, supported@)[k],
                forall|k: int| i <= k < n ==> (#[trigger] graph.nodes@[k])@ == before[k],
            decreases n - i,
        {
            let current: Option<Backend> = graph.nodes[i].backend;
            if current.is_none() {
                let b: Backend = match supported[i] {
                    Some(b) => b,
                    None => Backend::CPU,
                };
                graph.nodes[i].backend = Some(b);
            }
            assert(graph.nodes@[i as int]@ =~= assigned(before, supported@)[i as int]);
            i = i + 1;
        }
        assert(graph.view_nodes() =~= assigned(before, supported@));
    }

    /// Cuts the graph into maximal runs of one backend and finds what crosses
    /// between them.
    pub fn split_graph(&self, graph: &ComputeGraph) -> (splits: Vec<Split>)
        requires
            sources_exist(graph.view_nodes()),
        ensures
            splits_of(splits@, graph.view_nodes()),
    {
        let ghost nodes = graph.view_nodes();
        let n: usize = graph.n_nodes();
        let mut splits: Vec<Split> = self.partition(graph);
        let mut split_of: Vec<usize> = Vec::new();
        let mut j: usize = 0;
        while j < splits.len()
            invariant
                j <= splits@.len(),
                is_partition(splits@, nodes),
                split_of@.len() == (if j == 0 { 0 } else { splits@[j - 1].node_range.1 as int }),
                forall|i: int| 0 <= i < split_of@.len() ==> (#[trigger] split_of@[i]) < j,
                forall|i: int| 0 <= i < split_of@.len() ==> splits@[(#[trigger] split_of@[i]) as int].node_range.0 <= i
                    < splits@[split_of@[i] as int].node_range.1,
            decreases splits@.len() - j,
        {
            let end: usize = splits[j].node_range.1;
            assert(j > 0 ==> meets(splits@, j - 1));
            let mut id: usize = splits[j].node_range.0;
            assert(id <= end);
            while id < end
                invariant
                    j < splits@.len(),
                    splits@[j as int].node_range.0 <= id <= end,
                    end == splits@[j as int].node_range.1,
                    split_of@.len() == id,
                    forall|i: int| 0 <= i < split_of@.len() ==> (#[trigger] split_of@[i]) <= j,
                    forall|i: int| 0 <= i < split_of@.len() ==> splits@[(#[trigger] split_of@[i]) as int].node_range.0
                        <= i < splits@[split_of@[i] as int].node_range.1,
                decreases end - id,
            {
                split_of.push(j);
                id = id + 1;
            }
            j = j + 1;
        }
        proof {
            lemma_no_reads(nodes, splits@);
        }
        let mut id: usize = 0;
        while id < n
            invariant
                id <= n,
                n == graph.nodes@.len(),
                nodes == graph.view_nodes(),
                sources_exist(nodes),
                is_partition(splits@, nodes),
                split_of@.len() == n,
                forall|i: int| 0 <= i < n ==> (#[trigger] split_of@[i]) < splits@.len(),
                forall|i: int| 0 <= i < n ==> splits@[(#[trigger] split_of@[i]) as int].node_range.0 <= i
                    < splits@[split_of@[i] as int].node_range.1,
                crossings(splits@, nodes, id as int, 0),
            decreases n - id,
        {
            let si: usize = split_of[id];
            let m: usize = graph.nodes[id].src.len();
            let mut k: usize = 0;
            while k < m
                invariant
                    k <= m,
                    id < n,
                    n == graph.nodes@.len(),
                    nodes == graph.view_nodes(),
                    sources_exist(nodes),
                    m == nodes[id as int].src.len(),
                    m == graph.nodes@[id as int].src@.len(),
                    si == split_of@[id as int],
                    is_partition(splits@, nodes),
                    split_of@.len() == n,
                    forall|i: int| 0 <= i < n ==> (#[trigger] split_of@[i]) < splits@.len(),
                    forall|i: int| 0 <= i < n ==> splits@[(#[trigger] split_of@[i]) as int].node_range.0 <= i
                        < splits@[split_of@[i] as int].node_range.1,
                    crossings(splits@, nodes, id as int, k as int),
                decreases m - k,
            {
                let s: usize = graph.nodes[id].src[k];
                assert(nodes[id as int].src[k as int] == s);
                let sj: usize = split_of[s];
                let ghost before = splits@;
                if sj != si {
                    if !listed(&splits[si].inputs, s) {
                        splits[si].inputs.push(s);
                    }
                    if !listed(&splits[sj].outputs, s) {
                        splits[sj].outputs.push(s);
                    }
                }
                proof {
                    lemma_crossing_step(
                        nodes,
                        before,
                        splits@,
                        id as int,
                        k as int,
                        si as int,
                        sj as int,
                    );
                }
                k = k + 1;
            }
            proof {
                lemma_next_node(nodes, splits@, id as int);
            }
            id = id + 1;
        }
        splits
    }

    /// The runs of equal backend, with empty lists.
    fn partition(&self, graph: &ComputeGraph) -> (splits: Vec<Split>)
        ensures
            is_partition(splits@, graph.view_nodes()),
            forall|j: int|
                0 <= j < splits@.len() ==> (#[trigger] splits@[j]).inputs@ == Seq::<usize>::empty()
                    && splits@[j].outputs@ == Seq::<usize>::empty(),
    {
        let ghost nodes = graph.view_nodes();
        let n: usize = graph.n_nodes();
        let mut splits: Vec<Split> = Vec::new();
        let mut backend: Backend = Backend::CPU;
        let mut start: usize = 0;
        let mut id: usize = 0;
        while id < n
            invariant
                id <= n,
                n == graph.nodes@.len(),
                nodes == graph.view_nodes(),
                id == 0 ==> start == 0 && splits@.len() == 0 && backend == Backend::CPU,
                id > 0 ==> start < id && backend == effective(nodes, id - 1),
                splits@.len() == 0 ==> start == 0,
                splits@.len() > 0 ==> splits@[0].node_range.0 == 0 && splits@[splits@.len()
                    - 1].node_range.1 == start && splits@[splits@.len() - 1].backend != backend,
                forall|j: int| 0 <= j < splits@.len() - 1 ==> #[trigger] meets(splits@, j),
                forall|j: int|
                    0 <= j < splits@.len() ==> (#[trigger] splits@[j]).node_range.0
                        < splits@[j].node_range.1,
                forall|j: int, i: int|
                    0 <= j < splits@.len() && splits@[j].node_range.0 <= i
                        < splits@[j].node_range.1 ==> #[trigger] effective(nodes, i) == (
                    #[trigger] splits@[j]).backend,
                forall|i: int| start <= i < id ==> #[trigger] effective(nodes, i) == backend,
                forall|j: int|
                    0 <= j < splits@.len() ==> (#[trigger] splits@[j]).inputs@ == Seq::<
                        usize,
                    >::empty() && splits@[j].outputs@ == Seq::<usize>::empty(),
            decreases n - id,
        {
            let b: Backend = match graph.nodes[id].backend {
                Some(b) => b,
                None => backend,
            };
            assert(b == effective(nodes, id as int)) by {
                assert(nodes[id as int].backend == graph.nodes@[id as int].backend);
            }
            if id > 0 && b != backend {
                let mut done: Split = Split::new(backend, start);
                done.node_range = (start, id);
                let ghost before = splits@;
                splits.push(done);
                proof {
                    lemma_push_meets(before, done);
                }
                start = id;
            }
            backend = b;
            id = id + 1;
        }
        let mut last: Split = Split::new(backend, start);
        last.node_range = (start, n);
        let ghost before = splits@;
        splits.push(last);
        proof {
            lemma_push_meets(before, last);
        }
        splits
    }
}

proof fn lemma_push_meets(splits: Seq<Split>, next: Split)
    requires
        forall|j: int| 0 <= j < splits.len() - 1 ==> #[trigger] meets(splits, j),
        splits.len() > 0 ==> splits.last().node_range.1 == next.node_range.0
            && splits.last().backend != next.backend,
    ensures
        forall|j: int| 0 <= j < splits.len() ==> #[trigger] meets(splits.push(next), j),
{
    assert forall|j: int| 0 <= j < splits.len() implies #[trigger] meets(splits.push(next), j) by {
        if j < splits.len() - 1 {
            assert(meets(splits, j));
        }
    }
}

proof fn lemma_reads_empty(nodes: Seq<NodeView>, lo: int, hi: int)
    ensures
        reads_in(nodes, lo, hi, 0, 0) == Seq::<usize>::empty(),
        reads_out(nodes, lo, hi, 0, 0) == Seq::<usize>::empty(),
{
}

proof fn lemma_no_reads(nodes: Seq<NodeView>, splits: Seq<Split>)
    requires
        forall|j: int|
            0 <= j < splits.len() ==> (#[trigger] splits[j]).inputs@ == Seq::<usize>::empty()
                && splits[j].outputs@ == Seq::<usize>::empty(),
    ensures
        crossings(splits, nodes, 0, 0),
{
    assert forall|j: int| 0 <= j < splits.len() implies (#[trigger] splits[j]).inputs@ == reads_in(
        nodes,
        splits[j].node_range.0 as int,
        splits[j].node_range.1 as int,
        0,
        0,
    ) && splits[j].outputs@ == reads_out(
        nodes,
        splits[j].node_range.0 as int,
        splits[j].node_range.1 as int,
        0,
        0,
    ) by {
        lemma_reads_empty(
            nodes,
            splits[j].node_range.0 as int,
            splits[j].node_range.1 as int,
        );
    }
}

proof fn lemma_next_node(nodes: Seq<NodeView>, splits: Seq<Split>, id: int)
    requires
        0 <= id < nodes.len(),
        crossings(splits, nodes, id, nodes[id].src.len() as int),
    ensures
        crossings(splits, nodes, id + 1, 0),
{
}

/// The ranges of a partition do not meet.
proof fn lemma_ranges_ordered(splits: Seq<Split>, nodes: Seq<NodeView>, a: int, b: int)
    requires
        is_partition(splits, nodes),
        0 <= a < b < splits.len(),
    ensures
        splits[a].node_range.1 <= splits[b].node_range.0,
    decreases b - a,
{
    assert(meets(splits, a));
    if a + 1 < b {
        lemma_ranges_ordered(splits, nodes, a + 1, b);
        assert(nodes.len() > 0) by {
            if nodes.len() == 0 {
                assert(splits.len() == 1);
            }
        }
    }
}

proof fn lemma_crossing_step(
    nodes: Seq<NodeView>,
    before: Seq<Split>,
    after: Seq<Split>,
    id: int,
    k: int,
    si: int,
    sj: int,
)
    requires
        0 <= id < nodes.len(),
        0 <= k < nodes[id].src.len(),
        is_partition(before, nodes),
        crossings(before, nodes, id, k),
        0 <= si < before.len(),
        0 <= sj < before.len(),
        before[si].node_range.0 <= id < before[si].node_range.1,
        before[sj].node_range.0 <= nodes[id].src[k] < before[sj].node_range.1,
        after.len() == before.len(),
        forall|j: int|
            0 <= j < before.len() ==> (#[trigger] after[j]).node_range == before[j].node_range
                && after[j].backend == before[j].backend && after[j].inputs@ == (if j == si && si
                != sj && !before[j].inputs@.contains(nodes[id].src[k]) {
                before[j].inputs@.push(nodes[id].src[k])
            } else {
                before[j].inputs@
            }) && after[j].outputs@ == (if j == sj && si != sj && !before[j].outputs@.contains(
                nodes[id].src[k],
            ) {
                before[j].outputs@.push(nodes[id].src[k])
            } else {
                before[j].outputs@
            }),
    ensures
        is_partition(after, nodes),
        crossings(after, nodes, id, k + 1),
{
    let s = nodes[id].src[k];
    assert forall|j: int| 0 <= j < after.len() - 1 implies #[trigger] meets(after, j) by {
        assert(meets(before, j));
        assert(after[j].node_range == before[j].node_range);
        assert(after[j + 1].node_range == before[j + 1].node_range);
    }
    assert forall|j: int| 0 <= j < after.len() implies (#[trigger] after[j]).inputs@ == reads_in(
        nodes,
        after[j].node_range.0 as int,
        after[j].node_range.1 as int,
        id,
        k + 1,
    ) && after[j].outputs@ == reads_out(
        nodes,
        after[j].node_range.0 as int,
        after[j].node_range.1 as int,
        id,
        k + 1,
    ) by {
        assert(before[j].node_range == after[j].node_range);
        if j < si {
            lemma_ranges_ordered(before, nodes, j, si);
        }
        if si < j {
            lemma_ranges_ordered(before, nodes, si, j);
        }
        if j < sj {
            lemma_ranges_ordered(before, nodes, j, sj);
        }
        if sj < j {
            lemma_ranges_ordered(before, nodes, sj, j);
        }
        let lo = before[j].node_range.0 as int;
        let hi = before[j].node_range.1 as int;
        assert(lo <= id < hi <==> j == si);
        assert(lo <= s < hi <==> j == sj);
        assert(before[j].inputs@ == reads_in(nodes, lo, hi, id, k));
    }
}

/// One thing that the driver of an execution does.
#[derive(Debug, Clone, Copy, PartialEq, Eq, Structural)]
pub enum Step {
    /// Wait until a backend has finished what was queued on it.
    Sync(Backend),
    /// Read back the captures that the synchronised backend staged.
    FlushCaptures,
    /// Enqueue the copy of a node's value to a backend.
    CopyAcross { node: NodeId, to: Backend },
    /// Wait for that copy.
    AwaitCross { node: NodeId, to: Backend },
    /// Try to replay the recorded launch of nodes `start..end`, whose `Node` steps
    /// follow.
    Replay { start: NodeId, end: NodeId },
    /// Run a node.
    Node { id: NodeId, backend: Backend },
    /// Stage the captures of the split that just ran.
    StageCaptures(Backend),
}

/// What the driver wants of an execution.
#[derive(Debug, Clone, Copy, PartialEq, Eq, Structural)]
pub struct ExecOptions {
    /// Node outputs are recorded as they are produced.
    pub capture: bool,
    /// The device can record and replay the launches of a split.
    pub replay: bool,
}

/// Entering a split from another backend: flush what was running, enqueue every
/// copy, then wait for every copy.
pub open spec fn entry_steps(prev: Backend, s: Split) -> Seq<Step> {
    seq![Step::Sync(prev), Step::FlushCaptures] + s.inputs@.map_values(
        |n: usize| Step::CopyAcross { node: n, to: s.backend },
    ) + s.inputs@.map_values(|n: usize| Step::AwaitCross { node: n, to: s.backend })
}

/// Running a split: a replay attempt where one is possible, its nodes in order,
/// and the staging of captures on a device that needs it.
pub open spec fn body_steps(s: Split, o: ExecOptions) -> Seq<Step> {
    (if o.replay && !o.capture && s.backend == Backend::CUDA {
        seq![Step::Replay { start: s.node_range.0, end: s.node_range.1 }]
    } else {
        Seq::empty()
    }) + Seq::new(
        (s.node_range.1 - s.node_range.0) as nat,
        |i: int| Step::Node { id: (s.node_range.0 + i) as usize, backend: s.backend },
    ) + (if o.capture && s.backend == Backend::METAL {
        seq![Step::StageCaptures(s.backend)]
    } else {
        Seq::empty()
    })
}

/// The steps of the first `j` splits.
pub open spec fn steps_of(splits: Seq<Split>, o: ExecOptions, j: int) -> Seq<Step>
    decreases j,
{
    if j <= 0 {
        Seq::empty()
    } else if j == 1 {
        body_steps(splits[0], o)
    } else {
        steps_of(splits, o, j - 1) + entry_steps(splits[j - 2].backend, splits[j - 1])
            + body_steps(splits[j - 1], o)
    }
}

/// Whether the nodes that the replay at `i` stands for are the steps that follow it.
pub open spec fn covers(steps: Seq<Step>, i: int) -> bool {
    steps[i] matches Step::Replay { start, end } ==> {
        &&& start <= end
        &&& i + 1 + (end - start) <= steps.len()
        &&& forall|k: int|
            0 <= k < end - start ==> #[trigger] steps[i + 1 + k] == (Step::Node {
                id: (start + k) as usize,
                backend: Backend::CUDA,
            })
    }
}

/// Steps that a driver can go through: what a replay stands for follows it, and every
/// node is one of the first `n`.
pub open spec fn runnable(steps: Seq<Step>, n: int) -> bool {
    &&& forall|i: int| 0 <= i < steps.len() ==> #[trigger] covers(steps, i)
    &&& forall|i: int|
        0 <= i < steps.len() ==> ((#[trigger] steps[i]) matches Step::Node { id, .. } ==> id < n)
}

proof fn lemma_runnable_concat(a: Seq<Step>, b: Seq<Step>, n: int)
    requires
        runnable(a, n),
        runnable(b, n),
    ensures
        runnable(a + b, n),
{
    let s = a + b;
    assert forall|i: int| 0 <= i < s.len() implies #[trigger] covers(s, i) by {
        if i < a.len() {
            assert(s[i] == a[i]);
            assert(covers(a, i));
            if let Step::Replay { start, end } = a[i] {
                assert forall|k: int| 0 <= k < end - start implies #[trigger] s[i + 1 + k] == (
                Step::Node { id: (start + k) as usize, backend: Backend::CUDA }) by {
                    assert(s[i + 1 + k] == a[i + 1 + k]);
                }
            }
        } else {
            let j = i - a.len();
            assert(s[i] == b[j]);
            assert(covers(b, j));
            if let Step::Replay { start, end } = b[j] {
                assert forall|k: int| 0 <= k < end - start implies #[trigger] s[i + 1 + k] == (
                Step::Node { id: (start + k) as usize, backend: Backend::CUDA }) by {
                    assert(s[i + 1 + k] == b[j + 1 + k]);
                }
            }
        }
    }
    assert forall|i: int| 0 <= i < s.len() implies ((#[trigger] s[i]) matches Step::Node {
        id,
        ..
    } ==> id < n) by {
        if i < a.len() {
            assert(s[i] == a[i]);
        } else {
            assert(s[i] == b[i - a.len()]);
        }
    }
}

proof fn lemma_body_runnable(s: Split, o: ExecOptions, n: int)
    requires
        s.node_range.0 <= s.node_range.1 <= n,
    ensures
        runnable(body_steps(s, o), n),
{
    let b = body_steps(s, o);
    assert forall|i: int| 0 <= i < b.len() implies #[trigger] covers(b, i) by {
        if let Step::Replay { start, end } = b[i] {
            assert(i == 0);
        }
    }
}

proof fn lemma_entry_runnable(prev: Backend, s: Split, n: int)
    ensures
        runnable(entry_steps(prev, s), n),
{
    let e = entry_steps(prev, s);
    assert forall|i: int| 0 <= i < e.len() implies !((#[trigger] e[i]) is Replay) && !(
    e[i] is Node) by {}
}

proof fn lemma_steps_runnable(splits: Seq<Split>, nodes: Seq<NodeView>, o: ExecOptions, j: int)
    requires
        is_partition(splits, nodes),
        0 <= j <= splits.len(),
    ensures
        runnable(steps_of(splits, o, j), nodes.len() as int),
    decreases j,
{
    let n = nodes.len() as int;
    if j > 0 {
        lemma_range_ends(splits, nodes, j - 1);
        lemma_body_runnable(splits[j - 1], o, n);
        if j > 1 {
            lemma_steps_runnable(splits, nodes, o, j - 1);
            lemma_entry_runnable(splits[j - 2].backend, splits[j - 1], n);
            lemma_runnable_concat(
                steps_of(splits, o, j - 1),
                entry_steps(splits[j - 2].backend, splits[j - 1]),
                n,
            );
            lemma_runnable_concat(
                steps_of(splits, o, j - 1) + entry_steps(splits[j - 2].backend, splits[j - 1]),
                body_steps(splits[j - 1], o),
                n,
            );
        }
    }
}

/// A laid-out execution.
pub struct Execution {
    pub splits: Vec<Split>,
    pub steps: Vec<Step>,
}

/// Why an execution cannot go on.
#[derive(Debug, Clone, Copy, PartialEq, Eq, Structural)]
pub enum ExecError {
    /// Rows are no longer positions, and no backend takes resolved rows.
    KvNotIdentity,
    /// A node's buffer is not where its split runs.
    Mismatch { id: NodeId, buffer: Backend, split: Backend },
    /// A source cannot be read.
    Source(ReadError),
    /// The split's backend is not enabled.
    NotEnabled(Backend),
    /// A replay is due and there is no CUDA device.
    NoReplay,
}

impl BackendScheduler {
    /// Lays out the execution of a graph, split by split, ending with a
    /// synchronisation of the last backend. Refuses if the key/value rows are
    /// no longer positions: no backend reads resolved rows, and running anyway
    /// would write the wrong row.
    pub fn execute(&self, graph: &ComputeGraph, a: &GraphAllocator, options: ExecOptions) -> (r:
        Result<Execution, ExecError>)
        requires
            graph.wf(),
        ensures
            !a.kv_identity ==> r is Err && r->Err_0 == ExecError::KvNotIdentity,
            a.kv_identity ==> r is Ok,
            r matches Ok(x) ==> splits_of(x.splits@, graph.view_nodes()) && x.steps@ == steps_of(
                x.splits@,
                options,
                x.splits@.len() as int,
            ) + seq![Step::Sync(x.splits@.last().backend), Step::FlushCaptures],
            r matches Ok(x) ==> runnable(x.steps@, graph.nodes@.len() as int),
    {
        if !a.kv_is_identity() {
            return Err(ExecError::KvNotIdentity);
        }
        let splits: Vec<Split> = self.split_graph(graph);
        let mut steps: Vec<Step> = Vec::new();
        let mut j: usize = 0;
        while j < splits.len()
            invariant
                j <= splits@.len(),
                splits_of(splits@, graph.view_nodes()),
                steps@ == steps_of(splits@, options, j as int),
            decreases splits@.len() - j,
        {
            if j > 0 {
                push_entry(&mut steps, splits[j - 1].backend, &splits[j]);
            }
            push_body(&mut steps, &splits[j], options);
            assert(steps@ == steps_of(splits@, options, j + 1));
            j = j + 1;
        }
        let last: Backend = splits[splits.len() - 1].backend;
        let ghost before = steps@;
        steps.push(Step::Sync(last));
        steps.push(Step::FlushCaptures);
        assert(steps@ =~= before + seq![Step::Sync(last), Step::FlushCaptures]);
        proof {
            let n = graph.view_nodes().len() as int;
            lemma_steps_runnable(splits@, graph.view_nodes(), options, splits@.len() as int);
            assert(runnable(seq![Step::Sync(last), Step::FlushCaptures], n));
            lemma_runnable_concat(before, seq![Step::Sync(last), Step::FlushCaptures], n);
        }
        Ok(Execution { splits, steps })
    }
}

fn push_entry(steps: &mut Vec<Step>, prev: Backend, s: &Split)
    ensures
        final(steps)@ == old(steps)@ + entry_steps(prev, *s),
{
    let ghost before = steps@;
    let ghost copies = s.inputs@.map_values(|n: usize| Step::CopyAcross { node: n, to: s.backend });
    let ghost waits = s.inputs@.map_values(|n: usize| Step::AwaitCross { node: n, to: s.backend });
    steps.push(Step::Sync(prev));
    steps.push(Step::FlushCaptures);
    let ghost head = before + seq![Step::Sync(prev), Step::FlushCaptures];
    assert(steps@ =~= head);
    let mut i: usize = 0;
    while i < s.inputs.len()
        invariant
            i <= s.inputs@.len(),
            copies == s.inputs@.map_values(
                |n: usize| Step::CopyAcross { node: n, to: s.backend },
            ),
            steps@ == head + copies.take(i as int),
        decreases s.inputs@.len() - i,
    {
        steps.push(Step::CopyAcross { node: s.inputs[i], to: s.backend });
        assert(copies.take(i + 1) =~= copies.take(i as int).push(copies[i as int]));
        i = i + 1;
    }
    assert(copies.take(i as int) =~= copies);
    let mut i: usize = 0;
    while i < s.inputs.len()
        invariant
            i <= s.inputs@.len(),
            waits == s.inputs@.map_values(|n: usize| Step::AwaitCross { node: n, to: s.backend }),
            steps@ == head + copies + waits.take(i as int),
        decreases s.inputs@.len() - i,
    {
        steps.push(Step::AwaitCross { node: s.inputs[i], to: s.backend });
        assert(waits.take(i + 1) =~= waits.take(i as int).push(waits[i as int]));
        i = i + 1;
    }
    assert(waits.take(i as int) =~= waits);
    assert(steps@ =~= before + entry_steps(prev, *s));
}

fn push_body(steps: &mut Vec<Step>, s: &Split, o: ExecOptions)
    requires
        s.node_range.0 <= s.node_range.1,
    ensures
        final(steps)@ == old(steps)@ + body_steps(*s, o),
{
    let ghost before = steps@;
    let start: usize = s.node_range.0;
    let end: usize = s.node_range.1;
    let ghost head = if o.replay && !o.capture && s.backend == Backend::CUDA {
        seq![Step::Replay { start: s.node_range.0, end: s.node_range.1 }]
    } else {
        Seq::empty()
    };
    if o.replay && !o.capture && s.backend == Backend::CUDA {
        steps.push(Step::Replay { start, end });
    }
    assert(steps@ =~= before + head);
    let ghost nodes = Seq::new(
        (s.node_range.1 - s.node_range.0) as nat,
        |i: int| Step::Node { id: (s.node_range.0 + i) as usize, backend: s.backend },
    );
    let mut id: usize = start;
    while id < end
        invariant
            start <= id <= end,
            start == s.node_range.0,
            end == s.node_range.1,
            nodes == Seq::new(
                (s.node_range.1 - s.node_range.0) as nat,
                |i: int| Step::Node { id: (s.node_range.0 + i) as usize, backend: s.backend },
            ),
            steps@ == before + head + nodes.take(id - start),
        decreases end - id,
    {
        steps.push(Step::Node { id, backend: s.backend });
        assert(nodes.take(id + 1 - start) =~= nodes.take(id - start).push(nodes[id - start]));
        id = id + 1;
    }
    assert(nodes.take(end - start) =~= nodes);
    if o.capture && s.backend == Backend::METAL {
        steps.push(Step::StageCaptures(s.backend));
    }
    assert(steps@ =~= before + body_steps(*s, o));
}

/// What a `Node` step amounts to.
pub enum NodeTask {
    /// An input: its data is there already, in this buffer if it has one.
    Input(Option<BufRef>),
    /// Nothing reads the node, so it has no buffer and does not run.
    Dead,
    /// Run the operator.
    Run {
        /// Where the sources are read, in operand order.
        inputs: Vec<BufRef>,
        out: BufRef,
        /// The regions of the node's layer, for operators that touch them.
        kv: Option<KvPair>,
    },
}

/// The sources before `k`, or the error of the first that cannot be read.
pub open spec fn sources_of(
    a: &GraphAllocator,
    uid: u64,
    src: Seq<usize>,
    to: Backend,
    k: int,
) -> Result<Seq<BufRef>, ReadError>
    decreases k,
{
    if k <= 0 {
        Ok(Seq::empty())
    } else {
        match sources_of(a, uid, src, to, k - 1) {
            Err(e) => Err(e),
            Ok(before) => match source_of(a, uid, src[k - 1], to) {
                Err(e) => Err(e),
                Ok(b) => Ok(before.push(b)),
            },
        }
    }
}

/// The layer whose regions a node touches.
pub open spec fn kv_layer(n: NodeView) -> Option<usize> {
    match n.op {
        Op::KvcacheStore { layer } => Some(layer),
        Op::FusedQKV { layer } => Some(layer),
        Op::QkvBiasRopeStore { layer } => Some(layer),
        Op::FusedQkvNorm { layer } => Some(layer),
        Op::Attn { .. } => match n.meta {
            NodeMeta::Attn(m) => Some(m.layer),
            _ => None,
        },
        _ => None,
    }
}

/// The regions that a node touches.
pub open spec fn kv_pair_of(a: &GraphAllocator, n: NodeView) -> Option<KvPair> {
    match kv_layer(n) {
        Some(layer) => kv_of(a.kv@, layer as int),
        None => None,
    }
}

/// Whether a backend can run nodes.
pub open spec fn enabled(a: &GraphAllocator, b: Backend) -> bool {
    match b {
        Backend::CPU => true,
        Backend::METAL => a.metal_enabled,
        Backend::CUDA => a.cuda_enabled,
    }
}

/// What running node `id` in a split of `backend` comes to.
pub open spec fn task_is(
    r: Result<NodeTask, ExecError>,
    a: &GraphAllocator,
    uid: u64,
    n: NodeView,
    id: usize,
    backend: Backend,
) -> bool {
    if n.op is Input {
        r matches Ok(NodeTask::Input(buf)) && buf == crate::graph::allocator::buffer_of(
            a.node_bufs@,
            id as int,
        )
    } else {
        match crate::graph::allocator::buffer_of(a.node_bufs@, id as int) {
            None => r matches Ok(NodeTask::Dead),
            Some(br) => if br.backend != backend {
                r is Err && r->Err_0 == (ExecError::Mismatch {
                    id,
                    buffer: br.backend,
                    split: backend,
                })
            } else {
                match sources_of(a, uid, n.src, backend, n.src.len() as int) {
                    Err(e) => r is Err && r->Err_0 == ExecError::Source(e),
                    Ok(bufs) => if !enabled(a, backend) {
                        r is Err && r->Err_0 == ExecError::NotEnabled(backend)
                    } else {
                        r matches Ok(NodeTask::Run { inputs, out, kv }) && inputs@ == bufs && out
                            == br && kv == kv_pair_of(a, n)
                    },
                }
            },
        }
    }
}

fn kv_pair_for(a: &GraphAllocator, node: &CNode) -> (r: Option<KvPair>)
    ensures
        r == kv_pair_of(a, node@),
{
    match node.op {
        Op::KvcacheStore { layer } => a.kv_pair(layer),
        Op::FusedQKV { layer } => a.kv_pair(layer),
        Op::QkvBiasRopeStore { layer } => a.kv_pair(layer),
        Op::FusedQkvNorm { layer } => a.kv_pair(layer),
        Op::Attn { .. } => match node.meta {
            NodeMeta::Attn(m) => a.kv_pair(m.layer),
            _ => None,
        },
        _ => None,
    }
}

impl BackendScheduler {
    /// Resolves what a `Node` step reads and writes, at the moment it is due.
    pub fn prepare_node(
        &self,
        graph: &ComputeGraph,
        a: &GraphAllocator,
        id: NodeId,
        backend: Backend,
    ) -> (r: Result<NodeTask, ExecError>)
        requires
            id < graph.nodes@.len(),
        ensures
            task_is(r, a, graph.uid, graph.view_nodes()[id as int], id, backend),
    {
        let node: &CNode = graph.node(id);
        let ghost n = graph.view_nodes()[id as int];
        assert(n == node@);
        if node.is_input() {
            return Ok(NodeTask::Input(a.node_buffer(id)));
        }
        let br: BufRef = match a.node_buffer(id) {
            None => {
                return Ok(NodeTask::Dead);
            },
            Some(br) => br,
        };
        if br.backend != backend {
            return Err(ExecError::Mismatch { id, buffer: br.backend, split: backend });
        }
        let mut inputs: Vec<BufRef> = Vec::new();
        let mut k: usize = 0;
        while k < node.src.len()
            invariant
                k <= node.src@.len(),
                n == node@,
                n == graph.view_nodes()[id as int],
                sources_of(a, graph.uid, n.src, backend, k as int) == Ok::<Seq<BufRef>, ReadError>(
                    inputs@,
                ),
                crate::graph::allocator::buffer_of(a.node_bufs@, id as int) == Some(br),
                br.backend == backend,
                !(n.op is Input),
            decreases node.src@.len() - k,
        {
            match a.source(graph.uid, node.src[k], backend) {
                Err(e) => {
                    proof {
                        lemma_sources_fail(a, graph.uid, n.src, backend, k as int, n.src.len() as int, e);
                    }
                    return Err(ExecError::Source(e));
                },
                Ok(b) => {
                    inputs.push(b);
                },
            }
            k = k + 1;
        }
        let kv: Option<KvPair> = kv_pair_for(a, node);
        if !a.backend_enabled(backend) {
            return Err(ExecError::NotEnabled(backend));
        }
        Ok(NodeTask::Run { inputs, out: br, kv })
    }
}

/// The first unreadable source decides.
proof fn lemma_sources_fail(
    a: &GraphAllocator,
    uid: u64,
    src: Seq<usize>,
    to: Backend,
    k: int,
    m: int,
    e: ReadError,
)
    requires
        0 <= k < m <= src.len(),
        sources_of(a, uid, src, to, k) is Ok,
        source_of(a, uid, src[k], to) == Err::<BufRef, ReadError>(e),
    ensures
        sources_of(a, uid, src, to, m) == Err::<Seq<BufRef>, ReadError>(e),
    decreases m,
{
    if m > k + 1 {
        lemma_sources_fail(a, uid, src, to, k, m - 1, e);
    }
}

/// What becomes of a node's output when outputs are recorded.
#[derive(Debug, Clone, Copy, PartialEq, Eq, Structural)]
pub enum CaptureTask {
    /// Nothing.
    Skip,
    /// Read it now.
    Read,
    /// Stage it when the split ends, read it after the next synchronisation.
    Stage,
    /// Queue a copy behind the kernel, read it after the next synchronisation.
    Queue,
}

/// The recording rule: an input was filled in by the host and is read at once,
/// wherever its buffer is; key/value regions are too large to record; of the others
/// the host's are read at once, a device's when it has been synchronised.
pub open spec fn capture_spec(op: Op, on: Backend, capture: bool) -> CaptureTask {
    if !capture || op is KvcacheStore || op is KvcacheLoad {
        CaptureTask::Skip
    } else if op is Input {
        CaptureTask::Read
    } else {
        match on {
            Backend::CPU => CaptureTask::Read,
            Backend::METAL => CaptureTask::Stage,
            Backend::CUDA => CaptureTask::Queue,
        }
    }
}

/// What becomes of the output of a node whose turn it was, in a buffer on `on`.
pub fn capture_output(op: &Op, on: Backend, capture: bool) -> (r: CaptureTask)
    ensures
        r == capture_spec(*op, on, capture),
{
    if !capture || matches!(op, Op::KvcacheStore { .. } | Op::KvcacheLoad { .. }) {
        return CaptureTask::Skip;
    }
    if matches!(op, Op::Input) {
        return CaptureTask::Read;
    }
    match on {
        Backend::CPU => CaptureTask::Read,
        Backend::METAL => CaptureTask::Stage,
        Backend::CUDA => CaptureTask::Queue,
    }
}

/// What of an input is recorded, and when: nothing unless outputs are recorded, else
/// its buffer, at once and whatever its backend; nothing of an input without one.
pub fn capture_input(task: &NodeTask, capture: bool) -> (r: Option<BufRef>)
    ensures
        r == (match *task {
            NodeTask::Input(buf) => if capture {
                buf
            } else {
                None
            },
            _ => None,
        }),
{
    match task {
        NodeTask::Input(buf) => if capture {
            *buf
        } else {
            None
        },
        _ => None,
    }
}

/// What becomes of an output whose copy was to be queued: where the queue has no room
/// for it, it is read at once.
pub fn queue_outcome(accepted: bool) -> (r: CaptureTask)
    ensures
        r == (if accepted {
            CaptureTask::Queue
        } else {
            CaptureTask::Read
        }),
{
    if accepted {
        CaptureTask::Queue
    } else {
        CaptureTask::Read
    }
}

/// Whether a replay can be tried.
pub fn prepare_replay(a: &GraphAllocator) -> (r: Result<(), ExecError>)
    ensures
        r == (if a.cuda_enabled {
            Ok::<(), ExecError>(())
        } else {
            Err(ExecError::NoReplay)
        }),
{
    if a.backend_enabled(Backend::CUDA) {
        Ok(())
    } else {
        Err(ExecError::NoReplay)
    }
}

/// The nodes of a split that are still to run: none if its launch was replayed, else
/// all of them in order.
pub open spec fn left_spec(range: (NodeId, NodeId), replayed: bool) -> Seq<usize> {
    if replayed {
        Seq::empty()
    } else {
        Seq::new((range.1 - range.0) as nat, |i: int| (range.0 + i) as usize)
    }
}

/// The nodes of a split that are still to run after a replay was tried.
pub fn nodes_left(s: &Split, replayed: bool) -> (r: Vec<NodeId>)
    requires
        s.node_range.0 <= s.node_range.1,
    ensures
        r@ == left_spec(s.node_range, replayed),
{
    let mut r: Vec<NodeId> = Vec::new();
    if replayed {
        return r;
    }
    let start: usize = s.node_range.0;
    let end: usize = s.node_range.1;
    let ghost want = left_spec(s.node_range, false);
    let mut id: usize = start;
    while id < end
        invariant
            start <= id <= end,
            want == Seq::new((end - start) as nat, |i: int| (start + i) as usize),
            r@ == want.take(id - start),
        decreases end - id,
    {
        r.push(id);
        assert(want.take(id + 1 - start) =~= want.take(id - start).push(want[id - start]));
        id = id + 1;
    }
    assert(want.take(end - start) =~= want);
    r
}

/// The text of an execution error; `op` is the operator of the node it names
/// and `reason` says why a backend is unavailable.
pub open spec fn error_text(e: ExecError, op: Op, reason: Seq<char>) -> Seq<char> {
    match e {
        ExecError::KvNotIdentity =>
            "KV cell mapping is no longer the identity: the resolved cell array must be passed to the backend, and no backend consumes it yet (Phase C / C2)"@,
        ExecError::Mismatch { id, buffer, split } => "node "@ + decimal(id as nat) + " ("@
            + op_label_spec(op) + ") buffer on "@ + buffer.label_spec()
            + " but executing split is "@ + split.label_spec() + " (assignment/alloc mismatch)"@,
        ExecError::Source(ReadError::NoBuffer { node }) => "node "@ + decimal(node as nat)
            + " has no allocated buffer"@,
        ExecError::Source(ReadError::CrossPending { node, to }) => "the copy of node "@ + decimal(
            node as nat,
        ) + " for "@ + to.label_spec() + " was read before its boundary wait (#58)"@,
        ExecError::NotEnabled(b) => b.name_spec() + " backend not enabled: "@ + reason,
        ExecError::NoReplay => "CUDA backend not enabled"@,
    }
}

impl ExecError {
    /// The error as a message.
    pub fn message(&self, op: &Op, reason: &str) -> (s: String)
        ensures
            s@ == error_text(*self, *op, reason@),
    {
        let mut s: String = String::new();
        match self {
            ExecError::KvNotIdentity => {
                s.append(
                    "KV cell mapping is no longer the identity: the resolved cell array must be passed to the backend, and no backend consumes it yet (Phase C / C2)",
                );
            },
            ExecError::Mismatch { id, buffer, split } => {
                s.append("node ");
                push_decimal(&mut s, *id as u64);
                s.append(" (");
                s.append(op_label(op));
                s.append(") buffer on ");
                s.append(buffer.label());
                s.append(" but executing split is ");
                s.append(split.label());
                s.append(" (assignment/alloc mismatch)");
            },
            ExecError::Source(ReadError::NoBuffer { node }) => {
                s.append("node ");
                push_decimal(&mut s, *node as u64);
                s.append(" has no allocated buffer");
            },
            ExecError::Source(ReadError::CrossPending { node, to }) => {
                s.append("the copy of node ");
                push_decimal(&mut s, *node as u64);
                s.append(" for ");
                s.append(to.label());
                s.append(" was read before its boundary wait (#58)");
            },
            ExecError::NotEnabled(b) => {
                s.append(b.name());
                s.append(" backend not enabled: ");
                s.append(reason);
            },
            ExecError::NoReplay => {
                s.append("CUDA backend not enabled");
            },
        }
        assert(s@ =~= error_text(*self, *op, reason@));
        s
    }
}

/// Whether a node of `[lo, hi)` before node `id`, or among the first `k`
/// sources of node `id`, reads `s`.
pub open spec fn read_within(
    nodes: Seq<NodeView>,
    lo: int,
    hi: int,
    id: int,
    k: int,
    s: usize,
) -> bool {
    exists|i: int, m: int|
        lo <= i < hi && 0 <= i <= id && i < nodes.len() && 0 <= m < nodes[i].src.len() && (i < id
            || m < k) && #[trigger] nodes[i].src[m] == s
}

proof fn lemma_reads_in_members(
    nodes: Seq<NodeView>,
    lo: int,
    hi: int,
    id: int,
    k: int,
    s: usize,
)
    requires
        0 <= id <= nodes.len(),
        0 <= k,
        k > 0 ==> id < nodes.len() && k <= nodes[id].src.len(),
    ensures
        reads_in(nodes, lo, hi, id, k).no_duplicates(),
        reads_in(nodes, lo, hi, id, k).contains(s) <==> (!(lo <= s < hi) && read_within(
            nodes,
            lo,
            hi,
            id,
            k,
            s,
        )),
    decreases id, k,
{
    let r = reads_in(nodes, lo, hi, id, k);
    if k > 0 {
        lemma_reads_in_members(nodes, lo, hi, id, k - 1, s);
        let before = reads_in(nodes, lo, hi, id, k - 1);
        let t = nodes[id].src[k - 1];
        if r.len() > before.len() {
            assert(r == before.push(t));
            assert(r.last() == t);
            if s == t {
                assert(r[before.len() as int] == s);
            }
            if before.contains(s) {
                let x = choose|x: int| 0 <= x < before.len() && before[x] == s;
                assert(r[x] == s);
            }
        }
        if lo <= id < hi && s == t {
            assert(nodes[id].src[k - 1] == s);
            assert(read_within(nodes, lo, hi, id, k, s));
        }
        if read_within(nodes, lo, hi, id, k, s) {
            let (i, m) = choose|i: int, m: int|
                lo <= i < hi && 0 <= i <= id && i < nodes.len() && 0 <= m < nodes[i].src.len() && (i
                    < id || m < k) && #[trigger] nodes[i].src[m] == s;
            if i < id || m < k - 1 {
                assert(nodes[i].src[m] == s);
                assert(read_within(nodes, lo, hi, id, k - 1, s));
            }
        }
        if read_within(nodes, lo, hi, id, k - 1, s) {
            let (i, m) = choose|i: int, m: int|
                lo <= i < hi && 0 <= i <= id && i < nodes.len() && 0 <= m < nodes[i].src.len() && (i
                    < id || m < k - 1) && #[trigger] nodes[i].src[m] == s;
            assert(nodes[i].src[m] == s);
            assert(read_within(nodes, lo, hi, id, k, s));
        }
    } else if id > 0 {
        let m = nodes[id - 1].src.len() as int;
        lemma_reads_in_members(nodes, lo, hi, id - 1, m, s);
        if read_within(nodes, lo, hi, id, 0, s) {
            let (i, q) = choose|i: int, q: int|
                lo <= i < hi && 0 <= i <= id && i < nodes.len() && 0 <= q < nodes[i].src.len() && (i
                    < id || q < 0) && #[trigger] nodes[i].src[q] == s;
            assert(nodes[i].src[q] == s);
            assert(read_within(nodes, lo, hi, id - 1, m, s));
        }
        if read_within(nodes, lo, hi, id - 1, m, s) {
            let (i, q) = choose|i: int, q: int|
                lo <= i < hi && 0 <= i <= id - 1 && i < nodes.len() && 0 <= q < nodes[i].src.len()
                    && (i < id - 1 || q < m) && #[trigger] nodes[i].src[q] == s;
            assert(nodes[i].src[q] == s);
            assert(read_within(nodes, lo, hi, id, 0, s));
        }
    }
}

/// The inputs of a split are exactly the nodes outside it that its own nodes
/// read, each once.
pub proof fn law_split_inputs_are_what_it_reads(
    splits: Seq<Split>,
    nodes: Seq<NodeView>,
    j: int,
    s: usize,
)
    requires
        splits_of(splits, nodes),
        0 <= j < splits.len(),
    ensures
        splits[j].inputs@.no_duplicates(),
        splits[j].inputs@.contains(s) <==> (!(splits[j].node_range.0 <= s
            < splits[j].node_range.1) && exists|i: int, m: int|
            splits[j].node_range.0 <= i < splits[j].node_range.1 && 0 <= m < nodes[i].src.len()
                && #[trigger] nodes[i].src[m] == s),
{
    let lo = splits[j].node_range.0 as int;
    let hi = splits[j].node_range.1 as int;
    let n = nodes.len() as int;
    lemma_reads_in_members(nodes, lo, hi, n, 0, s);
    if j < splits.len() - 1 {
        lemma_ranges_ordered(splits, nodes, j, splits.len() - 1);
        lemma_range_ends(splits, nodes, splits.len() - 1);
    }
    assert(hi <= n);
    if read_within(nodes, lo, hi, n, 0, s) {
        let (i, m) = choose|i: int, m: int|
            lo <= i < hi && 0 <= i <= n && i < nodes.len() && 0 <= m < nodes[i].src.len() && (i < n
                || m < 0) && #[trigger] nodes[i].src[m] == s;
        assert(nodes[i].src[m] == s);
    }
    if exists|i: int, m: int|
        lo <= i < hi && 0 <= m < nodes[i].src.len() && #[trigger] nodes[i].src[m] == s {
        let (i, m) = choose|i: int, m: int|
            lo <= i < hi && 0 <= m < nodes[i].src.len() && #[trigger] nodes[i].src[m] == s;
        assert(nodes[i].src[m] == s);
        assert(read_within(nodes, lo, hi, n, 0, s));
    }
}

/// Whether a node outside `[lo, hi)` reads `s`, among the nodes before `id` and
/// the first `k` sources of node `id`.
pub open spec fn read_outside(
    nodes: Seq<NodeView>,
    lo: int,
    hi: int,
    id: int,
    k: int,
    s: usize,
) -> bool {
    exists|i: int, m: int|
        !(lo <= i < hi) && 0 <= i <= id && i < nodes.len() && 0 <= m < nodes[i].src.len() && (i
            < id || m < k) && #[trigger] nodes[i].src[m] == s
}

proof fn lemma_reads_out_members(
    nodes: Seq<NodeView>,
    lo: int,
    hi: int,
    id: int,
    k: int,
    s: usize,
)
    requires
        0 <= id <= nodes.len(),
        0 <= k,
        k > 0 ==> id < nodes.len() && k <= nodes[id].src.len(),
    ensures
        reads_out(nodes, lo, hi, id, k).no_duplicates(),
        reads_out(nodes, lo, hi, id, k).contains(s) <==> (lo <= s < hi && read_outside(
            nodes,
            lo,
            hi,
            id,
            k,
            s,
        )),
    decreases id, k,
{
    let r = reads_out(nodes, lo, hi, id, k);
    if k > 0 {
        lemma_reads_out_members(nodes, lo, hi, id, k - 1, s);
        let before = reads_out(nodes, lo, hi, id, k - 1);
        let t = nodes[id].src[k - 1];
        if r.len() > before.len() {
            assert(r == before.push(t));
            assert(r.last() == t);
            if s == t {
                assert(r[before.len() as int] == s);
            }
            if before.contains(s) {
                let x = choose|x: int| 0 <= x < before.len() && before[x] == s;
                assert(r[x] == s);
            }
        }
        if !(lo <= id < hi) && s == t {
            assert(nodes[id].src[k - 1] == s);
            assert(read_outside(nodes, lo, hi, id, k, s));
        }
        if read_outside(nodes, lo, hi, id, k, s) {
            let (i, m) = choose|i: int, m: int|
                !(lo <= i < hi) && 0 <= i <= id && i < nodes.len() && 0 <= m < nodes[i].src.len() && (i
                    < id || m < k) && #[trigger] nodes[i].src[m] == s;
            if i < id || m < k - 1 {
                assert(nodes[i].src[m] == s);
                assert(read_outside(nodes, lo, hi, id, k - 1, s));
            }
        }
        if read_outside(nodes, lo, hi, id, k - 1, s) {
            let (i, m) = choose|i: int, m: int|
                !(lo <= i < hi) && 0 <= i <= id && i < nodes.len() && 0 <= m < nodes[i].src.len() && (i
                    < id || m < k - 1) && #[trigger] nodes[i].src[m] == s;
            assert(nodes[i].src[m] == s);
            assert(read_outside(nodes, lo, hi, id, k, s));
        }
    } else if id > 0 {
        let m = nodes[id - 1].src.len() as int;
        lemma_reads_out_members(nodes, lo, hi, id - 1, m, s);
        if read_outside(nodes, lo, hi, id, 0, s) {
            let (i, q) = choose|i: int, q: int|
                !(lo <= i < hi) && 0 <= i <= id && i < nodes.len() && 0 <= q < nodes[i].src.len() && (i
                    < id || q < 0) && #[trigger] nodes[i].src[q] == s;
            assert(nodes[i].src[q] == s);
            assert(read_outside(nodes, lo, hi, id - 1, m, s));
        }
        if read_outside(nodes, lo, hi, id - 1, m, s) {
            let (i, q) = choose|i: int, q: int|
                !(lo <= i < hi) && 0 <= i <= id - 1 && i < nodes.len() && 0 <= q < nodes[i].src.len()
                    && (i < id - 1 || q < m) && #[trigger] nodes[i].src[q] == s;
            assert(nodes[i].src[q] == s);
            assert(read_outside(nodes, lo, hi, id, 0, s));
        }
    }
}

/// The outputs of a split are exactly its nodes that nodes outside it read, each
/// once.
pub proof fn law_split_outputs_are_what_others_read(
    splits: Seq<Split>,
    nodes: Seq<NodeView>,
    j: int,
    s: usize,
)
    requires
        splits_of(splits, nodes),
        0 <= j < splits.len(),
    ensures
        splits[j].outputs@.no_duplicates(),
        splits[j].outputs@.contains(s) <==> (splits[j].node_range.0 <= s < splits[j].node_range.1
            && exists|i: int, m: int|
            0 <= i < nodes.len() && !(splits[j].node_range.0 <= i < splits[j].node_range.1) && 0
                <= m < nodes[i].src.len() && #[trigger] nodes[i].src[m] == s),
{
    let lo = splits[j].node_range.0 as int;
    let hi = splits[j].node_range.1 as int;
    let n = nodes.len() as int;
    lemma_reads_out_members(nodes, lo, hi, n, 0, s);
    if read_outside(nodes, lo, hi, n, 0, s) {
        let (i, m) = choose|i: int, m: int|
            !(lo <= i < hi) && 0 <= i <= n && i < nodes.len() && 0 <= m < nodes[i].src.len() && (i
                < n || m < 0) && #[trigger] nodes[i].src[m] == s;
        assert(nodes[i].src[m] == s);
    }
    if exists|i: int, m: int|
        0 <= i < nodes.len() && !(lo <= i < hi) && 0 <= m < nodes[i].src.len()
            && #[trigger] nodes[i].src[m] == s {
        let (i, m) = choose|i: int, m: int|
            0 <= i < nodes.len() && !(lo <= i < hi) && 0 <= m < nodes[i].src.len()
                && #[trigger] nodes[i].src[m] == s;
        assert(nodes[i].src[m] == s);
        assert(read_outside(nodes, lo, hi, n, 0, s));
    }
}

proof fn lemma_range_ends(splits: Seq<Split>, nodes: Seq<NodeView>, j: int)
    requires
        is_partition(splits, nodes),
        0 <= j < splits.len(),
    ensures
        splits[j].node_range.0 <= splits[j].node_range.1 <= nodes.len(),
{
    if nodes.len() == 0 {
        assert(j == 0);
    } else {
        assert(splits[j].node_range.0 < splits[j].node_range.1);
        if j < splits.len() - 1 {
            lemma_ranges_ordered(splits, nodes, j, splits.len() - 1);
            assert(splits[splits.len() - 1].node_range.0 < splits[splits.len() - 1].node_range.1);
        }
    }
}

/// The ids of the `Node` steps, in order.
pub open spec fn node_ids(steps: Seq<Step>) -> Seq<int>
    decreases steps.len(),
{
    if steps.len() == 0 {
        Seq::empty()
    } else {
        let before = node_ids(steps.drop_last());
        match steps.last() {
            Step::Node { id, .. } => before.push(id as int),
            _ => before,
        }
    }
}

proof fn lemma_node_ids_add(a: Seq<Step>, b: Seq<Step>)
    ensures
        node_ids(a + b) == node_ids(a) + node_ids(b),
    decreases b.len(),
{
    if b.len() == 0 {
        assert(a + b =~= a);
    } else {
        assert((a + b).drop_last() =~= a + b.drop_last());
        lemma_node_ids_add(a, b.drop_last());
        assert(node_ids(a + b) =~= node_ids(a) + node_ids(b));
    }
}

proof fn lemma_no_node_ids(s: Seq<Step>)
    requires
        forall|i: int| 0 <= i < s.len() ==> !((#[trigger] s[i]) is Node),
    ensures
        node_ids(s) == Seq::<int>::empty(),
    decreases s.len(),
{
    if s.len() > 0 {
        lemma_no_node_ids(s.drop_last());
        assert(!(s[s.len() - 1] is Node));
    }
}

proof fn lemma_node_run(lo: int, m: nat, b: Backend)
    requires
        0 <= lo,
        lo + m <= usize::MAX,
    ensures
        node_ids(Seq::new(m, |i: int| Step::Node { id: (lo + i) as usize, backend: b }))
            == Seq::new(m, |i: int| lo + i),
    decreases m,
{
    let s = Seq::new(m, |i: int| Step::Node { id: (lo + i) as usize, backend: b });
    if m > 0 {
        let t = Seq::new((m - 1) as nat, |i: int| Step::Node { id: (lo + i) as usize, backend: b });
        assert(s.drop_last() =~= t);
        lemma_node_run(lo, (m - 1) as nat, b);
    }
    assert(node_ids(s) =~= Seq::new(m, |i: int| lo + i));
}

proof fn lemma_split_node_ids(s: Split, o: ExecOptions)
    requires
        s.node_range.0 <= s.node_range.1,
    ensures
        node_ids(body_steps(s, o)) == Seq::new(
            (s.node_range.1 - s.node_range.0) as nat,
            |i: int| s.node_range.0 + i,
        ),
        forall|prev: Backend| node_ids(#[trigger] entry_steps(prev, s)) == Seq::<int>::empty(),
{
    let m = (s.node_range.1 - s.node_range.0) as nat;
    let head = if o.replay && !o.capture && s.backend == Backend::CUDA {
        seq![Step::Replay { start: s.node_range.0, end: s.node_range.1 }]
    } else {
        Seq::empty()
    };
    let run = Seq::new(
        m,
        |i: int| Step::Node { id: (s.node_range.0 + i) as usize, backend: s.backend },
    );
    let tail = if o.capture && s.backend == Backend::METAL {
        seq![Step::StageCaptures(s.backend)]
    } else {
        Seq::empty()
    };
    lemma_no_node_ids(head);
    lemma_no_node_ids(tail);
    lemma_node_run(s.node_range.0 as int, m, s.backend);
    lemma_node_ids_add(head, run);
    lemma_node_ids_add(head + run, tail);
    assert(body_steps(s, o) =~= head + run + tail);
    assert(node_ids(body_steps(s, o)) =~= Seq::new(m, |i: int| s.node_range.0 + i));
    assert forall|prev: Backend| node_ids(#[trigger] entry_steps(prev, s)) == Seq::<
        int,
    >::empty() by {
        lemma_no_node_ids(entry_steps(prev, s));
    }
}

proof fn lemma_steps_node_ids(splits: Seq<Split>, nodes: Seq<NodeView>, o: ExecOptions, j: int)
    requires
        is_partition(splits, nodes),
        1 <= j <= splits.len(),
    ensures
        node_ids(steps_of(splits, o, j)) == Seq::new(
            splits[j - 1].node_range.1 as nat,
            |i: int| i,
        ),
    decreases j,
{
    lemma_range_ends(splits, nodes, j - 1);
    lemma_split_node_ids(splits[j - 1], o);
    if j > 1 {
        lemma_steps_node_ids(splits, nodes, o, j - 1);
        assert(meets(splits, j - 2));
        let a = steps_of(splits, o, j - 1);
        let e = entry_steps(splits[j - 2].backend, splits[j - 1]);
        let b = body_steps(splits[j - 1], o);
        lemma_node_ids_add(a, e);
        lemma_node_ids_add(a + e, b);
    }
    assert(node_ids(steps_of(splits, o, j)) =~= Seq::new(
        splits[j - 1].node_range.1 as nat,
        |i: int| i,
    ));
}

/// An execution runs every node of the graph exactly once, in build order.
pub proof fn law_every_node_once_in_order(x: Execution, nodes: Seq<NodeView>, o: ExecOptions)
    requires
        splits_of(x.splits@, nodes),
        x.steps@ == steps_of(x.splits@, o, x.splits@.len() as int) + seq![
            Step::Sync(x.splits@.last().backend),
            Step::FlushCaptures,
        ],
    ensures
        node_ids(x.steps@) == Seq::new(nodes.len(), |i: int| i),
{
    let n = x.splits@.len() as int;
    let tail = seq![Step::Sync(x.splits@.last().backend), Step::FlushCaptures];
    lemma_steps_node_ids(x.splits@, nodes, o, n);
    lemma_no_node_ids(tail);
    lemma_node_ids_add(steps_of(x.splits@, o, n), tail);
    assert(node_ids(x.steps@) =~= Seq::new(nodes.len(), |i: int| i));
}

/// A wait for every input of the split stands before its nodes, and the copy
/// before the wait.
pub open spec fn waited_before(steps: Seq<Step>, p: int, node: usize, to: Backend) -> bool {
    exists|c: int, w: int|
        0 <= c < w < p && #[trigger] steps[c] == (Step::CopyAcross { node, to })
            && #[trigger] steps[w] == (Step::AwaitCross { node, to })
}

proof fn lemma_entry_waits(prev: Backend, s: Split, k: int)
    requires
        0 <= k < s.inputs@.len(),
    ensures
        waited_before(
            entry_steps(prev, s),
            entry_steps(prev, s).len() as int,
            s.inputs@[k],
            s.backend,
        ),
{
    let e = entry_steps(prev, s);
    let m = s.inputs@.len() as int;
    assert(e[2 + k] == (Step::CopyAcross { node: s.inputs@[k], to: s.backend }));
    assert(e[2 + m + k] == (Step::AwaitCross { node: s.inputs@[k], to: s.backend }));
}

/// No node runs before the copies that its split reads were enqueued and waited
/// for: in the steps of an execution, each node of a split that was entered
/// from another backend stands behind the wait for every input of that split.
pub proof fn law_inputs_waited_before_nodes(
    splits: Seq<Split>,
    nodes: Seq<NodeView>,
    o: ExecOptions,
    j: int,
    p: int,
    k: int,
)
    requires
        splits_of(splits, nodes),
        1 <= j < splits.len(),
        0 <= k < splits[j].inputs@.len(),
        steps_of(splits, o, j).len() <= p < steps_of(splits, o, j + 1).len(),
        steps_of(splits, o, j + 1)[p] is Node,
    ensures
        waited_before(steps_of(splits, o, j + 1), p, splits[j].inputs@[k], splits[j].backend),
{
    let a = steps_of(splits, o, j);
    let e = entry_steps(splits[j - 1].backend, splits[j]);
    let b = body_steps(splits[j], o);
    let all = steps_of(splits, o, j + 1);
    assert(all == a + e + b);
    let node = splits[j].inputs@[k];
    let to = splits[j].backend;
    lemma_entry_waits(splits[j - 1].backend, splits[j], k);
    let (c, w) = choose|c: int, w: int|
        0 <= c < w < e.len() && #[trigger] e[c] == (Step::CopyAcross { node, to })
            && #[trigger] e[w] == (Step::AwaitCross { node, to });
    assert(all[a.len() + c] == e[c]);
    assert(all[a.len() + w] == e[w]);
    if p < a.len() + e.len() {
        assert(all[p] == e[p - a.len()]);
        assert(!(e[p - a.len()] is Node));
    }
}

/// A graph that stays on one backend copies nothing across and waits for
/// nothing.
pub proof fn law_single_backend_never_crosses(x: Execution, o: ExecOptions, p: int)
    requires
        x.splits@.len() == 1,
        x.splits@[0].node_range.0 <= x.splits@[0].node_range.1,
        x.steps@ == steps_of(x.splits@, o, 1) + seq![
            Step::Sync(x.splits@.last().backend),
            Step::FlushCaptures,
        ],
        0 <= p < x.steps@.len(),
    ensures
        !(x.steps@[p] is CopyAcross) && !(x.steps@[p] is AwaitCross),
{
    let b = body_steps(x.splits@[0], o);
    assert(steps_of(x.splits@, o, 1) == b);
    if p < b.len() {
        assert(x.steps@[p] == b[p]);
    }
}

/// A node runs where it is assigned, else where the nearest node before it runs that is,
/// else on the host.
pub proof fn law_nodes_run_where_the_last_assigned_one_does(nodes: Seq<NodeView>, i: int, k: int)
    requires
        -1 <= k <= i < nodes.len(),
        0 <= i,
        forall|j: int| k < j <= i ==> (#[trigger] nodes[j]).backend is None,
    ensures
        k >= 0 && nodes[k].backend is Some ==> effective(nodes, i) == nodes[k].backend->0,
        k == -1 ==> effective(nodes, i) == Backend::CPU,
    decreases i - k,
{
    if k < i {
        assert(nodes[i].backend is None);
        if i > 0 {
            law_nodes_run_where_the_last_assigned_one_does(nodes, i - 1, k);
        }
    }
}

/// Assigning gives every node a backend: its own, else one that supports it, else the
/// host. Nothing else of a node changes.
pub proof fn law_every_node_is_assigned(
    nodes: Seq<NodeView>,
    supported: Seq<Option<Backend>>,
    i: int,
)
    requires
        0 <= i < nodes.len(),
        supported.len() == nodes.len(),
    ensures
        ({
            let a = assigned(nodes, supported);
            &&& a.len() == nodes.len()
            &&& nodes[i].backend is Some ==> a[i].backend == nodes[i].backend
            &&& nodes[i].backend is None && supported[i] is Some ==> a[i].backend == supported[i]
            &&& nodes[i].backend is None && supported[i] is None ==> a[i].backend == Some(
                Backend::CPU,
            )
            &&& a[i].op == nodes[i].op && a[i].src == nodes[i].src && a[i].name == nodes[i].name
            &&& a[i].layer == nodes[i].layer && a[i].meta == nodes[i].meta
            &&& a[i].weights == nodes[i].weights && a[i].shape == nodes[i].shape
            &&& a[i].out_dtype == nodes[i].out_dtype
        }),
{
}

/// Between two splits the backend before is waited for and captures are handed over, then
/// everything is copied that the split reads, then all of that is waited for.
pub proof fn law_crossing_a_boundary(prev: Backend, s: Split, k: int)
    requires
        0 <= k < s.inputs@.len(),
    ensures
        ({
            let e = entry_steps(prev, s);
            let n = s.inputs@.len() as int;
            &&& e.len() == 2 + 2 * n
            &&& e[0] == Step::Sync(prev)
            &&& e[1] == Step::FlushCaptures
            &&& e[2 + k] == (Step::CopyAcross { node: s.inputs@[k], to: s.backend })
            &&& e[2 + n + k] == (Step::AwaitCross { node: s.inputs@[k], to: s.backend })
        }),
{
}

/// What a split does besides its nodes: on CUDA it may be replayed where that is asked for
/// and nothing is captured, and on Metal captures are staged behind the nodes.
pub proof fn law_what_a_split_does(s: Split, o: ExecOptions, i: int)
    requires
        s.node_range.0 <= s.node_range.1,
        0 <= i < s.node_range.1 - s.node_range.0,
    ensures
        ({
            let b = body_steps(s, o);
            let n = s.node_range.1 - s.node_range.0;
            let replays = o.replay && !o.capture && s.backend == Backend::CUDA;
            let stages = o.capture && s.backend == Backend::METAL;
            let first = if replays {
                1int
            } else {
                0
            };
            &&& replays ==> b[0] == (Step::Replay {
                start: s.node_range.0,
                end: s.node_range.1,
            })
            &&& b[first + i] == (Step::Node {
                id: (s.node_range.0 + i) as usize,
                backend: s.backend,
            })
            &&& b.len() == first + n + (if stages {
                1int
            } else {
                0
            })
            &&& stages ==> b[b.len() - 1] == Step::StageCaptures(s.backend)
        }),
{
}

/// The sources of a node are found one by one, in their order; the first that cannot be
/// read is what is wrong with all.
pub proof fn law_sources_in_order(
    a: &GraphAllocator,
    uid: u64,
    src: Seq<usize>,
    to: Backend,
    k: int,
)
    requires
        0 <= k <= src.len(),
    ensures
        match sources_of(a, uid, src, to, k) {
            Ok(bufs) => bufs.len() == k && forall|i: int|
                0 <= i < k ==> source_of(a, uid, #[trigger] src[i], to) == Ok::<BufRef, ReadError>(
                    bufs[i],
                ),
            Err(e) => exists|i: int|
                0 <= i < k && source_of(a, uid, #[trigger] src[i], to) == Err::<BufRef, ReadError>(
                    e,
                ) && forall|j: int|
                    0 <= j < i ==> source_of(a, uid, #[trigger] src[j], to) is Ok,
        },
    decreases k,
{
    if k > 0 {
        law_sources_in_order(a, uid, src, to, k - 1);
        let last = src[k - 1];
    }
}

/// Which keys and values a node works on: those of its block, if it stores or reads any.
pub proof fn law_keys_and_values_of_a_node(n: NodeView)
    ensures
        n.op matches Op::KvcacheStore { layer } ==> kv_layer(n) == Some(layer),
        n.op matches Op::FusedQKV { layer } ==> kv_layer(n) == Some(layer),
        n.op matches Op::QkvBiasRopeStore { layer } ==> kv_layer(n) == Some(layer),
        n.op matches Op::FusedQkvNorm { layer } ==> kv_layer(n) == Some(layer),
        n.op is Attn ==> (n.meta matches NodeMeta::Attn(m) ==> kv_layer(n) == Some(m.layer)),
        n.op is Attn && !(n.meta is Attn) ==> kv_layer(n) is None,
        !(n.op is KvcacheStore || n.op is FusedQKV || n.op is QkvBiasRopeStore
            || n.op is FusedQkvNorm || n.op is Attn) ==> kv_layer(n) is None,
{
}

/// How an output is captured: not at all where nothing is asked for or there is none, at
/// once where the host has it, and by the device's own way otherwise.
pub proof fn law_how_outputs_are_captured(op: Op, on: Backend, capture: bool)
    ensures
        !capture ==> capture_spec(op, on, capture) is Skip,
        op is KvcacheStore || op is KvcacheLoad ==> capture_spec(op, on, capture) is Skip,
        capture && op is Input ==> capture_spec(op, on, capture) is Read,
        capture && !(op is KvcacheStore || op is KvcacheLoad || op is Input) ==> {
            &&& on == Backend::CPU ==> capture_spec(op, on, capture) is Read
            &&& on == Backend::METAL ==> capture_spec(op, on, capture) is Stage
            &&& on == Backend::CUDA ==> capture_spec(op, on, capture) is Queue
        },
{
}

/// A split that was replayed has nothing left to run; else all of its nodes, in order.
pub proof fn law_nodes_left(range: (NodeId, NodeId), i: int)
    requires
        range.0 <= range.1,
        0 <= i < range.1 - range.0,
    ensures
        left_spec(range, true).len() == 0,
        left_spec(range, false).len() == range.1 - range.0,
        left_spec(range, false)[i] == range.0 + i,
{
}

/// In front of every split but the first the backend of the split before is waited for.
pub proof fn law_splits_wait_for_the_one_before(splits: Seq<Split>, o: ExecOptions, j: int)
    requires
        2 <= j <= splits.len(),
    ensures
        ({
            let at = steps_of(splits, o, j - 1).len() as int;
            let s = steps_of(splits, o, j);
            &&& at < s.len()
            &&& s[at] == Step::Sync(splits[j - 2].backend)
            &&& s.take(at) == steps_of(splits, o, j - 1)
        }),
{
    let before = steps_of(splits, o, j - 1);
    let s = steps_of(splits, o, j);
    assert(s.take(before.len() as int) =~= before);
}

} // verus!
