//! Going through the steps of an execution: which step is due, what a replay skips,
//! what the clock is read for, and which recorded outputs are still to be read.
//!
//! The driver performs a step and answers what came of it.
use crate::graph::ops::Op;
use crate::graph::scheduler::{left_spec, node_ids, runnable, CaptureTask, Execution, Step};
use crate::graph::{ComputeGraph, NodeId, NodeView};
use crate::optiming::{capped, index_spec, op_index, recorded, TimingSink, OP_COUNT};
use vstd::prelude::*;

verus! {

/// What came of a step.
#[derive(Debug, Clone, Copy, PartialEq, Eq, Structural)]
pub enum Answer {
    /// It was performed, and no operator ran.
    Done,
    /// A replay was tried; it took place or it did not.
    Replayed(bool),
    /// The node's operator ran, for so many nanoseconds where the clock was read.
    Ran(u128),
}

/// The step that is due after an answer: the next one, or the one behind the nodes that
/// a replay stood for.
pub open spec fn next_at(steps: Seq<Step>, at: int, a: Answer) -> int {
    match steps[at] {
        Step::Replay { start, end } if a == Answer::Replayed(true) => at + 1 + (end - start),
        _ => at + 1,
    }
}

/// The operator that ran, if the step was a node and one did.
pub open spec fn op_run(steps: Seq<Step>, nodes: Seq<NodeView>, at: int, a: Answer) -> Option<Op> {
    match (steps[at], a) {
        (Step::Node { id, .. }, Answer::Ran(_)) => Some(nodes[id as int].op),
        _ => None,
    }
}

/// The time that an answer gives.
pub open spec fn time_of(a: Answer) -> u128 {
    match a {
        Answer::Ran(t) => t,
        _ => 0,
    }
}

/// An execution under way.
pub struct Run {
    pub execution: Execution,
    /// The step that is due.
    pub at: usize,
    /// The clock is read around every operator.
    pub timed: bool,
}

impl Run {
    /// The due step is one of the steps, or all are done.
    pub open spec fn wf(&self, n: int) -> bool {
        self.at <= self.execution.steps@.len() && runnable(self.execution.steps@, n)
    }

    /// An execution of a graph of `n` nodes, before its first step. Whether it is timed
    /// is decided once, here.
    pub fn new(execution: Execution, timed: bool) -> (r: Run)
        ensures
            r.execution == execution,
            r.at == 0,
            r.timed == timed,
            forall|n: int| runnable(execution.steps@, n) ==> #[trigger] r.wf(n),
    {
        Run { execution, at: 0, timed }
    }

    /// The step that is due; `None` if all are done.
    pub fn due(&self) -> (r: Option<Step>)
        ensures
            r == (if self.at < self.execution.steps@.len() {
                Some(self.execution.steps@[self.at as int])
            } else {
                None
            }),
    {
        if self.at < self.execution.steps.len() {
            Some(self.execution.steps[self.at])
        } else {
            None
        }
    }

    /// Whether the clock is read around the step that is due.
    pub fn reads_clock(&self) -> (r: bool)
        ensures
            r == (self.timed && self.at < self.execution.steps@.len()
                && self.execution.steps@[self.at as int] is Node),
    {
        match self.due() {
            Some(Step::Node { .. }) => self.timed,
            _ => false,
        }
    }

    /// Goes on after a step, and adds the operator that ran to the table if the
    /// execution is timed.
    pub fn advance(&mut self, graph: &ComputeGraph, sink: &mut TimingSink, a: Answer)
        requires
            old(self).wf(graph.nodes@.len() as int),
            old(self).at < old(self).execution.steps@.len(),
        ensures
            final(self).wf(graph.nodes@.len() as int),
            final(self).execution == old(self).execution,
            final(self).timed == old(self).timed,
            final(self).at == next_at(old(self).execution.steps@, old(self).at as int, a),
            match op_run(old(self).execution.steps@, graph.view_nodes(), old(self).at as int, a) {
                Some(op) if old(self).timed => recorded(
                    *old(sink),
                    *final(sink),
                    index_spec(op) as int,
                    time_of(a),
                ),
                _ => *final(sink) == *old(sink),
            },
    {
        let n: usize = self.execution.steps.len();
        let step: Step = self.execution.steps[self.at];
        assert(crate::graph::scheduler::covers(self.execution.steps@, self.at as int));
        match (step, a) {
            (Step::Replay { start, end }, Answer::Replayed(true)) => {
                assert(self.at + 1 + (end - start) <= n);
                self.at = self.at + 1 + (end - start);
            },
            (Step::Node { id, .. }, Answer::Ran(elapsed)) => {
                assert(graph.view_nodes()[id as int] == graph.nodes@[id as int]@);
                if self.timed {
                    sink.record(op_index(&graph.node(id).op), elapsed);
                }
                self.at = self.at + 1;
            },
            _ => {
                self.at = self.at + 1;
            },
        }
    }
}

/// Where an execution is and what its table holds.
#[verifier::ext_equal]
pub ghost struct RunView {
    pub at: int,
    pub calls: Seq<u64>,
    pub nanos: Seq<u64>,
}

/// An execution after one more answer: what `Run::advance` does.
pub open spec fn after_answer(
    steps: Seq<Step>,
    nodes: Seq<NodeView>,
    timed: bool,
    v: RunView,
    a: Answer,
) -> RunView {
    let at = next_at(steps, v.at, a);
    match op_run(steps, nodes, v.at, a) {
        Some(op) if timed => {
            let i = index_spec(op) as int;
            RunView {
                at,
                calls: v.calls.update(i, capped(v.calls[i] + 1)),
                nanos: v.nanos.update(i, capped(v.nanos[i] + capped(time_of(a) as int))),
            }
        },
        _ => RunView { at, ..v },
    }
}

/// An execution after the first `n` answers.
pub open spec fn after_answers(
    steps: Seq<Step>,
    nodes: Seq<NodeView>,
    timed: bool,
    v: RunView,
    answers: Seq<Answer>,
    n: int,
) -> RunView
    decreases n,
{
    if n <= 0 {
        v
    } else {
        after_answer(
            steps,
            nodes,
            timed,
            after_answers(steps, nodes, timed, v, answers, n - 1),
            answers[n - 1],
        )
    }
}

/// How often the operator at place `k` of the table ran within the first `n` answers.
pub open spec fn runs_of(
    steps: Seq<Step>,
    nodes: Seq<NodeView>,
    v: RunView,
    answers: Seq<Answer>,
    n: int,
    k: int,
) -> int
    decreases n,
{
    if n <= 0 {
        0
    } else {
        let at = after_answers(steps, nodes, false, v, answers, n - 1).at;
        runs_of(steps, nodes, v, answers, n - 1, k) + (match op_run(
            steps,
            nodes,
            at,
            answers[n - 1],
        ) {
            Some(op) if index_spec(op) == k => 1int,
            _ => 0,
        })
    }
}

/// Whether two answers differ in nothing but the time.
pub open spec fn same_but_time(a: Answer, b: Answer) -> bool {
    a == b || a is Ran && b is Ran
}

/// `Run::advance` goes on as the steps and the answers tell, and does to the table what
/// they tell.
pub proof fn law_advance_is_after_answer(
    before: Run,
    after: Run,
    sink: TimingSink,
    sink_after: TimingSink,
    nodes: Seq<NodeView>,
    a: Answer,
)
    requires
        after.at == next_at(before.execution.steps@, before.at as int, a),
        match op_run(before.execution.steps@, nodes, before.at as int, a) {
            Some(op) if before.timed => recorded(
                sink,
                sink_after,
                index_spec(op) as int,
                time_of(a),
            ),
            _ => sink_after == sink,
        },
    ensures
        after_answer(
            before.execution.steps@,
            nodes,
            before.timed,
            RunView { at: before.at as int, calls: sink.all_calls(), nanos: sink.all_nanos() },
            a,
        ) == (RunView {
            at: after.at as int,
            calls: sink_after.all_calls(),
            nanos: sink_after.all_nanos(),
        }),
{
}

/// Timing reports, it does not compute: of two executions of the same steps, one timed
/// and one not, that are answered alike but for the times, the same step is due after
/// every answer. The one that is not timed leaves its table as it was; in the other
/// every operator has one more call for each time it ran, up to the largest number.
pub proof fn law_timing_leaves_the_run_alone(
    steps: Seq<Step>,
    nodes: Seq<NodeView>,
    v: RunView,
    on: Seq<Answer>,
    off: Seq<Answer>,
    n: int,
    k: int,
)
    requires
        v.calls.len() == OP_COUNT,
        v.nanos.len() == OP_COUNT,
        0 <= n <= on.len(),
        on.len() == off.len(),
        forall|i: int| 0 <= i < n ==> same_but_time(#[trigger] on[i], off[i]),
        0 <= k < OP_COUNT,
    ensures
        ({
            let timed = after_answers(steps, nodes, true, v, on, n);
            let quiet = after_answers(steps, nodes, false, v, off, n);
            &&& timed.at == quiet.at
            &&& quiet.calls == v.calls
            &&& quiet.nanos == v.nanos
            &&& timed.calls.len() == OP_COUNT
            &&& timed.nanos.len() == OP_COUNT
            &&& timed.calls[k] == capped(v.calls[k] + runs_of(steps, nodes, v, off, n, k))
            &&& runs_of(steps, nodes, v, on, n, k) == runs_of(steps, nodes, v, off, n, k)
            &&& runs_of(steps, nodes, v, off, n, k) >= 0
        }),
    decreases n,
{
    if n > 0 {
        law_timing_leaves_the_run_alone(steps, nodes, v, on, off, n - 1, k);
        lemma_times_do_not_move(steps, nodes, v, on, off, n - 1);
        assert(same_but_time(on[n - 1], off[n - 1]));
    }
}

proof fn lemma_times_do_not_move(
    steps: Seq<Step>,
    nodes: Seq<NodeView>,
    v: RunView,
    a: Seq<Answer>,
    b: Seq<Answer>,
    n: int,
)
    requires
        0 <= n <= a.len(),
        a.len() == b.len(),
        forall|i: int| 0 <= i < n ==> same_but_time(#[trigger] a[i], b[i]),
    ensures
        after_answers(steps, nodes, false, v, a, n).at == after_answers(
            steps,
            nodes,
            false,
            v,
            b,
            n,
        ).at,
    decreases n,
{
    if n > 0 {
        lemma_times_do_not_move(steps, nodes, v, a, b, n - 1);
        assert(same_but_time(a[n - 1], b[n - 1]));
    }
}

proof fn lemma_node_run(steps: Seq<Step>, from: int, start: usize, n: int)
    requires
        0 <= n,
        0 <= from,
        from + n <= steps.len(),
        start + n <= usize::MAX,
        forall|k: int|
            0 <= k < n ==> ((#[trigger] steps[from + k]) matches Step::Node { id, .. } && id == start
                + k),
    ensures
        node_ids(steps.subrange(from, from + n)) == Seq::new(n as nat, |k: int| start + k),
    decreases n,
{
    let s = steps.subrange(from, from + n);
    if n > 0 {
        lemma_node_run(steps, from, start, n - 1);
        assert(s.drop_last() =~= steps.subrange(from, from + n - 1));
        assert(s.last() == steps[from + (n - 1)]);
        assert(node_ids(s) =~= Seq::new(n as nat, |k: int| start + k));
    } else {
        assert(node_ids(s) =~= Seq::new(0, |k: int| start + k));
    }
}

/// A replay is all or nothing: of the nodes that it stands for, those that are still to
/// run after the answer are none if it took place, else all in order.
pub proof fn law_replay_skips_all_or_none(
    steps: Seq<Step>,
    n: int,
    at: int,
    start: usize,
    end: usize,
    replayed: bool,
)
    requires
        runnable(steps, n),
        0 <= at < steps.len(),
        steps[at] == (Step::Replay { start, end }),
    ensures
        ({
            let next = next_at(steps, at, Answer::Replayed(replayed));
            let behind = at + 1 + (end - start);
            &&& at < next <= behind <= steps.len()
            &&& node_ids(steps.subrange(next, behind)) == left_spec(
                (start, end),
                replayed,
            ).map_values(|id: usize| id as int)
        }),
{
    assert(crate::graph::scheduler::covers(steps, at));
    let behind = at + 1 + (end - start);
    let ids = left_spec((start, end), replayed).map_values(|id: usize| id as int);
    if replayed {
        assert(node_ids(steps.subrange(behind, behind)) =~= ids);
    } else {
        lemma_node_run(steps, at + 1, start, end - start);
        assert(node_ids(steps.subrange(at + 1, behind)) =~= ids);
    }
}

/// Every answer brings an execution nearer to its end.
pub proof fn law_run_ends(steps: Seq<Step>, n: int, at: int, a: Answer)
    requires
        runnable(steps, n),
        0 <= at < steps.len(),
    ensures
        at < next_at(steps, at, a) <= steps.len(),
{
    assert(crate::graph::scheduler::covers(steps, at));
}

/// The recorded outputs that a device still has to hand over.
pub struct Captures {
    /// Nodes whose output is staged, in the order in which they ran.
    pub staged: Vec<NodeId>,
    /// Nodes whose output is queued, in the order in which they ran.
    pub queued: Vec<NodeId>,
}

/// The nodes among the first `n` that are recorded in one way, in order.
pub open spec fn recorded_as(nodes: Seq<(NodeId, CaptureTask)>, task: CaptureTask, n: int) -> Seq<
    NodeId,
>
    decreases n,
{
    if n <= 0 {
        Seq::empty()
    } else if nodes[n - 1].1 == task {
        recorded_as(nodes, task, n - 1).push(nodes[n - 1].0)
    } else {
        recorded_as(nodes, task, n - 1)
    }
}

/// What is still to be handed over after one more node.
pub open spec fn noted(c: (Seq<NodeId>, Seq<NodeId>), id: NodeId, task: CaptureTask) -> (
    Seq<NodeId>,
    Seq<NodeId>,
) {
    match task {
        CaptureTask::Stage => (c.0.push(id), c.1),
        CaptureTask::Queue => (c.0, c.1.push(id)),
        _ => c,
    }
}

/// What is still to be handed over after the first `n` nodes.
pub open spec fn all_noted(
    c: (Seq<NodeId>, Seq<NodeId>),
    nodes: Seq<(NodeId, CaptureTask)>,
    n: int,
) -> (Seq<NodeId>, Seq<NodeId>)
    decreases n,
{
    if n <= 0 {
        c
    } else {
        noted(all_noted(c, nodes, n - 1), nodes[n - 1].0, nodes[n - 1].1)
    }
}

impl Captures {
    /// Nothing is recorded yet.
    pub fn new() -> (r: Captures)
        ensures
            r.staged@ == Seq::<NodeId>::empty(),
            r.queued@ == Seq::<NodeId>::empty(),
    {
        Captures { staged: Vec::new(), queued: Vec::new() }
    }

    /// Notes how the output of a node that ran is recorded. Answers whether it is read
    /// now.
    pub fn note(&mut self, id: NodeId, task: CaptureTask) -> (now: bool)
        ensures
            now == (task == CaptureTask::Read),
            (final(self).staged@, final(self).queued@) == noted(
                (old(self).staged@, old(self).queued@),
                id,
                task,
            ),
    {
        match task {
            CaptureTask::Skip => false,
            CaptureTask::Read => true,
            CaptureTask::Stage => {
                self.staged.push(id);
                false
            },
            CaptureTask::Queue => {
                self.queued.push(id);
                false
            },
        }
    }

    /// The nodes that are read once their backend is synchronised: first those that are
    /// staged, then those that are queued. None is left.
    pub fn flush(&mut self) -> (r: Vec<NodeId>)
        ensures
            r@ == old(self).staged@ + old(self).queued@,
            final(self).staged@ == Seq::<NodeId>::empty(),
            final(self).queued@ == Seq::<NodeId>::empty(),
    {
        let mut r: Vec<NodeId> = Vec::new();
        r.append(&mut self.staged);
        r.append(&mut self.queued);
        r
    }
}

/// No recorded output is lost or read twice: what is handed over at a synchronisation is
/// what was there before, and every node staged since, then every node queued since, each
/// once and in the order in which they ran.
pub proof fn law_captures_are_handed_over_once(
    c: (Seq<NodeId>, Seq<NodeId>),
    nodes: Seq<(NodeId, CaptureTask)>,
    n: int,
)
    requires
        0 <= n <= nodes.len(),
    ensures
        all_noted(c, nodes, n).0 == c.0 + recorded_as(nodes, CaptureTask::Stage, n),
        all_noted(c, nodes, n).1 == c.1 + recorded_as(nodes, CaptureTask::Queue, n),
    decreases n,
{
    if n > 0 {
        law_captures_are_handed_over_once(c, nodes, n - 1);
    }
    assert(all_noted(c, nodes, n).0 =~= c.0 + recorded_as(nodes, CaptureTask::Stage, n));
    assert(all_noted(c, nodes, n).1 =~= c.1 + recorded_as(nodes, CaptureTask::Queue, n));
}

/// A time counts for the operator of the node that ran, and for none where no node did.
pub proof fn law_times_count_for_what_ran(
    steps: Seq<Step>,
    nodes: Seq<NodeView>,
    at: int,
    a: Answer,
    t: u128,
)
    requires
        0 <= at < steps.len(),
    ensures
        steps[at] matches Step::Node { id, .. } ==> op_run(steps, nodes, at, Answer::Ran(t)) == Some(
            nodes[id as int].op,
        ),
        !(steps[at] is Node) ==> op_run(steps, nodes, at, a) is None,
        !(a is Ran) ==> op_run(steps, nodes, at, a) is None && time_of(a) == 0,
        time_of(Answer::Ran(t)) == t,
{
}

} // verus!
