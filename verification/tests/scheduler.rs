//! Splitting and executing graphs, with a small interpreter on the host.
use minfer::graph::allocator::{window_of, BufRef, GraphAllocator, ReadError};
use minfer::graph::builder::GraphBuilder;
use minfer::graph::ops::Op;
use minfer::graph::run::{Answer, Captures, Run};
use minfer::graph::scheduler::{
    capture_input, capture_output, nodes_left, prepare_replay, queue_outcome, BackendScheduler,
    CaptureTask, ExecError, ExecOptions, NodeTask, Split, Step,
};
use minfer::graph::{Backend, ComputeGraph, DType};
use minfer::optiming::{record_op, snapshot, Timing, TimingMode, TimingSink};

const PLAIN: ExecOptions = ExecOptions { capture: false, replay: false };

fn small_graph() -> ComputeGraph {
    let mut b = GraphBuilder::new();
    let x = b.input("x", [4, 1, 1, 1], DType::F32);
    let s = b.silu(x);
    let o = b.add(s, x);
    b.output(o);
    b.build()
}

/// A buffer of four elements on the host for every node.
fn host_buffers(g: &ComputeGraph) -> GraphAllocator {
    let mut a = GraphAllocator::new();
    for id in 0..g.n_nodes() {
        a.node_bufs.push(Some(BufRef { backend: Backend::CPU, id, offset: 0, len: 4 }));
    }
    a
}

/// How often the copy machinery was entered.
#[derive(Debug, Default, Clone, Copy, PartialEq, Eq)]
struct CrossCounts {
    copies: usize,
    waits: usize,
}

/// Runs a graph on the host. `uid` keys the staged copies.
fn run(
    g: &ComputeGraph,
    a: &GraphAllocator,
    input: &[f32; 4],
    mode: &mut TimingMode,
    timing: &mut Timing,
    flag: Option<&str>,
) -> Result<(Vec<f32>, CrossCounts), String> {
    let sched = BackendScheduler::new();
    let x = match sched.execute(g, a, PLAIN) {
        Ok(x) => x,
        Err(e) => return Err(e.message(&Op::Input, "")),
    };
    let mut bufs: Vec<Vec<f32>> = vec![vec![0.0; 4]; g.n_nodes()];
    bufs[0] = input.to_vec();
    let mut counts = CrossCounts::default();
    for step in &x.steps {
        match step {
            Step::CopyAcross { .. } => counts.copies += 1,
            Step::AwaitCross { .. } => counts.waits += 1,
            Step::Node { id, backend } => {
                let node = g.node(*id);
                match sched.prepare_node(g, a, *id, *backend) {
                    Err(e) => return Err(e.message(&node.op, "")),
                    Ok(NodeTask::Input(_)) | Ok(NodeTask::Dead) => {}
                    Ok(NodeTask::Run { inputs, out, .. }) => {
                        let args: Vec<Vec<f32>> = inputs
                            .iter()
                            .map(|b| window_of(*b, &bufs[b.id]).unwrap().to_vec())
                            .collect();
                        bufs[out.id] = match node.op {
                            Op::Silu => args[0].iter().map(|v| v / (1.0 + (-v).exp())).collect(),
                            Op::Add => args[0].iter().zip(&args[1]).map(|(p, q)| p + q).collect(),
                            _ => panic!("no such operator in these graphs"),
                        };
                        record_op(mode, timing, flag, &node.op, 10);
                    }
                }
            }
            _ => {}
        }
    }
    Ok((bufs[g.outputs[0]].clone(), counts))
}

fn run_off(g: &ComputeGraph, a: &GraphAllocator, input: &[f32; 4]) -> Result<Vec<f32>, String> {
    run(g, a, input, &mut TimingMode::Off, &mut Timing::new(), None).map(|r| r.0)
}

fn silu(v: f32) -> f32 {
    v / (1.0 + (-v).exp())
}

#[test]
fn assign_all_cpu_and_single_split() {
    let mut g = small_graph();
    let sched = BackendScheduler::new();
    let supported = vec![None; g.n_nodes()];
    sched.assign_backends(&mut g, &supported);
    assert!(g.nodes.iter().all(|n| n.backend == Some(Backend::CPU)));
    let splits = sched.split_graph(&g);
    assert_eq!(splits.len(), 1);
    assert_eq!(splits[0].node_range, (0, g.n_nodes()));
    assert!(splits[0].inputs.is_empty());
    assert!(splits[0].outputs.is_empty());
}

#[test]
fn split_on_backend_change() {
    let mut g = small_graph();
    g.nodes[0].backend = Some(Backend::CPU);
    g.nodes[1].backend = Some(Backend::METAL);
    g.nodes[2].backend = Some(Backend::CPU);
    let sched = BackendScheduler::new();
    let splits = sched.split_graph(&g);
    assert_eq!(splits.len(), 3);
    assert_eq!(splits[0].backend, Backend::CPU);
    assert_eq!(splits[1].backend, Backend::METAL);
    assert_eq!(splits[2].backend, Backend::CPU);
    assert_eq!(splits[0].outputs, vec![0]);
    assert_eq!(splits[1].inputs, vec![0]);
    assert_eq!(splits[1].outputs, vec![1]);
    assert_eq!(splits[2].inputs, vec![1, 0]);
}

#[test]
fn a_non_identity_kv_mapping_is_refused() {
    let g = small_graph();
    let mut alloc = host_buffers(&g);
    let input = [0.0; 4];
    assert!(run_off(&g, &alloc, &input).is_ok());

    alloc.kv_clear_identity();
    let err = run_off(&g, &alloc, &input).unwrap_err();
    assert!(
        err.contains("no longer the identity"),
        "expected the C1 gate to fire, got: {err}"
    );
}

#[test]
fn execute_single_backend_graph() {
    let g = small_graph();
    let alloc = host_buffers(&g);
    let got = run_off(&g, &alloc, &[1.0, 2.0, 3.0, 4.0]).unwrap();
    for i in 0..4 {
        assert!((got[i] - (silu((i + 1) as f32) + (i + 1) as f32)).abs() < 1e-5);
    }
}

#[test]
fn op_timing_does_not_change_the_result_but_does_accumulate() {
    let g = small_graph();
    let alloc = host_buffers(&g);
    let input = [1.0f32, 2.0, 3.0, 4.0];
    let silu_calls = |t: &Timing| -> u64 {
        snapshot(t).iter().find(|e| e.name == "silu").map_or(0, |e| e.calls)
    };

    let mut timing = Timing::new();
    timing.flag = Some(false);
    let off = run(&g, &alloc, &input, &mut TimingMode::Global, &mut timing, None).unwrap().0;
    let calls_before = silu_calls(&timing);

    timing.flag = Some(true);
    let on = run(&g, &alloc, &input, &mut TimingMode::Global, &mut timing, None).unwrap().0;
    let calls_after = silu_calls(&timing);

    assert_eq!(
        off, on,
        "the timing flag must not perturb the computation, only the report"
    );
    assert!(
        calls_after > calls_before,
        "the flagged run must have recorded silu executions ({calls_before} -> {calls_after})"
    );

    timing.flag = Some(false);
    let quiet = run(&g, &alloc, &input, &mut TimingMode::Global, &mut timing, None).unwrap().0;
    assert_eq!(quiet, off);
    let now = silu_calls(&timing);
    assert_eq!(now, calls_after, "a run with the flag off records nothing");
}

#[test]
fn a_staged_boundary_input_cannot_be_consumed_before_its_wait() {
    let g = small_graph();
    let mut alloc = host_buffers(&g);
    let input = [1.0f32, 2.0, 3.0, 4.0];

    let br = alloc.node_buffer(1).unwrap();
    alloc.stage_cross(g.uid, 1, Backend::CPU, br);

    let err = run_off(&g, &alloc, &input).expect_err("a pending staged input must not be consumed");
    assert!(
        err.contains("was read before its boundary wait"),
        "the refusal must name the missing wait, got: {err}"
    );
    assert!(err.contains("#58"), "{err}");

    alloc.await_cross(g.uid, 1, Backend::CPU);
    let got = run_off(&g, &alloc, &input).unwrap();
    for i in 0..4 {
        assert!((got[i] - (silu((i + 1) as f32) + (i + 1) as f32)).abs() < 1e-5);
    }
}

#[test]
fn the_cpu_path_never_enters_the_cross_copy_machinery() {
    let g = small_graph();
    let alloc = host_buffers(&g);
    let input = [1.0f32, -2.0, 3.5, 4.25];
    let go = || run(&g, &alloc, &input, &mut TimingMode::Off, &mut Timing::new(), None).unwrap();
    let (async_bytes, async_stats) = go();
    let (sync_bytes, sync_stats) = go();
    assert_eq!(
        async_bytes, sync_bytes,
        "the sync reference must be bitwise identical on the CPU path"
    );
    assert_eq!(
        async_stats,
        CrossCounts::default(),
        "a CPU-only graph has no boundary, so no copy and no wait may be counted"
    );
    assert_eq!(sync_stats, async_stats);
    assert!(
        async_stats.copies == async_stats.waits,
        "the contract is trivially satisfied when nothing crossed"
    );
}

fn three_splits() -> ComputeGraph {
    let mut g = small_graph();
    g.nodes[0].backend = Some(Backend::CPU);
    g.nodes[1].backend = Some(Backend::CUDA);
    g.nodes[2].backend = Some(Backend::CPU);
    g
}

#[test]
fn a_boundary_enqueues_every_copy_before_it_waits() {
    let g = three_splits();
    let a = GraphAllocator::new();
    let x = BackendScheduler::new().execute(&g, &a, PLAIN).unwrap();
    let want = vec![
        Step::Node { id: 0, backend: Backend::CPU },
        Step::Sync(Backend::CPU),
        Step::FlushCaptures,
        Step::CopyAcross { node: 0, to: Backend::CUDA },
        Step::AwaitCross { node: 0, to: Backend::CUDA },
        Step::Node { id: 1, backend: Backend::CUDA },
        Step::Sync(Backend::CUDA),
        Step::FlushCaptures,
        Step::CopyAcross { node: 1, to: Backend::CPU },
        Step::CopyAcross { node: 0, to: Backend::CPU },
        Step::AwaitCross { node: 1, to: Backend::CPU },
        Step::AwaitCross { node: 0, to: Backend::CPU },
        Step::Node { id: 2, backend: Backend::CPU },
        Step::Sync(Backend::CPU),
        Step::FlushCaptures,
    ];
    assert_eq!(x.steps, want);
}

#[test]
fn replay_is_tried_on_cuda_unless_outputs_are_captured() {
    let g = three_splits();
    let a = GraphAllocator::new();
    let sched = BackendScheduler::new();
    let replay = Step::Replay { start: 1, end: 2 };
    let x = sched.execute(&g, &a, ExecOptions { capture: false, replay: true }).unwrap();
    assert!(x.steps.contains(&replay));
    let y = sched.execute(&g, &a, ExecOptions { capture: true, replay: true }).unwrap();
    assert!(!y.steps.contains(&replay));
}

#[test]
fn every_execution_error_says_what_is_wrong() {
    let g = small_graph();
    let mut a = host_buffers(&g);
    let sched = BackendScheduler::new();
    let m = sched.prepare_node(&g, &a, 1, Backend::METAL);
    match m {
        Err(e) => {
            assert_eq!(
                e,
                ExecError::Mismatch { id: 1, buffer: Backend::CPU, split: Backend::METAL }
            );
            let text = e.message(&Op::Silu, "");
            assert!(text.contains("node 1 (Silu) buffer on "), "{text}");
            assert!(text.contains("assignment/alloc mismatch"), "{text}");
        }
        Ok(_) => panic!("a buffer on another backend was accepted"),
    }
    a.node_bufs[0] = None;
    match sched.prepare_node(&g, &a, 1, Backend::CPU) {
        Err(e) => {
            assert_eq!(e, ExecError::Source(ReadError::NoBuffer { node: 0 }));
            assert_eq!(e.message(&Op::Silu, ""), "node 0 has no allocated buffer");
        }
        Ok(_) => panic!("a source without a buffer was accepted"),
    }
    assert_eq!(
        ExecError::NotEnabled(Backend::CUDA).message(&Op::Add, "no device"),
        "cuda backend not enabled: no device"
    );
    assert!(matches!(sched.prepare_node(&g, &a, 0, Backend::CPU), Ok(NodeTask::Input(None))));
    a.node_bufs[2] = None;
    assert!(matches!(sched.prepare_node(&g, &a, 2, Backend::CPU), Ok(NodeTask::Dead)));
}

#[test]
fn a_window_is_cut_out_of_its_pool_buffer() {
    let data = [1.0f32, 2.0, 3.0, 4.0, 5.0];
    let br = BufRef { backend: Backend::CPU, id: 0, offset: 1, len: 3 };
    assert_eq!(window_of(br, &data), Some(&data[1..4]));
    let long = BufRef { backend: Backend::CPU, id: 0, offset: 3, len: 3 };
    assert_eq!(window_of(long, &data), None);
}

#[test]
fn captures_are_read_where_they_can_be() {
    assert_eq!(capture_output(&Op::Add, Backend::CPU, true), CaptureTask::Read);
    assert_eq!(capture_output(&Op::Add, Backend::METAL, true), CaptureTask::Stage);
    assert_eq!(capture_output(&Op::Add, Backend::CUDA, true), CaptureTask::Queue);
    assert_eq!(capture_output(&Op::Add, Backend::CPU, false), CaptureTask::Skip);
    assert_eq!(
        capture_output(&Op::KvcacheLoad { layer: 0 }, Backend::CPU, true),
        CaptureTask::Skip
    );
}

#[test]
fn every_node_is_in_one_split() {
    let mut g = small_graph();
    g.nodes[2].backend = Some(Backend::METAL);
    let splits: Vec<Split> = BackendScheduler::new().split_graph(&g);
    let ranges: Vec<(usize, usize)> = splits.iter().map(|s| s.node_range).collect();
    assert_eq!(ranges, vec![(0, 2), (2, 3)]);
}

#[test]
fn a_recorded_input_is_read_at_once_on_every_backend() {
    for on in [Backend::CPU, Backend::METAL, Backend::CUDA] {
        assert_eq!(capture_output(&Op::Input, on, true), CaptureTask::Read);
        assert_eq!(capture_output(&Op::Input, on, false), CaptureTask::Skip);
    }
    let g = small_graph();
    let mut a = host_buffers(&g);
    let far = BufRef { backend: Backend::CUDA, id: 0, offset: 0, len: 4 };
    a.node_bufs[0] = Some(far);
    let sched = BackendScheduler::new();
    let input = sched.prepare_node(&g, &a, 0, Backend::CPU).ok().unwrap();
    assert_eq!(capture_input(&input, true), Some(far));
    assert_eq!(capture_input(&input, false), None);
    let host = host_buffers(&g);
    let other = sched.prepare_node(&g, &host, 1, Backend::CPU).ok().unwrap();
    assert_eq!(capture_input(&other, true), None);
    assert_eq!(capture_input(&NodeTask::Input(None), true), None);
}

#[test]
fn a_copy_that_is_not_queued_is_read_now() {
    assert_eq!(queue_outcome(true), CaptureTask::Queue);
    assert_eq!(queue_outcome(false), CaptureTask::Read);
}

#[test]
fn a_replayed_split_leaves_no_node() {
    let mut g = small_graph();
    g.nodes[1].backend = Some(Backend::CUDA);
    let splits = BackendScheduler::new().split_graph(&g);
    assert_eq!(nodes_left(&splits[1], true), Vec::<usize>::new());
    assert_eq!(nodes_left(&splits[1], false), vec![1, 2]);
}

#[test]
fn a_replay_needs_a_cuda_device() {
    let mut a = GraphAllocator::new();
    assert_eq!(prepare_replay(&a), Err(ExecError::NoReplay));
    assert_eq!(ExecError::NoReplay.message(&Op::Add, ""), "CUDA backend not enabled");
    a.cuda_enabled = true;
    assert_eq!(prepare_replay(&a), Ok(()));
}

/// The steps that were due, and the table.
fn walk(replayed: bool, timed: bool) -> (Vec<Step>, TimingSink) {
    let g = three_splits();
    let a = GraphAllocator::new();
    let options = ExecOptions { capture: false, replay: true };
    let mut run = Run::new(BackendScheduler::new().execute(&g, &a, options).unwrap(), timed);
    let mut sink = TimingSink::new();
    let mut seen = Vec::new();
    while let Some(step) = run.due() {
        assert_eq!(run.reads_clock(), timed && matches!(step, Step::Node { .. }));
        let answer = match step {
            Step::Replay { .. } => Answer::Replayed(replayed),
            Step::Node { id: 0, .. } => Answer::Done,
            Step::Node { .. } => Answer::Ran(10),
            _ => Answer::Done,
        };
        run.advance(&g, &mut sink, answer);
        seen.push(step);
    }
    assert!(!run.reads_clock());
    (seen, sink)
}

fn nodes_of(steps: &[Step]) -> Vec<usize> {
    steps
        .iter()
        .filter_map(|s| match s {
            Step::Node { id, .. } => Some(*id),
            _ => None,
        })
        .collect()
}

#[test]
fn a_replay_skips_the_nodes_of_its_split() {
    assert_eq!(nodes_of(&walk(true, false).0), vec![0, 2]);
    assert_eq!(nodes_of(&walk(false, false).0), vec![0, 1, 2]);
    let with = walk(true, false).0;
    let without = walk(false, false).0;
    assert_eq!(with.len() + 1, without.len());
}

#[test]
fn a_timed_run_takes_the_same_steps_and_counts_its_operators() {
    let (quiet, none) = walk(false, false);
    let (timed, table) = walk(false, true);
    assert_eq!(quiet, timed);
    assert!(none.snapshot().is_empty());
    let rows: Vec<(&str, u64, u64)> =
        table.snapshot().iter().map(|e| (e.name, e.calls, e.nanos)).collect();
    let mut rows = rows;
    rows.sort();
    assert_eq!(rows, vec![("add", 1, 10), ("silu", 1, 10)]);
    let replayed = walk(true, true).1;
    assert_eq!(replayed.snapshot().len(), 1);
    assert_eq!(replayed.snapshot()[0].name, "add");
}

#[test]
fn recorded_outputs_are_handed_over_once() {
    let mut c = Captures::new();
    assert!(c.note(0, CaptureTask::Read));
    assert!(!c.note(1, CaptureTask::Queue));
    assert!(!c.note(2, CaptureTask::Stage));
    assert!(!c.note(3, CaptureTask::Skip));
    assert!(!c.note(4, CaptureTask::Stage));
    assert_eq!(c.flush(), vec![2, 4, 1]);
    assert_eq!(c.flush(), Vec::<usize>::new());
}
