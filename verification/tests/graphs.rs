//! Graphs, batches and forward passes.
use minfer::bits::Real;
use minfer::graph::batch::{Batch, BatchError, Group};
use minfer::graph::cache::GraphCache;
use minfer::graph::ops::{op_label, NodeMeta, Op, RopeStyle};
use minfer::graph::params::{CParams, GraphParams, GraphType, Platform};
use minfer::graph::ComputeGraph;
use minfer::models::forward::{clamp_context, needs_span, to_u32, PassSettings};
use minfer::models::qwen2::graph::Qwen2Graph;
use minfer::models::qwen2::Qwen2Model;
use minfer::models::qwen3::graph::Qwen3Graph;
use minfer::models::qwen3::Qwen3Model;
use minfer::models::weights::{CudaRegistry, Role};
use minfer::models::{qwen2, qwen3, Device, OffloadState};
use minfer::tensor::{Tensor, TensorType};

fn matrix(name: &str, cols: usize, rows: usize) -> Option<Tensor> {
    Some(Tensor {
        ttype: TensorType::Q4_0,
        name: name.to_string(),
        shape: [cols as i64, rows as i64, 1, 1],
        strides: [18, cols / 32 * 18, 0, 0],
        data: vec![0; cols / 32 * 18 * rows],
    })
}

fn vector(name: &str, n: usize) -> Option<Tensor> {
    Some(Tensor {
        ttype: TensorType::F32,
        name: name.to_string(),
        shape: [n as i64, 1, 1, 1],
        strides: [4, 4 * n, 4 * n, 4 * n],
        data: vec![0; 4 * n],
    })
}

fn qwen2_block(i: usize) -> qwen2::loader::LayerWeights {
    let n = |s: &str| format!("blk.{i}.{s}");
    qwen2::loader::LayerWeights {
        attn_norm: vector(&n("attn_norm.weight"), 64),
        wq: matrix(&n("attn_q.weight"), 64, 64),
        bq: vector(&n("attn_q.bias"), 64),
        wk: matrix(&n("attn_k.weight"), 64, 32),
        bk: vector(&n("attn_k.bias"), 32),
        wv: matrix(&n("attn_v.weight"), 64, 32),
        bv: vector(&n("attn_v.bias"), 32),
        wo: matrix(&n("attn_output.weight"), 64, 64),
        ffn_norm: vector(&n("ffn_norm.weight"), 64),
        ffn_gate: matrix(&n("ffn_gate.weight"), 64, 96),
        ffn_up: matrix(&n("ffn_up.weight"), 64, 96),
        ffn_down: matrix(&n("ffn_down.weight"), 96, 64),
    }
}

fn qwen2_model(blocks: usize) -> Qwen2Model {
    Qwen2Model {
        hparams: qwen2::loader::HParams {
            n_embd: 64,
            n_head: 2,
            n_head_kv: 1,
            n_layer: blocks as i64,
            n_ff: 96,
            n_vocab: 10,
            max_seq_len: 16,
            f_norm_rms_eps: Real::Single(0x358637BD),
            rope_freq_base: Real::Single(0x461C4000),
            rope_freq_scale: Real::Single(0x3F800000),
            eos_token_id: 1,
            im_end_token_id: None,
            rope_style: RopeStyle::NonInterleaved,
            n_kv_embd: 32,
        },
        tok_embd: matrix("token_embd.weight", 64, 10),
        output_norm: vector("output_norm.weight", 64),
        output: matrix("output.weight", 64, 10),
        output_b: None,
        layers: (0..blocks).map(qwen2_block).collect(),
        ns: String::new(),
        tied: false,
        offload: OffloadState::cpu_only(blocks),
    }
}

fn qwen3_model(blocks: usize) -> Qwen3Model {
    Qwen3Model {
        hparams: qwen3::loader::HParams {
            n_embd: 64,
            n_head: 2,
            n_head_kv: 1,
            n_layer: blocks as i64,
            n_ff: 96,
            n_vocab: 10,
            max_seq_len: 16,
            f_norm_rms_eps: Real::Single(0x358637BD),
            rope_freq_base: Real::Single(0x461C4000),
            rope_freq_scale: Real::Single(0x3F800000),
            eos_token_id: 1,
            im_end_token_id: None,
            rope_style: RopeStyle::NonInterleaved,
            n_embd_head: 32,
            n_kv_embd: 32,
        },
        tok_embd: matrix("token_embd.weight", 64, 10),
        output_norm: vector("output_norm.weight", 64),
        output: matrix("output.weight", 64, 10),
        output_b: None,
        layers: (0..blocks)
            .map(|i| {
                let n = |s: &str| format!("blk.{i}.{s}");
                qwen3::loader::LayerWeights {
                    attn_norm: vector(&n("attn_norm.weight"), 64),
                    wq: matrix(&n("attn_q.weight"), 64, 64),
                    wk: matrix(&n("attn_k.weight"), 64, 32),
                    wv: matrix(&n("attn_v.weight"), 64, 32),
                    wo: matrix(&n("attn_output.weight"), 64, 64),
                    q_norm: vector(&n("attn_q_norm.weight"), 32),
                    k_norm: vector(&n("attn_k_norm.weight"), 32),
                    ffn_norm: vector(&n("ffn_norm.weight"), 64),
                    ffn_gate: matrix(&n("ffn_gate.weight"), 64, 96),
                    ffn_up: matrix(&n("ffn_up.weight"), 64, 96),
                    ffn_down: matrix(&n("ffn_down.weight"), 96, 64),
                }
            })
            .collect(),
        ns: String::new(),
        tied: false,
        offload: OffloadState::cpu_only(blocks),
    }
}

const HOST: Platform =
    Platform { metal: false, cuda: false, cuda_ready: false, ffn_composition: false };

fn params(nt: usize, n_out: usize, device: bool) -> GraphParams {
    GraphParams {
        n_tokens: nt,
        n_out,
        gtype: if nt == 1 { GraphType::Decode } else { GraphType::Prefill },
        cparams: CParams {
            n_ctx: 16,
            flash_attn: false,
            explicit_span: false,
            gpu: device,
            fuse_qkv: device && nt == 1,
            fuse_ffn: device && nt == 1,
        },
        weights_version: 1,
    }
}

fn ops(g: &ComputeGraph) -> Vec<&'static str> {
    g.nodes.iter().map(|n| op_label(&n.op).trim_end()).collect()
}

const BLOCK: [&str; 18] = [
    "RmsNorm", "MatMul", "MatMul", "MatMul", "RoPE", "RoPE", "KvcacheStore", "KvcacheLoad", "Attn",
    "MatMul", "Add", "RmsNorm", "MatMul", "MatMul", "Silu", "Mul", "MatMul", "Add",
];

#[test]
fn a_prompt_is_narrowed_to_its_wanted_rows_in_the_last_block() {
    let g = Qwen2Graph::build(&qwen2_model(2), &params(3, 1, false), &HOST);
    let mut want = vec!["Input", "Input", "Input", "GetRows"];
    want.extend(BLOCK);
    want.extend(&BLOCK[..10]);
    want.extend(["GetRows", "GetRows"]);
    want.extend(&BLOCK[10..]);
    want.extend(["RmsNorm", "MatMul"]);
    assert_eq!(ops(&g), want);
    assert_eq!(g.inputs, vec![0, 1, 2]);
    assert_eq!(g.outputs, vec![want.len() - 1]);
    let names: Vec<&str> = g.inputs.iter().map(|i| g.node(*i).name.as_str()).collect();
    assert_eq!(names, ["token_ids", "positions", "tail_ids"]);
}

#[test]
fn all_rows_need_no_tail() {
    let g = Qwen2Graph::build(&qwen2_model(1), &params(3, 3, false), &HOST);
    let mut want = vec!["Input", "Input", "GetRows"];
    want.extend(BLOCK);
    want.extend(["RmsNorm", "MatMul"]);
    assert_eq!(ops(&g), want);
    assert_eq!(g.inputs, vec![0, 1]);
    assert_eq!(g.n_nodes(), 23);
    for (i, n) in g.nodes.iter().enumerate() {
        assert!(n.src.iter().all(|s| *s < i));
    }
}

#[test]
fn keys_are_stored_before_they_are_attended_to() {
    for g in [
        Qwen2Graph::build(&qwen2_model(2), &params(3, 1, false), &HOST),
        Qwen3Graph::build(&qwen3_model(2), &params(3, 1, false), &HOST),
    ] {
        for il in 0..2usize {
            let at = |f: &dyn Fn(&Op) -> bool| {
                g.nodes.iter().position(|n| n.layer == Some(il) && f(&n.op)).unwrap()
            };
            let store = at(&|o| matches!(o, Op::KvcacheStore { layer } if *layer == il));
            let load = at(&|o| matches!(o, Op::KvcacheLoad { layer } if *layer == il));
            let attn = at(&|o| matches!(o, Op::Attn { .. }));
            assert!(store < load && load < attn);
        }
    }
}

#[test]
fn a_single_token_on_a_device_is_fused() {
    let device = Platform { metal: true, ..HOST };
    let g = Qwen2Graph::build(&qwen2_model(1), &params(1, 1, true), &device);
    assert_eq!(
        ops(&g),
        [
            "Input", "Input", "GetRows", "RmsNorm", "FusedQKV", "KvcacheLoad", "Attn", "MatMul",
            "Add", "RmsNorm", "FusedFFN", "MatMul", "Add", "RmsNorm", "MatMul",
        ]
    );
    assert_eq!(g.node(4).weights[0].as_deref(), Some("blk.0.attn_qkv"));
    assert_eq!(g.node(10).weights[0].as_deref(), Some("blk.0.ffn_gu"));
    assert!(matches!(g.node(4).meta, NodeMeta::FusedQkv(m) if m.nqt == 64 && m.kv_elems == 512));
    let host = Qwen2Graph::build(&qwen2_model(1), &params(1, 1, false), &device);
    assert!(ops(&host).iter().all(|o| !o.starts_with("Fused")));
}

#[test]
fn cuda_fuses_the_epilogue_of_projections_that_do_not_stack() {
    let mut m = qwen2_model(1);
    m.layers[0].wv.as_mut().unwrap().ttype = TensorType::Q6_K;
    let cuda = Platform { cuda: true, cuda_ready: true, ..HOST };
    let g = Qwen2Graph::build(&m, &params(1, 1, true), &cuda);
    assert_eq!(
        ops(&g)[3..9],
        ["RmsNorm", "MatMul", "MatMul", "MatMul", "QkvBiasRopeStore", "KvcacheLoad"]
    );
    m.layers[0].bk = None;
    let g = Qwen2Graph::build(&m, &params(1, 1, true), &cuda);
    assert_eq!(ops(&g)[3..11], BLOCK[..8]);
}

#[test]
fn qwen3_norms_its_queries_and_keys() {
    let g = Qwen3Graph::build(&qwen3_model(1), &params(2, 2, false), &HOST);
    let labels = ops(&g);
    assert_eq!(labels.iter().filter(|o| **o == "QkNorm").count(), 2);
    assert_eq!(labels.last(), Some(&"MatMul"));
}

#[test]
fn every_weight_has_a_role() {
    let m = qwen2_model(2);
    let ws = Qwen2Graph::graph_weights(&m);
    assert_eq!(ws.len(), 4 + 2 * 12);
    assert_eq!(ws[0].role, Role::Embed);
    assert_eq!(ws[1].tensor.unwrap().name, "output.weight");
    assert!(ws[3].tensor.is_none());
    assert_eq!(Qwen2Graph::device(&m, None, None), Device::Cpu);
    let none = CudaRegistry { entries: Vec::new() };
    assert_eq!(Qwen2Graph::device(&m, None, Some(&none)), Device::Cpu);
    let all = CudaRegistry {
        entries: ws
            .iter()
            .filter_map(|w| w.tensor)
            .map(|t| (t.name.clone(), t.data.len()))
            .collect(),
    };
    assert_eq!(Qwen2Graph::device(&m, None, Some(&all)), Device::Cuda);
}

fn batch(seqs: &[u32]) -> Batch {
    let n = seqs.len();
    Batch::new((0..n as u32).collect(), (0..n).collect(), seqs.to_vec())
}

#[test]
fn a_batch_is_checked() {
    assert_eq!(batch(&[]).check(), Err(BatchError::Empty));
    assert_eq!(Batch::new(vec![1], vec![], vec![0]).check(), Err(BatchError::Lengths));
    assert_eq!(batch(&[1, 2, 1]).check(), Err(BatchError::Scattered));
    assert_eq!(batch(&[1, 1, 2]).check(), Ok(()));
}

#[test]
fn a_batch_falls_into_runs() {
    let b = batch(&[7, 7, 3]);
    assert_eq!(
        b.groups(),
        vec![Group { seq: 7, start: 0, end: 2 }, Group { seq: 3, start: 2, end: 3 }]
    );
    assert_eq!((b.len(), b.n_seqs()), (3, 2));
    assert_eq!(b.out_rows(1), vec![1, 2]);
    let one = Batch::single(&vec![4, 5, 6], &vec![0, 1, 2]);
    assert_eq!(one.seq_ids, vec![0, 0, 0]);
    assert_eq!(one.out_rows(2), vec![1, 2]);
}

#[test]
fn windows_are_explicit_for_several_sequences_or_a_shifted_one() {
    let one = batch(&[5, 5]).groups();
    assert!(!needs_span(&one, &Vec::new()));
    assert!(!needs_span(&one, &vec![(5, 0), (5, 9)]));
    assert!(needs_span(&one, &vec![(5, 4)]));
    assert!(!needs_span(&one, &vec![(6, 4)]));
    assert!(needs_span(&batch(&[5, 6]).groups(), &Vec::new()));
    assert_eq!(clamp_context(100, 16), 16);
    assert_eq!(clamp_context(8, 16), 8);
    assert_eq!(to_u32(&vec![3, 9]), vec![3, 9]);
}

fn settings(cuda: Option<&CudaRegistry>) -> PassSettings<'_> {
    PassSettings { mps: None, cuda, platform: HOST, no_fuse_qkv: false, no_fuse_ffn: false }
}

#[test]
fn a_pass_reuses_the_graph_of_equal_parameters() {
    let m = qwen2_model(1);
    let mut cache = GraphCache::new();
    let (b, pass) = Qwen2Graph::forward(
        &m,
        &vec![3, 4, 5],
        &vec![0, 1, 2],
        1,
        100,
        &Vec::new(),
        &settings(None),
        &cache,
    );
    assert_eq!(b.tokens, vec![3, 4, 5]);
    assert_eq!(pass.plan.params, params(3, 1, false));
    assert_eq!(pass.plan.out_rows, vec![2]);
    assert_eq!(pass.plan.positions, vec![0, 1, 2]);
    assert!(pass.plan.fill_tail);
    assert_eq!(pass.logits, 10);
    cache.replace_graph(pass.graph.unwrap(), pass.plan.params);
    assert_eq!(cache.built, 1);
    let (_, again) = Qwen2Graph::forward_cached(
        &m,
        &vec![9, 9, 9],
        &vec![3, 4, 5],
        1,
        16,
        &Vec::new(),
        &settings(None),
        &cache,
    );
    assert!(again.graph.is_none());
    let (_, other) = Qwen2Graph::forward_cached(
        &m,
        &vec![9],
        &vec![6],
        1,
        16,
        &Vec::new(),
        &settings(None),
        &cache,
    );
    assert!(other.graph.is_some());
    assert_eq!(other.device, Device::Cpu);
    assert_eq!(other.plan.params.gtype, GraphType::Decode);
    assert!(!other.plan.fill_tail);
}

#[test]
fn a_pass_runs_where_all_weights_are() {
    let m = qwen2_model(1);
    let mut held = CudaRegistry {
        entries: Qwen2Graph::graph_weights(&m)
            .iter()
            .filter_map(|w| w.tensor)
            .map(|t| (t.name.clone(), t.data.len()))
            .collect(),
    };
    let device = |reg: &CudaRegistry| {
        let one = Batch::single(&vec![1], &vec![0]);
        let cache = GraphCache::new();
        let s = settings(Some(reg));
        let pass = Qwen2Graph::forward_batch(&m, &one, 1, 16, &Vec::new(), &s, &cache);
        (pass.device, pass.plan.params.cparams.gpu, pass.plan.params.cparams.fuse_qkv)
    };
    assert_eq!(device(&held), (Device::Cuda, true, true));
    held.entries.pop();
    assert_eq!(device(&held), (Device::Cpu, false, false));
}

#[test]
fn the_number_of_sequences_is_data() {
    let m = qwen2_model(1);
    let cache = GraphCache::new();
    let pass = |b: &Batch| {
        Qwen2Graph::forward_batch(&m, b, 1, 16, &Vec::new(), &settings(None), &cache)
    };
    let a = pass(&batch(&[1, 1, 1, 2]));
    let b = pass(&batch(&[1, 2, 2, 2]));
    assert_eq!(a.plan.params, b.plan.params);
    assert_eq!(a.plan.out_rows, vec![2, 3]);
    assert_eq!(b.plan.out_rows, vec![0, 3]);
    assert_eq!(a.logits, 20);
    assert!(a.plan.params.cparams.explicit_span);
}

#[test]
fn fusing_follows_the_device_and_the_switches() {
    let one = Batch::single(&vec![1], &vec![3]);
    let plan = |starts: &Vec<(u32, usize)>, d: Device, q: bool, f: bool| {
        Qwen2Graph::plan_batch(&one, 1, 16, starts, d, q, f).params.cparams
    };
    let none = Vec::new();
    assert!(plan(&none, Device::Metal, false, false).fuse_qkv);
    assert!(!plan(&none, Device::Metal, true, false).fuse_qkv);
    assert!(!plan(&none, Device::Metal, false, true).fuse_ffn);
    assert!(!plan(&none, Device::Cpu, false, false).fuse_ffn);
    let shifted = vec![(0, 2)];
    assert!(!plan(&shifted, Device::Metal, false, false).fuse_qkv);
    assert!(plan(&shifted, Device::Cuda, false, false).fuse_qkv);
}

#[test]
fn a_qwen3_pass_is_laid_out_for_its_positions() {
    let m = qwen3_model(1);
    let cache = GraphCache::new();
    let pass = Qwen3Graph::forward(&m, &vec![0, 1, 2, 3], 2, 100, &settings(None), &cache);
    assert_eq!(pass.plan.params.cparams.n_ctx, 16);
    assert_eq!(pass.plan.out_rows, vec![2, 3]);
    assert!(pass.plan.fill_tail && pass.graph.is_some());
    assert_eq!(pass.logits, 20);
}

#[test]
fn a_qwen3_model_without_blocks_has_no_rows_to_fill() {
    let cache = GraphCache::new();
    let pass =
        Qwen3Graph::forward(&qwen3_model(0), &vec![0, 1, 2, 3], 2, 100, &settings(None), &cache);
    assert!(!pass.plan.fill_tail);
    assert_eq!(pass.graph.unwrap().inputs.len(), 2);
    let plan = |blocks: bool, n_out: usize| {
        Qwen3Graph::plan(blocks, &vec![0, 1, 2], n_out, 16, Device::Cpu, false, false).fill_tail
    };
    assert!(plan(true, 1) && !plan(true, 3) && !plan(false, 1));
}

#[test]
fn the_order_of_the_sequences_does_not_matter() {
    let m = qwen2_model(1);
    let cache = GraphCache::new();
    let starts = vec![(3, 5), (7, 0)];
    let pass = |b: &Batch| {
        Qwen2Graph::forward_batch(&m, b, 1, 16, &starts, &settings(None), &cache)
    };
    let a = pass(&Batch::new(vec![20, 21, 30], vec![0, 1, 5], vec![7, 7, 3]));
    let b = pass(&Batch::new(vec![30, 20, 21], vec![5, 0, 1], vec![3, 7, 7]));
    assert_eq!(a.plan.params, b.plan.params);
    assert_eq!((a.device, a.logits), (b.device, b.logits));
    assert_eq!(a.plan.out_rows, vec![1, 2]);
    assert_eq!(b.plan.out_rows, vec![0, 2]);
    assert_eq!((a.plan.positions, b.plan.positions), (vec![0, 1, 5], vec![5, 0, 1]));
    assert_eq!(ops(&a.graph.unwrap()), ops(&b.graph.unwrap()));
}
