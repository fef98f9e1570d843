//! The step-by-step forward pass.
use minfer::bits::Real;
use minfer::graph::ops::RopeStyle;
use minfer::models::qwen2::forward::{
    attn_task, cuda_runs, forward, host_buffer_len, host_dims, host_layer, metal_runs, resume,
    rope_pair, Action, Gpu, HostBuf, HostOp, Part, Pass, Stage,
};
use minfer::models::qwen2::loader::{HParams, LayerWeights};
use minfer::models::qwen2::Qwen2Model;
use minfer::models::weights::CudaRegistry;
use minfer::models::OffloadState;
use minfer::tensor::{Tensor, TensorType};

fn pass(metal: bool, cuda: bool) -> Pass {
    Pass { n_layer: 2, nt: 3, metal, cuda, graph_ready: false, head: true, head_bias: false }
}

/// Carries a pass through; `ok` answers each question.
fn run(p: &Pass, ok: impl Fn(Stage) -> bool) -> Vec<Action> {
    let mut done = Vec::new();
    let mut turn = forward(p);
    loop {
        done.extend(turn.actions);
        if turn.stage == Stage::Done {
            return done;
        }
        let answer = ok(turn.stage);
        turn = resume(p, turn.stage, answer);
    }
}

#[test]
fn the_host_runs_every_block_in_order() {
    let p = pass(false, false);
    assert_eq!(
        run(&p, |_| true),
        vec![
            Action::EmbedTokens,
            Action::HostLayer(0),
            Action::HostLayer(1),
            Action::FinalNorm,
            Action::OutputLogits,
            Action::ReturnLogits,
        ]
    );
    let biased = Pass { head_bias: true, ..p };
    assert!(run(&biased, |_| true).contains(&Action::OutputBias));
}

#[test]
fn a_model_without_a_head_returns_nothing() {
    let p = Pass { head: false, ..pass(false, false) };
    assert_eq!(run(&p, |_| true).last(), Some(&Action::ReturnNothing));
}

#[test]
fn metal_runs_a_pass_to_its_end() {
    assert_eq!(
        run(&pass(true, false), |s| s != Stage::MetalEmbed),
        vec![
            Action::EmbedTokens,
            Action::EmbedOnMetal,
            Action::UploadHidden(Gpu::Metal),
            Action::UploadPositions(Gpu::Metal),
            Action::OpenCommands,
            Action::Layer(Gpu::Metal, 0),
            Action::Layer(Gpu::Metal, 1),
            Action::Head(Gpu::Metal),
            Action::Submit,
            Action::DownloadLogits(Gpu::Metal),
            Action::SyncKv,
            Action::ReturnLogits,
        ]
    );
}

#[test]
fn the_host_takes_over_from_a_device_that_gives_up() {
    let done = run(&pass(true, false), |s| s != Stage::MetalLayer(1));
    assert!(done.contains(&Action::SyncKv));
    assert!(!done.contains(&Action::Submit));
    let tail = &done[done.len() - 5..];
    assert_eq!(
        tail,
        [
            Action::HostLayer(0),
            Action::HostLayer(1),
            Action::FinalNorm,
            Action::OutputLogits,
            Action::ReturnLogits,
        ]
    );
}

#[test]
fn a_device_without_a_head_hands_its_hidden_state_over() {
    let done = run(&pass(true, false), |s| s != Stage::MetalHead);
    assert!(done.contains(&Action::DownloadHidden(Gpu::Metal)));
    assert!(!done.iter().any(|a| matches!(a, Action::HostLayer(_))));
    assert_eq!(done.last(), Some(&Action::ReturnLogits));
}

#[test]
fn every_pass_returns_once() {
    for metal in [false, true] {
        for cuda in [false, true] {
            for graph_ready in [false, true] {
                for nt in [1, 3] {
                    for answer in [false, true] {
                        let p = Pass { nt, graph_ready, ..pass(metal, cuda) };
                        let done = run(&p, |_| answer);
                        let ends = done
                            .iter()
                            .filter(|a| matches!(a, Action::ReturnLogits | Action::ReturnNothing))
                            .count();
                        assert_eq!(ends, 1, "{p:?}");
                        assert!(matches!(done.last(), Some(Action::ReturnLogits)), "{p:?}");
                    }
                }
            }
        }
    }
}

#[test]
fn a_recorded_decode_step_is_replayed() {
    let p = Pass { nt: 1, graph_ready: true, ..pass(false, true) };
    let done = run(&p, |_| true);
    assert!(done.contains(&Action::LaunchGraph));
    assert!(!done.iter().any(|a| matches!(a, Action::Layer(..) | Action::HostLayer(_))));
}

fn tensor(name: &str, ttype: TensorType, bytes: usize) -> Option<Tensor> {
    Some(Tensor {
        ttype,
        name: name.to_string(),
        shape: [32, 1, 1, 1],
        strides: [0; 4],
        data: vec![0; bytes],
    })
}

fn block() -> LayerWeights {
    let mut l = LayerWeights::new();
    l.attn_norm = tensor("an", TensorType::F32, 32);
    l.ffn_norm = tensor("fn", TensorType::F32, 32);
    l.wq = tensor("q", TensorType::Q4_0, 18);
    l.wk = tensor("k", TensorType::Q4_0, 18);
    l.wv = tensor("v", TensorType::Q4_1, 18);
    l.wo = tensor("o", TensorType::Q4_0, 18);
    l.ffn_gate = tensor("g", TensorType::Q4_0, 18);
    l.ffn_up = tensor("u", TensorType::Q4_0, 18);
    l.ffn_down = tensor("d", TensorType::Q4_0, 18);
    l
}

fn hparams() -> HParams {
    HParams {
        n_embd: 8,
        n_head: 2,
        n_head_kv: 1,
        n_layer: 1,
        n_ff: 6,
        n_vocab: 5,
        max_seq_len: 16,
        f_norm_rms_eps: Real::Single(0),
        rope_freq_base: Real::Single(0),
        rope_freq_scale: Real::Single(0),
        eos_token_id: 0,
        im_end_token_id: None,
        rope_style: RopeStyle::NonInterleaved,
        n_kv_embd: 4,
    }
}

fn model(l: LayerWeights) -> Qwen2Model {
    Qwen2Model {
        hparams: hparams(),
        tok_embd: None,
        output_norm: None,
        output: None,
        output_b: None,
        layers: vec![l],
        ns: String::new(),
        tied: false,
        offload: OffloadState::cpu_only(1),
    }
}

#[test]
fn a_device_runs_what_it_holds() {
    let m = model(block());
    assert!(!metal_runs(&m, None));
    assert!(!cuda_runs(&m, None));
    let names = ["an", "fn", "q", "k", "v", "o", "g", "u", "d"];
    let mut reg =
        CudaRegistry { entries: names.iter().map(|n| (n.to_string(), 1)).collect() };
    assert!(cuda_runs(&m, Some(&reg)));
    let mut mixed = block();
    mixed.wv = tensor("v", TensorType::Q6_K, 18);
    assert!(!cuda_runs(&model(mixed), Some(&reg)));
    reg.entries.pop();
    assert!(!cuda_runs(&m, Some(&reg)));
}

#[test]
fn buffers_are_sized_for_the_pass() {
    let d = host_dims(&hparams(), 3);
    assert_eq!((d.ne, d.nh, d.nk, d.hd, d.nqt, d.nkt, d.nf), (8, 2, 1, 4, 8, 4, 6));
    assert_eq!(host_buffer_len(&d, HostBuf::Hidden), 24);
    assert_eq!(host_buffer_len(&d, HostBuf::Key), 12);
    assert_eq!(host_buffer_len(&d, HostBuf::Gate), 18);
    assert_eq!(host_buffer_len(&d, HostBuf::Up), 24);
}

#[test]
fn a_block_is_a_fixed_list_of_operations() {
    let d = host_dims(&hparams(), 2);
    let mut l = block();
    l.bk = tensor("bk", TensorType::F32, 8);
    l.ffn_norm = None;
    let ops = host_layer(&l, &d, 5);
    assert_eq!(ops.len(), 4 + 1 + 6 + 8);
    assert_eq!(
        ops[4],
        HostOp::AddBias { bias: Part::Bk, dst: HostBuf::Key, width: 4, count: 2 }
    );
    assert_eq!(ops[7], HostOp::StoreKv { layer: 5 });
    assert_eq!(ops[8], HostOp::Attend { layer: 5, dst: HostBuf::Attended });
    assert_eq!(
        ops[11],
        HostOp::Norm { src: HostBuf::Hidden, dst: HostBuf::Up, weight: None, width: 8 }
    );
    assert_eq!(ops[18], HostOp::Add { dst: HostBuf::Hidden, src: HostBuf::Normed, len: 16 });
}

#[test]
fn rotations_take_every_element_once() {
    for style in [RopeStyle::NonInterleaved, RopeStyle::Interleaved] {
        let mut seen: Vec<usize> = (0..4)
            .flat_map(|i| {
                let (a, b) = rope_pair(style, 10, i, 4);
                [a, b]
            })
            .collect();
        seen.sort();
        assert_eq!(seen, (10..18).collect::<Vec<_>>());
    }
    assert_eq!(rope_pair(RopeStyle::NonInterleaved, 10, 1, 4), (11, 15));
    assert_eq!(rope_pair(RopeStyle::Interleaved, 10, 1, 4), (12, 13));
}

#[test]
fn a_query_sees_the_rows_up_to_its_own() {
    let d = host_dims(&hparams(), 2);
    let t = attn_task(&d, 1, 1, 4, 9);
    assert_eq!((t.query, t.kv, t.kv_dim, t.visible), (12, 0, 4, 5));
    assert_eq!(attn_task(&d, 0, 0, 9, 9).visible, 9);
}
