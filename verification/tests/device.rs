//! What goes onto a device: plans, registrations, stacked weights, commands.
use minfer::bits::Real;
use minfer::graph::offload::{OffloadPlan, OffloadRequest};
use minfer::graph::ops::RopeStyle;
use minfer::metal::concat::{concat_rows_feasible, quant_block_bytes, quant_block_q};
use minfer::metal::encode::{Command, GpuError};
use minfer::metal::kernel::{kernels, Kernel, MatForm, QuantType};
use minfer::metal::library::{
    choose_library, next_library, override_named, Library, LibraryTrials,
};
use minfer::metal::{
    concat_rows, flash_attn_enabled, gemm_enabled, kv_cache_is_f16, matmul_attn_enabled,
    prefill_flash_enabled, recent_trace, rms_norm_256_enabled, set_kv_cache_type, submit_result,
    Completion, DeviceInfo, InitError, KvCacheType, MpsSlot, MpsState, WeightPlacement,
};
use minfer::models::qwen3::loader::{HParams, LayerWeights};
use minfer::models::qwen3::register::{stacks, warm};
use minfer::models::qwen3::Qwen3Model;
use minfer::models::register::{
    device_bytes, resolve_plan, upload_tensor, MetalTypes, StackLayout, Targets,
};
use minfer::models::weight_reg::RegisterStep;
use minfer::models::weights::{Role, Weight};
use minfer::models::{Device, OffloadState};
use minfer::tensor::{Tensor, TensorType};

fn tensor(name: &str, ttype: TensorType, shape: [i64; 4], fill: u8, bytes: usize) -> Tensor {
    Tensor { ttype, name: name.to_string(), shape, strides: [0; 4], data: vec![fill; bytes] }
}

#[test]
fn a_request_wins_over_the_environment() {
    let per_block = vec![100, 100, 100, 100];
    let plan = |r, env, device, budget| {
        resolve_plan(r, env, 4, device, budget, &per_block).map(|p| p.gpu_layers)
    };
    assert_eq!(plan(OffloadRequest::Layers(2), Some("3"), true, None), Some(2));
    assert_eq!(plan(OffloadRequest::Default, Some("3"), true, None), Some(3));
    assert_eq!(plan(OffloadRequest::Default, Some("many"), true, None), None);
    assert_eq!(plan(OffloadRequest::Auto, None, true, None), None);
    assert_eq!(plan(OffloadRequest::Auto, None, true, Some(400)), Some(3));
    assert_eq!(plan(OffloadRequest::Auto, None, true, Some(100)), Some(0));
    assert_eq!(plan(OffloadRequest::Auto, None, true, Some(10000)), Some(4));
}

const BOTH: Targets = Targets { metal: true, cuda: true, dsc_gates: false };

const ALL: MetalTypes = MetalTypes { fives: true };

const FEW: MetalTypes = MetalTypes { fives: false };

#[test]
fn a_tensor_goes_where_its_block_goes() {
    let plan = OffloadPlan { gpu_layers: 1, n_layers: 2 };
    let t = tensor("blk.0.attn_q.weight", TensorType::Q8_0, [32, 2, 1, 1], 0, 68);
    let u = upload_tensor(&t, 2, plan, BOTH, ALL);
    assert!(u.metal);
    assert_eq!(u.counted, 136);
    assert!(u.cuda.contains(&RegisterStep::Raw));
    let t = tensor("blk.1.attn_q.weight", TensorType::Q8_0, [32, 2, 1, 1], 0, 68);
    let u = upload_tensor(&t, 2, plan, BOTH, ALL);
    assert!(!u.metal && u.cuda.is_empty());
    assert_eq!(u.counted, 0);
    let t = tensor("blk.0.x", TensorType::I8, [32, 2, 1, 1], 0, 64);
    let u = upload_tensor(&t, 2, plan, BOTH, ALL);
    assert!(!u.metal && u.cuda.is_empty());
    assert_eq!(u.counted, 64);
    let t = tensor("blk.0.x", TensorType::Q6_K, [256, 2, 1, 1], 0, 420);
    let u = upload_tensor(&t, 2, plan, BOTH, ALL);
    assert_eq!(u.cuda, vec![RegisterStep::Q6kPadded]);
}

#[test]
fn five_bit_weights_are_kept_on_metal_where_asked() {
    let plan = OffloadPlan { gpu_layers: 2, n_layers: 2 };
    let metal = Targets { metal: true, cuda: false, dsc_gates: false };
    for ttype in [TensorType::Q5_0, TensorType::Q5_1, TensorType::Q5_K] {
        let t = tensor("blk.0.attn_q.weight", ttype, [256, 1, 1, 1], 0, 192);
        let u = upload_tensor(&t, 2, plan, metal, FEW);
        assert_eq!((u.metal, u.counted), (false, 0));
        let u = upload_tensor(&t, 2, plan, metal, ALL);
        assert_eq!((u.metal, u.counted), (true, 192));
    }
    for ttype in [TensorType::Q4_0, TensorType::Q6_K, TensorType::F32] {
        let t = tensor("blk.0.attn_q.weight", ttype, [256, 1, 1, 1], 0, 192);
        assert!(upload_tensor(&t, 2, plan, metal, FEW).metal);
    }
    let t = tensor("blk.0.attn_q.weight", TensorType::F16, [256, 1, 1, 1], 0, 512);
    assert!(!upload_tensor(&t, 2, plan, metal, ALL).metal);
}

#[test]
fn a_tied_head_is_charged_once() {
    let embd = tensor("token_embd.weight", TensorType::Q8_0, [32, 2, 1, 1], 0, 68);
    let head = tensor("output.weight", TensorType::Q8_0, [32, 2, 1, 1], 0, 68);
    let ws = vec![
        Weight { tensor: Some(&embd), role: Role::Embed },
        Weight { tensor: Some(&head), role: Role::Matmul },
        Weight { tensor: None, role: Role::Plain },
    ];
    let plan = OffloadPlan { gpu_layers: 2, n_layers: 2 };
    let metal = Targets { metal: true, cuda: false, dsc_gates: false };
    assert_eq!(device_bytes(&ws, false, plan, metal, ALL), 136);
    assert_eq!(device_bytes(&ws, true, plan, metal, ALL), 68);
    assert_eq!(device_bytes(&ws, false, OffloadPlan::all_on_cpu(2), metal, ALL), 0);
}

#[test]
fn rows_of_one_width_stack() {
    let a = tensor("a", TensorType::Q4_0, [32, 2, 1, 1], 1, 36);
    let b = tensor("b", TensorType::Q4_0, [32, 1, 1, 1], 2, 18);
    let mut want = vec![1; 36];
    want.extend([2; 18]);
    assert!(concat_rows_feasible(&[&a, &b]));
    assert_eq!(concat_rows(&[&a, &b]), Some(want));
    assert_eq!(concat_rows(&[&a]), None);
    let wide = tensor("w", TensorType::Q4_0, [64, 1, 1, 1], 2, 36);
    assert_eq!(concat_rows(&[&a, &wide]), None);
    let other = tensor("o", TensorType::Q8_0, [32, 1, 1, 1], 2, 34);
    assert_eq!(concat_rows(&[&a, &other]), None);
    let short = tensor("s", TensorType::Q4_0, [32, 1, 1, 1], 2, 17);
    assert_eq!(concat_rows(&[&a, &short]), None);
    let plain = tensor("p", TensorType::F32, [32, 1, 1, 1], 2, 128);
    assert_eq!(concat_rows(&[&plain, &plain]), None);
    assert_eq!((quant_block_q(TensorType::Q6_K), quant_block_bytes(TensorType::Q6_K)), (256, 210));
    assert_eq!((quant_block_q(TensorType::Q4_0), quant_block_bytes(TensorType::F32)), (32, 0));
}

fn model(ttype: TensorType, bytes: usize, width: i64) -> Qwen3Model {
    let part = |name: &str, fill: u8| Some(tensor(name, ttype, [width, 1, 1, 1], fill, bytes));
    let mut l = LayerWeights::new();
    l.wq = part("q", 1);
    l.wk = part("k", 2);
    l.wv = part("v", 3);
    l.wo = part("o", 4);
    l.ffn_gate = part("g", 5);
    l.ffn_up = part("u", 6);
    Qwen3Model {
        hparams: HParams {
            n_embd: 64,
            n_head: 2,
            n_head_kv: 1,
            n_layer: 1,
            n_ff: 96,
            n_vocab: 10,
            max_seq_len: 16,
            f_norm_rms_eps: Real::Single(0),
            rope_freq_base: Real::Single(0),
            rope_freq_scale: Real::Single(0),
            eos_token_id: 1,
            im_end_token_id: None,
            rope_style: RopeStyle::NonInterleaved,
            n_embd_head: 32,
            n_kv_embd: 32,
        },
        tok_embd: None,
        output_norm: None,
        output: part("output.weight", 7),
        output_b: None,
        layers: vec![l],
        ns: "draft.".to_string(),
        tied: false,
        offload: OffloadState::cpu_only(1),
    }
}

#[test]
fn stacked_weights_are_registered_under_one_name() {
    let plan = OffloadPlan { gpu_layers: 1, n_layers: 1 };
    let s = stacks(&model(TensorType::Q6_K, 210, 256), plan, BOTH, false);
    let names: Vec<(Device, &str, StackLayout)> =
        s.iter().map(|s| (s.device, s.name.as_str(), s.layout)).collect();
    assert_eq!(
        names,
        [
            (Device::Metal, "draft.blk.0.attn_qkv", StackLayout::Raw),
            (Device::Metal, "draft.blk.0.ffn_gu", StackLayout::Raw),
            (Device::Cuda, "draft.blk.0.ffn_gu", StackLayout::Padded { rows: 2, cols: 256 }),
        ]
    );
    assert_eq!(s[0].data.len(), 630);
    assert_eq!((s[0].data[0], s[0].data[210], s[0].data[420]), (1, 2, 3));
    let s = stacks(&model(TensorType::Q4_0, 18, 32), plan, BOTH, true);
    assert_eq!(s.len(), 1);
    let s = stacks(&model(TensorType::Q4_0, 18, 32), OffloadPlan::all_on_cpu(1), BOTH, false);
    assert!(s.is_empty());
}

#[test]
fn large_models_are_unpacked_ahead_of_time() {
    let m = model(TensorType::Q4_0, 18, 32);
    assert!(warm(&m, 109, false).is_empty());
    assert!(warm(&m, 0, true).is_empty());
    assert_eq!(
        warm(&m, 108, false),
        [
            "blk.0.attn_q.weight",
            "blk.0.attn_k.weight",
            "blk.0.attn_v.weight",
            "blk.0.attn_output.weight",
            "blk.0.ffn_gate.weight",
            "blk.0.ffn_up.weight",
            "output.weight",
        ]
    );
}

const NO_LIBRARY: LibraryTrials = LibraryTrials {
    override_named: false,
    override_loads: false,
    embedded_there: false,
    embedded_loads: false,
    source_compiles: false,
};

fn device() -> Option<DeviceInfo> {
    let library = LibraryTrials { source_compiles: true, ..NO_LIBRARY };
    Some(DeviceInfo { max_shared: 32768, library })
}

fn state() -> MpsState {
    match MpsState::try_new(false, device(), &vec![true; kernels().len()]) {
        Ok(s) => s,
        Err(e) => panic!("{e:?}"),
    }
}

#[test]
fn a_device_starts_with_all_its_kernels_or_not_at_all() {
    let n = kernels().len();
    let all = vec![true; n];
    let why = |disabled, d, built: &Vec<bool>| MpsState::try_new(disabled, d, built).err();
    assert_eq!(why(true, device(), &all), Some(InitError::Disabled));
    assert_eq!(why(false, None, &all), Some(InitError::NoDevice));
    let bare = Some(DeviceInfo { max_shared: 1, library: NO_LIBRARY });
    assert_eq!(why(false, bare, &all), Some(InitError::NoLibrary));
    let mut some = all.clone();
    some[3] = false;
    some[5] = false;
    assert_eq!(why(false, device(), &some), Some(InitError::NoPipeline(kernels()[3])));
    assert_eq!(why(false, device(), &all), None);
}

#[test]
fn every_kernel_has_a_name_of_its_own() {
    let mut names: Vec<&str> = kernels().iter().map(|k| k.name()).collect();
    let n = names.len();
    names.sort();
    names.dedup();
    assert_eq!(names.len(), n);
}

#[test]
fn the_first_start_counts() {
    let mut slot = MpsSlot { state: None };
    assert!(MpsState::get(&slot).is_none());
    MpsState::init(&mut slot, None);
    MpsState::init(&mut slot, Some(state()));
    assert!(MpsState::get(&slot).is_none());
    let mut slot = MpsSlot { state: None };
    MpsState::init(&mut slot, Some(state()));
    assert!(MpsState::get(&slot).is_some());
}

#[test]
fn a_mapped_weight_is_read_in_place() {
    let mut s = state();
    assert!(s.register_part(1000, 0, 8, true).is_empty());
    let warm = s.register_part(1000, 100, 9, true);
    assert_eq!(warm[0], Command::Pipeline(Kernel::WarmupRead));
    assert_eq!(warm[1], Command::Buffer { index: 0, buf: 9, offset: 0 });
    assert_eq!(warm[3], Command::Dispatch { groups: (1, 1, 1), threads: (256, 1, 1) });
    assert_eq!(s.trace, ["part_warmup"]);
    assert_eq!(s.parts.len(), 1);
    assert_eq!(s.register_weight("e", 1000, 0, false), WeightPlacement::Empty);
    assert!(!s.has_weight("e"));
    assert_eq!(
        s.register_weight("a", 1040, 60, false),
        WeightPlacement::Mapped { buf: 9, offset: 40 }
    );
    assert_eq!(s.register_weight("b", 1040, 61, false), WeightPlacement::Copied { buf: 1 });
    assert_eq!(s.register_weight("a", 1000, 10, true), WeightPlacement::Copied { buf: 2 });
    assert_eq!(s.weight_buf("a"), Some((2, 0)));
    assert_eq!(s.weight_buf("b"), Some((1, 0)));
    assert_eq!(s.weight_buf("c"), None);
    assert_eq!(s.new_f32_buffer(5), Command::Allocate { buf: 3, bytes: 20 });
}

#[test]
fn multiplications_take_the_form_that_pays() {
    let s = state();
    let mut b = s.cmd_buffer(false, true, true);
    assert_eq!(b.quant_matmul_f32_on_gpu_buf(1, 0, TensorType::Q8_0, 2, 0, 3, 9, 64, 1), Ok(()));
    assert_eq!(b.commands[0], Command::Pipeline(Kernel::MatMul(QuantType::Q80, MatForm::Single)));
    assert_eq!(b.commands[4], Command::Sizes { index: 3, od: 9, id: 64, nt: 1 });
    assert_eq!(b.commands[6], Command::Dispatch { groups: (5, 1, 1), threads: (32, 4, 1) });
    assert_eq!(b.commands[7], Command::Barrier);
    let mut b = s.cmd_buffer(false, true, true);
    assert_eq!(b.quant_matmul_f32_on_gpu_buf(1, 0, TensorType::Q4_K, 2, 0, 3, 100, 256, 9), Ok(()));
    assert_eq!(b.commands[0], Command::Pipeline(Kernel::MatMul(QuantType::Q4K, MatForm::Gemm)));
    assert_eq!(b.commands[6], Command::Dispatch { groups: (1, 2, 1), threads: (32, 4, 1) });
    let mut b = s.cmd_buffer(false, false, true);
    assert_eq!(b.quant_matmul_f32_on_gpu_buf(1, 0, TensorType::Q4_K, 2, 0, 3, 100, 256, 9), Ok(()));
    assert_eq!(b.commands[0], Command::Pipeline(Kernel::MatMul(QuantType::Q4K, MatForm::Multi)));
}

#[test]
fn multiplications_that_a_kernel_cannot_do_are_refused() {
    let mut s = state();
    let mut b = s.cmd_buffer(false, true, true);
    assert_eq!(
        b.quant_matmul_f32_on_gpu_buf(1, 0, TensorType::Q6_K, 2, 0, 3, 4, 300, 1),
        Err(GpuError::Misaligned { id: 300, ttype: TensorType::Q6_K })
    );
    assert!(b.commands.is_empty());
    assert_eq!(
        GpuError::Misaligned { id: 300, ttype: TensorType::Q6_K }.message(),
        "matmul input dim id=300 is not 256-aligned for Q6_K (K-quant kernels use K/256 super-block floor)"
    );
    assert_eq!(
        GpuError::SharedMemory { need: 8192, max: 4096 }.message(),
        "GEMM needs 8192 B threadgroup memory, device max is 4096 B"
    );
    s.max_shared = 4096;
    let mut b = s.cmd_buffer(false, true, true);
    assert_eq!(
        b.quant_matmul_f32_on_gpu_buf(1, 0, TensorType::Q4_0, 2, 0, 3, 4, 32, 9),
        Err(GpuError::SharedMemory { need: 8192, max: 4096 })
    );
}

#[test]
fn a_barrier_follows_every_dispatch() {
    let mut s = state();
    let mut b = s.cmd_buffer(false, true, true);
    b.rms_norm(1, None, 0, 2, 64, 3, 0, 0);
    b.get_rows_f32(1, 2, 3, 64, 2);
    b.add_f32(1, 2, 3, 100);
    for (i, c) in b.commands.iter().enumerate() {
        if let Command::Dispatch { .. } = c {
            assert_eq!(b.commands[i + 1], Command::Barrier);
        }
    }
    assert_eq!(b.trace[..2], ["rms_norm", "get_rows_f32"]);
    let commands = s.finish(b);
    assert!(!commands.is_empty());
    assert_eq!(s.trace.len(), 3);
}

#[test]
fn the_last_operators_are_remembered() {
    let s = state();
    let mut b = s.cmd_buffer(false, true, true);
    for _ in 0..20 {
        b.get_rows_f32(1, 2, 3, 64, 2);
    }
    assert_eq!(b.trace.len(), 16);
    let mut quiet = s.cmd_buffer(false, true, false);
    quiet.get_rows_f32(1, 2, 3, 64, 2);
    assert!(quiet.trace.is_empty());
}

#[test]
fn a_failed_submission_names_the_last_operators() {
    let labels = vec!["matmul", "rope"];
    assert_eq!(recent_trace(&labels), "matmul -> rope");
    assert_eq!(submit_result(Completion::Completed, "", &labels), Ok(()));
    assert_eq!(
        submit_result(Completion::Failed, "Error", &labels),
        Err("Metal command buffer status=Error. recent dispatches: matmul -> rope".to_string())
    );
    assert_eq!(
        submit_result(Completion::TimedOut, "", &Vec::new()),
        Err(
            "Metal command buffer timed out after 10s (GPU hang). recent dispatches: ".to_string()
        )
    );
}

#[test]
fn the_precision_of_the_cache_is_decided_once() {
    let mut t = KvCacheType { half: None };
    set_kv_cache_type(&mut t, 32, 256, None);
    assert!(kv_cache_is_f16(&mut t));
    set_kv_cache_type(&mut t, 1, 1, Some("f32"));
    assert!(kv_cache_is_f16(&mut t));
    let mut t = KvCacheType { half: None };
    assert!(!kv_cache_is_f16(&mut t));
    set_kv_cache_type(&mut t, 32, 256, Some("f16"));
    assert!(!kv_cache_is_f16(&mut t));
    let mut t = KvCacheType { half: None };
    set_kv_cache_type(&mut t, 31, 256, None);
    assert!(!kv_cache_is_f16(&mut t));
}

#[test]
fn kernels_are_switched_off_by_their_own_word() {
    assert!(rms_norm_256_enabled(None) && !rms_norm_256_enabled(Some("1")));
    assert!(matmul_attn_enabled(Some("0")) && !matmul_attn_enabled(Some("1")));
    assert!(gemm_enabled(None) && gemm_enabled(Some("1")) && !gemm_enabled(Some("0")));
    assert!(!flash_attn_enabled(Some("1"), 64));
    assert!(!prefill_flash_enabled(Some("1"), 64));
}

#[test]
fn kernels_come_from_the_first_library_that_loads() {
    let all = LibraryTrials {
        override_named: true,
        override_loads: true,
        embedded_there: true,
        embedded_loads: true,
        source_compiles: true,
    };
    assert_eq!(choose_library(all), Some(Library::Override));
    let broken = LibraryTrials { override_loads: false, ..all };
    assert_eq!(choose_library(broken), Some(Library::Embedded));
    let unnamed = LibraryTrials { override_named: false, ..all };
    assert_eq!(choose_library(unnamed), Some(Library::Embedded));
    let stale = LibraryTrials { embedded_loads: false, ..broken };
    assert_eq!(choose_library(stale), Some(Library::Source));
    let empty = LibraryTrials { embedded_there: false, ..broken };
    assert_eq!(choose_library(empty), Some(Library::Source));
    let none = LibraryTrials { source_compiles: false, ..stale };
    assert_eq!(choose_library(none), None);
    assert_eq!(choose_library(LibraryTrials { source_compiles: false, ..all }), choose_library(all));
}

#[test]
fn libraries_are_tried_one_after_the_other() {
    assert!(override_named(Some("a.metallib")));
    assert!(!override_named(Some("")) && !override_named(None));
    let order = |named: bool, embedded: bool| {
        let mut tried = Vec::new();
        while let Some(l) = next_library(tried.last().copied(), named, embedded) {
            tried.push(l);
        }
        tried
    };
    assert_eq!(order(true, true), [Library::Override, Library::Embedded, Library::Source]);
    assert_eq!(order(true, false), [Library::Override, Library::Source]);
    assert_eq!(order(false, true), [Library::Embedded, Library::Source]);
    assert_eq!(order(false, false), [Library::Source]);
}
