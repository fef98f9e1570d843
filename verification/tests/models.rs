//! Devices, offloading and chat prompts.
use minfer::graph::offload::{
    block_of, fit_blocks, parse_usize, OffloadPlan, OffloadRequest,
};
use minfer::graph::Backend;
use minfer::models::{
    device_available, device_memory, device_name, ffn_composition, format_chatml, Device,
    DeviceMemory, OffloadState,
};

#[test]
fn ffn_composition_is_opt_in_and_refuses_where_it_cannot_work() {
    for d in [Device::Cpu, Device::Metal, Device::Cuda] {
        assert!(!ffn_composition(None, d), "{d:?}");
    }
    assert!(ffn_composition(Some("1"), Device::Cuda));
    assert!(!ffn_composition(Some("1"), Device::Metal));
    assert!(!ffn_composition(Some("1"), Device::Cpu));
    for v in ["0", "true", "banana", ""] {
        for d in [Device::Cpu, Device::Metal, Device::Cuda] {
            assert!(!ffn_composition(Some(v), d), "{v:?} {d:?}");
        }
    }
}

#[test]
fn devices_and_backends_share_their_names() {
    for d in [Device::Cpu, Device::Metal, Device::Cuda] {
        assert_eq!(d.name(), d.backend().name());
        assert_eq!(d.name(), device_name(d));
    }
    assert_eq!(Device::Cuda.backend(), Backend::CUDA);
    assert!(!Device::Cpu.is_gpu());
    assert!(Device::Metal.is_gpu());
    assert!(device_available(false, true));
    assert!(!device_available(false, false));
    assert_eq!(device_memory(None), DeviceMemory::NoDevice);
    assert_eq!(device_memory(Some(DeviceMemory::Free(7))), DeviceMemory::Free(7));
}

#[test]
fn a_tensor_name_tells_its_block() {
    assert_eq!(block_of("blk.12.attn_q.weight"), Some(12));
    assert_eq!(block_of("draft.blk.3.ffn_up.weight"), Some(3));
    assert_eq!(block_of("token_embd.weight"), None);
    assert_eq!(block_of("blk.x.weight"), None);
    assert_eq!(parse_usize("0042"), Some(42));
    assert_eq!(parse_usize(""), None);
}

#[test]
fn a_plan_admits_the_blocks_on_the_device() {
    let p = OffloadPlan { gpu_layers: 2, n_layers: 4 };
    assert!(p.allows_weight("blk.1.wq"));
    assert!(!p.allows_weight("blk.2.wq"));
    assert!(p.allows_weight("output.weight"));
    assert!(!OffloadPlan::all_on_cpu(4).allows_weight("output.weight"));
    assert_eq!(OffloadRequest::parse(Some("auto")), Some(OffloadRequest::Auto));
    assert_eq!(OffloadRequest::parse(Some("3")), Some(OffloadRequest::Layers(3)));
    assert_eq!(OffloadRequest::parse(Some("many")), None);
    assert_eq!(OffloadRequest::Layers(9).plan(4, true, 0).gpu_layers, 4);
    assert_eq!(OffloadRequest::Default.plan(4, false, 0).gpu_layers, 0);
}

#[test]
fn as_many_blocks_fit_as_the_budget_holds() {
    let per_block = vec![10usize, 10, 10];
    assert_eq!(fit_blocks(100, &per_block, 75), 2);
    assert_eq!(fit_blocks(100, &per_block, 0), 3);
    assert_eq!(fit_blocks(5, &per_block, 10), 0);
}

#[test]
fn a_report_is_made_of_what_was_asked() {
    assert_eq!(OffloadState::cpu_only(3).report(Device::Cpu), None);
    let s = OffloadState {
        plan: OffloadPlan { gpu_layers: 2, n_layers: 3 },
        device_bytes: 64,
        source: "--gpu-layers".to_string(),
    };
    let line = s.report(Device::Cuda).unwrap();
    assert!(line.contains("2 of 3"), "{line}");
    assert!(line.contains("cuda"), "{line}");
    let back = s.settle(Device::Cpu);
    assert_eq!(back.plan.gpu_layers, 0);
}

#[test]
fn messages_become_a_chatml_prompt() {
    let messages = vec![
        ("system".to_string(), "Be brief.".to_string()),
        ("user".to_string(), "Hi".to_string()),
    ];
    assert_eq!(
        format_chatml(&messages),
        "<|im_start|>system\nBe brief.<|im_end|>\n<|im_start|>user\nHi<|im_end|>\n<|im_start|>assistant\n"
    );
}
