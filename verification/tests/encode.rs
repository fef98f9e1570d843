//! The commands of the operators, one by one.
use minfer::metal::encode::{Command, EncoderConfig, MpsCommandBuffer, Scratch, Slot};
use minfer::metal::kernel::{Kernel, QuantType};
use minfer::models::Device;
use minfer::tensor::TensorType;

fn encoder(kv_half: bool) -> MpsCommandBuffer {
    let empty = Slot { buf: 0, bytes: 0 };
    let scratch = Scratch { partial: empty, scores: empty, pad: empty, next: 100 };
    let config = EncoderConfig { max_shared: 32768, kv_half, gemm: true, trace: true };
    MpsCommandBuffer::new(config, scratch, Vec::new())
}

fn buf(index: u64, buf: usize, offset: u64) -> Command {
    Command::Buffer { index, buf, offset }
}

fn par(index: u64, value: i32) -> Command {
    Command::Param { index, value }
}

fn run(groups: (u64, u64, u64), threads: (u64, u64, u64)) -> Command {
    Command::Dispatch { groups, threads }
}

#[test]
fn embedding_rows_are_decoded_block_by_block() {
    let mut e = encoder(false);
    e.embed_tokens_gpu(1, 64, 2, 3, 896, 10, TensorType::Q8_0);
    assert_eq!(
        e.commands,
        [
            Command::Pipeline(Kernel::GetRows(QuantType::Q80)),
            buf(0, 1, 64),
            buf(1, 2, 0),
            buf(2, 3, 0),
            par(3, 896),
            par(4, 10),
            run((2, 1, 1), (256, 1, 1)),
            Command::Barrier,
        ]
    );
    assert_eq!(e.trace, ["embed"]);
    let mut e = encoder(false);
    e.embed_tokens_gpu(1, 0, 2, 3, 512, 9, TensorType::Q6_K);
    assert_eq!(e.commands[6], run((2, 1, 1), (256, 1, 1)));
}

#[test]
fn a_norm_without_a_weight_binds_its_output() {
    let mut e = encoder(false);
    e.rms_norm_256(1, None, 0, 2, 896, 3, 1e-6f32.to_bits(), 16);
    assert_eq!(
        e.commands,
        [
            Command::Pipeline(Kernel::RmsNorm256),
            buf(0, 1, 16),
            buf(1, 2, 0),
            buf(2, 2, 0),
            par(3, 896),
            par(4, 1e-6f32.to_bits() as i32),
            Command::Shared { index: 0, bytes: 128 },
            run((3, 1, 1), (32, 8, 1)),
            Command::Barrier,
        ]
    );
}

#[test]
fn a_bias_is_added_four_at_a_time() {
    let mut e = encoder(false);
    e.add_bias_f32(1, 2, 8, 130, 5, 7);
    assert_eq!(
        e.commands,
        [
            Command::Pipeline(Kernel::AddBias),
            buf(0, 1, 28),
            buf(1, 2, 8),
            par(2, 130),
            run((5, 33, 1), (1, 64, 1)),
            Command::Barrier,
        ]
    );
    assert_eq!(e.trace, ["bias"]);
}

#[test]
fn elements_are_combined_in_groups_of_256_threads() {
    let mut e = encoder(false);
    e.mul_f32(1, 2, 3, 257);
    assert_eq!(e.commands[4..], [par(3, 257), run((2, 1, 1), (256, 1, 1)), Command::Barrier]);
    e.silu_f32(4, 256);
    assert_eq!(
        e.commands[7..],
        [
            Command::Pipeline(Kernel::Silu),
            buf(0, 4, 0),
            par(1, 256),
            run((1, 1, 1), (256, 1, 1)),
            Command::Barrier,
        ]
    );
    assert!(e.trace.is_empty());
    let mut e = encoder(false);
    e.swiglu_f32(1, 2, 1, 1025);
    assert_eq!(e.commands[5], run((2, 1, 1), (256, 1, 1)));
    e.swiglu_f32_off(1, 1, 1, 1024, 1024);
    assert_eq!(e.commands[9], buf(1, 1, 4096));
    assert_eq!(e.commands[12], run((1, 1, 1), (256, 1, 1)));
    assert_eq!(e.trace, ["swiglu", "swiglu"]);
}

#[test]
fn a_rotation_has_a_thread_per_pair() {
    let mut e = encoder(false);
    e.rope_f32(1, 14, 64, 3, 1e6f32.to_bits(), 1f32.to_bits(), 2, 0, 10);
    assert_eq!(
        e.commands,
        [
            Command::Pipeline(Kernel::Rope),
            buf(0, 1, 40),
            par(1, 14),
            par(2, 64),
            par(3, 3),
            par(4, 1e6f32.to_bits() as i32),
            par(5, 1f32.to_bits() as i32),
            buf(6, 2, 0),
            par(7, 0),
            run((32, 14, 3), (1, 1, 1)),
            Command::Barrier,
        ]
    );
}

#[test]
fn attention_shares_keys_within_a_group() {
    let mut e = encoder(true);
    e.gqa_attn_f32(1, 2, 3, 4, 5, 14, 2, 64, 7, 6);
    assert_eq!(
        e.commands,
        [
            Command::Pipeline(Kernel::GqaAttn { half: true }),
            buf(0, 1, 0),
            buf(1, 2, 0),
            buf(2, 3, 0),
            buf(3, 4, 0),
            buf(4, 5, 0),
            par(5, 14),
            par(6, 2),
            par(7, 64),
            par(8, 7),
            par(9, 6),
            Command::Shared { index: 0, bytes: 16384 },
            run((6, 2, 1), (32, 7, 1)),
            Command::Barrier,
        ]
    );
}

#[test]
fn split_attention_grows_its_scratch_once() {
    let mut e = encoder(false);
    e.gqa_attn_split_f32(1, 2, 3, 4, 5, 14, 2, 64, 7, 1, 16);
    let bytes = 14 * 16 * 66 * 4;
    assert_eq!(e.commands[0], Command::Allocate { buf: 100, bytes });
    assert_eq!(e.scratch.partial, Slot { buf: 100, bytes });
    assert_eq!(e.scratch.next, 101);
    assert_eq!(e.commands[1], Command::Pipeline(Kernel::GqaAttnPartial { half: false }));
    assert_eq!(e.commands[5], buf(3, 100, 0));
    assert_eq!(e.commands[13], Command::Shared { index: 0, bytes: 16384 });
    assert_eq!(e.commands[14], run((1, 2, 16), (32, 7, 1)));
    assert_eq!(
        e.commands[16..],
        [
            Command::Pipeline(Kernel::GqaAttnCombine),
            buf(0, 100, 0),
            buf(1, 4, 0),
            par(2, 14),
            par(3, 64),
            par(4, 1),
            par(5, 16),
            run((1, 14, 1), (32, 1, 1)),
            Command::Barrier,
        ]
    );
    e.gqa_attn_flash(1, 2, 3, 4, 5, 14, 2, 64, 7, 1, 16);
    assert_eq!(
        e.commands[25],
        Command::Pipeline(Kernel::FlashAttn { wide: false, half: false })
    );
    assert_eq!(e.commands[37], Command::Shared { index: 0, bytes: 1024 });
    assert_eq!(e.scratch.next, 101);
    assert_eq!(e.trace, ["gqa_attn_split", "gqa_attn_flash"]);
}

#[test]
fn a_prompt_is_attended_in_three_passes_or_one() {
    let mut e = encoder(false);
    e.attn_parallel_prefill(1, 2, 3, 4, 5, 430, 128, 35, 14, 64, 7, 9);
    assert_eq!(e.commands[0], Command::Allocate { buf: 100, bytes: 35 * 14 * 430 * 4 });
    let kernels: Vec<Command> =
        e.commands.iter().filter(|c| matches!(c, Command::Pipeline(_))).copied().collect();
    assert_eq!(
        kernels,
        [
            Command::Pipeline(Kernel::AttnScores),
            Command::Pipeline(Kernel::SoftmaxAttn),
            Command::Pipeline(Kernel::AttnOutput),
        ]
    );
    assert_eq!(e.commands[12], run((490, 1, 1), (256, 1, 1)));
    let mut e = encoder(true);
    e.attn_flash_prefill(1, 2, 3, 4, 5, 430, 128, 35, 14, 2, 128, 9);
    assert_eq!(e.commands[0], Command::Allocate { buf: 100, bytes: 2 * 64 * 128 * 2 });
    assert_eq!(e.commands[1], Command::Pipeline(Kernel::KvTailPad));
    assert_eq!(e.commands[7..10], [par(5, 1), run((128, 64, 1), (1, 1, 1)), Command::Barrier]);
    assert_eq!(
        e.commands[10],
        Command::Pipeline(Kernel::FlashAttnBlk { wide: true, half: true })
    );
    let n = e.commands.len();
    assert_eq!(
        e.commands[n - 3..],
        [
            Command::Shared { index: 0, bytes: 10240 },
            run((5, 14, 1), (32, 4, 1)),
            Command::Barrier,
        ]
    );
    let mut e = encoder(true);
    e.attn_flash_prefill(1, 2, 3, 4, 5, 448, 128, 35, 14, 2, 64, 9);
    assert_eq!(
        e.commands[1],
        Command::Pipeline(Kernel::FlashAttnBlk { wide: false, half: true })
    );
}

#[test]
fn only_metal_cannot_gather_scattered_rows() {
    assert!(Device::Cpu.gathers_attn_map() && Device::Cuda.gathers_attn_map());
    assert!(!Device::Metal.gathers_attn_map());
}
