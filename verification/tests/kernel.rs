//! Block layouts, products and embeddings.
use minfer::block::{block_at, code_of, decode_block, unpack_scale, Element};
use minfer::kernel::{
    auto_threads, chunk, cpu_quant_matmul, cpu_quant_matmul_f32, cpu_threads, embed_tokens,
    mm_rows, par_for, set_cpu_threads, Activation, CpuThreads, MmJob, WorkerPool,
};
use minfer::tensor::{Tensor, TensorType};

fn tensor(ttype: TensorType, data: Vec<u8>) -> Tensor {
    Tensor { ttype, name: "t".to_string(), shape: [1, 1, 1, 1], strides: [0; 4], data }
}

#[test]
fn the_thread_count_is_what_was_asked_for() {
    let mut t = CpuThreads { chosen: 0 };
    assert_eq!(cpu_threads(&t, 6), 6);
    set_cpu_threads(&mut t, 0);
    assert_eq!(cpu_threads(&t, 6), 1);
    set_cpu_threads(&mut t, 3);
    assert_eq!(cpu_threads(&t, 6), 3);
    assert_eq!(auto_threads(Some("4\n"), Some(8)), 4);
    assert_eq!(auto_threads(Some("0"), Some(8)), 8);
    assert_eq!(auto_threads(Some("x"), None), 1);
    assert_eq!(auto_threads(None, Some(8)), 8);
}

#[test]
fn chunks_cover_their_range() {
    let parts: Vec<(usize, usize)> = (0..3).map(|i| chunk(3, i, 10)).collect();
    assert_eq!(parts[0].0, 0);
    assert_eq!(parts[2].1, 10);
    assert_eq!(parts[0].1, parts[1].0);
    assert_eq!(parts[1].1, parts[2].0);
}

#[test]
fn a_small_product_stays_on_the_calling_thread() {
    let mut pool = WorkerPool { workers: None };
    let small = MmJob { ttype: TensorType::Q4_0, od: 64, id: 64, nt: 1 };
    assert_eq!(cpu_quant_matmul(&mut pool, 4, &small), vec![(0, 64)]);
    assert_eq!(pool.workers, None);
    let big = MmJob { ttype: TensorType::Q4_0, od: 1024, id: 1024, nt: 1 };
    assert_eq!(cpu_quant_matmul(&mut pool, 1, &big), vec![(0, 1024)]);
    let ranges = cpu_quant_matmul(&mut pool, 4, &big);
    assert_eq!(ranges, vec![(0, 256), (256, 512), (512, 768), (768, 1024)]);
    assert_eq!(pool.workers, Some(3));
    assert_eq!(cpu_quant_matmul(&mut pool, 2, &big).len(), 4);
}

#[test]
fn a_loop_is_shared_among_the_workers() {
    let mut pool = WorkerPool { workers: None };
    let ranges = par_for(&mut pool, 3, 7);
    assert_eq!(ranges.len(), 3);
    let all: Vec<usize> = ranges.iter().flat_map(|&(a, b)| a..b).collect();
    assert_eq!(all, (0..7).collect::<Vec<_>>());
}

#[test]
fn every_thread_count_gives_the_same_dot_products() {
    let job = MmJob { ttype: TensorType::Q4_0, od: 5, id: 64, nt: 2 };
    let whole = mm_rows(&job, 0, 5);
    assert_eq!(whole.len(), 10);
    let mut split = mm_rows(&job, 0, 2);
    split.extend(mm_rows(&job, 2, 5));
    assert_eq!(whole, split);
    let t = whole[3];
    assert_eq!((t.w_off, t.w_len, t.x_off, t.x_len, t.out), (36, 36, 68, 68, 6));
    let mut outs: Vec<usize> = whole.iter().map(|t| t.out).collect();
    outs.sort();
    assert_eq!(outs, (0..10).collect::<Vec<_>>());
}

#[test]
fn activations_match_the_weight() {
    let b = cpu_quant_matmul_f32(TensorType::Q4_0, 64, 3);
    assert_eq!((b.format, b.len), (Activation::Q8_0, 3 * 2 * 34));
    let b = cpu_quant_matmul_f32(TensorType::Q6_K, 512, 2);
    assert_eq!((b.format, b.len), (Activation::Q8_K, 2 * 2 * 292));
}

#[test]
fn a_q4_0_block_is_two_columns_of_nibbles() {
    let mut b = vec![0x00, 0x3C];
    b.extend((0..16u8).map(|j| j | (15 - j) << 4));
    let e = decode_block(TensorType::Q4_0, &b);
    assert_eq!(e.len(), 32);
    for j in 0..16usize {
        assert_eq!(e[j], Element::Scaled { code: j as i32 - 8, d: 0x3C00 });
        assert_eq!(e[j + 16], Element::Scaled { code: 7 - j as i32, d: 0x3C00 });
    }
}

#[test]
fn a_q8_0_block_holds_signed_bytes() {
    let mut b = vec![0x34, 0x12];
    b.extend((0..32u8).map(|j| j.wrapping_sub(16)));
    let e = decode_block(TensorType::Q8_0, &b);
    assert_eq!(e[0], Element::Scaled { code: -16, d: 0x1234 });
    assert_eq!(e[31], Element::Scaled { code: 15, d: 0x1234 });
}

#[test]
fn a_q5_1_block_has_a_plane_of_fifth_bits() {
    let mut b = vec![1, 0, 2, 0];
    b.extend([0x01, 0, 0x80, 0]);
    b.extend([0x21; 16]);
    let e = decode_block(TensorType::Q5_1, &b);
    assert_eq!(e[0], Element::Shifted { code: 17, d: 1, m: 2 });
    assert_eq!(e[1], Element::Shifted { code: 1, d: 1, m: 2 });
    assert_eq!(e[16], Element::Shifted { code: 2, d: 1, m: 2 });
    assert_eq!(e[23], Element::Shifted { code: 18, d: 1, m: 2 });
}

#[test]
fn the_scales_of_a_super_block_are_packed_in_six_bits() {
    let mut b = vec![0u8; 144];
    b[4] = 0x3F;
    b[8] = 0x15;
    b[12] = 0xA7;
    assert_eq!(unpack_scale(&b, 0), (0x3F, 0x15));
    assert_eq!(unpack_scale(&b, 4), (0x07, 0x0A));
    b[4] = 0xFF;
    assert_eq!(unpack_scale(&b, 0), (0x3F, 0x15));
    assert_eq!(unpack_scale(&b, 4), (0x37, 0x0A));
}

#[test]
fn a_q6_k_block_grades_its_codes() {
    let mut b = vec![0u8; 210];
    b[192] = 0xFE;
    b[208] = 0x00;
    b[209] = 0x3C;
    let e = decode_block(TensorType::Q6_K, &b);
    assert_eq!(e.len(), 256);
    assert_eq!(e[0], Element::Graded { code: -32, d: 0x3C00, grade: -2 });
    assert_eq!(code_of(TensorType::Q6_K, &b, 0), -32);
}

#[test]
fn blocks_follow_each_other() {
    let data: Vec<u8> = (0..54).collect();
    assert_eq!(block_at(TensorType::Q4_0, &data, 2), &data[36..54]);
}

#[test]
fn tokens_are_embedded_one_by_one() {
    let mut data = Vec::new();
    for row in 0..3u8 {
        data.extend([row, 0]);
        data.extend([row + 1; 32]);
    }
    let t = tensor(TensorType::Q8_0, data);
    let e = embed_tokens(&vec![2, 0, 2], &t, 32);
    assert_eq!(e.len(), 96);
    assert_eq!(e[0], Element::Scaled { code: 3, d: 2 });
    assert_eq!(e[32], Element::Scaled { code: 1, d: 0 });
    assert_eq!(e[..32], e[64..]);
}

#[test]
fn a_row_may_end_inside_a_block() {
    let mut data = vec![0u8; 68];
    data[34] = 9;
    let t = tensor(TensorType::Q8_0, data);
    let e = embed_tokens(&vec![1], &t, 20);
    assert_eq!(e.len(), 20);
    assert_eq!(e[0], Element::Scaled { code: 0, d: 9 });
}

#[test]
fn a_product_is_the_same_for_every_number_of_threads() {
    let job = MmJob { ttype: TensorType::Q4_0, od: 1030, id: 1024, nt: 1 };
    let whole = mm_rows(&job, 0, 1030);
    for threads in [1, 2, 3, 7] {
        let mut pool = WorkerPool { workers: None };
        let tasks: Vec<_> = cpu_quant_matmul(&mut pool, threads, &job)
            .into_iter()
            .flat_map(|(from, to)| mm_rows(&job, from, to))
            .collect();
        assert_eq!(tasks, whole, "{threads} threads");
    }
}

#[test]
fn a_row_among_others_is_the_row_by_itself() {
    let data: Vec<u8> = (0..3 * 34).map(|i| (i * 7) as u8).collect();
    let t = tensor(TensorType::Q8_0, data);
    let ids = vec![2, 0, 1, 2];
    let all = embed_tokens(&ids, &t, 32);
    for (i, id) in ids.iter().enumerate() {
        assert_eq!(all[i * 32..(i + 1) * 32], embed_tokens(&vec![*id], &t, 32)[..]);
    }
    assert!(embed_tokens(&Vec::new(), &t, usize::MAX).is_empty());
}

#[test]
fn shares_differ_by_at_most_one() {
    for (parts, total) in [(3, 10), (7, 100), (8, 3), (5, 0)] {
        let widths: Vec<usize> =
            (0..parts).map(|i| chunk(parts, i, total)).map(|(a, b)| b - a).collect();
        let (low, high) = (widths.iter().min().unwrap(), widths.iter().max().unwrap());
        assert!(high - low <= 1, "{widths:?}");
        assert_eq!(widths.iter().sum::<usize>(), total);
    }
}
