//! What the kernels are given: the buffers and numbers that are bound when a kernel is
//! run, and the grid that it is run on.
use super::encode::{
    add_bias_commands, add_commands, bias_rope_store_commands, block_attn_commands, block_commands,
    ceil_div, chunk_commands, combine_commands, embed_commands, embed_units, flash_attn_commands,
    flash_commands, gemm_commands, get_rows_commands, gqa_attn_commands, group_rows, grown,
    mul_commands, next_after, pad_bytes, pad_commands, parallel_attn_commands, partial_bytes,
    quant_of, remembered, rms_norm_256_commands, rms_norm_commands, rope_commands, scores_bytes,
    scores_commands, silu_commands, softmax_commands, split_attn_commands, store_kv_commands,
    swiglu_commands, tiled, values_commands, vector_commands, warmup_commands, Command, GpuError,
    Slot,
};
use super::kernel::{Kernel, MatForm, QuantType};
use super::Buf;
use crate::tensor::TensorType;
use crate::text::decimal;
use vstd::prelude::*;

verus! {

/// What an argument of a kernel is.
pub ghost enum Bound {
    /// A buffer from a byte on.
    At(Buf, u64),
    Number(i32),
    /// The sizes of a multiplication: output rows, inputs and activation rows.
    Sizes(i32, i32, i32),
}

/// What a command binds to argument `i`.
pub open spec fn binds(c: Command, i: u64) -> Option<Bound> {
    match c {
        Command::Buffer { index, buf, offset } if index == i => Some(Bound::At(buf, offset)),
        Command::Param { index, value } if index == i => Some(Bound::Number(value)),
        Command::Sizes { index, od, id, nt } if index == i => Some(Bound::Sizes(od, id, nt)),
        _ => None,
    }
}

/// Argument `i` behind the first `n` commands: what was bound to it last.
pub open spec fn argument(s: Seq<Command>, n: int, i: u64) -> Option<Bound>
    decreases n,
{
    if n <= 0 {
        None
    } else {
        match binds(s[n - 1], i) {
            Some(b) => Some(b),
            None => argument(s, n - 1, i),
        }
    }
}

/// The shared memory behind the first `n` commands.
pub open spec fn shared(s: Seq<Command>, n: int) -> u64
    decreases n,
{
    if n <= 0 {
        0
    } else {
        match s[n - 1] {
            Command::Shared { index: _, bytes } => bytes,
            _ => shared(s, n - 1),
        }
    }
}

/// Whether some commands run `kernel` once, on these arguments and with so much shared
/// memory, and let it finish.
pub open spec fn runs(s: Seq<Command>, kernel: Kernel, args: Seq<Bound>, memory: u64) -> bool {
    let n = s.len() - 2;
    &&& n >= 1
    &&& s[0] == Command::Pipeline(kernel)
    &&& s[n] is Dispatch
    &&& s[n + 1] is Barrier
    &&& forall|k: int|
        0 < k < n ==> !((#[trigger] s[k]) is Dispatch || s[k] is Pipeline || s[k] is Allocate)
    &&& forall|i: int| 0 <= i < args.len() ==> argument(s, n, i as u64) == Some(#[trigger] args[i])
    &&& argument(s, n, args.len() as u64) is None
    &&& shared(s, n) == memory
}

/// The grid that the last kernel is run on: threadgroups, and threads in each.
pub open spec fn grid(s: Seq<Command>) -> ((u64, u64, u64), (u64, u64, u64)) {
    match s[s.len() - 2] {
        Command::Dispatch { groups, threads } => (groups, threads),
        _ => ((0, 0, 0), (0, 0, 0)),
    }
}

/// Whether so many groups of `per` are just enough for `n`.
pub open spec fn just_covers(groups: u64, per: int, n: int) -> bool {
    groups * per >= n && (groups as int - 1) * per < n
}

proof fn lemma_just_covers(n: int, per: int)
    requires
        n >= 0,
        per > 0,
        n <= u64::MAX - per,
    ensures
        just_covers(ceil_div(n, per) as u64, per, n),
{
    let q = ceil_div(n, per);
    vstd::arithmetic::div_mod::lemma_fundamental_div_mod(n + per - 1, per);
    vstd::arithmetic::div_mod::lemma_mod_bound(n + per - 1, per);
    let r = (n + per - 1) % per;
    assert(per * q == q * per) by (nonlinear_arith);
    assert((q - 1) * per == q * per - per) by (nonlinear_arith);
    assert(q >= 0) by (nonlinear_arith)
        requires
            q * per > -per,
            per > 0,
    ;
    assert(q <= n + per - 1) by (nonlinear_arith)
        requires
            q * per <= n + per - 1,
            per >= 1,
            q >= 0,
    ;
}

/// Embedding rows are decoded by the kernel of their type, from the table by the token
/// ids, a thread to every piece of every row.
pub proof fn law_embedding_run(
    w: Buf,
    w_off: u64,
    ids: Buf,
    dst: Buf,
    ne: usize,
    nt: usize,
    ttype: TensorType,
)
    requires
        nt * embed_units(ttype, ne as int) <= u64::MAX - 256,
    ensures
        ({
            let s = embed_commands(w, w_off, ids, dst, ne, nt, ttype);
            let args = seq![
                Bound::At(w, w_off),
                Bound::At(ids, 0),
                Bound::At(dst, 0),
                Bound::Number(ne as i32),
                Bound::Number(nt as i32),
            ];
            &&& runs(s, Kernel::GetRows(quant_of(ttype)), args, 0)
            &&& grid(s).1 == (256u64, 1u64, 1u64) && grid(s).0.1 == 1 && grid(s).0.2 == 1
            &&& just_covers(grid(s).0.0, 256, nt * embed_units(ttype, ne as int))
        }),
{
    reveal_with_fuel(argument, 9);
    reveal_with_fuel(shared, 9);
    let n = nt * embed_units(ttype, ne as int);
    assert(n >= 0) by (nonlinear_arith)
        requires
            n == nt * embed_units(ttype, ne as int),
            embed_units(ttype, ne as int) >= 0,
    ;
    lemma_just_covers(n, 256);
}

/// Rows are copied by their ids, a thread to every element.
pub proof fn law_row_copy_run(
    x: Buf,
    ids: Buf,
    out: Buf,
    ne: usize,
    nt: usize,
)
    ensures
        ({
            let s = get_rows_commands(x, ids, out, ne, nt);
            let args = seq![
                Bound::At(x, 0),
                Bound::At(ids, 0),
                Bound::At(out, 0),
                Bound::Number(ne as i32),
            ];
            &&& runs(s, Kernel::GetRowsF32, args, 0)
            &&& grid(s) == ((nt as u64, ne as u64, 1u64), (1u64, 1u64, 1u64))
        }),
{
    reveal_with_fuel(argument, 8);
    reveal_with_fuel(shared, 8);
}

/// A norm reads its rows and its weight, or where it has none the output, and writes the
/// output, a group to every row.
pub proof fn law_norm_run(
    x: Buf,
    w: Option<Buf>,
    w_off: u64,
    y: Buf,
    d: usize,
    n: usize,
    eps_bits: u32,
    off: u64,
)
    ensures
        ({
            let s = rms_norm_commands(x, w, w_off, y, d, n, eps_bits, off);
            let args = seq![
                Bound::At(x, off),
                Bound::At(if w is Some { w->0 } else { y }, w_off),
                Bound::At(y, 0),
                Bound::Number(d as i32),
                Bound::Number(eps_bits as i32),
            ];
            &&& runs(s, Kernel::RmsNorm, args, 0)
            &&& grid(s) == ((n as u64, 1u64, 1u64), (32u64, 1u64, 1u64))
        }),
{
    reveal_with_fuel(argument, 9);
    reveal_with_fuel(shared, 9);
}

/// A norm reads its rows and its weight, or where it has none the output, and writes the
/// output, a group to every row.
pub proof fn law_norm_256_run(
    x: Buf,
    w: Option<Buf>,
    w_off: u64,
    y: Buf,
    d: usize,
    n: usize,
    eps_bits: u32,
    off: u64,
)
    ensures
        ({
            let s = rms_norm_256_commands(x, w, w_off, y, d, n, eps_bits, off);
            let args = seq![
                Bound::At(x, off),
                Bound::At(if w is Some { w->0 } else { y }, w_off),
                Bound::At(y, 0),
                Bound::Number(d as i32),
                Bound::Number(eps_bits as i32),
            ];
            &&& runs(s, Kernel::RmsNorm256, args, 128)
            &&& grid(s) == ((n as u64, 1u64, 1u64), (32u64, 8u64, 1u64))
        }),
{
    reveal_with_fuel(argument, 9);
    reveal_with_fuel(shared, 9);
}

/// A sum reads two buffers and writes a third, four elements to a thread.
pub proof fn law_sum_run(
    x: Buf,
    y: Buf,
    z: Buf,
    n: usize,
    x_off: u64,
    y_off: u64,
    z_off: u64,
)
    requires
        n <= u64::MAX - 2048,
    ensures
        ({
            let s = add_commands(x, y, z, n, x_off, y_off, z_off);
            let args = seq![
                Bound::At(x, x_off),
                Bound::At(y, y_off),
                Bound::At(z, z_off),
                Bound::Number(n as i32),
            ];
            &&& runs(s, Kernel::Add, args, 0)
            &&& grid(s).1 == (256u64, 1u64, 1u64) && grid(s).0.1 == 1 && grid(s).0.2 == 1
            &&& just_covers(grid(s).0.0, 1024, n as int)
        }),
{
    reveal_with_fuel(argument, 8);
    reveal_with_fuel(shared, 8);
    lemma_just_covers(n as int, 4);
    lemma_just_covers(ceil_div(n as int, 4), 256);
    assert(ceil_div(ceil_div(n as int, 4), 256) == ceil_div(n as int, 1024));
    lemma_just_covers(n as int, 1024);
}

/// A bias is added to the rows from an element on.
pub proof fn law_bias_run(
    y: Buf,
    b: Buf,
    b_off: u64,
    d: usize,
    n: usize,
    off: usize,
)
    requires
        d <= u64::MAX - 256,
    ensures
        ({
            let s = add_bias_commands(y, b, b_off, d, n, off);
            let args = seq![
                Bound::At(y, (4 * off) as u64),
                Bound::At(b, b_off),
                Bound::Number(d as i32),
            ];
            &&& runs(s, Kernel::AddBias, args, 0)
            &&& grid(s).1 == (1u64, 64u64, 1u64) && grid(s).0.0 == n && grid(s).0.2 == 1
            &&& just_covers(grid(s).0.1, 4, d as int)
        }),
{
    reveal_with_fuel(argument, 7);
    reveal_with_fuel(shared, 7);
    lemma_just_covers(d as int, 4);
}

/// A product of elements reads two buffers and writes a third, an element to a thread.
pub proof fn law_product_run(
    x: Buf,
    y: Buf,
    z: Buf,
    n: usize,
)
    requires
        n <= u64::MAX - 2048,
    ensures
        ({
            let s = mul_commands(x, y, z, n);
            let args = seq![
                Bound::At(x, 0),
                Bound::At(y, 0),
                Bound::At(z, 0),
                Bound::Number(n as i32),
            ];
            &&& runs(s, Kernel::Mul, args, 0)
            &&& grid(s).1 == (256u64, 1u64, 1u64) && grid(s).0.1 == 1 && grid(s).0.2 == 1
            &&& just_covers(grid(s).0.0, 256, n as int)
        }),
{
    reveal_with_fuel(argument, 8);
    reveal_with_fuel(shared, 8);
    lemma_just_covers(n as int, 256);
}

/// The sigmoid-weighted identity is taken in place, an element to a thread.
pub proof fn law_silu_run(
    y: Buf,
    n: usize,
)
    requires
        n <= u64::MAX - 2048,
    ensures
        ({
            let s = silu_commands(y, n);
            let args = seq![
                Bound::At(y, 0),
                Bound::Number(n as i32),
            ];
            &&& runs(s, Kernel::Silu, args, 0)
            &&& grid(s).1 == (256u64, 1u64, 1u64) && grid(s).0.1 == 1 && grid(s).0.2 == 1
            &&& just_covers(grid(s).0.0, 256, n as int)
        }),
{
    reveal_with_fuel(argument, 6);
    reveal_with_fuel(shared, 6);
    lemma_just_covers(n as int, 256);
}

/// The factor that is weighted comes first, then from an element on the other one, four
/// elements to a thread.
pub proof fn law_swiglu_run(
    gate: Buf,
    up: Buf,
    dst: Buf,
    n: usize,
    up_off: usize,
)
    requires
        n <= u64::MAX - 2048,
    ensures
        ({
            let s = swiglu_commands(gate, up, dst, n, up_off);
            let args = seq![
                Bound::At(gate, 0),
                Bound::At(up, (4 * up_off) as u64),
                Bound::At(dst, 0),
                Bound::Number(n as i32),
            ];
            &&& runs(s, Kernel::Swiglu, args, 0)
            &&& grid(s).1 == (256u64, 1u64, 1u64) && grid(s).0.1 == 1 && grid(s).0.2 == 1
            &&& just_covers(grid(s).0.0, 1024, n as int)
        }),
{
    reveal_with_fuel(argument, 8);
    reveal_with_fuel(shared, 8);
    lemma_just_covers(n as int, 4);
    lemma_just_covers(ceil_div(n as int, 4), 256);
    assert(ceil_div(ceil_div(n as int, 4), 256) == ceil_div(n as int, 1024));
    lemma_just_covers(n as int, 1024);
}

/// A rotation is done in place from an element on, a thread to every pair of every head of
/// every row.
pub proof fn law_rotation_run(
    x: Buf,
    n_head: usize,
    n_dims: usize,
    nt: usize,
    base_bits: u32,
    scale_bits: u32,
    positions: Buf,
    rope_style: i32,
    off: usize,
)
    ensures
        ({
            let s = rope_commands(
                x,
                n_head,
                n_dims,
                nt,
                base_bits,
                scale_bits,
                positions,
                rope_style,
                off,
            );
            let args = seq![
                Bound::At(x, (4 * off) as u64),
                Bound::Number(n_head as i32),
                Bound::Number(n_dims as i32),
                Bound::Number(nt as i32),
                Bound::Number(base_bits as i32),
                Bound::Number(scale_bits as i32),
                Bound::At(positions, 0),
                Bound::Number(rope_style),
            ];
            &&& runs(s, Kernel::Rope, args, 0)
            &&& grid(s) == (((n_dims / 2) as u64, n_head as u64, nt as u64), (1u64, 1u64, 1u64))
        }),
{
    reveal_with_fuel(argument, 12);
    reveal_with_fuel(shared, 12);
}

/// Attention reads queries, keys, values and positions, a group to every token and head of
/// keys, with as many waves as heads of queries share it.
pub proof fn law_attention_run(
    q: Buf,
    q_off: u64,
    k: Buf,
    k_off: u64,
    v: Buf,
    v_off: u64,
    o: Buf,
    positions: Buf,
    nh: usize,
    nk: usize,
    hd: usize,
    scale_bits: u32,
    nt: usize,
    half: bool,
)
    ensures
        ({
            let s = gqa_attn_commands(
                q,
                q_off,
                k,
                k_off,
                v,
                v_off,
                o,
                positions,
                nh,
                nk,
                hd,
                scale_bits,
                nt,
                half,
            );
            let args = seq![
                Bound::At(q, q_off),
                Bound::At(k, k_off),
                Bound::At(v, v_off),
                Bound::At(o, 0),
                Bound::At(positions, 0),
                Bound::Number(nh as i32),
                Bound::Number(nk as i32),
                Bound::Number(hd as i32),
                Bound::Number(scale_bits as i32),
                Bound::Number(nt as i32),
            ];
            &&& runs(s, Kernel::GqaAttn { half }, args, (256 * hd) as u64)
            &&& grid(s) == ((nt as u64, nk as u64, 1u64), (32u64, (nh / nk) as u64, 1u64))
        }),
{
    reveal_with_fuel(argument, 15);
    reveal_with_fuel(shared, 15);
}

/// Rows from an element on are stored at their positions, a thread to every element.
pub proof fn law_store_run(
    src: Buf,
    dst: Buf,
    nkt: usize,
    nt: usize,
    positions: Buf,
    off: usize,
    half: bool,
)
    ensures
        ({
            let s = store_kv_commands(src, dst, nkt, nt, positions, off, half);
            let args = seq![
                Bound::At(src, (4 * off) as u64),
                Bound::At(dst, 0),
                Bound::Number(nkt as i32),
                Bound::Number(nt as i32),
                Bound::At(positions, 0),
            ];
            &&& runs(s, Kernel::StoreKv { half }, args, 0)
            &&& grid(s) == ((nt as u64, nkt as u64, 1u64), (1u64, 1u64, 1u64))
        }),
{
    reveal_with_fuel(argument, 9);
    reveal_with_fuel(shared, 9);
}

/// Biases, rotation and store of one token: a thread to every pair of queries and of keys
/// and to every value.
pub proof fn law_epilogue_run(
    bqkv: Buf,
    bias_q: Buf,
    bq_off: u64,
    bias_k: Buf,
    bk_off: u64,
    bias_v: Buf,
    bv_off: u64,
    kv_k: Buf,
    kv_v: Buf,
    nqt: usize,
    nkt: usize,
    hd: usize,
    base_bits: u32,
    scale_bits: u32,
    pos: i32,
    rope_style: i32,
    half: bool,
)
    requires
        nqt / 2 + nkt / 2 + nkt <= u64::MAX - 256,
    ensures
        ({
            let s = bias_rope_store_commands(
                bqkv,
                bias_q,
                bq_off,
                bias_k,
                bk_off,
                bias_v,
                bv_off,
                kv_k,
                kv_v,
                nqt,
                nkt,
                hd,
                base_bits,
                scale_bits,
                pos,
                rope_style,
                half,
            );
            let args = seq![
                Bound::At(bqkv, 0),
                Bound::At(bias_q, bq_off),
                Bound::At(bias_k, bk_off),
                Bound::At(bias_v, bv_off),
                Bound::At(kv_k, 0),
                Bound::At(kv_v, 0),
                Bound::Number(nqt as i32),
                Bound::Number(nkt as i32),
                Bound::Number(hd as i32),
                Bound::Number(base_bits as i32),
                Bound::Number(scale_bits as i32),
                Bound::Number(pos),
                Bound::Number(rope_style),
                Bound::Number(if half { 1 } else { 0 }),
            ];
            &&& runs(s, Kernel::AttnBiasRopeStore, args, 0)
            &&& grid(s).1 == (256u64, 1u64, 1u64) && grid(s).0.1 == 1 && grid(s).0.2 == 1
            &&& just_covers(grid(s).0.0, 256, (nqt / 2 + nkt / 2 + nkt) as int)
        }),
{
    reveal_with_fuel(argument, 19);
    reveal_with_fuel(shared, 19);
    lemma_just_covers((nqt / 2 + nkt / 2 + nkt) as int, 256);
}

/// Partial results are combined, a wave to every token and head of queries.
pub proof fn law_combine_run(
    part: Buf,
    o: Buf,
    nh: usize,
    hd: usize,
    nt: usize,
    n_chunks: usize,
)
    ensures
        ({
            let s = combine_commands(part, o, nh, hd, nt, n_chunks);
            let args = seq![
                Bound::At(part, 0),
                Bound::At(o, 0),
                Bound::Number(nh as i32),
                Bound::Number(hd as i32),
                Bound::Number(nt as i32),
                Bound::Number(n_chunks as i32),
            ];
            &&& runs(s, Kernel::GqaAttnCombine, args, 0)
            &&& grid(s) == ((nt as u64, nh as u64, 1u64), (32u64, 1u64, 1u64))
        }),
{
    reveal_with_fuel(argument, 10);
    reveal_with_fuel(shared, 10);
}

/// Partial attention writes into the partial results, a group to every token, head of keys
/// and chunk.
pub proof fn law_chunk_run(
    part: Buf,
    q: Buf,
    k: Buf,
    v: Buf,
    positions: Buf,
    nh: usize,
    nk: usize,
    hd: usize,
    scale_bits: u32,
    nt: usize,
    n_chunks: usize,
    half: bool,
)
    ensures
        ({
            let s = chunk_commands(
                part,
                q,
                k,
                v,
                positions,
                nh,
                nk,
                hd,
                scale_bits,
                nt,
                n_chunks,
                half,
            );
            let args = seq![
                Bound::At(q, 0),
                Bound::At(k, 0),
                Bound::At(v, 0),
                Bound::At(part, 0),
                Bound::At(positions, 0),
                Bound::Number(nh as i32),
                Bound::Number(nk as i32),
                Bound::Number(hd as i32),
                Bound::Number(scale_bits as i32),
                Bound::Number(nt as i32),
                Bound::Number(n_chunks as i32),
            ];
            &&& runs(s, Kernel::GqaAttnPartial { half }, args, (256 * hd) as u64)
            &&& grid(s) == ((nt as u64, nk as u64, n_chunks as u64), (32u64, (nh / nk) as u64, 1u64))
        }),
{
    reveal_with_fuel(argument, 16);
    reveal_with_fuel(shared, 16);
}

/// Partial attention by the kernel for heads of 64 or 128 elements, a wave to every token,
/// head of queries and chunk.
pub proof fn law_flash_run(
    part: Buf,
    q: Buf,
    k: Buf,
    v: Buf,
    positions: Buf,
    nh: usize,
    nk: usize,
    hd: usize,
    scale_bits: u32,
    nt: usize,
    n_chunks: usize,
    half: bool,
)
    ensures
        ({
            let s = flash_commands(
                part,
                q,
                k,
                v,
                positions,
                nh,
                nk,
                hd,
                scale_bits,
                nt,
                n_chunks,
                half,
            );
            let args = seq![
                Bound::At(q, 0),
                Bound::At(k, 0),
                Bound::At(v, 0),
                Bound::At(part, 0),
                Bound::At(positions, 0),
                Bound::Number(nh as i32),
                Bound::Number(nk as i32),
                Bound::Number(hd as i32),
                Bound::Number(scale_bits as i32),
                Bound::Number(nt as i32),
                Bound::Number(n_chunks as i32),
            ];
            let memory = if hd == 128 {
                1152
            } else {
                1024
            };
            &&& runs(s, Kernel::FlashAttn { wide: hd == 128, half }, args, memory)
            &&& grid(s) == ((nt as u64, nh as u64, n_chunks as u64), (32u64, 1u64, 1u64))
        }),
{
    reveal_with_fuel(argument, 16);
    reveal_with_fuel(shared, 16);
}

/// Scores of queries against keys go into the scratch buffer, a group to every token and
/// head of queries.
pub proof fn law_scores_run(
    part: Buf,
    q: Buf,
    kv_k: Buf,
    nkv: usize,
    nkt: usize,
    nt: usize,
    nh: usize,
    hd: usize,
    gqa: usize,
    scale_bits: u32,
)
    ensures
        ({
            let s = scores_commands(part, q, kv_k, nkv, nkt, nt, nh, hd, gqa, scale_bits);
            let args = seq![
                Bound::At(q, 0),
                Bound::At(kv_k, 0),
                Bound::At(part, 0),
                Bound::Number(nh as i32),
                Bound::Number(hd as i32),
                Bound::Number(nkv as i32),
                Bound::Number(nt as i32),
                Bound::Number(gqa as i32),
                Bound::Number(nkt as i32),
                Bound::Number(scale_bits as i32),
            ];
            &&& runs(s, Kernel::AttnScores, args, 0)
            &&& grid(s) == (((nt * nh) as u64, 1u64, 1u64), (256u64, 1u64, 1u64))
        }),
{
    reveal_with_fuel(argument, 15);
    reveal_with_fuel(shared, 15);
}

/// The softmax of the scores is taken in the scratch buffer, by the positions.
pub proof fn law_softmax_run(
    part: Buf,
    positions: Buf,
    nkv: usize,
    nt: usize,
    nh: usize,
)
    ensures
        ({
            let s = softmax_commands(part, positions, nkv, nt, nh);
            let args = seq![
                Bound::At(part, 0),
                Bound::At(positions, 0),
                Bound::Number(nkv as i32),
                Bound::Number(nt as i32),
                Bound::Number(nh as i32),
            ];
            &&& runs(s, Kernel::SoftmaxAttn, args, 128)
            &&& grid(s) == (((nt * nh) as u64, 1u64, 1u64), (32u64, 8u64, 1u64))
        }),
{
    reveal_with_fuel(argument, 10);
    reveal_with_fuel(shared, 10);
}

/// The values are weighted by the scores in the scratch buffer.
pub proof fn law_values_run(
    part: Buf,
    kv_v: Buf,
    out: Buf,
    nkv: usize,
    nkt: usize,
    nt: usize,
    nh: usize,
    hd: usize,
    gqa: usize,
)
    ensures
        ({
            let s = values_commands(part, kv_v, out, nkv, nkt, nt, nh, hd, gqa);
            let args = seq![
                Bound::At(part, 0),
                Bound::At(kv_v, 0),
                Bound::At(out, 0),
                Bound::Number(nh as i32),
                Bound::Number(hd as i32),
                Bound::Number(nkv as i32),
                Bound::Number(nt as i32),
                Bound::Number(gqa as i32),
                Bound::Number(nkt as i32),
            ];
            &&& runs(s, Kernel::AttnOutput, args, 0)
            &&& grid(s) == (((nt * nh) as u64, 1u64, 1u64), (256u64, 1u64, 1u64))
        }),
{
    reveal_with_fuel(argument, 14);
    reveal_with_fuel(shared, 14);
}

/// The unfinished block of keys and values is copied into the scratch buffer.
pub proof fn law_pad_run(
    part: Buf,
    kv_k: Buf,
    kv_v: Buf,
    nkv: usize,
    nkt: usize,
    half: bool,
)
    ensures
        ({
            let s = pad_commands(part, kv_k, kv_v, nkv, nkt, half);
            let args = seq![
                Bound::At(kv_k, 0),
                Bound::At(kv_v, 0),
                Bound::At(part, 0),
                Bound::Number(nkv as i32),
                Bound::Number(nkt as i32),
                Bound::Number(if half { 1 } else { 0 }),
            ];
            &&& runs(s, Kernel::KvTailPad, args, 0)
            &&& grid(s) == ((nkt as u64, 64u64, 1u64), (1u64, 1u64, 1u64))
        }),
{
    reveal_with_fuel(argument, 10);
    reveal_with_fuel(shared, 10);
}

/// Attention over blocks of keys, a group to eight queries of a head.
pub proof fn law_block_run(
    part: Buf,
    q: Buf,
    kv_k: Buf,
    kv_v: Buf,
    out: Buf,
    positions: Buf,
    nkv: usize,
    nt: usize,
    nh: usize,
    nk: usize,
    hd: usize,
    scale_bits: u32,
    half: bool,
)
    requires
        nt <= u64::MAX - 256,
    ensures
        ({
            let s = block_commands(
                part,
                q,
                kv_k,
                kv_v,
                out,
                positions,
                nkv,
                nt,
                nh,
                nk,
                hd,
                scale_bits,
                half,
            );
            let args = seq![
                Bound::At(q, 0),
                Bound::At(kv_k, 0),
                Bound::At(kv_v, 0),
                Bound::At(part, 0),
                Bound::At(out, 0),
                Bound::At(positions, 0),
                Bound::Number(nh as i32),
                Bound::Number(nk as i32),
                Bound::Number(hd as i32),
                Bound::Number(scale_bits as i32),
                Bound::Number(nt as i32),
                Bound::Number(nkv as i32),
            ];
            let memory = if hd == 128 {
                10240
            } else {
                7168
            };
            &&& runs(s, Kernel::FlashAttnBlk { wide: hd == 128, half }, args, memory)
            &&& grid(s).1 == (32u64, 4u64, 1u64) && grid(s).0.1 == nh && grid(s).0.2 == 1
            &&& just_covers(grid(s).0.0, 8, nt as int)
        }),
{
    reveal_with_fuel(argument, 17);
    reveal_with_fuel(shared, 17);
    lemma_just_covers(nt as int, 8);
}

/// A tiled multiplication, tiles of 64 output rows and 32 activation rows.
pub proof fn law_tiled_product_run(
    q: QuantType,
    w: Buf,
    w_off: u64,
    x: Buf,
    x_off: u64,
    out: Buf,
    od: usize,
    id: usize,
    nt: usize,
)
    requires
        nt <= u64::MAX - 256,
        od <= u64::MAX - 256,
    ensures
        ({
            let s = gemm_commands(q, w, w_off, x, x_off, out, od, id, nt);
            let args = seq![
                Bound::At(w, w_off),
                Bound::At(x, x_off),
                Bound::At(out, 0),
                Bound::Sizes(od as i32, id as i32, nt as i32),
            ];
            &&& runs(s, Kernel::MatMul(q, MatForm::Gemm), args, 8192)
            &&& grid(s).1 == (32u64, 4u64, 1u64) && grid(s).0.2 == 1
            &&& just_covers(grid(s).0.0, 32, nt as int)
            &&& just_covers(grid(s).0.1, 64, od as int)
        }),
{
    reveal_with_fuel(argument, 8);
    reveal_with_fuel(shared, 8);
    lemma_just_covers(nt as int, 32);
    lemma_just_covers(od as int, 64);
}

/// An untiled multiplication: one row of activations at a time or all at once. A group takes
/// two output rows of Q8_0, four of the K types and eight of any other.
pub proof fn law_untiled_product_run(
    t: TensorType,
    w: Buf,
    w_off: u64,
    x: Buf,
    x_off: u64,
    out: Buf,
    od: usize,
    id: usize,
    nt: usize,
)
    requires
        od <= u64::MAX - 256,
    ensures
        ({
            let s = vector_commands(t, w, w_off, x, x_off, out, od, id, nt);
            let args = seq![
                Bound::At(w, w_off),
                Bound::At(x, x_off),
                Bound::At(out, 0),
                Bound::Sizes(od as i32, id as i32, nt as i32),
            ];
            let form = if nt > 1 {
                MatForm::Multi
            } else {
                MatForm::Single
            };
            let memory = if t is Q8_0 {
                256
            } else {
                0
            };
            &&& runs(s, Kernel::MatMul(quant_of(t), form), args, memory)
            &&& grid(s).0.1 == (if nt > 1 { 1 } else { nt as int }) && grid(s).0.2 == 1
            &&& t is Q8_0 ==> just_covers(grid(s).0.0, 2, od as int) && grid(s).1 == (32u64, 4u64, 1u64)
            &&& t is Q4_K || t is Q6_K ==> just_covers(grid(s).0.0, 4, od as int) && grid(s).1 == (32u64, 2u64, 1u64)
            &&& t is Q5_K ==> just_covers(grid(s).0.0, 4, od as int) && grid(s).1 == (64u64, 1u64, 1u64)
            &&& !(t is Q8_0 || t is Q4_K || t is Q5_K || t is Q6_K) ==> just_covers(grid(s).0.0, 8, od as int) && grid(s).1 == (64u64, 1u64, 1u64)
        }),
{
    reveal_with_fuel(argument, 9);
    reveal_with_fuel(shared, 9);
    lemma_just_covers(od as int, group_rows(t));
}

/// Every byte of a buffer is read once: a number of four bytes at a time, 256 numbers to a
/// thread.
pub proof fn law_warmup_run(
    part: Buf,
    sink: Buf,
    len: usize,
)
    ensures
        ({
            let s = warmup_commands(part, sink, len);
            let args = seq![
                Bound::At(part, 0),
                Bound::At(sink, 0),
            ];
            &&& runs(s, Kernel::WarmupRead, args, 0)
            &&& grid(s).1 == (256u64, 1u64, 1u64) && grid(s).0.1 == 1 && grid(s).0.2 == 1
            &&& just_covers(grid(s).0.0, 65536, len as int / 4)
        }),
{
    reveal_with_fuel(argument, 6);
    reveal_with_fuel(shared, 6);
    lemma_just_covers(len as int / 4, 256);
    lemma_just_covers(ceil_div(len as int / 4, 256), 256);
    assert(ceil_div(ceil_div(len as int / 4, 256), 256) == ceil_div(len as int / 4, 65536));
    lemma_just_covers(len as int / 4, 65536);
}

/// Attention over blocks copies the last block first exactly if it is not full.
pub proof fn law_only_unfinished_blocks_are_copied(
    part: Buf,
    q: Buf,
    kv_k: Buf,
    kv_v: Buf,
    o: Buf,
    positions: Buf,
    nkv: usize,
    nkt: usize,
    nt: usize,
    nh: usize,
    nk: usize,
    hd: usize,
    scale_bits: u32,
    half: bool,
)
    ensures
        ({
            let s = block_attn_commands(
                part,
                q,
                kv_k,
                kv_v,
                o,
                positions,
                nkv,
                nkt,
                nt,
                nh,
                nk,
                hd,
                scale_bits,
                half,
            );
            let copy = pad_commands(part, kv_k, kv_v, nkv, nkt, half);
            let attend = block_commands(
                part,
                q,
                kv_k,
                kv_v,
                o,
                positions,
                nkv,
                nt,
                nh,
                nk,
                hd,
                scale_bits,
                half,
            );
            &&& nkv as int == 64 * (nkv as int / 64) ==> s == attend
            &&& nkv as int > 64 * (nkv as int / 64) ==> s == copy + attend
        }),
{
    let attend = block_commands(
        part,
        q,
        kv_k,
        kv_v,
        o,
        positions,
        nkv,
        nt,
        nh,
        nk,
        hd,
        scale_bits,
        half,
    );
    assert(Seq::<Command>::empty() + attend =~= attend);
}

/// A split attention combines what its parts wrote, whichever kernel ran them.
pub proof fn law_split_attention_combines_its_parts(
    part: Buf,
    q: Buf,
    k: Buf,
    v: Buf,
    o: Buf,
    positions: Buf,
    nh: usize,
    nk: usize,
    hd: usize,
    scale_bits: u32,
    nt: usize,
    n_chunks: usize,
    half: bool,
)
    ensures
        ({
            let a = split_attn_commands(
                part,
                q,
                k,
                v,
                o,
                positions,
                nh,
                nk,
                hd,
                scale_bits,
                nt,
                n_chunks,
                half,
            );
            let b = flash_attn_commands(
                part,
                q,
                k,
                v,
                o,
                positions,
                nh,
                nk,
                hd,
                scale_bits,
                nt,
                n_chunks,
                half,
            );
            let combine = combine_commands(part, o, nh, hd, nt, n_chunks);
            &&& a.take(15) == chunk_commands(
                part,
                q,
                k,
                v,
                positions,
                nh,
                nk,
                hd,
                scale_bits,
                nt,
                n_chunks,
                half,
            )
            &&& a.skip(15) == combine
            &&& b.take(15) == flash_commands(
                part,
                q,
                k,
                v,
                positions,
                nh,
                nk,
                hd,
                scale_bits,
                nt,
                n_chunks,
                half,
            )
            &&& b.skip(15) == combine
            &&& combine[1] == (Command::Buffer { index: 0, buf: part, offset: 0 })
        }),
{
}

/// The attention of a prompt takes the scores, their softmax and the values in this order,
/// all in one scratch buffer.
pub proof fn law_prompt_attention_in_three_runs(
    part: Buf,
    q: Buf,
    kv_k: Buf,
    kv_v: Buf,
    o: Buf,
    positions: Buf,
    nkv: usize,
    nkt: usize,
    nt: usize,
    nh: usize,
    hd: usize,
    gqa: usize,
    scale_bits: u32,
)
    ensures
        ({
            let s = parallel_attn_commands(
                part,
                q,
                kv_k,
                kv_v,
                o,
                positions,
                nkv,
                nkt,
                nt,
                nh,
                hd,
                gqa,
                scale_bits,
            );
            let a = scores_commands(part, q, kv_k, nkv, nkt, nt, nh, hd, gqa, scale_bits);
            let b = softmax_commands(part, positions, nkv, nt, nh);
            let c = values_commands(part, kv_v, o, nkv, nkt, nt, nh, hd, gqa);
            &&& s.take(a.len() as int) == a
            &&& s.subrange(a.len() as int, (a.len() + b.len()) as int) == b
            &&& s.skip((a.len() + b.len()) as int) == c
        }),
{
    let a = scores_commands(part, q, kv_k, nkv, nkt, nt, nh, hd, gqa, scale_bits);
    let b = softmax_commands(part, positions, nkv, nt, nh);
    let c = values_commands(part, kv_v, o, nkv, nkt, nt, nh, hd, gqa);
    let s = a + b + c;
    assert(s.take(a.len() as int) =~= a);
    assert(s.subrange(a.len() as int, (a.len() + b.len()) as int) =~= b);
    assert(s.skip((a.len() + b.len()) as int) =~= c);
}

/// When tiles pay: with the kernels for them, from two rows on where the output has 2048
/// rows or more, else from nine.
pub proof fn law_when_tiles_pay(t: TensorType, od: int, nt: int, gemm: bool)
    ensures
        tiled(t, od, nt, gemm) ==> gemm && nt >= 2 && !(t is F32 || t is F16 || t is I8),
        gemm && !(t is F32 || t is F16 || t is I8) && nt >= 9 ==> tiled(t, od, nt, gemm),
        gemm && !(t is F32 || t is F16 || t is I8) && 2 <= nt < 9 ==> (tiled(t, od, nt, gemm)
            <==> od >= 2048),
        nt < 2 ==> !tiled(t, od, nt, gemm),
{
}

/// Which kernels read a type: its own, and those of Q4_0 what has none.
pub proof fn law_kernels_of_a_type(t: TensorType)
    ensures
        quant_of(t) == QuantType::Q80 <==> t is Q8_0,
        quant_of(t) == QuantType::Q4K <==> t is Q4_K,
        quant_of(t) == QuantType::Q5K <==> t is Q5_K,
        quant_of(t) == QuantType::Q6K <==> t is Q6_K,
        quant_of(t) == QuantType::Q41 <==> t is Q4_1,
        quant_of(t) == QuantType::Q50 <==> t is Q5_0,
        quant_of(t) == QuantType::Q51 <==> t is Q5_1,
        quant_of(t) == QuantType::Q40 <==> t is Q4_0 || t is F32 || t is F16 || t is I8,
{
}

/// Scratch memory: for every token, head and chunk a row of a head's elements and two
/// numbers, of four bytes each; for every token, head and key a number; of an unfinished
/// block 64 rows of keys and as many of values.
pub proof fn law_scratch_bytes(nt: int, nh: int, n: int, hd: int)
    ensures
        partial_bytes(nt, nh, n, hd) == 4 * ((hd + 2) * (n * (nh * nt))),
        scores_bytes(nt, nh, n) == 4 * (n * (nh * nt)),
        pad_bytes(n, true) == 64 * n * 2 + 64 * n * 2,
        pad_bytes(n, false) == 64 * n * 4 + 64 * n * 4,
{
    assert(nt * nh * n * (2 + hd) * 4 == 4 * ((hd + 2) * (n * (nh * nt)))) by (nonlinear_arith);
    assert(nt * nh * n * 4 == 4 * (n * (nh * nt))) by (nonlinear_arith);
    assert(2 * 64 * n * 2 == 64 * n * 2 + 64 * n * 2) by (nonlinear_arith);
    assert(2 * 64 * n * 4 == 64 * n * 4 + 64 * n * 4) by (nonlinear_arith);
}

/// Making room leaves a buffer that is large enough, and makes a new one of just the size
/// otherwise, under a number that was free.
pub proof fn law_room_is_made_once(slot: Slot, need: u64, next: Buf)
    requires
        next < usize::MAX,
    ensures
        ({
            let (s, made) = grown(slot, need, next);
            &&& s.bytes >= need
            &&& slot.bytes >= need ==> s == slot && made.len() == 0 && next_after(slot, need, next)
                == next
            &&& slot.bytes < need ==> s.bytes == need && s.buf == next && made.len() == 1
                && made[0] == (Command::Allocate { buf: next, bytes: need }) && next_after(
                slot,
                need,
                next,
            ) == next + 1
            &&& grown(s, need, next_after(slot, need, next)).0 == s
            &&& grown(s, need, next_after(slot, need, next)).1.len() == 0
        }),
{
}

/// The last 16 operators are remembered, in their order, and none where it is off.
pub proof fn law_last_operators_are_remembered(
    t: Seq<&'static str>,
    on: bool,
    label: &'static str,
)
    requires
        t.len() <= 16,
    ensures
        ({
            let r = remembered(t, on, label);
            &&& !on ==> r == t
            &&& on ==> r.last() == label && r.len() <= 16
            &&& on && t.len() < 16 ==> r.drop_last() == t
            &&& on && t.len() == 16 ==> r.len() == 16 && forall|i: int|
                0 <= i < 15 ==> #[trigger] r[i] == t[i + 1]
        }),
{
    let r = remembered(t, on, label);
    if on && t.len() < 16 {
        assert(r.drop_last() =~= t);
    }
}

/// What is said of a multiplication that cannot be run.
pub proof fn law_why_a_product_cannot_run(id: usize, t: TensorType, need: u64, max: u64)
    ensures
        t is Q4_K ==> (GpuError::Misaligned { id, ttype: t }).message_spec()
            == "matmul input dim id="@ + decimal(id as nat) + " is not 256-aligned for "@ + "Q4_K"@
            + " (K-quant kernels use K/256 super-block floor)"@,
        t is Q5_K ==> (GpuError::Misaligned { id, ttype: t }).message_spec()
            == "matmul input dim id="@ + decimal(id as nat) + " is not 256-aligned for "@ + "Q5_K"@
            + " (K-quant kernels use K/256 super-block floor)"@,
        t is Q6_K ==> (GpuError::Misaligned { id, ttype: t }).message_spec()
            == "matmul input dim id="@ + decimal(id as nat) + " is not 256-aligned for "@ + "Q6_K"@
            + " (K-quant kernels use K/256 super-block floor)"@,
        (GpuError::SharedMemory { need, max }).message_spec() == "GEMM needs "@ + decimal(
            need as nat,
        ) + " B threadgroup memory, device max is "@ + decimal(max as nat) + " B"@,
{
}

} // verus!
