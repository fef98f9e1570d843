//! Processor kernels: how matrix rows are divided among workers, which bytes
//! each dot product reads, and what an embedding row decodes to.
use crate::block::{block_at, block_bytes, block_values, decode_block, is_quantised, Element};
use crate::cli::args::{number_spec, parse_number};
use crate::cli::words::{trim, trimmed};
use crate::tensor::{Tensor, TensorType};
use crate::text::decimal;
use vstd::prelude::*;

verus! {

/// Bytes of a block of activations quantised to eight bits.
pub const Q8B: usize = 34;

/// Bytes of a super-block of activations quantised to eight bits, with the sums
/// of its sixteens.
pub const Q8KB: usize = 292;

/// Multiplications below which a product is not worth handing out.
pub const MIN_PARALLEL_MACS: usize = 1048576;

/// The number of worker threads that was asked for; zero leaves the choice to
/// the machine.
#[derive(Debug, Clone, Copy, PartialEq, Eq, Structural)]
pub struct CpuThreads {
    pub chosen: usize,
}

/// Asks for a number of worker threads, at least one.
pub fn set_cpu_threads(state: &mut CpuThreads, n: usize)
    ensures
        final(state).chosen == (if n == 0 {
            1
        } else {
            n
        }),
{
    state.chosen = if n == 0 {
        1
    } else {
        n
    };
}

/// The number of worker threads: what was asked for, else what the machine
/// offers.
pub fn cpu_threads(state: &CpuThreads, auto: usize) -> (r: usize)
    ensures
        r == (if state.chosen > 0 {
            state.chosen
        } else {
            auto
        }),
{
    if state.chosen > 0 {
        state.chosen
    } else {
        auto
    }
}

/// What the machine offers: its fast cores where it names a count of at least
/// one, with or without white space around it, else its parallelism, else one.
pub open spec fn auto_spec(fast_cores: Option<Seq<char>>, parallelism: Option<usize>) -> int {
    let named = match fast_cores {
        Some(text) => number_spec(trimmed(text), usize::MAX as int),
        None => None,
    };
    match (named, parallelism) {
        (Some(n), _) if n >= 1 => n,
        (_, Some(n)) => n as int,
        (_, None) => 1,
    }
}

/// The number of worker threads that the machine offers.
pub fn auto_threads(fast_cores: Option<&str>, parallelism: Option<usize>) -> (r: usize)
    ensures
        r == auto_spec(
            match fast_cores {
                Some(s) => Some(s@),
                None => None,
            },
            parallelism,
        ),
{
    if let Some(text) = fast_cores {
        let word: String = trim(text);
        if let Some(n) = parse_number(word.as_str(), usize::MAX as u64) {
            if n >= 1 {
                return n as usize;
            }
        }
    }
    match parallelism {
        Some(n) => n,
        None => 1,
    }
}

/// How activations are stored for a product.
#[allow(non_camel_case_types)]
#[derive(Debug, Clone, Copy, PartialEq, Eq, Structural)]
pub enum Activation {
    Q8_0,
    Q8_K,
}

/// The weights in super-blocks want activations in super-blocks.
pub open spec fn activation_spec(t: TensorType) -> Activation {
    match t {
        TensorType::Q4_K | TensorType::Q5_K | TensorType::Q6_K => Activation::Q8_K,
        _ => Activation::Q8_0,
    }
}

/// Elements of a block of activations.
pub open spec fn activation_width(a: Activation) -> int {
    match a {
        Activation::Q8_0 => 32,
        Activation::Q8_K => 256,
    }
}

/// Bytes of a block of activations.
pub open spec fn activation_bytes(a: Activation) -> int {
    match a {
        Activation::Q8_0 => Q8B as int,
        Activation::Q8_K => Q8KB as int,
    }
}

/// Bytes of a row of `id` activations, whole blocks only.
pub open spec fn x_stride(t: TensorType, id: int) -> int {
    let a = activation_spec(t);
    (id / activation_width(a)) * activation_bytes(a)
}

/// Bytes of a row of `id` weights, whole blocks only.
pub open spec fn w_stride(t: TensorType, id: int) -> int {
    (id / (t.blck_size_spec() as int)) * t.type_size_spec()
}

/// The buffer that holds the quantised activations of a product.
#[derive(Debug, Clone, Copy, PartialEq, Eq, Structural)]
pub struct ActivationBuffer {
    pub format: Activation,
    pub len: usize,
}

/// The activations of a product of `nt` rows of `id` values with weights of a
/// type: their format and the bytes they take.
pub fn cpu_quant_matmul_f32(t: TensorType, id: usize, nt: usize) -> (r: ActivationBuffer)
    requires
        nt * x_stride(t, id as int) <= usize::MAX,
    ensures
        r.format == activation_spec(t),
        r.len == nt * x_stride(t, id as int),
{
    match t {
        TensorType::Q4_K | TensorType::Q5_K | TensorType::Q6_K => {
            let n: usize = id / 256;
            proof {
                lemma_stride_fits(nt as int, n as int, Q8KB as int);
            }
            ActivationBuffer { format: Activation::Q8_K, len: nt * n * Q8KB }
        },
        _ => {
            let n: usize = id / 32;
            proof {
                lemma_stride_fits(nt as int, n as int, Q8B as int);
            }
            ActivationBuffer { format: Activation::Q8_0, len: nt * n * Q8B }
        },
    }
}

proof fn lemma_stride_fits(nt: int, n: int, b: int)
    requires
        nt >= 0,
        n >= 0,
        b >= 1,
    ensures
        nt * n * b == nt * (n * b),
        0 <= nt * n <= nt * (n * b),
{
    assert(nt * n * b == nt * (n * b)) by (nonlinear_arith);
    assert(0 <= nt * n) by (nonlinear_arith)
        requires
            nt >= 0,
            n >= 0,
    ;
    assert(nt * n <= nt * n * b) by (nonlinear_arith)
        requires
            nt * n >= 0,
            b >= 1,
    ;
}

/// A product of an `od` by `id` weight matrix with `nt` rows of activations.
#[derive(Debug, Clone, Copy, PartialEq, Eq, Structural)]
pub struct MmJob {
    pub ttype: TensorType,
    pub od: usize,
    pub id: usize,
    pub nt: usize,
}

impl MmJob {
    /// Whether the three buffers of the product can be addressed.
    pub open spec fn fits(self) -> bool {
        &&& self.od * w_stride(self.ttype, self.id as int) <= usize::MAX
        &&& self.nt * x_stride(self.ttype, self.id as int) <= usize::MAX
        &&& self.nt * self.od <= usize::MAX
    }
}

/// One dot product: the bytes of the weight row, the bytes of the activation row
/// and the output that gets the result.
#[derive(Debug, Clone, Copy, PartialEq, Eq, Structural)]
pub struct DotTask {
    pub w_off: usize,
    pub w_len: usize,
    pub x_off: usize,
    pub x_len: usize,
    pub out: usize,
}

/// The dot product of weight row `o` with activation row `t`.
pub open spec fn dot_task(j: MmJob, o: int, t: int) -> DotTask {
    let ws = w_stride(j.ttype, j.id as int);
    let xs = x_stride(j.ttype, j.id as int);
    DotTask {
        w_off: (o * ws) as usize,
        w_len: ws as usize,
        x_off: (t * xs) as usize,
        x_len: xs as usize,
        out: (t * j.od + o) as usize,
    }
}

/// The dot products of one weight row.
pub open spec fn row_tasks(j: MmJob, o: int) -> Seq<DotTask> {
    Seq::new(j.nt as nat, |t: int| dot_task(j, o, t))
}

/// The dot products of the weight rows `[r0, r1)`.
pub open spec fn mm_tasks(j: MmJob, r0: int, r1: int) -> Seq<DotTask>
    decreases r1 - r0,
{
    if r1 <= r0 {
        Seq::empty()
    } else {
        mm_tasks(j, r0, r1 - 1) + row_tasks(j, r1 - 1)
    }
}

fn strides(j: &MmJob) -> (r: (usize, usize))
    requires
        is_quantised(j.ttype),
        j.od > 0,
        j.nt > 0,
        j.fits(),
    ensures
        r.0 == w_stride(j.ttype, j.id as int),
        r.1 == x_stride(j.ttype, j.id as int),
{
    let nb: usize = j.id / j.ttype.blck_size();
    let n: usize = j.ttype.type_size();
    proof {
        let ws = w_stride(j.ttype, j.id as int);
        let xs = x_stride(j.ttype, j.id as int);
        assert(ws == nb * n);
        assert(nb * n <= j.od * (nb * n)) by (nonlinear_arith)
            requires
                j.od >= 1,
        ;
        assert(0 <= xs) by {
            assert(0 <= nb * Q8B) by (nonlinear_arith);
            assert(0 <= nb * Q8KB) by (nonlinear_arith);
        }
        assert(xs <= j.nt * xs) by (nonlinear_arith)
            requires
                j.nt >= 1,
                xs >= 0,
        ;
    }
    match j.ttype {
        TensorType::Q4_K | TensorType::Q5_K | TensorType::Q6_K => (nb * n, nb * Q8KB),
        _ => (nb * n, nb * Q8B),
    }
}

proof fn lemma_offset(i: int, n: int, s: int)
    requires
        0 <= i < n,
        s >= 0,
    ensures
        0 <= i * s,
        i * s + s <= n * s,
{
    assert(0 <= i * s) by (nonlinear_arith)
        requires
            i >= 0,
            s >= 0,
    ;
    assert((i + 1) * s <= n * s) by (nonlinear_arith)
        requires
            i + 1 <= n,
            s >= 0,
    ;
    assert((i + 1) * s == i * s + s) by (nonlinear_arith);
}

/// The dot products of the weight rows `[r0, r1)`, row by row.
pub fn mm_rows(j: &MmJob, r0: usize, r1: usize) -> (r: Vec<DotTask>)
    requires
        is_quantised(j.ttype),
        j.fits(),
        r1 <= j.od,
    ensures
        r@ == mm_tasks(*j, r0 as int, r1 as int),
{
    let mut r: Vec<DotTask> = Vec::new();
    if r1 <= r0 {
        return r;
    }
    if j.nt == 0 {
        proof {
            lemma_no_rows_no_tasks(*j, r0 as int, r1 as int);
        }
        return r;
    }
    let (ws, xs): (usize, usize) = strides(j);
    let mut o: usize = r0;
    while o < r1
        invariant
            r0 <= o <= r1,
            r1 <= j.od,
            j.fits(),
            ws == w_stride(j.ttype, j.id as int),
            xs == x_stride(j.ttype, j.id as int),
            r@ == mm_tasks(*j, r0 as int, o as int),
        decreases r1 - o,
    {
        let ghost before = r@;
        let mut t: usize = 0;
        while t < j.nt
            invariant
                t <= j.nt,
                o < r1,
                r1 <= j.od,
                j.fits(),
                ws == w_stride(j.ttype, j.id as int),
                xs == x_stride(j.ttype, j.id as int),
                r@ == before + row_tasks(*j, o as int).take(t as int),
            decreases j.nt - t,
        {
            proof {
                lemma_offset(o as int, j.od as int, ws as int);
                lemma_offset(t as int, j.nt as int, xs as int);
                lemma_offset(t as int, j.nt as int, j.od as int);
            }
            r.push(
                DotTask { w_off: o * ws, w_len: ws, x_off: t * xs, x_len: xs, out: t * j.od + o },
            );
            assert(row_tasks(*j, o as int).take(t + 1) =~= row_tasks(*j, o as int).take(
                t as int,
            ).push(dot_task(*j, o as int, t as int)));
            assert(r@ =~= before + row_tasks(*j, o as int).take(t + 1));
            t = t + 1;
        }
        assert(row_tasks(*j, o as int).take(j.nt as int) =~= row_tasks(*j, o as int));
        o = o + 1;
    }
    r
}

proof fn lemma_no_rows_no_tasks(j: MmJob, r0: int, r1: int)
    requires
        j.nt == 0,
    ensures
        mm_tasks(j, r0, r1) == Seq::<DotTask>::empty(),
    decreases r1 - r0,
{
    if r1 > r0 {
        lemma_no_rows_no_tasks(j, r0, r1 - 1);
        assert(mm_tasks(j, r0, r1) =~= Seq::<DotTask>::empty());
    }
}

/// Share `idx` of `total` items divided among `parts`.
pub open spec fn share(parts: int, idx: int, total: int) -> (int, int) {
    ((total * idx) / parts, (total * (idx + 1)) / parts)
}

/// The shares of `total` items divided among `parts`.
pub open spec fn shares(parts: int, total: int) -> Seq<(usize, usize)> {
    Seq::new(
        parts as nat,
        |i: int| (share(parts, i, total).0 as usize, share(parts, i, total).1 as usize),
    )
}

proof fn lemma_share(parts: int, idx: int, total: int)
    requires
        0 <= idx < parts,
        total >= 0,
    ensures
        0 <= share(parts, idx, total).0 <= share(parts, idx, total).1 <= total,
        0 <= total * idx <= total * (idx + 1) <= total * parts,
{
    assert(0 <= total * idx <= total * (idx + 1) <= total * parts) by (nonlinear_arith)
        requires
            0 <= idx < parts,
            total >= 0,
    ;
    vstd::arithmetic::div_mod::lemma_div_is_ordered(total * idx, total * (idx + 1), parts);
    vstd::arithmetic::div_mod::lemma_div_is_ordered(total * (idx + 1), total * parts, parts);
    vstd::arithmetic::div_mod::lemma_div_multiples_vanish(total, parts);
    assert(total * parts == parts * total) by (nonlinear_arith);
    vstd::arithmetic::div_mod::lemma_div_pos_is_pos(total * idx, parts);
}

proof fn lemma_share_width(parts: int, idx: int, total: int)
    requires
        0 <= idx < parts,
        total >= 0,
    ensures
        ({
            let s = share(parts, idx, total);
            s.1 - s.0 == total / parts || s.1 - s.0 == total / parts + 1
        }),
{
    let a = (total * idx) / parts;
    let s = (total * idx) % parts;
    let q = total / parts;
    let r = total % parts;
    vstd::arithmetic::div_mod::lemma_fundamental_div_mod(total * idx, parts);
    vstd::arithmetic::div_mod::lemma_fundamental_div_mod(total, parts);
    vstd::arithmetic::div_mod::lemma_mod_bound(total * idx, parts);
    vstd::arithmetic::div_mod::lemma_mod_bound(total, parts);
    assert(total * (idx + 1) == total * idx + total) by (nonlinear_arith);
    assert(parts * a + parts * q == (a + q) * parts) by (nonlinear_arith);
    assert((a + q + 1) * parts == (a + q) * parts + parts) by (nonlinear_arith);
    if s + r < parts {
        vstd::arithmetic::div_mod::lemma_fundamental_div_mod_converse(
            total * (idx + 1),
            parts,
            a + q,
            s + r,
        );
    } else {
        vstd::arithmetic::div_mod::lemma_fundamental_div_mod_converse(
            total * (idx + 1),
            parts,
            a + q + 1,
            s + r - parts,
        );
    }
}

/// Work is divided evenly: any two shares differ by at most one item.
pub proof fn law_shares_are_even(parts: int, i: int, j: int, total: int)
    requires
        0 <= i < parts,
        0 <= j < parts,
        total >= 0,
    ensures
        ({
            let a = share(parts, i, total);
            let b = share(parts, j, total);
            -1 <= (a.1 - a.0) - (b.1 - b.0) <= 1
        }),
{
    lemma_share_width(parts, i, total);
    lemma_share_width(parts, j, total);
}

/// Share `idx` of `total` items divided among `parts`.
pub fn chunk(parts: usize, idx: usize, total: usize) -> (r: (usize, usize))
    requires
        idx < parts,
        total * parts <= usize::MAX,
    ensures
        r.0 == share(parts as int, idx as int, total as int).0,
        r.1 == share(parts as int, idx as int, total as int).1,
        r.0 <= r.1 <= total,
{
    proof {
        lemma_share(parts as int, idx as int, total as int);
    }
    let a: usize = total * idx / parts;
    let b: usize = total * (idx + 1) / parts;
    (a, b)
}

/// The workers beside the calling thread, once there are any. Their number is
/// fixed when they are first needed.
#[derive(Debug, Clone, Copy, PartialEq, Eq, Structural)]
pub struct WorkerPool {
    pub workers: Option<usize>,
}

impl WorkerPool {
    /// The workers that a call with `threads` threads finds.
    pub open spec fn found(self, threads: usize) -> usize {
        match self.workers {
            Some(n) => n,
            None => (threads - 1) as usize,
        }
    }

    /// Among how many threads a call divides its work.
    pub open spec fn parts(self, threads: usize) -> int {
        self.found(threads) + 1
    }
}

fn divide(pool: &mut WorkerPool, threads: usize, total: usize) -> (r: Vec<(usize, usize)>)
    requires
        threads > 1,
        total * old(pool).parts(threads) <= usize::MAX,
        old(pool).parts(threads) <= usize::MAX,
    ensures
        final(pool).workers == Some(old(pool).found(threads)),
        r@ == shares(old(pool).parts(threads), total as int),
{
    let n: usize = match pool.workers {
        Some(n) => n,
        None => threads - 1,
    };
    pool.workers = Some(n);
    let parts: usize = n + 1;
    let ghost want = shares(parts as int, total as int);
    let mut r: Vec<(usize, usize)> = Vec::new();
    let mut i: usize = 0;
    while i < parts
        invariant
            i <= parts,
            total * parts <= usize::MAX,
            want == shares(parts as int, total as int),
            r@ == want.take(i as int),
        decreases parts - i,
    {
        r.push(chunk(parts, i, total));
        assert(want.take(i + 1) =~= want.take(i as int).push(want[i as int]));
        i = i + 1;
    }
    assert(want.take(parts as int) =~= want);
    r
}

/// Whether a product runs on the calling thread alone.
pub open spec fn runs_inline(threads: usize, j: MmJob) -> bool {
    threads <= 1 || j.od < 2 || j.od * j.id * j.nt < MIN_PARALLEL_MACS
}

fn small(od: usize, id: usize, nt: usize) -> (r: bool)
    ensures
        r == (od * id * nt < MIN_PARALLEL_MACS),
{
    if od == 0 || id == 0 || nt == 0 {
        assert(od * id * nt == 0) by (nonlinear_arith)
            requires
                od == 0 || id == 0 || nt == 0,
        ;
        return true;
    }
    match od.checked_mul(id) {
        None => {
            assert(od * id * nt >= od * id) by (nonlinear_arith)
                requires
                    od >= 1,
                    id >= 1,
                    nt >= 1,
            ;
            false
        },
        Some(p) => match p.checked_mul(nt) {
            None => false,
            Some(q) => q < MIN_PARALLEL_MACS,
        },
    }
}

/// The row ranges of a product, one for each thread that takes part; every range
/// is computed with the same code. A small product is one range, for the calling
/// thread.
pub fn cpu_quant_matmul(pool: &mut WorkerPool, threads: usize, j: &MmJob) -> (r: Vec<
    (usize, usize),
>)
    requires
        !runs_inline(threads, *j) ==> {
            &&& old(pool).parts(threads) <= usize::MAX
            &&& j.od * old(pool).parts(threads) <= usize::MAX
        },
    ensures
        r@ == product_ranges(*old(pool), threads, *j),
        runs_inline(threads, *j) ==> *final(pool) == *old(pool),
        !runs_inline(threads, *j) ==> final(pool).workers == Some(old(pool).found(threads)),
{
    if threads <= 1 || j.od < 2 || small(j.od, j.id, j.nt) {
        let r: Vec<(usize, usize)> = vec![(0usize, j.od)];
        assert(r@ =~= seq![(0usize, j.od)]);
        return r;
    }
    divide(pool, threads, j.od)
}

/// The task ranges of a loop over `total` tasks, one for each thread that takes
/// part.
pub fn par_for(pool: &mut WorkerPool, threads: usize, total: usize) -> (r: Vec<(usize, usize)>)
    requires
        threads > 1 && total >= 2 ==> {
            &&& old(pool).parts(threads) <= usize::MAX
            &&& total * old(pool).parts(threads) <= usize::MAX
        },
    ensures
        threads <= 1 || total < 2 ==> {
            &&& r@ == seq![(0usize, total)]
            &&& *final(pool) == *old(pool)
        },
        threads > 1 && total >= 2 ==> {
            &&& r@ == shares(old(pool).parts(threads), total as int)
            &&& final(pool).workers == Some(old(pool).found(threads))
        },
{
    if threads <= 1 || total < 2 {
        let r: Vec<(usize, usize)> = vec![(0usize, total)];
        assert(r@ =~= seq![(0usize, total)]);
        return r;
    }
    divide(pool, threads, total)
}

/// The shares of a division lie one behind the other and cover everything.
pub proof fn law_shares_cover(parts: int, idx: int, total: int)
    requires
        0 <= idx < parts,
        total >= 0,
    ensures
        share(parts, 0, total).0 == 0,
        idx + 1 < parts ==> share(parts, idx, total).1 == share(parts, idx + 1, total).0,
        share(parts, parts - 1, total).1 == total,
        share(parts, idx, total).0 <= share(parts, idx, total).1,
{
    lemma_share(parts, idx, total);
    assert(total * 0 == 0);
    vstd::arithmetic::div_mod::lemma_div_basics(parts);
    assert(total * parts == parts * total) by (nonlinear_arith);
    vstd::arithmetic::div_mod::lemma_div_multiples_vanish(total, parts);
}

/// The dot products of the first `n` shares, one share behind the other.
pub open spec fn shared_tasks(j: MmJob, parts: int, n: int) -> Seq<DotTask>
    decreases n,
{
    if n <= 0 {
        Seq::empty()
    } else {
        let s = share(parts, n - 1, j.od as int);
        shared_tasks(j, parts, n - 1) + mm_tasks(j, s.0, s.1)
    }
}

proof fn lemma_tasks_join(j: MmJob, a: int, b: int, c: int)
    requires
        a <= b <= c,
    ensures
        mm_tasks(j, a, b) + mm_tasks(j, b, c) == mm_tasks(j, a, c),
    decreases c - b,
{
    if b == c {
        assert(mm_tasks(j, a, b) + mm_tasks(j, b, c) =~= mm_tasks(j, a, c));
    } else {
        lemma_tasks_join(j, a, b, c - 1);
        assert(mm_tasks(j, a, b) + mm_tasks(j, b, c) =~= mm_tasks(j, a, c));
    }
}

proof fn lemma_shared_prefix(j: MmJob, parts: int, n: int)
    requires
        0 < n <= parts,
    ensures
        shared_tasks(j, parts, n) == mm_tasks(j, 0, share(parts, n - 1, j.od as int).1),
    decreases n,
{
    law_shares_cover(parts, n - 1, j.od as int);
    let s = share(parts, n - 1, j.od as int);
    if n == 1 {
        assert(shared_tasks(j, parts, 0) =~= Seq::<DotTask>::empty());
        assert(shared_tasks(j, parts, 1) =~= mm_tasks(j, s.0, s.1));
    } else {
        lemma_shared_prefix(j, parts, n - 1);
        law_shares_cover(parts, n - 2, j.od as int);
        lemma_share(parts, n - 2, j.od as int);
        lemma_tasks_join(j, 0, s.0, s.1);
    }
}

/// However many threads share a product, together they do the dot products that
/// one thread alone does.
pub proof fn law_thread_count_is_irrelevant(j: MmJob, parts: int)
    requires
        parts > 0,
    ensures
        shared_tasks(j, parts, parts) == mm_tasks(j, 0, j.od as int),
{
    lemma_shared_prefix(j, parts, parts);
    law_shares_cover(parts, parts - 1, j.od as int);
}

/// The row ranges of a product: what `cpu_quant_matmul` gives.
pub open spec fn product_ranges(pool: WorkerPool, threads: usize, j: MmJob) -> Seq<(usize, usize)> {
    if runs_inline(threads, j) {
        seq![(0usize, j.od)]
    } else {
        shares(pool.parts(threads), j.od as int)
    }
}

/// The dot products of some row ranges, one range behind the other.
pub open spec fn range_tasks(j: MmJob, ranges: Seq<(usize, usize)>) -> Seq<DotTask>
    decreases ranges.len(),
{
    if ranges.len() == 0 {
        Seq::empty()
    } else {
        range_tasks(j, ranges.drop_last()) + mm_tasks(
            j,
            ranges.last().0 as int,
            ranges.last().1 as int,
        )
    }
}

proof fn lemma_share_tasks(j: MmJob, parts: int, n: int)
    requires
        0 <= n <= parts,
    ensures
        range_tasks(j, shares(parts, j.od as int).take(n)) == shared_tasks(j, parts, n),
    decreases n,
{
    let all = shares(parts, j.od as int);
    if n > 0 {
        lemma_share_tasks(j, parts, n - 1);
        lemma_share(parts, n - 1, j.od as int);
        assert(all.take(n).drop_last() =~= all.take(n - 1));
    }
}

/// A product is the same whatever the threads: two calls, with any workers and any
/// number of threads, do the same dot products, which are those of every weight row with
/// every activation row, each once.
pub proof fn law_product_ignores_threads(
    pool: WorkerPool,
    threads: usize,
    other_pool: WorkerPool,
    other_threads: usize,
    j: MmJob,
)
    ensures
        range_tasks(j, product_ranges(pool, threads, j)) == mm_tasks(j, 0, j.od as int),
        range_tasks(j, product_ranges(pool, threads, j)) == range_tasks(
            j,
            product_ranges(other_pool, other_threads, j),
        ),
{
    lemma_product(pool, threads, j);
    lemma_product(other_pool, other_threads, j);
}

proof fn lemma_product(pool: WorkerPool, threads: usize, j: MmJob)
    ensures
        range_tasks(j, product_ranges(pool, threads, j)) == mm_tasks(j, 0, j.od as int),
{
    let r = product_ranges(pool, threads, j);
    if runs_inline(threads, j) {
        assert(r.drop_last() =~= Seq::empty());
        assert(range_tasks(j, r.drop_last()) =~= Seq::empty());
        assert(range_tasks(j, r) =~= mm_tasks(j, 0, j.od as int));
    } else {
        let parts = pool.parts(threads);
        lemma_share_tasks(j, parts, parts);
        assert(r.take(parts) =~= r);
        law_thread_count_is_irrelevant(j, parts);
    }
}

/// No two dot products of a product write to the same place, and each writes
/// inside the output.
pub proof fn law_outputs_are_disjoint(j: MmJob, o: int, t: int, o2: int, t2: int)
    requires
        j.fits(),
        0 <= o < j.od,
        0 <= o2 < j.od,
        0 <= t < j.nt,
        0 <= t2 < j.nt,
        (o, t) != (o2, t2),
    ensures
        dot_task(j, o, t).out != dot_task(j, o2, t2).out,
        dot_task(j, o, t).out < j.nt * j.od,
{
    let od = j.od as int;
    lemma_offset(t, j.nt as int, od);
    lemma_offset(t2, j.nt as int, od);
    if t < t2 {
        lemma_offset(t, t2, od);
    }
    if t2 < t {
        lemma_offset(t2, t, od);
    }
}

/// Every dot product reads a weight row and an activation row that lie inside
/// their buffers.
pub proof fn law_rows_lie_in_their_buffers(j: MmJob, o: int, t: int)
    requires
        is_quantised(j.ttype),
        j.fits(),
        0 <= o < j.od,
        0 <= t < j.nt,
    ensures
        ({
            let d = dot_task(j, o, t);
            &&& d.w_off + d.w_len <= j.od * w_stride(j.ttype, j.id as int)
            &&& d.x_off + d.x_len <= j.nt * x_stride(j.ttype, j.id as int)
        }),
{
    let ws = w_stride(j.ttype, j.id as int);
    let xs = x_stride(j.ttype, j.id as int);
    let nb = j.id as int / j.ttype.blck_size_spec() as int;
    vstd::arithmetic::div_mod::lemma_div_pos_is_pos(
        j.id as int,
        j.ttype.blck_size_spec() as int,
    );
    assert(0 <= nb * j.ttype.type_size_spec()) by (nonlinear_arith)
        requires
            nb >= 0,
    ;
    assert(0 <= nb * Q8B && 0 <= nb * Q8KB) by (nonlinear_arith)
        requires
            nb >= 0,
    ;
    lemma_offset(o, j.od as int, ws);
    lemma_offset(t, j.nt as int, xs);
}

/// Elements and bytes of a block of weights, and bytes of a block of the activations that
/// meet it.
pub open spec fn met_blocks(t: TensorType) -> (int, int, int) {
    match t {
        TensorType::Q4_0 => (32, 18, 34),
        TensorType::Q4_1 => (32, 20, 34),
        TensorType::Q5_0 => (32, 22, 34),
        TensorType::Q5_1 => (32, 24, 34),
        TensorType::Q8_0 => (32, 34, 34),
        TensorType::Q4_K => (256, 144, 292),
        TensorType::Q5_K => (256, 176, 292),
        _ => (256, 210, 292),
    }
}

proof fn lemma_task_at(j: MmJob, r0: int, r1: int, o: int, t: int)
    requires
        r0 <= o < r1,
        0 <= t < j.nt,
    ensures
        mm_tasks(j, r0, r1).len() == (r1 - r0) * j.nt,
        0 <= (o - r0) * j.nt + t < (r1 - r0) * j.nt,
        mm_tasks(j, r0, r1)[(o - r0) * j.nt + t] == dot_task(j, o, t),
    decreases r1 - r0,
{
    let nt = j.nt as int;
    lemma_tasks_length(j, r0, r1 - 1);
    lemma_offset(o - r0, r1 - r0, nt);
    assert((r1 - r0) * nt == (r1 - 1 - r0) * nt + nt) by (nonlinear_arith);
    if o < r1 - 1 {
        lemma_task_at(j, r0, r1 - 1, o, t);
    }
}

proof fn lemma_tasks_length(j: MmJob, r0: int, r1: int)
    requires
        r0 <= r1,
    ensures
        mm_tasks(j, r0, r1).len() == (r1 - r0) * j.nt,
    decreases r1 - r0,
{
    if r0 < r1 {
        lemma_tasks_length(j, r0, r1 - 1);
        assert((r1 - r0) * j.nt == (r1 - 1 - r0) * j.nt + j.nt) by (nonlinear_arith);
    } else {
        assert(0 * j.nt == 0);
    }
}

/// What a product of the weight rows `[r0, r1)` is made of: `nt` dot products for each of
/// them, one weight row behind the other. The one of weight row `o` and activation row `t`
/// reads the whole row `o` of the weights, where every row takes as many bytes as its
/// blocks, and the whole row `t` of the activations; its result is element `o` of the
/// output's row `t`, which has `od` elements.
pub proof fn law_dot_products_read_their_rows(j: MmJob, r0: int, r1: int, o: int, t: int)
    requires
        is_quantised(j.ttype),
        j.fits(),
        0 <= r0 <= o < r1 <= j.od,
        0 <= t < j.nt,
    ensures
        mm_tasks(j, r0, r1).len() == (r1 - r0) * j.nt,
        0 <= (o - r0) * j.nt + t < (r1 - r0) * j.nt,
        ({
            let task = mm_tasks(j, r0, r1)[(o - r0) * j.nt + t];
            let (width, wb, xb) = met_blocks(j.ttype);
            let w_row = (j.id as int / width) * wb;
            let x_row = (j.id as int / width) * xb;
            &&& task.w_len == w_row && task.w_off == o * w_row
            &&& task.x_len == x_row && task.x_off == t * x_row
            &&& task.out == t * j.od + o
        }),
{
    let (width, wb, xb) = met_blocks(j.ttype);
    let nb = j.id as int / width;
    lemma_task_at(j, r0, r1, o, t);
    assert(nb * wb == w_stride(j.ttype, j.id as int));
    assert(nb * xb == x_stride(j.ttype, j.id as int));
    assert(nb >= 0 && nb * wb >= 0 && nb * xb >= 0) by (nonlinear_arith)
        requires
            nb == j.id as int / width,
            width > 0,
            wb > 0,
            xb > 0,
            j.id >= 0,
    ;
    lemma_offset(o, j.od as int, nb * wb);
    lemma_offset(t, j.nt as int, nb * xb);
    lemma_offset(t, j.nt as int, j.od as int);
    lemma_offset(0, j.od as int, nb * wb);
    lemma_offset(0, j.nt as int, nb * xb);
}

/// Different rows are different bytes: two dot products of one product share no weight byte
/// unless they belong to the same weight row, no activation byte unless they belong to the
/// same activation row, and read the same bytes where they do.
pub proof fn law_different_rows_share_no_bytes(j: MmJob, o: int, t: int, o2: int, t2: int)
    requires
        is_quantised(j.ttype),
        j.fits(),
        0 <= o < j.od,
        0 <= o2 < j.od,
        0 <= t < j.nt,
        0 <= t2 < j.nt,
    ensures
        ({
            let a = mm_tasks(j, 0, j.od as int)[o * j.nt + t];
            let b = mm_tasks(j, 0, j.od as int)[o2 * j.nt + t2];
            &&& o < o2 ==> a.w_off + a.w_len <= b.w_off
            &&& o == o2 ==> a.w_off == b.w_off && a.w_len == b.w_len
            &&& t < t2 ==> a.x_off + a.x_len <= b.x_off
            &&& t == t2 ==> a.x_off == b.x_off && a.x_len == b.x_len
            &&& a.out == b.out <==> o == o2 && t == t2
        }),
{
    law_dot_products_read_their_rows(j, 0, j.od as int, o, t);
    law_dot_products_read_their_rows(j, 0, j.od as int, o2, t2);
    let (width, wb, xb) = met_blocks(j.ttype);
    let w_row = (j.id as int / width) * wb;
    let x_row = (j.id as int / width) * xb;
    assert(w_row >= 0 && x_row >= 0) by (nonlinear_arith)
        requires
            w_row == (j.id as int / width) * wb,
            x_row == (j.id as int / width) * xb,
            width > 0,
            wb > 0,
            xb > 0,
            j.id >= 0,
    ;
    if o < o2 {
        lemma_offset(o, o2, w_row);
    }
    if t < t2 {
        lemma_offset(t, t2, x_row);
    }
    if o != o2 || t != t2 {
        law_outputs_are_disjoint(j, o, t, o2, t2);
    }
    lemma_task_at(j, 0, j.od as int, o, t);
    lemma_task_at(j, 0, j.od as int, o2, t2);
}

/// The activations of a product take as many bytes as its dot products reach: the buffer
/// holds `nt` rows of whole blocks and no more.
pub proof fn law_activation_rows_fill_their_buffer(t: TensorType, id: int, nt: int)
    requires
        is_quantised(t),
        0 <= id,
        0 <= nt,
    ensures
        nt * x_stride(t, id) == nt * ((id / met_blocks(t).0) * met_blocks(t).2),
        activation_spec(t) is Q8_K <==> met_blocks(t).0 == 256,
{
}

/// A product is handed out to every thread that was asked for, unless there is one thread
/// only, one row at most, or too little to do: fewer than 2^20 multiplications.
pub proof fn law_when_a_product_is_handed_out(threads: usize, j: MmJob)
    requires
        threads > 0,
    ensures
        ({
            let ranges = product_ranges(WorkerPool { workers: None }, threads, j);
            if threads >= 2 && j.od >= 2 && j.od * j.id * j.nt >= 1048576 {
                ranges.len() == threads
            } else {
                ranges == seq![(0usize, j.od)]
            }
        }),
{
}

/// Blocks of a row of `ne` elements, the last one perhaps not full.
pub open spec fn row_blocks(t: TensorType, ne: int) -> int {
    (ne + t.blck_size_spec() - 1) / (t.blck_size_spec() as int)
}

/// Element `k` of row `id` of an embedding of `ne` columns.
pub open spec fn embedded(t: Tensor, ne: int, id: int, k: int) -> Element {
    let w = t.ttype.blck_size_spec() as int;
    let b = id * row_blocks(t.ttype, ne) + k / w;
    block_values(t.ttype, block_bytes(t.ttype, t.data@, b))[k % w]
}

/// Row `id` of an embedding of `ne` columns.
pub open spec fn embedded_row(t: Tensor, ne: int, id: int) -> Seq<Element> {
    Seq::new(ne as nat, |k: int| embedded(t, ne, id, k))
}

/// The rows of some tokens, one behind the other.
pub open spec fn embedded_rows(t: Tensor, ne: int, ids: Seq<u32>) -> Seq<Element>
    decreases ids.len(),
{
    if ids.len() == 0 {
        Seq::empty()
    } else {
        embedded_rows(t, ne, ids.drop_last()) + embedded_row(t, ne, ids.last() as int)
    }
}

/// Whether row `id` lies in the tensor's bytes.
pub open spec fn row_stored(t: Tensor, ne: int, id: int) -> bool {
    ((id + 1) * row_blocks(t.ttype, ne)) * t.ttype.type_size_spec() <= t.data@.len()
}

proof fn lemma_block_index(id: int, nb: int, b: int, ts: int, len: int)
    requires
        0 <= id,
        0 <= b < nb,
        ts > 0,
        ((id + 1) * nb) * ts <= len,
    ensures
        0 <= id * nb <= id * nb + b,
        (id * nb + b + 1) * ts <= len,
        id * nb + b + 1 <= len,
{
    assert((id + 1) * nb == id * nb + nb) by (nonlinear_arith);
    assert(0 <= id * nb) by (nonlinear_arith)
        requires
            id >= 0,
            nb >= 0,
    ;
    let a = id * nb + b + 1;
    assert(a * ts <= (id * nb + nb) * ts) by (nonlinear_arith)
        requires
            a <= id * nb + nb,
            ts > 0,
    ;
    assert(a <= a * ts) by (nonlinear_arith)
        requires
            a >= 0,
            ts >= 1,
    ;
}

fn embed_row(t: &Tensor, ne: usize, id: usize, out: &mut Vec<Element>)
    requires
        is_quantised(t.ttype),
        row_stored(*t, ne as int, id as int),
    ensures
        final(out)@ == old(out)@ + embedded_row(*t, ne as int, id as int),
{
    let w: usize = t.ttype.blck_size();
    let ts: usize = t.ttype.type_size();
    let nb: usize = if ne % w == 0 {
        ne / w
    } else {
        ne / w + 1
    };
    let data: &[u8] = t.data.as_slice();
    let len: usize = data.len();
    let ghost row = embedded_row(*t, ne as int, id as int);
    let ghost before = out@;
    let mut b: usize = 0;
    let mut k: usize = 0;
    while k < ne
        invariant
            is_quantised(t.ttype),
            w == t.ttype.blck_size_spec(),
            ts == t.ttype.type_size_spec(),
            nb == row_blocks(t.ttype, ne as int),
            data@ == t.data@,
            len == data@.len(),
            row_stored(*t, ne as int, id as int),
            row == embedded_row(*t, ne as int, id as int),
            k <= ne,
            k == b * w || k == ne,
            k < ne ==> k == b * w,
            out@ == before + row.take(k as int),
        decreases ne - k,
    {
        proof {
            assert(b < nb) by (nonlinear_arith)
                requires
                    b * w < ne,
                    nb == (ne + w - 1) / (w as int),
                    w > 0,
            ;
            lemma_block_index(id as int, nb as int, b as int, ts as int, t.data@.len() as int);
        }
        let vals: Vec<Element> = decode_block(t.ttype, block_at(t.ttype, data, id * nb + b));
        let mut j: usize = 0;
        while j < w && k + j < ne
            invariant
                j <= w,
                k + j <= ne,
                w > 0,
                k == b * w,
                w == t.ttype.blck_size_spec(),
                nb == row_blocks(t.ttype, ne as int),
                row == embedded_row(*t, ne as int, id as int),
                vals@ == block_values(t.ttype, block_bytes(t.ttype, t.data@, id * nb + b)),
                vals@.len() == w,
                out@ == before + row.take(k + j),
            decreases w - j,
        {
            out.push(vals[j]);
            proof {
                let i = k + j;
                assert(i / (w as int) == b && i % (w as int) == j) by (nonlinear_arith)
                    requires
                        i == b * w + j,
                        0 <= j < w,
                ;
                assert(row[i] == vals@[j as int]);
                assert(row.take(i + 1) =~= row.take(i).push(row[i]));
                assert(out@ =~= before + row.take(i + 1));
            }
            j = j + 1;
        }
        proof {
            assert((b + 1) * w == b * w + w) by (nonlinear_arith);
        }
        k = k + j;
        b = b + 1;
    }
    assert(row.take(ne as int) =~= row);
}

/// The embedding rows of some tokens, as codes and constants.
pub fn embed_tokens(ids: &Vec<u32>, t: &Tensor, ne: usize) -> (r: Vec<Element>)
    requires
        is_quantised(t.ttype),
        t.ttype.blck_size_spec() == 256 && ids@.len() > 0 ==> ne % 256 == 0,
        forall|i: int|
            0 <= i < ids@.len() ==> row_stored(*t, ne as int, (#[trigger] ids@[i]) as int),
    ensures
        r@ == embedded_rows(*t, ne as int, ids@),
{
    let mut r: Vec<Element> = Vec::new();
    let mut i: usize = 0;
    while i < ids.len()
        invariant
            i <= ids@.len(),
            is_quantised(t.ttype),
            forall|i: int|
                0 <= i < ids@.len() ==> row_stored(*t, ne as int, (#[trigger] ids@[i]) as int),
            r@ == embedded_rows(*t, ne as int, ids@.take(i as int)),
        decreases ids@.len() - i,
    {
        embed_row(t, ne, ids[i] as usize, &mut r);
        assert(ids@.take(i + 1).drop_last() =~= ids@.take(i as int));
        i = i + 1;
    }
    assert(ids@.take(ids@.len() as int) =~= ids@);
    r
}

/// Tokens are embedded one by one: what a token's row holds depends on no other
/// token, and every row has `ne` elements.
pub proof fn law_rows_are_independent(t: Tensor, ne: int, ids: Seq<u32>, i: int, k: int)
    requires
        0 <= i < ids.len(),
        0 <= k < ne,
    ensures
        embedded_rows(t, ne, ids).len() == ids.len() * ne,
        0 <= i * ne + k < ids.len() * ne,
        embedded_rows(t, ne, ids)[i * ne + k] == embedded(t, ne, ids[i] as int, k),
    decreases ids.len(),
{
    let n = ids.len() as int;
    let init = ids.drop_last();
    lemma_offset(i, n, ne);
    assert((n - 1) * ne + ne == n * ne) by (nonlinear_arith);
    if n == 1 {
        assert(i == 0);
        assert(embedded_rows(t, ne, init) =~= Seq::empty());
        assert(0 * ne == 0);
    } else if i < n - 1 {
        law_rows_are_independent(t, ne, init, i, k);
        lemma_offset(i, n - 1, ne);
    } else {
        law_rows_are_independent(t, ne, init, 0, k);
    }
}

/// Embedding many tokens is embedding each by itself: the row of a token among others is
/// what a call for that token alone gives, so equal tokens have equal rows.
pub proof fn law_row_is_its_own_call(t: Tensor, ne: int, ids: Seq<u32>, i: int)
    requires
        0 <= i < ids.len(),
        0 <= ne,
    ensures
        embedded_rows(t, ne, ids).len() == ids.len() * ne,
        0 <= i * ne <= i * ne + ne <= ids.len() * ne,
        embedded_rows(t, ne, ids).subrange(i * ne, i * ne + ne) == embedded_rows(
            t,
            ne,
            seq![ids[i]],
        ),
{
    let one = seq![ids[i]];
    let all = embedded_rows(t, ne, ids);
    lemma_offset(i, ids.len() as int, ne);
    assert(one.drop_last() =~= Seq::<u32>::empty());
    assert(embedded_rows(t, ne, one.drop_last()) =~= Seq::<Element>::empty());
    assert(embedded_rows(t, ne, one) =~= embedded_row(t, ne, ids[i] as int));
    lemma_rows_length(t, ne, ids);
    assert forall|k: int| 0 <= k < ne implies all[i * ne + k] == embedded_row(
        t,
        ne,
        ids[i] as int,
    )[k] by {
        law_rows_are_independent(t, ne, ids, i, k);
    }
    assert(all.subrange(i * ne, i * ne + ne) =~= embedded_rows(t, ne, one));
}

proof fn lemma_rows_length(t: Tensor, ne: int, ids: Seq<u32>)
    requires
        0 <= ne,
    ensures
        embedded_rows(t, ne, ids).len() == ids.len() * ne,
    decreases ids.len(),
{
    if ids.len() > 0 {
        lemma_rows_length(t, ne, ids.drop_last());
        assert((ids.len() - 1) * ne + ne == ids.len() * ne) by (nonlinear_arith);
    } else {
        assert(0 * ne == 0);
    }
}

/// Where the elements of an embedding lie: a row takes whole blocks, as few as hold its `ne`
/// elements; element `r` of block `q` of a token's row is element `r` of that block of the
/// table, whose rows lie one behind the other.
pub proof fn law_embedded_elements_come_from_their_blocks(
    t: Tensor,
    ne: int,
    ids: Seq<u32>,
    i: int,
    nb: int,
    q: int,
    r: int,
)
    requires
        is_quantised(t.ttype),
        0 <= i < ids.len(),
        0 < ne,
        (nb - 1) * met_blocks(t.ttype).0 < ne <= nb * met_blocks(t.ttype).0,
        0 <= q,
        0 <= r < met_blocks(t.ttype).0,
        q * met_blocks(t.ttype).0 + r < ne,
    ensures
        ({
            let (w, size, _) = met_blocks(t.ttype);
            let at = (ids[i] * nb + q) * size;
            embedded_rows(t, ne, ids)[i * ne + (q * w + r)] == block_values(
                t.ttype,
                t.data@.subrange(at, at + size),
            )[r]
        }),
{
    let (w, size, _) = met_blocks(t.ttype);
    let k = q * w + r;
    assert(0 <= k) by (nonlinear_arith)
        requires
            k == q * w + r,
            q >= 0,
            w > 0,
            r >= 0,
    ;
    law_rows_are_independent(t, ne, ids, i, k);
    assert(nb == (ne + w - 1) / w) by (nonlinear_arith)
        requires
            (nb - 1) * w < ne <= nb * w,
            w > 0,
    ;
    assert(k / w == q && k % w == r) by (nonlinear_arith)
        requires
            k == q * w + r,
            0 <= r < w,
    ;
    let b = ids[i] * nb + q;
    assert((b + 1) * size == b * size + size) by (nonlinear_arith);
}

/// A share starts at its part of all items, rounded down, and ends where the next starts.
pub proof fn law_shares_start_at_their_part(parts: int, idx: int, total: int)
    requires
        0 <= idx < parts,
        total >= 0,
    ensures
        ({
            let (a, b) = share(parts, idx, total);
            &&& a * parts <= total * idx < (a + 1) * parts
            &&& b * parts <= total * (idx + 1) < (b + 1) * parts
        }),
{
    let x = total * idx;
    let y = total * (idx + 1);
    vstd::arithmetic::div_mod::lemma_fundamental_div_mod(x, parts);
    vstd::arithmetic::div_mod::lemma_mod_bound(x, parts);
    vstd::arithmetic::div_mod::lemma_fundamental_div_mod(y, parts);
    vstd::arithmetic::div_mod::lemma_mod_bound(y, parts);
    let a = x / parts;
    let b = y / parts;
    assert(a * parts == parts * a && (a + 1) * parts == parts * a + parts) by (nonlinear_arith);
    assert(b * parts == parts * b && (b + 1) * parts == parts * b + parts) by (nonlinear_arith);
}

/// The workers are as many as the first call asks for beside its own thread, and stay so
/// many: every later call divides its work among them and itself.
pub proof fn law_workers_stay_as_many(threads: usize, later: usize)
    requires
        threads > 1,
    ensures
        ({
            let first = WorkerPool { workers: None };
            let then = WorkerPool { workers: Some(first.found(threads)) };
            &&& first.parts(threads) == threads
            &&& then.parts(later) == threads
            &&& then.found(later) == threads - 1
        }),
{
}

/// The threads that a machine offers: its fast cores if it names one or more, else as many
/// as it runs at once, else one.
pub proof fn law_threads_that_a_machine_offers(n: usize, parallelism: Option<usize>)
    ensures
        n >= 1 ==> auto_spec(Some(decimal(n as nat)), parallelism) == n,
        n == 0 ==> auto_spec(Some(decimal(n as nat)), parallelism) == auto_spec(None, parallelism),
        auto_spec(None, Some(n)) == n,
        auto_spec(None, None) == 1,
{
    crate::graph::offload::lemma_digits_of_decimal(n as nat);
    crate::text::lemma_decimal_digits(n as nat);
    let d = decimal(n as nat);
    assert(crate::text::is_digit(d[0]));
    assert(crate::text::is_digit(d[d.len() - 1]));
    assert(trimmed(d) == d);
}

} // verus!
