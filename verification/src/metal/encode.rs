//! Encodes operators into the commands of a compute encoder.
//!
//! A command buffer collects what a driver hands to the device: pipelines,
//! buffers, parameters and dispatches. Dispatches in one encoder do not see each
//! other's writes by themselves, so a barrier stands behind every one of them.
use crate::metal::kernel::{Kernel, MatForm, QuantType};
use crate::tensor::TensorType;
use crate::text::{decimal, push_decimal};
use vstd::prelude::*;

verus! {

/// A device buffer, by number.
pub type Buf = usize;

/// One command.
#[derive(Debug, Clone, Copy, PartialEq, Eq)]
pub enum Command {
    /// Make a buffer of so many bytes.
    Allocate { buf: Buf, bytes: u64 },
    /// Use a kernel.
    Pipeline(Kernel),
    /// Bind a buffer, from a byte offset on.
    Buffer { index: u64, buf: Buf, offset: u64 },
    /// Bind a number.
    Param { index: u64, value: i32 },
    /// Bind the sizes of a multiplication.
    Sizes { index: u64, od: i32, id: i32, nt: i32 },
    /// Reserve memory that a threadgroup shares.
    Shared { index: u64, bytes: u64 },
    /// Run the kernel on a grid of threadgroups.
    Dispatch { groups: (u64, u64, u64), threads: (u64, u64, u64) },
    /// Make the writes so far visible to what follows.
    Barrier,
}

/// Why an operator cannot be encoded.
#[derive(Debug, Clone, Copy, PartialEq, Eq, Structural)]
pub enum GpuError {
    /// Rows of a super-block type are not whole super-blocks.
    Misaligned { id: usize, ttype: TensorType },
    /// The device has less shared memory than the kernel stages.
    SharedMemory { need: u64, max: u64 },
}

/// The name of a super-block type, as messages print it.
pub open spec fn super_block_name(t: TensorType) -> Seq<char> {
    match t {
        TensorType::Q4_K => "Q4_K"@,
        TensorType::Q5_K => "Q5_K"@,
        _ => "Q6_K"@,
    }
}

impl GpuError {
    /// An error that the encoder reports.
    pub open spec fn reported(self) -> bool {
        self matches GpuError::Misaligned { ttype, .. } ==> super_block(ttype)
    }

    /// What a user is told.
    pub open spec fn message_spec(self) -> Seq<char> {
        match self {
            GpuError::Misaligned { id, ttype } => "matmul input dim id="@ + decimal(id as nat)
                + " is not 256-aligned for "@ + super_block_name(ttype)
                + " (K-quant kernels use K/256 super-block floor)"@,
            GpuError::SharedMemory { need, max } => "GEMM needs "@ + decimal(need as nat)
                + " B threadgroup memory, device max is "@ + decimal(max as nat) + " B"@,
        }
    }

    /// What a user is told.
    pub fn message(self) -> (s: String)
        requires
            self.reported(),
        ensures
            s@ == self.message_spec(),
    {
        let mut s: String;
        match self {
            GpuError::Misaligned { id, ttype } => {
                s = "matmul input dim id=".to_owned();
                push_decimal(&mut s, id as u64);
                s.append(" is not 256-aligned for ");
                s.append(
                    match ttype {
                        TensorType::Q4_K => "Q4_K",
                        TensorType::Q5_K => "Q5_K",
                        _ => "Q6_K",
                    },
                );
                s.append(" (K-quant kernels use K/256 super-block floor)");
            },
            GpuError::SharedMemory { need, max } => {
                s = "GEMM needs ".to_owned();
                push_decimal(&mut s, need);
                s.append(" B threadgroup memory, device max is ");
                push_decimal(&mut s, max);
                s.append(" B");
            },
        }
        s
    }
}

/// A scratch buffer and its size.
#[derive(Debug, Clone, Copy, PartialEq, Eq, Structural)]
pub struct Slot {
    pub buf: Buf,
    pub bytes: u64,
}

/// Scratch buffers that grow on demand and live across command buffers.
#[derive(Debug, Clone, Copy, PartialEq, Eq, Structural)]
pub struct Scratch {
    pub partial: Slot,
    pub scores: Slot,
    pub pad: Slot,
    /// The next free buffer number.
    pub next: Buf,
}

/// What the encoder knows of the device and the settings.
#[derive(Debug, Clone, Copy, PartialEq, Eq, Structural)]
pub struct EncoderConfig {
    /// Shared memory that a threadgroup may use.
    pub max_shared: u64,
    /// Keys and values are stored in half precision.
    pub kv_half: bool,
    /// Tiled multiplications are allowed.
    pub gemm: bool,
    /// Operators are remembered for diagnosis.
    pub trace: bool,
}

/// Commands under construction.
pub struct MpsCommandBuffer {
    pub config: EncoderConfig,
    pub scratch: Scratch,
    pub commands: Vec<Command>,
    /// The last operators, at most 16.
    pub trace: Vec<&'static str>,
}

/// A barrier follows every dispatch.
pub open spec fn barriered(s: Seq<Command>) -> bool {
    forall|i: int|
        0 <= i < s.len() && (#[trigger] s[i]) is Dispatch ==> i + 1 < s.len() && s[i + 1] is Barrier
}

/// The remembered operators after one more.
pub open spec fn remembered(t: Seq<&'static str>, on: bool, label: &'static str) -> Seq<&'static str> {
    if !on {
        t
    } else if t.len() < 16 {
        t.push(label)
    } else {
        t.push(label).drop_first()
    }
}

/// The kernel layout of a weight type; what has no kernel of its own is read as
/// Q4_0.
pub open spec fn quant_of(t: TensorType) -> QuantType {
    match t {
        TensorType::Q8_0 => QuantType::Q80,
        TensorType::Q4_K => QuantType::Q4K,
        TensorType::Q6_K => QuantType::Q6K,
        TensorType::Q4_1 => QuantType::Q41,
        TensorType::Q5_0 => QuantType::Q50,
        TensorType::Q5_1 => QuantType::Q51,
        TensorType::Q5_K => QuantType::Q5K,
        _ => QuantType::Q40,
    }
}

/// A super-block type.
pub open spec fn super_block(t: TensorType) -> bool {
    t is Q4_K || t is Q5_K || t is Q6_K
}

/// A type with kernels of its own.
pub open spec fn has_kernels(t: TensorType) -> bool {
    !(t is F32 || t is F16 || t is I8)
}

/// Tiles pay from two rows on if the output is tall, else from nine.
pub open spec fn tiled(t: TensorType, od: int, nt: int, gemm: bool) -> bool {
    has_kernels(t) && gemm && nt >= 2 && (od >= 2048 || nt >= 9)
}

/// Output rows of one threadgroup of an untiled multiplication.
pub open spec fn group_rows(t: TensorType) -> int {
    match t {
        TensorType::Q8_0 => 2,
        TensorType::Q4_K | TensorType::Q5_K | TensorType::Q6_K => 4,
        _ => 8,
    }
}

/// Threads of one threadgroup of an untiled multiplication.
pub open spec fn group_threads(t: TensorType) -> (u64, u64, u64) {
    match t {
        TensorType::Q8_0 => (32, 4, 1),
        TensorType::Q4_K | TensorType::Q6_K => (32, 2, 1),
        _ => (64, 1, 1),
    }
}

/// The least number of pieces of size `d` that cover `n`.
pub open spec fn ceil_div(n: int, d: int) -> int {
    (n + d - 1) / d
}

/// The commands of a tiled multiplication: tiles of 64 output rows and 32
/// activation rows.
pub open spec fn gemm_commands(
    q: QuantType,
    w: Buf,
    w_off: u64,
    x: Buf,
    x_off: u64,
    out: Buf,
    od: usize,
    id: usize,
    nt: usize,
) -> Seq<Command> {
    seq![
        Command::Pipeline(Kernel::MatMul(q, MatForm::Gemm)),
        Command::Buffer { index: 0, buf: w, offset: w_off },
        Command::Buffer { index: 1, buf: x, offset: x_off },
        Command::Buffer { index: 2, buf: out, offset: 0 },
        Command::Sizes { index: 3, od: od as i32, id: id as i32, nt: nt as i32 },
        Command::Shared { index: 0, bytes: 8192 },
        Command::Dispatch {
            groups: (ceil_div(nt as int, 32) as u64, ceil_div(od as int, 64) as u64, 1),
            threads: (32, 4, 1),
        },
        Command::Barrier,
    ]
}

/// The commands of an untiled multiplication.
pub open spec fn vector_commands(
    t: TensorType,
    w: Buf,
    w_off: u64,
    x: Buf,
    x_off: u64,
    out: Buf,
    od: usize,
    id: usize,
    nt: usize,
) -> Seq<Command> {
    let form = if nt > 1 {
        MatForm::Multi
    } else {
        MatForm::Single
    };
    seq![
        Command::Pipeline(Kernel::MatMul(quant_of(t), form)),
        Command::Buffer { index: 0, buf: w, offset: w_off },
        Command::Buffer { index: 1, buf: x, offset: x_off },
        Command::Buffer { index: 2, buf: out, offset: 0 },
        Command::Sizes { index: 3, od: od as i32, id: id as i32, nt: nt as i32 },
    ] + (if t is Q8_0 {
        seq![Command::Shared { index: 0, bytes: 256 }]
    } else {
        Seq::empty()
    }) + seq![
        Command::Dispatch {
            groups: (
                ceil_div(od as int, group_rows(t)) as u64,
                if nt > 1 {
                    1
                } else {
                    nt as u64
                },
                1,
            ),
            threads: group_threads(t),
        },
        Command::Barrier,
    ]
}

/// The commands that read `len` bytes of a buffer once, a number at a time.
pub open spec fn warmup_commands(part: Buf, sink: Buf, len: usize) -> Seq<Command> {
    let blocks = ceil_div(len as int / 4, 256);
    seq![
        Command::Pipeline(Kernel::WarmupRead),
        Command::Buffer { index: 0, buf: part, offset: 0 },
        Command::Buffer { index: 1, buf: sink, offset: 0 },
        Command::Dispatch {
            groups: (ceil_div(blocks, 256) as u64, 1, 1),
            threads: (256, 1, 1),
        },
        Command::Barrier,
    ]
}

/// What making room for `need` bytes does: nothing if the buffer is large
/// enough, else a new buffer.
pub open spec fn grown(slot: Slot, need: u64, next: Buf) -> (Slot, Seq<Command>) {
    if slot.bytes >= need {
        (slot, Seq::empty())
    } else {
        (Slot { buf: next, bytes: need }, seq![Command::Allocate { buf: next, bytes: need }])
    }
}

/// The scratch buffers with room for the partial results of a split attention, and what makes it.
pub open spec fn with_partial(s: Scratch, need: u64) -> (Scratch, Seq<Command>) {
    let room = grown(s.partial, need, s.next);
    (Scratch { partial: room.0, next: next_after(s.partial, need, s.next), ..s }, room.1)
}

/// The scratch buffers with room for the scores of a prompt, and what makes it.
pub open spec fn with_scores(s: Scratch, need: u64) -> (Scratch, Seq<Command>) {
    let room = grown(s.scores, need, s.next);
    (Scratch { scores: room.0, next: next_after(s.scores, need, s.next), ..s }, room.1)
}

/// The scratch buffers with room for the copy of an unfinished block, and what makes it.
pub open spec fn with_pad(s: Scratch, need: u64) -> (Scratch, Seq<Command>) {
    let room = grown(s.pad, need, s.next);
    (Scratch { pad: room.0, next: next_after(s.pad, need, s.next), ..s }, room.1)
}

impl MpsCommandBuffer {
    /// Barriers are in place and the memory of operators is bounded.
    pub open spec fn wf(&self) -> bool {
        barriered(self.commands@) && self.trace@.len() <= 16
    }

    /// `self` is `before` with more commands.
    pub open spec fn adds(&self, before: &MpsCommandBuffer, added: Seq<Command>) -> bool {
        &&& self.wf()
        &&& self.commands@ == before.commands@ + added
        &&& self.config == before.config
        &&& self.scratch == before.scratch
        &&& self.trace@ == before.trace@
    }

    /// `self` is `before` with an operator encoded and remembered.
    pub open spec fn encodes(
        &self,
        before: &MpsCommandBuffer,
        label: &'static str,
        added: Seq<Command>,
    ) -> bool {
        &&& self.wf()
        &&& self.commands@ == before.commands@ + added
        &&& self.config == before.config
        &&& self.scratch == before.scratch
        &&& self.trace@ == remembered(before.trace@, before.config.trace, label)
    }

    /// As `encodes`, with scratch buffers that may have grown.
    pub open spec fn encodes_growing(
        &self,
        before: &MpsCommandBuffer,
        label: &'static str,
        scratch: Scratch,
        added: Seq<Command>,
    ) -> bool {
        &&& self.wf()
        &&& self.commands@ == before.commands@ + added
        &&& self.config == before.config
        &&& self.scratch == scratch
        &&& self.trace@ == remembered(before.trace@, before.config.trace, label)
    }

    /// An empty command buffer.
    pub fn new(config: EncoderConfig, scratch: Scratch, trace: Vec<&'static str>) -> (b: MpsCommandBuffer)
        requires
            trace@.len() <= 16,
        ensures
            b.wf(),
            b.config == config,
            b.scratch == scratch,
            b.commands@ == Seq::<Command>::empty(),
            b.trace == trace,
    {
        MpsCommandBuffer { config, scratch, commands: Vec::new(), trace }
    }

    fn trace_op(&mut self, label: &'static str)
        requires
            old(self).wf(),
        ensures
            final(self).wf(),
            final(self).commands@ == old(self).commands@,
            final(self).config == old(self).config,
            final(self).scratch == old(self).scratch,
            final(self).trace@ == remembered(old(self).trace@, old(self).config.trace, label),
    {
        if !self.config.trace {
            return;
        }
        let ghost before = self.trace@;
        self.trace.push(label);
        if self.trace.len() > 16 {
            let _first: &'static str = self.trace.remove(0);
            assert(self.trace@ =~= before.push(label).drop_first());
        }
    }

    fn push(&mut self, c: Command)
        requires
            old(self).wf(),
            !(c is Dispatch),
        ensures
            final(self).adds(old(self), seq![c]),
    {
        let ghost before = self.commands@;
        self.commands.push(c);
        assert(self.commands@ =~= before + seq![c]);
    }

    fn pipeline(&mut self, k: Kernel)
        requires
            old(self).wf(),
        ensures
            final(self).adds(old(self), seq![Command::Pipeline(k)]),
    {
        self.push(Command::Pipeline(k));
    }

    fn buffer(&mut self, index: u64, buf: Buf, offset: u64)
        requires
            old(self).wf(),
        ensures
            final(self).adds(old(self), seq![Command::Buffer { index, buf, offset }]),
    {
        self.push(Command::Buffer { index, buf, offset });
    }

    fn param(&mut self, index: u64, value: i32)
        requires
            old(self).wf(),
        ensures
            final(self).adds(old(self), seq![Command::Param { index, value }]),
    {
        self.push(Command::Param { index, value });
    }

    fn sizes(&mut self, index: u64, od: usize, id: usize, nt: usize)
        requires
            old(self).wf(),
        ensures
            final(self).adds(
                old(self),
                seq![Command::Sizes { index, od: od as i32, id: id as i32, nt: nt as i32 }],
            ),
    {
        self.push(Command::Sizes { index, od: od as i32, id: id as i32, nt: nt as i32 });
    }

    fn shared(&mut self, index: u64, bytes: u64)
        requires
            old(self).wf(),
        ensures
            final(self).adds(old(self), seq![Command::Shared { index, bytes }]),
    {
        self.push(Command::Shared { index, bytes });
    }

    fn dispatch_3d(&mut self, groups: (u64, u64, u64), threads: (u64, u64, u64))
        requires
            old(self).wf(),
        ensures
            final(self).adds(old(self), seq![Command::Dispatch { groups, threads }, Command::Barrier]),
    {
        let ghost before = self.commands@;
        self.commands.push(Command::Dispatch { groups, threads });
        self.commands.push(Command::Barrier);
        assert(self.commands@ =~= before + seq![
            Command::Dispatch { groups, threads },
            Command::Barrier,
        ]);
    }

    fn dispatch_2d(&mut self, w: u64, h: u64, tw: u64, th: u64)
        requires
            old(self).wf(),
        ensures
            final(self).adds(
                old(self),
                seq![
                    Command::Dispatch { groups: (w, h, 1), threads: (tw, th, 1) },
                    Command::Barrier,
                ],
            ),
    {
        self.dispatch_3d((w, h, 1), (tw, th, 1));
    }

    fn dispatch_1d(&mut self, n: u64, tg: u64)
        requires
            old(self).wf(),
            tg > 0,
            n + tg <= u64::MAX,
        ensures
            final(self).adds(
                old(self),
                seq![
                    Command::Dispatch {
                        groups: (ceil_div(n as int, tg as int) as u64, 1, 1),
                        threads: (tg, 1, 1),
                    },
                    Command::Barrier,
                ],
            ),
    {
        self.dispatch_3d(((n + tg - 1) / tg, 1, 1), (tg, 1, 1));
    }

    fn gemm_dispatch(
        &mut self,
        q: QuantType,
        w: Buf,
        w_off: u64,
        x: Buf,
        x_off: u64,
        out: Buf,
        od: usize,
        id: usize,
        nt: usize,
    ) -> (r: Result<(), GpuError>)
        requires
            old(self).wf(),
            od + 63 <= usize::MAX,
            nt + 31 <= usize::MAX,
        ensures
            old(self).config.max_shared < 8192 ==> r == Err::<(), GpuError>(
                GpuError::SharedMemory { need: 8192, max: old(self).config.max_shared },
            ) && final(self).adds(old(self), Seq::empty()),
            old(self).config.max_shared >= 8192 ==> r is Ok && final(self).adds(
                old(self),
                gemm_commands(q, w, w_off, x, x_off, out, od, id, nt),
            ),
    {
        let ghost before = self.commands@;
        if 8192 > self.config.max_shared {
            assert(self.commands@ =~= before + Seq::<Command>::empty());
            return Err(GpuError::SharedMemory { need: 8192, max: self.config.max_shared });
        }
        self.pipeline(Kernel::MatMul(q, MatForm::Gemm));
        self.buffer(0, w, w_off);
        self.buffer(1, x, x_off);
        self.buffer(2, out, 0);
        self.sizes(3, od, id, nt);
        self.shared(0, 8192);
        self.dispatch_2d(((nt + 31) / 32) as u64, ((od + 63) / 64) as u64, 32, 4);
        assert(self.commands@ =~= before + gemm_commands(q, w, w_off, x, x_off, out, od, id, nt));
        Ok(())
    }

    fn vector_dispatch(
        &mut self,
        t: TensorType,
        w: Buf,
        w_off: u64,
        x: Buf,
        x_off: u64,
        out: Buf,
        od: usize,
        id: usize,
        nt: usize,
    )
        requires
            old(self).wf(),
            od + 7 <= usize::MAX,
        ensures
            final(self).adds(old(self), vector_commands(t, w, w_off, x, x_off, out, od, id, nt)),
    {
        let ghost before = self.commands@;
        let form: MatForm = if nt > 1 {
            MatForm::Multi
        } else {
            MatForm::Single
        };
        self.pipeline(Kernel::MatMul(Self::quant(t), form));
        self.buffer(0, w, w_off);
        self.buffer(1, x, x_off);
        self.buffer(2, out, 0);
        self.sizes(3, od, id, nt);
        let grid_y: u64 = if nt > 1 {
            1
        } else {
            nt as u64
        };
        match t {
            TensorType::Q8_0 => {
                self.shared(0, 256);
                self.dispatch_2d(((od + 1) / 2) as u64, grid_y, 32, 4);
            },
            TensorType::Q4_K | TensorType::Q6_K => {
                self.dispatch_2d(((od + 3) / 4) as u64, grid_y, 32, 2);
            },
            TensorType::Q5_K => {
                self.dispatch_2d(((od + 3) / 4) as u64, grid_y, 64, 1);
            },
            _ => {
                self.dispatch_2d(((od + 7) / 8) as u64, grid_y, 64, 1);
            },
        }
        assert(self.commands@ =~= before + vector_commands(
            t,
            w,
            w_off,
            x,
            x_off,
            out,
            od,
            id,
            nt,
        ));
    }

    fn quant(t: TensorType) -> (r: QuantType)
        ensures
            r == quant_of(t),
    {
        match t {
            TensorType::Q8_0 => QuantType::Q80,
            TensorType::Q4_K => QuantType::Q4K,
            TensorType::Q6_K => QuantType::Q6K,
            TensorType::Q4_1 => QuantType::Q41,
            TensorType::Q5_0 => QuantType::Q50,
            TensorType::Q5_1 => QuantType::Q51,
            TensorType::Q5_K => QuantType::Q5K,
            _ => QuantType::Q40,
        }
    }

    /// Multiplies `nt` rows of activations by a weight of `od` rows of `id`
    /// elements. Refuses rows of a super-block type that are not whole
    /// super-blocks, whose rest the kernels would drop, and tiles that the
    /// device has no shared memory for.
    pub fn quant_matmul_f32_on_gpu_buf(
        &mut self,
        w: Buf,
        w_off: u64,
        ttype: TensorType,
        x: Buf,
        x_off: u64,
        out: Buf,
        od: usize,
        id: usize,
        nt: usize,
    ) -> (r: Result<(), GpuError>)
        requires
            old(self).wf(),
            od + 63 <= usize::MAX,
            nt + 31 <= usize::MAX,
        ensures
            if super_block(ttype) && id % 256 != 0 {
                r == Err::<(), GpuError>(GpuError::Misaligned { id, ttype }) && final(self).encodes(
                    old(self),
                    "matmul",
                    Seq::empty(),
                )
            } else if tiled(ttype, od as int, nt as int, old(self).config.gemm) {
                if old(self).config.max_shared < 8192 {
                    r == Err::<(), GpuError>(
                        GpuError::SharedMemory { need: 8192, max: old(self).config.max_shared },
                    ) && final(self).encodes(old(self), "matmul", Seq::empty())
                } else {
                    r is Ok && final(self).encodes(
                        old(self),
                        "matmul",
                        gemm_commands(quant_of(ttype), w, w_off, x, x_off, out, od, id, nt),
                    )
                }
            } else {
                r is Ok && final(self).encodes(
                    old(self),
                    "matmul",
                    vector_commands(ttype, w, w_off, x, x_off, out, od, id, nt),
                )
            },
    {
        let ghost before = self.commands@;
        self.trace_op("matmul");
        if matches!(ttype, TensorType::Q4_K | TensorType::Q5_K | TensorType::Q6_K) && id % 256 != 0 {
            assert(self.commands@ =~= before + Seq::<Command>::empty());
            return Err(GpuError::Misaligned { id, ttype });
        }
        let own: bool = !matches!(ttype, TensorType::F32 | TensorType::F16 | TensorType::I8);
        if own && nt >= 2 && (od >= 2048 || nt >= 9) && self.config.gemm {
            self.gemm_dispatch(Self::quant(ttype), w, w_off, x, x_off, out, od, id, nt)
        } else {
            self.vector_dispatch(ttype, w, w_off, x, x_off, out, od, id, nt);
            Ok(())
        }
    }

    /// The rows `ids` of an embedding table, decoded; a thread handles one block of
    /// a row, or a sixteenth of a super-block.
    pub fn embed_tokens_gpu(
        &mut self,
        w: Buf,
        w_off: u64,
        ids: Buf,
        dst: Buf,
        ne: usize,
        nt: usize,
        ttype: TensorType,
    )
        requires
            old(self).wf(),
            has_kernels(ttype),
            nt * embed_units(ttype, ne as int) + 256 <= u64::MAX,
            nt * embed_units(ttype, ne as int) <= usize::MAX,
        ensures
            final(self).encodes(
                old(self),
                "embed",
                embed_commands(w, w_off, ids, dst, ne, nt, ttype),
            ),
    {
        let ghost before = self.commands@;
        self.trace_op("embed");
        let nb: usize = match ttype {
            TensorType::Q4_K | TensorType::Q5_K | TensorType::Q6_K => (ne / 256) * 16,
            _ => ne / 32,
        };
        self.pipeline(Kernel::GetRows(Self::quant(ttype)));
        self.buffer(0, w, w_off);
        self.buffer(1, ids, 0);
        self.buffer(2, dst, 0);
        self.param(3, ne as i32);
        self.param(4, nt as i32);
        self.dispatch_1d((nt * nb) as u64, 256);
        assert(self.commands@ =~= before + embed_commands(w, w_off, ids, dst, ne, nt, ttype));
    }

    /// Reads `len` bytes of a buffer once, so that its pages are resident before
    /// they are needed.
    pub fn part_warmup(&mut self, part: Buf, sink: Buf, len: usize)
        requires
            old(self).wf(),
        ensures
            final(self).encodes(old(self), "part_warmup", warmup_commands(part, sink, len)),
    {
        let ghost before = self.commands@;
        self.trace_op("part_warmup");
        self.pipeline(Kernel::WarmupRead);
        self.buffer(0, part, 0);
        self.buffer(1, sink, 0);
        let n: u64 = (len / 4) as u64;
        self.dispatch_1d((n + 255) / 256, 256);
        assert(self.commands@ =~= before + warmup_commands(part, sink, len));
    }

    /// The rows `ids` of `x`.
    pub fn get_rows_f32(
        &mut self,
        x: Buf,
        ids: Buf,
        out: Buf,
        ne: usize,
        nt: usize,
    )
        requires
            old(self).wf(),
        ensures
            final(self).encodes(
                old(self),
                "get_rows_f32",
                get_rows_commands(x, ids, out, ne, nt),
            ),
    {
        let ghost before = self.commands@;
        self.trace_op("get_rows_f32");
        self.pipeline(Kernel::GetRowsF32);
        self.buffer(0, x, 0);
        self.buffer(1, ids, 0);
        self.buffer(2, out, 0);
        self.param(3, ne as i32);
        self.dispatch_2d(nt as u64, ne as u64, 1, 1);
        assert(self.commands@ =~= before + get_rows_commands(x, ids, out, ne, nt));
    }

    /// Normalises `n` rows of `d` elements and scales them by `w`; without a weight
    /// the output stands in for it.
    pub fn rms_norm(
        &mut self,
        x: Buf,
        w: Option<Buf>,
        w_off: u64,
        y: Buf,
        d: usize,
        n: usize,
        eps_bits: u32,
        off: u64,
    )
        requires
            old(self).wf(),
        ensures
            final(self).encodes(
                old(self),
                "rms_norm",
                rms_norm_commands(x, w, w_off, y, d, n, eps_bits, off),
            ),
    {
        let ghost before = self.commands@;
        self.trace_op("rms_norm");
        self.pipeline(Kernel::RmsNorm);
        self.buffer(0, x, off);
        self.buffer(1, Self::weight_or_output(w, y), w_off);
        self.buffer(2, y, 0);
        self.param(3, d as i32);
        self.param(4, eps_bits as i32);
        self.dispatch_2d(n as u64, 1, 32, 1);
        assert(self.commands@ =~= before + rms_norm_commands(x, w, w_off, y, d, n, eps_bits, off));
    }

    /// As `rms_norm`, with eight times the threads per row.
    pub fn rms_norm_256(
        &mut self,
        x: Buf,
        w: Option<Buf>,
        w_off: u64,
        y: Buf,
        d: usize,
        n: usize,
        eps_bits: u32,
        off: u64,
    )
        requires
            old(self).wf(),
        ensures
            final(self).encodes(
                old(self),
                "rms_norm",
                rms_norm_256_commands(x, w, w_off, y, d, n, eps_bits, off),
            ),
    {
        let ghost before = self.commands@;
        self.trace_op("rms_norm");
        self.pipeline(Kernel::RmsNorm256);
        self.buffer(0, x, off);
        self.buffer(1, Self::weight_or_output(w, y), w_off);
        self.buffer(2, y, 0);
        self.param(3, d as i32);
        self.param(4, eps_bits as i32);
        self.shared(0, 128);
        self.dispatch_2d(n as u64, 1, 32, 8);
        assert(self.commands@ =~= before + rms_norm_256_commands(x, w, w_off, y, d, n, eps_bits, off));
    }

    /// The element-wise sum of `n` elements, each operand from a byte offset on.
    pub fn add_f32_off(
        &mut self,
        x: Buf,
        y: Buf,
        z: Buf,
        n: usize,
        x_off: u64,
        y_off: u64,
        z_off: u64,
    )
        requires
            old(self).wf(),
            n + 3 <= u64::MAX,
        ensures
            final(self).encodes(
                old(self),
                "add",
                add_commands(x, y, z, n, x_off, y_off, z_off),
            ),
    {
        let ghost before = self.commands@;
        self.trace_op("add");
        self.pipeline(Kernel::Add);
        self.buffer(0, x, x_off);
        self.buffer(1, y, y_off);
        self.buffer(2, z, z_off);
        self.param(3, n as i32);
        self.dispatch_1d(((n as u64) + 3) / 4, 256);
        assert(self.commands@ =~= before + add_commands(x, y, z, n, x_off, y_off, z_off));
    }

    /// The element-wise sum.
    pub fn add_f32(&mut self, x: Buf, y: Buf, z: Buf, n: usize)
        requires
            old(self).wf(),
            n + 3 <= u64::MAX,
        ensures
            final(self).encodes(
                old(self),
                "add",
                add_commands(x, y, z, n, 0, 0, 0),
            ),
    {
        self.add_f32_off(x, y, z, n, 0, 0, 0);
    }

    /// Adds a bias of `d` elements to `n` rows of `y`, from element `off` on.
    pub fn add_bias_f32(
        &mut self,
        y: Buf,
        b: Buf,
        b_off: u64,
        d: usize,
        n: usize,
        off: usize,
    )
        requires
            old(self).wf(),
            off * 4 <= u64::MAX,
            off * 4 <= usize::MAX,
            d + 3 <= u64::MAX,
        ensures
            final(self).encodes(
                old(self),
                "bias",
                add_bias_commands(y, b, b_off, d, n, off),
            ),
    {
        let ghost before = self.commands@;
        self.trace_op("bias");
        self.pipeline(Kernel::AddBias);
        self.buffer(0, y, (off * 4) as u64);
        self.buffer(1, b, b_off);
        self.param(2, d as i32);
        self.dispatch_2d(n as u64, ((d as u64) + 3) / 4, 1, 64);
        assert(self.commands@ =~= before + add_bias_commands(y, b, b_off, d, n, off));
    }

    /// The element-wise product.
    pub fn mul_f32(
        &mut self,
        x: Buf,
        y: Buf,
        z: Buf,
        n: usize,
    )
        requires
            old(self).wf(),
            n + 256 <= u64::MAX,
        ensures
            final(self).adds(
                old(self),
                mul_commands(x, y, z, n),
            ),
    {
        let ghost before = self.commands@;
        self.pipeline(Kernel::Mul);
        self.buffer(0, x, 0);
        self.buffer(1, y, 0);
        self.buffer(2, z, 0);
        self.param(3, n as i32);
        self.dispatch_1d(n as u64, 256);
        assert(self.commands@ =~= before + mul_commands(x, y, z, n));
    }

    /// The sigmoid-weighted identity, in place.
    pub fn silu_f32(
        &mut self,
        y: Buf,
        n: usize,
    )
        requires
            old(self).wf(),
            n + 256 <= u64::MAX,
        ensures
            final(self).adds(
                old(self),
                silu_commands(y, n),
            ),
    {
        let ghost before = self.commands@;
        self.pipeline(Kernel::Silu);
        self.buffer(0, y, 0);
        self.param(1, n as i32);
        self.dispatch_1d(n as u64, 256);
        assert(self.commands@ =~= before + silu_commands(y, n));
    }

    /// `silu(gate) * up`; `dst` may be `gate`.
    pub fn swiglu_f32(
        &mut self,
        gate: Buf,
        up: Buf,
        dst: Buf,
        n: usize,
    )
        requires
            old(self).wf(),
            n + 3 <= u64::MAX,
        ensures
            final(self).encodes(
                old(self),
                "swiglu",
                swiglu_commands(gate, up, dst, n, 0),
            ),
    {
        self.swiglu_f32_off(gate, up, dst, n, 0);
    }

    /// `silu(gate) * up` where `up` starts at element `up_off` of its buffer.
    pub fn swiglu_f32_off(
        &mut self,
        gate: Buf,
        up: Buf,
        dst: Buf,
        n: usize,
        up_off: usize,
    )
        requires
            old(self).wf(),
            n + 3 <= u64::MAX,
            up_off * 4 <= u64::MAX,
            up_off * 4 <= usize::MAX,
        ensures
            final(self).encodes(
                old(self),
                "swiglu",
                swiglu_commands(gate, up, dst, n, up_off),
            ),
    {
        let ghost before = self.commands@;
        self.trace_op("swiglu");
        self.pipeline(Kernel::Swiglu);
        self.buffer(0, gate, 0);
        self.buffer(1, up, (up_off * 4) as u64);
        self.buffer(2, dst, 0);
        self.param(3, n as i32);
        self.dispatch_1d(((n as u64) + 3) / 4, 256);
        assert(self.commands@ =~= before + swiglu_commands(gate, up, dst, n, up_off));
    }

    /// Rotates `n_head` heads of `n_dims` elements of `nt` tokens, from element
    /// `off` on; `rope_style` 0 pairs the halves of a head, 1 neighbours.
    pub fn rope_f32(
        &mut self,
        x: Buf,
        n_head: usize,
        n_dims: usize,
        nt: usize,
        base_bits: u32,
        scale_bits: u32,
        positions: Buf,
        rope_style: i32,
        off: usize,
    )
        requires
            old(self).wf(),
            off * 4 <= u64::MAX,
            off * 4 <= usize::MAX,
        ensures
            final(self).encodes(
                old(self),
                "rope",
                rope_commands(
                    x,
                    n_head,
                    n_dims,
                    nt,
                    base_bits,
                    scale_bits,
                    positions,
                    rope_style,
                    off,
                ),
            ),
    {
        let ghost before = self.commands@;
        self.trace_op("rope");
        self.pipeline(Kernel::Rope);
        self.buffer(0, x, (off * 4) as u64);
        self.param(1, n_head as i32);
        self.param(2, n_dims as i32);
        self.param(3, nt as i32);
        self.param(4, base_bits as i32);
        self.param(5, scale_bits as i32);
        self.buffer(6, positions, 0);
        self.param(7, rope_style);
        self.dispatch_3d(((n_dims / 2) as u64, n_head as u64, nt as u64), (1, 1, 1));
        assert(self.commands@ =~= before + rope_commands(x, n_head, n_dims, nt, base_bits, scale_bits, positions, rope_style, off));
    }

    /// Attention, one threadgroup per token and key/value head; keys and values may
    /// start inside a shared buffer.
    pub fn gqa_attn_f32_off(
        &mut self,
        q: Buf,
        q_off: u64,
        k: Buf,
        k_off: u64,
        v: Buf,
        v_off: u64,
        o: Buf,
        positions: Buf,
        nh: usize,
        nk: usize,
        hd: usize,
        scale_bits: u32,
        nt: usize,
    )
        requires
            old(self).wf(),
            nk > 0,
            hd * 256 <= u64::MAX,
        ensures
            final(self).encodes(
                old(self),
                "gqa_attn",
                gqa_attn_commands(
                    q,
                    q_off,
                    k,
                    k_off,
                    v,
                    v_off,
                    o,
                    positions,
                    nh,
                    nk,
                    hd,
                    scale_bits,
                    nt,
                    old(self).config.kv_half,
                ),
            ),
    {
        let ghost before = self.commands@;
        self.trace_op("gqa_attn");
        self.pipeline(Kernel::GqaAttn { half: self.config.kv_half });
        self.buffer(0, q, q_off);
        self.buffer(1, k, k_off);
        self.buffer(2, v, v_off);
        self.buffer(3, o, 0);
        self.buffer(4, positions, 0);
        self.param(5, nh as i32);
        self.param(6, nk as i32);
        self.param(7, hd as i32);
        self.param(8, scale_bits as i32);
        self.param(9, nt as i32);
        self.shared(0, 32 * hd as u64 * 2 * 4);
        self.dispatch_2d(nt as u64, nk as u64, 32, (nh / nk) as u64);
        assert(self.commands@ =~= before + gqa_attn_commands(
            q,
            q_off,
            k,
            k_off,
            v,
            v_off,
            o,
            positions,
            nh,
            nk,
            hd,
            scale_bits,
            nt,
            self.config.kv_half,
        ));
    }

    /// Attention with keys and values at the start of their buffers.
    pub fn gqa_attn_f32(
        &mut self,
        q: Buf,
        k: Buf,
        v: Buf,
        o: Buf,
        positions: Buf,
        nh: usize,
        nk: usize,
        hd: usize,
        scale_bits: u32,
        nt: usize,
    )
        requires
            old(self).wf(),
            nk > 0,
            hd * 256 <= u64::MAX,
        ensures
            final(self).encodes(
                old(self),
                "gqa_attn",
                gqa_attn_commands(
                    q,
                    0,
                    k,
                    0,
                    v,
                    0,
                    o,
                    positions,
                    nh,
                    nk,
                    hd,
                    scale_bits,
                    nt,
                    old(self).config.kv_half,
                ),
            ),
    {
        self.gqa_attn_f32_off(q, 0, k, 0, v, 0, o, positions, nh, nk, hd, scale_bits, nt);
    }

    /// Scatters `nt` rows of `src`, from element `off` on, into the rows `positions`
    /// of `dst`.
    pub fn store_kv(
        &mut self,
        src: Buf,
        dst: Buf,
        nkt: usize,
        nt: usize,
        positions: Buf,
        off: usize,
    )
        requires
            old(self).wf(),
            off * 4 <= u64::MAX,
            off * 4 <= usize::MAX,
        ensures
            final(self).encodes(
                old(self),
                "store_kv",
                store_kv_commands(src, dst, nkt, nt, positions, off, old(self).config.kv_half),
            ),
    {
        let ghost before = self.commands@;
        self.trace_op("store_kv");
        self.pipeline(Kernel::StoreKv { half: self.config.kv_half });
        self.buffer(0, src, (off * 4) as u64);
        self.buffer(1, dst, 0);
        self.param(2, nkt as i32);
        self.param(3, nt as i32);
        self.buffer(4, positions, 0);
        self.dispatch_2d(nt as u64, nkt as u64, 1, 1);
        assert(self.commands@ =~= before + store_kv_commands(src, dst, nkt, nt, positions, off, self.config.kv_half));
    }

    /// Biases, rotation and store of one token in one pass.
    pub fn attn_bias_rope_store(
        &mut self,
        bqkv: Buf,
        bias_q: Buf,
        bq_off: u64,
        bias_k: Buf,
        bk_off: u64,
        bias_v: Buf,
        bv_off: u64,
        kv_k: Buf,
        kv_v: Buf,
        nqt: usize,
        nkt: usize,
        hd: usize,
        base_bits: u32,
        scale_bits: u32,
        pos: i32,
        rope_style: i32,
    )
        requires
            old(self).wf(),
            nqt / 2 + nkt / 2 + nkt + 256 <= u64::MAX,
            nqt / 2 + nkt / 2 + nkt <= usize::MAX,
        ensures
            final(self).encodes(
                old(self),
                "attn_bias_rope_store",
                bias_rope_store_commands(
                    bqkv,
                    bias_q,
                    bq_off,
                    bias_k,
                    bk_off,
                    bias_v,
                    bv_off,
                    kv_k,
                    kv_v,
                    nqt,
                    nkt,
                    hd,
                    base_bits,
                    scale_bits,
                    pos,
                    rope_style,
                    old(self).config.kv_half,
                ),
            ),
    {
        let ghost before = self.commands@;
        self.trace_op("attn_bias_rope_store");
        self.pipeline(Kernel::AttnBiasRopeStore);
        self.buffer(0, bqkv, 0);
        self.buffer(1, bias_q, bq_off);
        self.buffer(2, bias_k, bk_off);
        self.buffer(3, bias_v, bv_off);
        self.buffer(4, kv_k, 0);
        self.buffer(5, kv_v, 0);
        self.param(6, nqt as i32);
        self.param(7, nkt as i32);
        self.param(8, hd as i32);
        self.param(9, base_bits as i32);
        self.param(10, scale_bits as i32);
        self.param(11, pos);
        self.param(12, rope_style);
        self.param(13, Self::as_flag(self.config.kv_half));
        self.dispatch_1d((nqt / 2 + nkt / 2 + nkt) as u64, 256);
        assert(self.commands@ =~= before + bias_rope_store_commands(
            bqkv,
            bias_q,
            bq_off,
            bias_k,
            bk_off,
            bias_v,
            bv_off,
            kv_k,
            kv_v,
            nqt,
            nkt,
            hd,
            base_bits,
            scale_bits,
            pos,
            rope_style,
            self.config.kv_half,
        ));
    }

    fn grow(&mut self, slot: Slot, need: u64) -> (r: Slot)
        requires
            old(self).wf(),
            old(self).scratch.next < usize::MAX,
        ensures
            r == grown(slot, need, old(self).scratch.next).0,
            final(self).wf(),
            final(self).commands@ == old(self).commands@ + grown(slot, need, old(self).scratch.next).1,
            final(self).config == old(self).config,
            final(self).trace@ == old(self).trace@,
            final(self).scratch == (Scratch {
                next: next_after(slot, need, old(self).scratch.next),
                ..old(self).scratch
            }),
    {
        let ghost before = self.commands@;
        if slot.bytes >= need {
            assert(self.commands@ =~= before + Seq::<Command>::empty());
            return slot;
        }
        let buf: usize = self.scratch.next;
        self.scratch.next = buf + 1;
        self.push(Command::Allocate { buf, bytes: need });
        Slot { buf, bytes: need }
    }

    fn combine_pass(
        &mut self,
        part: Buf,
        o: Buf,
        nh: usize,
        hd: usize,
        nt: usize,
        n_chunks: usize,
    )
        requires
            old(self).wf(),
        ensures
            final(self).adds(old(self), combine_commands(part, o, nh, hd, nt, n_chunks)),
    {
        let ghost before = self.commands@;
        self.pipeline(Kernel::GqaAttnCombine);
        self.buffer(0, part, 0);
        self.buffer(1, o, 0);
        self.param(2, nh as i32);
        self.param(3, hd as i32);
        self.param(4, nt as i32);
        self.param(5, n_chunks as i32);
        self.dispatch_2d(nt as u64, nh as u64, 32, 1);
        assert(self.commands@ =~= before + combine_commands(part, o, nh, hd, nt, n_chunks));
    }

    fn chunk_pass(
        &mut self,
        part: Buf,
        q: Buf,
        k: Buf,
        v: Buf,
        positions: Buf,
        nh: usize,
        nk: usize,
        hd: usize,
        scale_bits: u32,
        nt: usize,
        n_chunks: usize,
        half: bool,
    )
        requires
            old(self).wf(),
            nk > 0,
            hd * 256 <= u64::MAX,
        ensures
            final(self).adds(old(self), chunk_commands(part, q, k, v, positions, nh, nk, hd, scale_bits, nt, n_chunks, half)),
    {
        let ghost before = self.commands@;
        self.pipeline(Kernel::GqaAttnPartial { half });
        self.buffer(0, q, 0);
        self.buffer(1, k, 0);
        self.buffer(2, v, 0);
        self.buffer(3, part, 0);
        self.buffer(4, positions, 0);
        self.param(5, nh as i32);
        self.param(6, nk as i32);
        self.param(7, hd as i32);
        self.param(8, scale_bits as i32);
        self.param(9, nt as i32);
        self.param(10, n_chunks as i32);
        self.shared(0, 32 * hd as u64 * 2 * 4);
        self.dispatch_3d((nt as u64, nk as u64, n_chunks as u64), (32, (nh / nk) as u64, 1));
        assert(self.commands@ =~= before + chunk_commands(part, q, k, v, positions, nh, nk, hd, scale_bits, nt, n_chunks, half));
    }

    fn flash_pass(
        &mut self,
        part: Buf,
        q: Buf,
        k: Buf,
        v: Buf,
        positions: Buf,
        nh: usize,
        nk: usize,
        hd: usize,
        scale_bits: u32,
        nt: usize,
        n_chunks: usize,
        half: bool,
    )
        requires
            old(self).wf(),
        ensures
            final(self).adds(old(self), flash_commands(part, q, k, v, positions, nh, nk, hd, scale_bits, nt, n_chunks, half)),
    {
        let ghost before = self.commands@;
        self.pipeline(Kernel::FlashAttn { wide: hd == 128, half });
        self.buffer(0, q, 0);
        self.buffer(1, k, 0);
        self.buffer(2, v, 0);
        self.buffer(3, part, 0);
        self.buffer(4, positions, 0);
        self.param(5, nh as i32);
        self.param(6, nk as i32);
        self.param(7, hd as i32);
        self.param(8, scale_bits as i32);
        self.param(9, nt as i32);
        self.param(10, n_chunks as i32);
        self.shared(0, if hd == 128 { 1152 } else { 1024 });
        self.dispatch_3d((nt as u64, nh as u64, n_chunks as u64), (32, 1, 1));
        assert(self.commands@ =~= before + flash_commands(part, q, k, v, positions, nh, nk, hd, scale_bits, nt, n_chunks, half));
    }

    /// Attention of single tokens, split over chunks of the keys.
    pub fn gqa_attn_split_f32(
        &mut self,
        q: Buf,
        k: Buf,
        v: Buf,
        o: Buf,
        positions: Buf,
        nh: usize,
        nk: usize,
        hd: usize,
        scale_bits: u32,
        nt: usize,
        n_chunks: usize,
    )
        requires
            old(self).wf(),
            old(self).scratch.next < usize::MAX,
            nk > 0,
            hd * 256 <= u64::MAX,
            partial_fits(nt as int, nh as int, n_chunks as int, hd as int),
        ensures
            ({
                let need = partial_bytes(nt as int, nh as int, n_chunks as int, hd as int) as u64;
                let room = with_partial(old(self).scratch, need);
                final(self).encodes_growing(
                    old(self),
                    "gqa_attn_split",
                    room.0,
                    room.1 + split_attn_commands(
                        room.0.partial.buf,
                        q,
                        k,
                        v,
                        o,
                        positions,
                        nh,
                        nk,
                        hd,
                        scale_bits,
                        nt,
                        n_chunks,
                        old(self).config.kv_half,
                    ),
                )
            }),
    {
        self.trace_op("gqa_attn_split");
        proof {
            lemma_partial(nt as int, nh as int, n_chunks as int, hd as int);
        }
        let slot: Slot = self.scratch.partial;
        let need: u64 = (nt * nh * n_chunks * (2 + hd) * 4) as u64;
        let ghost start = self.commands@;
        let grown_slot: Slot = self.grow(slot, need);
        self.scratch.partial = grown_slot;
        let part: usize = grown_slot.buf;
        let half: bool = self.config.kv_half;
        self.chunk_pass(part, q, k, v, positions, nh, nk, hd, scale_bits, nt, n_chunks, half);
        self.combine_pass(part, o, nh, hd, nt, n_chunks);
        assert(self.commands@ =~= start + (with_partial(old(self).scratch, need).1 + split_attn_commands(
            part,
            q,
            k,
            v,
            o,
            positions,
            nh,
            nk,
            hd,
            scale_bits,
            nt,
            n_chunks,
            old(self).config.kv_half,
        )));
    }

    /// Attention of single tokens for heads of 64 or 128 elements.
    pub fn gqa_attn_flash(
        &mut self,
        q: Buf,
        k: Buf,
        v: Buf,
        o: Buf,
        positions: Buf,
        nh: usize,
        nk: usize,
        hd: usize,
        scale_bits: u32,
        nt: usize,
        n_chunks: usize,
    )
        requires
            old(self).wf(),
            old(self).scratch.next < usize::MAX,
            partial_fits(nt as int, nh as int, n_chunks as int, hd as int),
        ensures
            ({
                let need = partial_bytes(nt as int, nh as int, n_chunks as int, hd as int) as u64;
                let room = with_partial(old(self).scratch, need);
                final(self).encodes_growing(
                    old(self),
                    "gqa_attn_flash",
                    room.0,
                    room.1 + flash_attn_commands(
                        room.0.partial.buf,
                        q,
                        k,
                        v,
                        o,
                        positions,
                        nh,
                        nk,
                        hd,
                        scale_bits,
                        nt,
                        n_chunks,
                        old(self).config.kv_half,
                    ),
                )
            }),
    {
        self.trace_op("gqa_attn_flash");
        proof {
            lemma_partial(nt as int, nh as int, n_chunks as int, hd as int);
        }
        let slot: Slot = self.scratch.partial;
        let need: u64 = (nt * nh * n_chunks * (2 + hd) * 4) as u64;
        let ghost start = self.commands@;
        let grown_slot: Slot = self.grow(slot, need);
        self.scratch.partial = grown_slot;
        let part: usize = grown_slot.buf;
        let half: bool = self.config.kv_half;
        self.flash_pass(part, q, k, v, positions, nh, nk, hd, scale_bits, nt, n_chunks, half);
        self.combine_pass(part, o, nh, hd, nt, n_chunks);
        assert(self.commands@ =~= start + (with_partial(old(self).scratch, need).1 + flash_attn_commands(
            part,
            q,
            k,
            v,
            o,
            positions,
            nh,
            nk,
            hd,
            scale_bits,
            nt,
            n_chunks,
            old(self).config.kv_half,
        )));
    }

    fn scores_pass(
        &mut self,
        part: Buf,
        q: Buf,
        kv_k: Buf,
        nkv: usize,
        nkt: usize,
        nt: usize,
        nh: usize,
        hd: usize,
        gqa: usize,
        scale_bits: u32,
    )
        requires
            old(self).wf(),
            nt * nh <= usize::MAX,
        ensures
            final(self).adds(old(self), scores_commands(part, q, kv_k, nkv, nkt, nt, nh, hd, gqa, scale_bits)),
    {
        let ghost before = self.commands@;
        self.pipeline(Kernel::AttnScores);
        self.buffer(0, q, 0);
        self.buffer(1, kv_k, 0);
        self.buffer(2, part, 0);
        self.param(3, nh as i32);
        self.param(4, hd as i32);
        self.param(5, nkv as i32);
        self.param(6, nt as i32);
        self.param(7, gqa as i32);
        self.param(8, nkt as i32);
        self.param(9, scale_bits as i32);
        self.dispatch_2d((nt * nh) as u64, 1, 256, 1);
        assert(self.commands@ =~= before + scores_commands(part, q, kv_k, nkv, nkt, nt, nh, hd, gqa, scale_bits));
    }

    fn softmax_pass(
        &mut self,
        part: Buf,
        positions: Buf,
        nkv: usize,
        nt: usize,
        nh: usize,
    )
        requires
            old(self).wf(),
            nt * nh <= usize::MAX,
        ensures
            final(self).adds(old(self), softmax_commands(part, positions, nkv, nt, nh)),
    {
        let ghost before = self.commands@;
        self.pipeline(Kernel::SoftmaxAttn);
        self.buffer(0, part, 0);
        self.buffer(1, positions, 0);
        self.param(2, nkv as i32);
        self.param(3, nt as i32);
        self.param(4, nh as i32);
        self.shared(0, 128);
        self.dispatch_2d((nt * nh) as u64, 1, 32, 8);
        assert(self.commands@ =~= before + softmax_commands(part, positions, nkv, nt, nh));
    }

    fn values_pass(
        &mut self,
        part: Buf,
        kv_v: Buf,
        out: Buf,
        nkv: usize,
        nkt: usize,
        nt: usize,
        nh: usize,
        hd: usize,
        gqa: usize,
    )
        requires
            old(self).wf(),
            nt * nh <= usize::MAX,
        ensures
            final(self).adds(old(self), values_commands(part, kv_v, out, nkv, nkt, nt, nh, hd, gqa)),
    {
        let ghost before = self.commands@;
        self.pipeline(Kernel::AttnOutput);
        self.buffer(0, part, 0);
        self.buffer(1, kv_v, 0);
        self.buffer(2, out, 0);
        self.param(3, nh as i32);
        self.param(4, hd as i32);
        self.param(5, nkv as i32);
        self.param(6, nt as i32);
        self.param(7, gqa as i32);
        self.param(8, nkt as i32);
        self.dispatch_2d((nt * nh) as u64, 1, 256, 1);
        assert(self.commands@ =~= before + values_commands(part, kv_v, out, nkv, nkt, nt, nh, hd, gqa));
    }

    /// Attention of a prompt in three passes.
    pub fn attn_parallel_prefill(
        &mut self,
        q: Buf,
        kv_k: Buf,
        kv_v: Buf,
        out: Buf,
        positions: Buf,
        nkv: usize,
        nkt: usize,
        nt: usize,
        nh: usize,
        hd: usize,
        gqa: usize,
        scale_bits: u32,
    )
        requires
            old(self).wf(),
            old(self).scratch.next < usize::MAX,
            scores_fit(nt as int, nh as int, nkv as int),
        ensures
            ({
                let need = scores_bytes(nt as int, nh as int, nkv as int) as u64;
                let room = with_scores(old(self).scratch, need);
                final(self).encodes_growing(
                    old(self),
                    "attn_parallel",
                    room.0,
                    room.1 + parallel_attn_commands(
                        room.0.scores.buf,
                        q,
                        kv_k,
                        kv_v,
                        out,
                        positions,
                        nkv,
                        nkt,
                        nt,
                        nh,
                        hd,
                        gqa,
                        scale_bits,
                    ),
                )
            }),
    {
        self.trace_op("attn_parallel");
        proof {
            lemma_scores(nt as int, nh as int, nkv as int);
        }
        let slot: Slot = self.scratch.scores;
        let need: u64 = (nt * nh * nkv * 4) as u64;
        let ghost start = self.commands@;
        let grown_slot: Slot = self.grow(slot, need);
        self.scratch.scores = grown_slot;
        let part: usize = grown_slot.buf;
        self.scores_pass(part, q, kv_k, nkv, nkt, nt, nh, hd, gqa, scale_bits);
        self.softmax_pass(part, positions, nkv, nt, nh);
        self.values_pass(part, kv_v, out, nkv, nkt, nt, nh, hd, gqa);
        assert(self.commands@ =~= start + (with_scores(old(self).scratch, need).1 + parallel_attn_commands(
            part,
            q,
            kv_k,
            kv_v,
            out,
            positions,
            nkv,
            nkt,
            nt,
            nh,
            hd,
            gqa,
            scale_bits,
        )));
    }

    fn pad_pass(
        &mut self,
        part: Buf,
        kv_k: Buf,
        kv_v: Buf,
        nkv: usize,
        nkt: usize,
        half: bool,
    )
        requires
            old(self).wf(),
        ensures
            final(self).adds(old(self), pad_commands(part, kv_k, kv_v, nkv, nkt, half)),
    {
        let ghost before = self.commands@;
        self.pipeline(Kernel::KvTailPad);
        self.buffer(0, kv_k, 0);
        self.buffer(1, kv_v, 0);
        self.buffer(2, part, 0);
        self.param(3, nkv as i32);
        self.param(4, nkt as i32);
        self.param(5, Self::as_flag(half));
        self.dispatch_2d(nkt as u64, 64, 1, 1);
        assert(self.commands@ =~= before + pad_commands(part, kv_k, kv_v, nkv, nkt, half));
    }

    fn block_pass(
        &mut self,
        part: Buf,
        q: Buf,
        kv_k: Buf,
        kv_v: Buf,
        out: Buf,
        positions: Buf,
        nkv: usize,
        nt: usize,
        nh: usize,
        nk: usize,
        hd: usize,
        scale_bits: u32,
        half: bool,
    )
        requires
            old(self).wf(),
            nt + 7 <= usize::MAX,
        ensures
            final(self).adds(old(self), block_commands(part, q, kv_k, kv_v, out, positions, nkv, nt, nh, nk, hd, scale_bits, half)),
    {
        let ghost before = self.commands@;
        self.pipeline(Kernel::FlashAttnBlk { wide: hd == 128, half });
        self.buffer(0, q, 0);
        self.buffer(1, kv_k, 0);
        self.buffer(2, kv_v, 0);
        self.buffer(3, part, 0);
        self.buffer(4, out, 0);
        self.buffer(5, positions, 0);
        self.param(6, nh as i32);
        self.param(7, nk as i32);
        self.param(8, hd as i32);
        self.param(9, scale_bits as i32);
        self.param(10, nt as i32);
        self.param(11, nkv as i32);
        self.shared(0, if hd == 128 { 10240 } else { 7168 });
        self.dispatch_2d(((nt + 7) / 8) as u64, nh as u64, 32, 4);
        assert(self.commands@ =~= before + block_commands(part, q, kv_k, kv_v, out, positions, nkv, nt, nh, nk, hd, scale_bits, half));
    }

    /// Attention of a prompt in one pass, for heads of 64 or 128 elements.
    pub fn attn_flash_prefill(
        &mut self,
        q: Buf,
        kv_k: Buf,
        kv_v: Buf,
        out: Buf,
        positions: Buf,
        nkv: usize,
        nkt: usize,
        nt: usize,
        nh: usize,
        nk: usize,
        hd: usize,
        scale_bits: u32,
    )
        requires
            old(self).wf(),
            old(self).scratch.next < usize::MAX,
            nkt * 512 <= u64::MAX,
            nt + 7 <= usize::MAX,
        ensures
            ({
                let need = pad_bytes(nkt as int, old(self).config.kv_half) as u64;
                let room = with_pad(old(self).scratch, need);
                final(self).encodes_growing(
                    old(self),
                    "attn_flash_blk",
                    room.0,
                    room.1 + block_attn_commands(
                        room.0.pad.buf,
                        q,
                        kv_k,
                        kv_v,
                        out,
                        positions,
                        nkv,
                        nkt,
                        nt,
                        nh,
                        nk,
                        hd,
                        scale_bits,
                        old(self).config.kv_half,
                    ),
                )
            }),
    {
        self.trace_op("attn_flash_blk");
        let slot: Slot = self.scratch.pad;
        let need: u64 = (2 * 64 * nkt as u64) * (if self.config.kv_half {
            2
        } else {
            4
        });
        let ghost start = self.commands@;
        let grown_slot: Slot = self.grow(slot, need);
        self.scratch.pad = grown_slot;
        let part: usize = grown_slot.buf;
        let half: bool = self.config.kv_half;
        if nkv % 64 != 0 {
            self.pad_pass(part, kv_k, kv_v, nkv, nkt, half);
        }
        self.block_pass(part, q, kv_k, kv_v, out, positions, nkv, nt, nh, nk, hd, scale_bits, half);
        assert(self.commands@ =~= start + (with_pad(old(self).scratch, need).1 + block_attn_commands(
            part,
            q,
            kv_k,
            kv_v,
            out,
            positions,
            nkv,
            nkt,
            nt,
            nh,
            nk,
            hd,
            scale_bits,
            old(self).config.kv_half,
        )));
    }

    fn weight_or_output(w: Option<Buf>, y: Buf) -> (r: Buf)
        ensures
            r == weight_or(w, y),
    {
        match w {
            Some(b) => b,
            None => y,
        }
    }

    fn as_flag(b: bool) -> (r: i32)
        ensures
            r == flag(b),
    {
        if b {
            1
        } else {
            0
        }
    }
}

/// The weight, or the output where there is none.
pub open spec fn weight_or(w: Option<Buf>, y: Buf) -> Buf {
    match w {
        Some(b) => b,
        None => y,
    }
}

/// A switch as a kernel parameter.
pub open spec fn flag(b: bool) -> i32 {
    if b {
        1
    } else {
        0
    }
}

/// The commands that decode the rows `ids` of an embedding table.
pub open spec fn embed_commands(
    w: Buf,
    w_off: u64,
    ids: Buf,
    dst: Buf,
    ne: usize,
    nt: usize,
    ttype: TensorType,
) -> Seq<Command> {
    seq![
        Command::Pipeline(Kernel::GetRows(quant_of(ttype))),
        Command::Buffer { index: 0, buf: w, offset: w_off },
        Command::Buffer { index: 1, buf: ids, offset: 0 },
        Command::Buffer { index: 2, buf: dst, offset: 0 },
        Command::Param { index: 3, value: ne as i32 },
        Command::Param { index: 4, value: nt as i32 },
        Command::Dispatch {
            groups: (ceil_div(nt * embed_units(ttype, ne as int), 256) as u64, 1, 1),
            threads: (256, 1, 1),
        },
        Command::Barrier,
    ]
}

/// The commands that copy the rows `ids` of `x`.
pub open spec fn get_rows_commands(
    x: Buf,
    ids: Buf,
    out: Buf,
    ne: usize,
    nt: usize,
) -> Seq<Command> {
    seq![
        Command::Pipeline(Kernel::GetRowsF32),
        Command::Buffer { index: 0, buf: x, offset: 0 },
        Command::Buffer { index: 1, buf: ids, offset: 0 },
        Command::Buffer { index: 2, buf: out, offset: 0 },
        Command::Param { index: 3, value: ne as i32 },
        Command::Dispatch { groups: (nt as u64, ne as u64, 1), threads: (1, 1, 1) },
        Command::Barrier,
    ]
}

/// The commands of a norm, a row to 32 threads.
pub open spec fn rms_norm_commands(
    x: Buf,
    w: Option<Buf>,
    w_off: u64,
    y: Buf,
    d: usize,
    n: usize,
    eps_bits: u32,
    off: u64,
) -> Seq<Command> {
    seq![
        Command::Pipeline(Kernel::RmsNorm),
        Command::Buffer { index: 0, buf: x, offset: off },
        Command::Buffer { index: 1, buf: weight_or(w, y), offset: w_off },
        Command::Buffer { index: 2, buf: y, offset: 0 },
        Command::Param { index: 3, value: d as i32 },
        Command::Param { index: 4, value: eps_bits as i32 },
        Command::Dispatch { groups: (n as u64, 1, 1), threads: (32, 1, 1) },
        Command::Barrier,
    ]
}

/// The commands of a norm, a row to 256 threads.
pub open spec fn rms_norm_256_commands(
    x: Buf,
    w: Option<Buf>,
    w_off: u64,
    y: Buf,
    d: usize,
    n: usize,
    eps_bits: u32,
    off: u64,
) -> Seq<Command> {
    seq![
        Command::Pipeline(Kernel::RmsNorm256),
        Command::Buffer { index: 0, buf: x, offset: off },
        Command::Buffer { index: 1, buf: weight_or(w, y), offset: w_off },
        Command::Buffer { index: 2, buf: y, offset: 0 },
        Command::Param { index: 3, value: d as i32 },
        Command::Param { index: 4, value: eps_bits as i32 },
        Command::Shared { index: 0, bytes: 128 },
        Command::Dispatch { groups: (n as u64, 1, 1), threads: (32, 8, 1) },
        Command::Barrier,
    ]
}

/// The commands of an element-wise sum.
pub open spec fn add_commands(
    x: Buf,
    y: Buf,
    z: Buf,
    n: usize,
    x_off: u64,
    y_off: u64,
    z_off: u64,
) -> Seq<Command> {
    seq![
        Command::Pipeline(Kernel::Add),
        Command::Buffer { index: 0, buf: x, offset: x_off },
        Command::Buffer { index: 1, buf: y, offset: y_off },
        Command::Buffer { index: 2, buf: z, offset: z_off },
        Command::Param { index: 3, value: n as i32 },
        Command::Dispatch {
            groups: (ceil_div(ceil_div(n as int, 4), 256) as u64, 1, 1),
            threads: (256, 1, 1),
        },
        Command::Barrier,
    ]
}

/// The commands that add a bias to rows.
pub open spec fn add_bias_commands(
    y: Buf,
    b: Buf,
    b_off: u64,
    d: usize,
    n: usize,
    off: usize,
) -> Seq<Command> {
    seq![
        Command::Pipeline(Kernel::AddBias),
        Command::Buffer { index: 0, buf: y, offset: (off * 4) as u64 },
        Command::Buffer { index: 1, buf: b, offset: b_off },
        Command::Param { index: 2, value: d as i32 },
        Command::Dispatch {
            groups: (n as u64, ceil_div(d as int, 4) as u64, 1),
            threads: (1, 64, 1),
        },
        Command::Barrier,
    ]
}

/// The commands of an element-wise product.
pub open spec fn mul_commands(
    x: Buf,
    y: Buf,
    z: Buf,
    n: usize,
) -> Seq<Command> {
    seq![
        Command::Pipeline(Kernel::Mul),
        Command::Buffer { index: 0, buf: x, offset: 0 },
        Command::Buffer { index: 1, buf: y, offset: 0 },
        Command::Buffer { index: 2, buf: z, offset: 0 },
        Command::Param { index: 3, value: n as i32 },
        Command::Dispatch { groups: (ceil_div(n as int, 256) as u64, 1, 1), threads: (256, 1, 1) },
        Command::Barrier,
    ]
}

/// The commands of the sigmoid-weighted identity.
pub open spec fn silu_commands(
    y: Buf,
    n: usize,
) -> Seq<Command> {
    seq![
        Command::Pipeline(Kernel::Silu),
        Command::Buffer { index: 0, buf: y, offset: 0 },
        Command::Param { index: 1, value: n as i32 },
        Command::Dispatch { groups: (ceil_div(n as int, 256) as u64, 1, 1), threads: (256, 1, 1) },
        Command::Barrier,
    ]
}

/// The commands of `silu(gate) * up`, where `up` starts at element `up_off`.
pub open spec fn swiglu_commands(
    gate: Buf,
    up: Buf,
    dst: Buf,
    n: usize,
    up_off: usize,
) -> Seq<Command> {
    seq![
        Command::Pipeline(Kernel::Swiglu),
        Command::Buffer { index: 0, buf: gate, offset: 0 },
        Command::Buffer { index: 1, buf: up, offset: (up_off * 4) as u64 },
        Command::Buffer { index: 2, buf: dst, offset: 0 },
        Command::Param { index: 3, value: n as i32 },
        Command::Dispatch {
            groups: (ceil_div(ceil_div(n as int, 4), 256) as u64, 1, 1),
            threads: (256, 1, 1),
        },
        Command::Barrier,
    ]
}

/// The commands of a rotation.
pub open spec fn rope_commands(
    x: Buf,
    n_head: usize,
    n_dims: usize,
    nt: usize,
    base_bits: u32,
    scale_bits: u32,
    positions: Buf,
    rope_style: i32,
    off: usize,
) -> Seq<Command> {
    seq![
        Command::Pipeline(Kernel::Rope),
        Command::Buffer { index: 0, buf: x, offset: (off * 4) as u64 },
        Command::Param { index: 1, value: n_head as i32 },
        Command::Param { index: 2, value: n_dims as i32 },
        Command::Param { index: 3, value: nt as i32 },
        Command::Param { index: 4, value: base_bits as i32 },
        Command::Param { index: 5, value: scale_bits as i32 },
        Command::Buffer { index: 6, buf: positions, offset: 0 },
        Command::Param { index: 7, value: rope_style },
        Command::Dispatch {
            groups: ((n_dims / 2) as u64, n_head as u64, nt as u64),
            threads: (1, 1, 1),
        },
        Command::Barrier,
    ]
}

/// The commands of an attention with one threadgroup per token and key/value head.
pub open spec fn gqa_attn_commands(
    q: Buf,
    q_off: u64,
    k: Buf,
    k_off: u64,
    v: Buf,
    v_off: u64,
    o: Buf,
    positions: Buf,
    nh: usize,
    nk: usize,
    hd: usize,
    scale_bits: u32,
    nt: usize,
    half: bool,
) -> Seq<Command> {
    seq![
        Command::Pipeline(Kernel::GqaAttn { half }),
        Command::Buffer { index: 0, buf: q, offset: q_off },
        Command::Buffer { index: 1, buf: k, offset: k_off },
        Command::Buffer { index: 2, buf: v, offset: v_off },
        Command::Buffer { index: 3, buf: o, offset: 0 },
        Command::Buffer { index: 4, buf: positions, offset: 0 },
        Command::Param { index: 5, value: nh as i32 },
        Command::Param { index: 6, value: nk as i32 },
        Command::Param { index: 7, value: hd as i32 },
        Command::Param { index: 8, value: scale_bits as i32 },
        Command::Param { index: 9, value: nt as i32 },
        Command::Shared { index: 0, bytes: (hd * 256) as u64 },
        Command::Dispatch { groups: (nt as u64, nk as u64, 1), threads: (32, (nh / nk) as u64, 1) },
        Command::Barrier,
    ]
}

/// The commands that scatter rows into the rows `positions`.
pub open spec fn store_kv_commands(
    src: Buf,
    dst: Buf,
    nkt: usize,
    nt: usize,
    positions: Buf,
    off: usize,
    half: bool,
) -> Seq<Command> {
    seq![
        Command::Pipeline(Kernel::StoreKv { half }),
        Command::Buffer { index: 0, buf: src, offset: (off * 4) as u64 },
        Command::Buffer { index: 1, buf: dst, offset: 0 },
        Command::Param { index: 2, value: nkt as i32 },
        Command::Param { index: 3, value: nt as i32 },
        Command::Buffer { index: 4, buf: positions, offset: 0 },
        Command::Dispatch { groups: (nt as u64, nkt as u64, 1), threads: (1, 1, 1) },
        Command::Barrier,
    ]
}

/// The commands of biases, rotation and store of one token.
pub open spec fn bias_rope_store_commands(
    bqkv: Buf,
    bias_q: Buf,
    bq_off: u64,
    bias_k: Buf,
    bk_off: u64,
    bias_v: Buf,
    bv_off: u64,
    kv_k: Buf,
    kv_v: Buf,
    nqt: usize,
    nkt: usize,
    hd: usize,
    base_bits: u32,
    scale_bits: u32,
    pos: i32,
    rope_style: i32,
    half: bool,
) -> Seq<Command> {
    seq![
        Command::Pipeline(Kernel::AttnBiasRopeStore),
        Command::Buffer { index: 0, buf: bqkv, offset: 0 },
        Command::Buffer { index: 1, buf: bias_q, offset: bq_off },
        Command::Buffer { index: 2, buf: bias_k, offset: bk_off },
        Command::Buffer { index: 3, buf: bias_v, offset: bv_off },
        Command::Buffer { index: 4, buf: kv_k, offset: 0 },
        Command::Buffer { index: 5, buf: kv_v, offset: 0 },
        Command::Param { index: 6, value: nqt as i32 },
        Command::Param { index: 7, value: nkt as i32 },
        Command::Param { index: 8, value: hd as i32 },
        Command::Param { index: 9, value: base_bits as i32 },
        Command::Param { index: 10, value: scale_bits as i32 },
        Command::Param { index: 11, value: pos },
        Command::Param { index: 12, value: rope_style },
        Command::Param { index: 13, value: flag(half) },
        Command::Dispatch {
            groups: (ceil_div((nqt / 2 + nkt / 2 + nkt) as int, 256) as u64, 1, 1),
            threads: (256, 1, 1),
        },
        Command::Barrier,
    ]
}

/// Combines the partial results in `part`.
pub open spec fn combine_commands(
    part: Buf,
    o: Buf,
    nh: usize,
    hd: usize,
    nt: usize,
    n_chunks: usize,
) -> Seq<Command> {
    seq![
        Command::Pipeline(Kernel::GqaAttnCombine),
        Command::Buffer { index: 0, buf: part, offset: 0 },
        Command::Buffer { index: 1, buf: o, offset: 0 },
        Command::Param { index: 2, value: nh as i32 },
        Command::Param { index: 3, value: hd as i32 },
        Command::Param { index: 4, value: nt as i32 },
        Command::Param { index: 5, value: n_chunks as i32 },
        Command::Dispatch { groups: (nt as u64, nh as u64, 1), threads: (32, 1, 1) },
        Command::Barrier,
    ]
}

/// Partial attention over each of `n_chunks` chunks of keys.
pub open spec fn chunk_commands(
    part: Buf,
    q: Buf,
    k: Buf,
    v: Buf,
    positions: Buf,
    nh: usize,
    nk: usize,
    hd: usize,
    scale_bits: u32,
    nt: usize,
    n_chunks: usize,
    half: bool,
) -> Seq<Command> {
    seq![
        Command::Pipeline(Kernel::GqaAttnPartial { half }),
        Command::Buffer { index: 0, buf: q, offset: 0 },
        Command::Buffer { index: 1, buf: k, offset: 0 },
        Command::Buffer { index: 2, buf: v, offset: 0 },
        Command::Buffer { index: 3, buf: part, offset: 0 },
        Command::Buffer { index: 4, buf: positions, offset: 0 },
        Command::Param { index: 5, value: nh as i32 },
        Command::Param { index: 6, value: nk as i32 },
        Command::Param { index: 7, value: hd as i32 },
        Command::Param { index: 8, value: scale_bits as i32 },
        Command::Param { index: 9, value: nt as i32 },
        Command::Param { index: 10, value: n_chunks as i32 },
        Command::Shared { index: 0, bytes: (hd * 256) as u64 },
        Command::Dispatch { groups: (nt as u64, nk as u64, n_chunks as u64), threads: (32, (nh / nk) as u64, 1) },
        Command::Barrier,
    ]
}

/// Partial attention by a kernel for heads of 64 or 128 elements.
pub open spec fn flash_commands(
    part: Buf,
    q: Buf,
    k: Buf,
    v: Buf,
    positions: Buf,
    nh: usize,
    nk: usize,
    hd: usize,
    scale_bits: u32,
    nt: usize,
    n_chunks: usize,
    half: bool,
) -> Seq<Command> {
    seq![
        Command::Pipeline(Kernel::FlashAttn { wide: hd == 128, half }),
        Command::Buffer { index: 0, buf: q, offset: 0 },
        Command::Buffer { index: 1, buf: k, offset: 0 },
        Command::Buffer { index: 2, buf: v, offset: 0 },
        Command::Buffer { index: 3, buf: part, offset: 0 },
        Command::Buffer { index: 4, buf: positions, offset: 0 },
        Command::Param { index: 5, value: nh as i32 },
        Command::Param { index: 6, value: nk as i32 },
        Command::Param { index: 7, value: hd as i32 },
        Command::Param { index: 8, value: scale_bits as i32 },
        Command::Param { index: 9, value: nt as i32 },
        Command::Param { index: 10, value: n_chunks as i32 },
        Command::Shared { index: 0, bytes: if hd == 128 { 1152 } else { 1024 } },
        Command::Dispatch { groups: (nt as u64, nh as u64, n_chunks as u64), threads: (32, 1, 1) },
        Command::Barrier,
    ]
}

/// Attention split over chunks of the keys.
pub open spec fn split_attn_commands(
    part: Buf,
    q: Buf,
    k: Buf,
    v: Buf,
    o: Buf,
    positions: Buf,
    nh: usize,
    nk: usize,
    hd: usize,
    scale_bits: u32,
    nt: usize,
    n_chunks: usize,
    half: bool,
) -> Seq<Command> {
    chunk_commands(part, q, k, v, positions, nh, nk, hd, scale_bits, nt, n_chunks, half)
        + combine_commands(part, o, nh, hd, nt, n_chunks)
}

/// Attention by the kernel for heads of 64 or 128 elements.
pub open spec fn flash_attn_commands(
    part: Buf,
    q: Buf,
    k: Buf,
    v: Buf,
    o: Buf,
    positions: Buf,
    nh: usize,
    nk: usize,
    hd: usize,
    scale_bits: u32,
    nt: usize,
    n_chunks: usize,
    half: bool,
) -> Seq<Command> {
    flash_commands(part, q, k, v, positions, nh, nk, hd, scale_bits, nt, n_chunks, half)
        + combine_commands(part, o, nh, hd, nt, n_chunks)
}

/// Scores of every query against every key, into `part`.
pub open spec fn scores_commands(
    part: Buf,
    q: Buf,
    kv_k: Buf,
    nkv: usize,
    nkt: usize,
    nt: usize,
    nh: usize,
    hd: usize,
    gqa: usize,
    scale_bits: u32,
) -> Seq<Command> {
    seq![
        Command::Pipeline(Kernel::AttnScores),
        Command::Buffer { index: 0, buf: q, offset: 0 },
        Command::Buffer { index: 1, buf: kv_k, offset: 0 },
        Command::Buffer { index: 2, buf: part, offset: 0 },
        Command::Param { index: 3, value: nh as i32 },
        Command::Param { index: 4, value: hd as i32 },
        Command::Param { index: 5, value: nkv as i32 },
        Command::Param { index: 6, value: nt as i32 },
        Command::Param { index: 7, value: gqa as i32 },
        Command::Param { index: 8, value: nkt as i32 },
        Command::Param { index: 9, value: scale_bits as i32 },
        Command::Dispatch { groups: ((nt * nh) as u64, 1, 1), threads: (256, 1, 1) },
        Command::Barrier,
    ]
}

/// The softmax of the scores in `part`, masked by position.
pub open spec fn softmax_commands(
    part: Buf,
    positions: Buf,
    nkv: usize,
    nt: usize,
    nh: usize,
) -> Seq<Command> {
    seq![
        Command::Pipeline(Kernel::SoftmaxAttn),
        Command::Buffer { index: 0, buf: part, offset: 0 },
        Command::Buffer { index: 1, buf: positions, offset: 0 },
        Command::Param { index: 2, value: nkv as i32 },
        Command::Param { index: 3, value: nt as i32 },
        Command::Param { index: 4, value: nh as i32 },
        Command::Shared { index: 0, bytes: 128 },
        Command::Dispatch { groups: ((nt * nh) as u64, 1, 1), threads: (32, 8, 1) },
        Command::Barrier,
    ]
}

/// The values, weighted by the scores in `part`.
pub open spec fn values_commands(
    part: Buf,
    kv_v: Buf,
    out: Buf,
    nkv: usize,
    nkt: usize,
    nt: usize,
    nh: usize,
    hd: usize,
    gqa: usize,
) -> Seq<Command> {
    seq![
        Command::Pipeline(Kernel::AttnOutput),
        Command::Buffer { index: 0, buf: part, offset: 0 },
        Command::Buffer { index: 1, buf: kv_v, offset: 0 },
        Command::Buffer { index: 2, buf: out, offset: 0 },
        Command::Param { index: 3, value: nh as i32 },
        Command::Param { index: 4, value: hd as i32 },
        Command::Param { index: 5, value: nkv as i32 },
        Command::Param { index: 6, value: nt as i32 },
        Command::Param { index: 7, value: gqa as i32 },
        Command::Param { index: 8, value: nkt as i32 },
        Command::Dispatch { groups: ((nt * nh) as u64, 1, 1), threads: (256, 1, 1) },
        Command::Barrier,
    ]
}

/// Attention of a prompt in three passes.
pub open spec fn parallel_attn_commands(
    part: Buf,
    q: Buf,
    kv_k: Buf,
    kv_v: Buf,
    out: Buf,
    positions: Buf,
    nkv: usize,
    nkt: usize,
    nt: usize,
    nh: usize,
    hd: usize,
    gqa: usize,
    scale_bits: u32,
) -> Seq<Command> {
    scores_commands(part, q, kv_k, nkv, nkt, nt, nh, hd, gqa, scale_bits) + softmax_commands(
        part,
        positions,
        nkv,
        nt,
        nh,
    ) + values_commands(part, kv_v, out, nkv, nkt, nt, nh, hd, gqa)
}

/// Copies the last, unfinished block of keys and values into `part`.
pub open spec fn pad_commands(
    part: Buf,
    kv_k: Buf,
    kv_v: Buf,
    nkv: usize,
    nkt: usize,
    half: bool,
) -> Seq<Command> {
    seq![
        Command::Pipeline(Kernel::KvTailPad),
        Command::Buffer { index: 0, buf: kv_k, offset: 0 },
        Command::Buffer { index: 1, buf: kv_v, offset: 0 },
        Command::Buffer { index: 2, buf: part, offset: 0 },
        Command::Param { index: 3, value: nkv as i32 },
        Command::Param { index: 4, value: nkt as i32 },
        Command::Param { index: 5, value: flag(half) },
        Command::Dispatch { groups: (nkt as u64, 64, 1), threads: (1, 1, 1) },
        Command::Barrier,
    ]
}

/// Attention over blocks of 64 keys for eight queries at a time.
pub open spec fn block_commands(
    part: Buf,
    q: Buf,
    kv_k: Buf,
    kv_v: Buf,
    out: Buf,
    positions: Buf,
    nkv: usize,
    nt: usize,
    nh: usize,
    nk: usize,
    hd: usize,
    scale_bits: u32,
    half: bool,
) -> Seq<Command> {
    seq![
        Command::Pipeline(Kernel::FlashAttnBlk { wide: hd == 128, half }),
        Command::Buffer { index: 0, buf: q, offset: 0 },
        Command::Buffer { index: 1, buf: kv_k, offset: 0 },
        Command::Buffer { index: 2, buf: kv_v, offset: 0 },
        Command::Buffer { index: 3, buf: part, offset: 0 },
        Command::Buffer { index: 4, buf: out, offset: 0 },
        Command::Buffer { index: 5, buf: positions, offset: 0 },
        Command::Param { index: 6, value: nh as i32 },
        Command::Param { index: 7, value: nk as i32 },
        Command::Param { index: 8, value: hd as i32 },
        Command::Param { index: 9, value: scale_bits as i32 },
        Command::Param { index: 10, value: nt as i32 },
        Command::Param { index: 11, value: nkv as i32 },
        Command::Shared { index: 0, bytes: if hd == 128 { 10240 } else { 7168 } },
        Command::Dispatch { groups: (ceil_div(nt as int, 8) as u64, nh as u64, 1), threads: (32, 4, 1) },
        Command::Barrier,
    ]
}

/// Attention of a prompt in one pass over blocks of 64 keys; a block that is not
/// full is copied into `part` first.
pub open spec fn block_attn_commands(
    part: Buf,
    q: Buf,
    kv_k: Buf,
    kv_v: Buf,
    out: Buf,
    positions: Buf,
    nkv: usize,
    nkt: usize,
    nt: usize,
    nh: usize,
    nk: usize,
    hd: usize,
    scale_bits: u32,
    half: bool,
) -> Seq<Command> {
    (if nkv % 64 != 0 {
        pad_commands(part, kv_k, kv_v, nkv, nkt, half)
    } else {
        Seq::empty()
    }) + block_commands(part, q, kv_k, kv_v, out, positions, nkv, nt, nh, nk, hd, scale_bits, half)
}

/// Bytes of the partial results of a split attention.
pub open spec fn partial_bytes(nt: int, nh: int, n_chunks: int, hd: int) -> int {
    nt * nh * n_chunks * (2 + hd) * 4
}

/// Whether machine words hold that number.
pub open spec fn partial_fits(nt: int, nh: int, n_chunks: int, hd: int) -> bool {
    partial_bytes(nt, nh, n_chunks, hd) <= usize::MAX && nt * nh <= usize::MAX && nt * nh * n_chunks
        <= usize::MAX && 2 + hd <= usize::MAX && nt * nh * n_chunks * (2 + hd) <= usize::MAX
}

proof fn lemma_partial(nt: int, nh: int, n_chunks: int, hd: int)
    requires
        nt >= 0,
        nh >= 0,
        n_chunks >= 0,
        hd >= 0,
    ensures
        nt * nh >= 0,
        nt * nh * n_chunks >= 0,
        nt * nh * n_chunks * (2 + hd) >= 0,
{
    let a = nt * nh;
    assert(a >= 0) by (nonlinear_arith)
        requires
            nt >= 0,
            nh >= 0,
            a == nt * nh,
    ;
    let b = a * n_chunks;
    assert(b >= 0) by (nonlinear_arith)
        requires
            a >= 0,
            n_chunks >= 0,
            b == a * n_chunks,
    ;
    assert(b * (2 + hd) >= 0) by (nonlinear_arith)
        requires
            b >= 0,
            hd >= 0,
    ;
}

/// Bytes of the scores of a prompt.
pub open spec fn scores_bytes(nt: int, nh: int, nkv: int) -> int {
    nt * nh * nkv * 4
}

/// Whether machine words hold that number.
pub open spec fn scores_fit(nt: int, nh: int, nkv: int) -> bool {
    scores_bytes(nt, nh, nkv) <= usize::MAX && nt * nh <= usize::MAX && nt * nh * nkv <= usize::MAX
}

proof fn lemma_scores(nt: int, nh: int, nkv: int)
    requires
        nt >= 0,
        nh >= 0,
        nkv >= 0,
    ensures
        nt * nh >= 0,
        nt * nh * nkv >= 0,
{
    let a = nt * nh;
    assert(a >= 0) by (nonlinear_arith)
        requires
            nt >= 0,
            nh >= 0,
            a == nt * nh,
    ;
    assert(a * nkv >= 0) by (nonlinear_arith)
        requires
            a >= 0,
            nkv >= 0,
    ;
}

/// Bytes of the copy of an unfinished block of 64 keys and values.
pub open spec fn pad_bytes(nkt: int, half: bool) -> int {
    2 * 64 * nkt * (if half {
        2int
    } else {
        4int
    })
}

/// The next free buffer number after making room.
pub open spec fn next_after(slot: Slot, need: u64, next: Buf) -> Buf {
    if slot.bytes >= need {
        next
    } else {
        (next + 1) as usize
    }
}

/// Threads that decode one row of an embedding.
pub open spec fn embed_units(t: TensorType, ne: int) -> int {
    if super_block(t) {
        ne / 256 * 16
    } else {
        ne / 32
    }
}

/// The grid of a multiplication reaches every output: threadgroups times rows
/// cover all rows, and tiles cover all rows and all tokens.
pub proof fn law_matmul_grid_covers_the_output(t: TensorType, od: int, nt: int)
    requires
        od >= 0,
        nt >= 0,
    ensures
        ceil_div(od, group_rows(t)) * group_rows(t) >= od,
        ceil_div(od, 64) * 64 >= od,
        ceil_div(nt, 32) * 32 >= nt,
{
    assert(ceil_div(od, 2) * 2 >= od);
    assert(ceil_div(od, 4) * 4 >= od);
    assert(ceil_div(od, 8) * 8 >= od);
}

} // verus!
