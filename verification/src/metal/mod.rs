//! Work for a Metal device: its weights, its scratch memory, its settings.
pub mod concat;
pub mod dispatches;
pub mod encode;
pub mod kernel;
pub mod library;

pub use crate::metal::concat::concat_rows;
pub use crate::metal::encode::MpsCommandBuffer;

use crate::metal::encode::{
    remembered, warmup_commands, Buf, Command, EncoderConfig, Scratch, Slot,
};
use crate::metal::kernel::{kernel_table, kernels, Kernel};
use crate::metal::library::{choose_library, library_spec, LibraryTrials};
use crate::text::same;
use vstd::prelude::*;

verus! {

/// The precision of stored keys and values: undecided, then decided once.
pub struct KvCacheType {
    pub half: Option<bool>,
}

/// Whether keys and values are stored in half precision. Asking settles the
/// question: undecided means full precision.
pub fn kv_cache_is_f16(t: &mut KvCacheType) -> (r: bool)
    ensures
        r == (old(t).half == Some(true)),
        final(t).half == Some(r),
{
    let r: bool = match t.half {
        Some(h) => h,
        None => false,
    };
    t.half = Some(r);
    r
}

/// Decides the precision for a model, unless it is decided: as the setting says,
/// else half precision for models whose rows amount to at least 8192 elements
/// per position.
pub fn set_kv_cache_type(
    t: &mut KvCacheType,
    n_layers: usize,
    n_kv_embd: usize,
    setting: Option<&str>,
)
    requires
        n_layers * n_kv_embd <= usize::MAX,
    ensures
        final(t).half == match old(t).half {
            Some(h) => Some(h),
            None => Some(
                match setting {
                    Some(v) => v@ == "f16"@,
                    None => n_layers * n_kv_embd >= 8192,
                },
            ),
        },
{
    let half: bool = match setting {
        Some(v) => same(v, "f16"),
        None => n_layers * n_kv_embd >= 8192,
    };
    if t.half.is_none() {
        t.half = Some(half);
    }
}

/// A kernel that is on unless its switch is `1`.
pub fn on_unless_one(switch: Option<&str>) -> (r: bool)
    ensures
        r == !(switch matches Some(v) && v@ == "1"@),
{
    match switch {
        Some(v) => !same(v, "1"),
        None => true,
    }
}

/// Whether the norm with more threads per row is used.
pub fn rms_norm_256_enabled(no_rms_256: Option<&str>) -> (r: bool)
    ensures
        r == !(no_rms_256 matches Some(v) && v@ == "1"@),
{
    on_unless_one(no_rms_256)
}

/// Whether the attention of a prompt is a multiplication.
pub fn matmul_attn_enabled(no_matmul_attn: Option<&str>) -> (r: bool)
    ensures
        r == !(no_matmul_attn matches Some(v) && v@ == "1"@),
{
    on_unless_one(no_matmul_attn)
}

/// Whether single tokens use the flash kernel: for heads of 64 or 128 elements,
/// unless it is switched off.
pub fn flash_attn_enabled(no_flash: Option<&str>, hd: usize) -> (r: bool)
    ensures
        r == (!(no_flash matches Some(v) && v@ == "1"@) && (hd == 64 || hd == 128)),
{
    on_unless_one(no_flash) && (hd == 64 || hd == 128)
}

/// Whether a prompt uses the flash kernel: for heads of 64 or 128 elements,
/// unless it is switched off.
pub fn prefill_flash_enabled(no_prefill_flash: Option<&str>, hd: usize) -> (r: bool)
    ensures
        r == (!(no_prefill_flash matches Some(v) && v@ == "1"@) && (hd == 64 || hd == 128)),
{
    on_unless_one(no_prefill_flash) && (hd == 64 || hd == 128)
}

/// Whether tiled multiplications are allowed: unless the switch is `0`.
pub fn gemm_enabled(gemm: Option<&str>) -> (r: bool)
    ensures
        r == !(gemm matches Some(v) && v@ == "0"@),
{
    match gemm {
        Some(v) => !same(v, "0"),
        None => true,
    }
}

/// A registered weight: a buffer and where in it the weight starts.
pub struct WeightEntry {
    pub name: String,
    pub buf: Buf,
    pub offset: u64,
}

/// A mapped file that a buffer covers: `len` bytes from address `base` on.
#[derive(Debug, Clone, Copy, PartialEq, Eq, Structural)]
pub struct MappedPart {
    pub base: usize,
    pub len: usize,
    pub buf: Buf,
}

/// What is known of the device.
pub struct MpsState {
    /// Shared memory that a threadgroup may use.
    pub max_shared: u64,
    pub weights: Vec<WeightEntry>,
    pub parts: Vec<MappedPart>,
    pub scratch: Scratch,
    /// The last operators, at most 16.
    pub trace: Vec<&'static str>,
}

/// The one device state of a process, once it was looked for.
pub struct MpsSlot {
    pub state: Option<Option<MpsState>>,
}

/// Why there is no device state.
#[derive(Debug, Clone, Copy, PartialEq, Eq, Structural)]
pub enum InitError {
    /// It is switched off.
    Disabled,
    /// There is no device.
    NoDevice,
    /// No kernel library loads.
    NoLibrary,
    /// A kernel has no pipeline.
    NoPipeline(Kernel),
}

/// What the machine offers.
#[derive(Debug, Clone, Copy, PartialEq, Eq, Structural)]
pub struct DeviceInfo {
    pub max_shared: u64,
    /// What the kernels can be loaded from.
    pub library: LibraryTrials,
}

/// The entry of a weight: the last one of that name.
pub open spec fn weight_at(ws: Seq<WeightEntry>, name: Seq<char>) -> Option<int>
    decreases ws.len(),
{
    if ws.len() == 0 {
        None
    } else if ws.last().name@ == name {
        Some(ws.len() - 1)
    } else {
        weight_at(ws.drop_last(), name)
    }
}

/// Whether a mapped file covers `len` bytes from `ptr` on.
pub open spec fn covers(p: MappedPart, ptr: usize, len: usize) -> bool {
    p.base <= ptr && ptr + len <= p.base + p.len
}

/// The first mapped file that covers `len` bytes from `ptr` on.
pub open spec fn covering(parts: Seq<MappedPart>, ptr: usize, len: usize) -> Option<int>
    decreases parts.len(),
{
    if parts.len() == 0 {
        None
    } else {
        match covering(parts.drop_last(), ptr, len) {
            Some(i) => Some(i),
            None => if covers(parts.last(), ptr, len) {
                Some(parts.len() - 1)
            } else {
                None
            },
        }
    }
}

/// The first kernel without a pipeline among the first `k`.
pub open spec fn missing_pipeline(built: Seq<bool>, k: int) -> Option<Kernel>
    decreases k,
{
    if k <= 0 {
        None
    } else {
        match missing_pipeline(built, k - 1) {
            Some(m) => Some(m),
            None => if built[k - 1] {
                None
            } else {
                Some(kernel_table()[k - 1])
            },
        }
    }
}

/// What comes of a start.
pub open spec fn init_error(
    disabled: bool,
    device: Option<DeviceInfo>,
    built: Seq<bool>,
) -> Option<InitError> {
    if disabled {
        Some(InitError::Disabled)
    } else {
        match device {
            None => Some(InitError::NoDevice),
            Some(d) => if library_spec(d.library) is None {
                Some(InitError::NoLibrary)
            } else {
                match missing_pipeline(built, built.len() as int) {
                    Some(k) => Some(InitError::NoPipeline(k)),
                    None => None,
                }
            },
        }
    }
}

/// How a weight reaches the device.
#[derive(Debug, Clone, Copy, PartialEq, Eq, Structural)]
pub enum WeightPlacement {
    /// It has no bytes and is not registered.
    Empty,
    /// It lies in a buffer over a mapped file.
    Mapped { buf: Buf, offset: u64 },
    /// It is copied into a buffer of its own.
    Copied { buf: Buf },
}

impl MpsState {
    /// Starts the device: `built[i]` says whether the pipeline of the `i`-th
    /// kernel of the table was made. One kernel without a pipeline is enough to
    /// do without the device.
    pub fn try_new(disabled: bool, device: Option<DeviceInfo>, built: &Vec<bool>) -> (r: Result<
        MpsState,
        InitError,
    >)
        requires
            built@.len() == kernel_table().len(),
        ensures
            match init_error(disabled, device, built@) {
                Some(e) => r is Err && r->Err_0 == e,
                None => {
                    &&& r is Ok
                    &&& r->Ok_0.max_shared == device->0.max_shared
                    &&& r->Ok_0.weights@.len() == 0
                    &&& r->Ok_0.parts@.len() == 0
                    &&& r->Ok_0.trace@.len() == 0
                    &&& r->Ok_0.scratch == (Scratch {
                        partial: Slot { buf: 0, bytes: 1 },
                        scores: Slot { buf: 0, bytes: 1 },
                        pad: Slot { buf: 0, bytes: 1 },
                        next: 1,
                    })
                },
            },
    {
        if disabled {
            return Err(InitError::Disabled);
        }
        let info: DeviceInfo = match device {
            None => {
                return Err(InitError::NoDevice);
            },
            Some(d) => d,
        };
        if choose_library(info.library).is_none() {
            return Err(InitError::NoLibrary);
        }
        let table: Vec<Kernel> = kernels();
        let mut i: usize = 0;
        while i < table.len()
            invariant
                i <= table@.len(),
                table@ == kernel_table(),
                built@.len() == table@.len(),
                missing_pipeline(built@, i as int) is None,
                !disabled,
                device == Some(info),
                library_spec(info.library) is Some,
            decreases table@.len() - i,
        {
            if !built[i] {
                proof {
                    lemma_missing(built@, i as int, built@.len() as int);
                }
                return Err(InitError::NoPipeline(table[i]));
            }
            i = i + 1;
        }
        let dummy: Slot = Slot { buf: 0, bytes: 1 };
        Ok(
            MpsState {
                max_shared: info.max_shared,
                weights: Vec::new(),
                parts: Vec::new(),
                scratch: Scratch { partial: dummy, scores: dummy, pad: dummy, next: 1 },
                trace: Vec::new(),
            },
        )
    }

    /// The state of the process, if it was looked for and found.
    pub fn get(slot: &MpsSlot) -> (r: Option<&MpsState>)
        ensures
            match slot.state {
                Some(Some(s)) => r == Some(&s),
                _ => r is None,
            },
    {
        match &slot.state {
            Some(Some(s)) => Some(s),
            _ => None,
        }
    }

    /// Keeps the outcome of the first start.
    pub fn init(slot: &mut MpsSlot, found: Option<MpsState>)
        ensures
            final(slot).state == match old(slot).state {
                Some(s) => Some(s),
                None => Some(found),
            },
    {
        if slot.state.is_none() {
            slot.state = Some(found);
        }
    }

    fn find_weight(&self, name: &str) -> (r: Option<usize>)
        ensures
            match r {
                Some(i) => i < self.weights@.len() && weight_at(self.weights@, name@) == Some(
                    i as int,
                ),
                None => weight_at(self.weights@, name@) is None,
            },
    {
        let mut i: usize = self.weights.len();
        assert(self.weights@.take(i as int) =~= self.weights@);
        while i > 0
            invariant
                i <= self.weights@.len(),
                weight_at(self.weights@, name@) == weight_at(self.weights@.take(i as int), name@),
            decreases i,
        {
            i = i - 1;
            assert(self.weights@.take(i + 1).drop_last() =~= self.weights@.take(i as int));
            assert(self.weights@.take(i + 1).last() == self.weights@[i as int]);
            if same(self.weights[i].name.as_str(), name) {
                return Some(i);
            }
        }
        None
    }

    /// Whether a weight is registered.
    pub fn has_weight(&self, name: &str) -> (r: bool)
        ensures
            r == (weight_at(self.weights@, name@) is Some),
    {
        self.find_weight(name).is_some()
    }

    /// The buffer of a weight and where in it the weight starts.
    pub fn weight_buf(&self, name: &str) -> (r: Option<(Buf, u64)>)
        ensures
            r == match weight_at(self.weights@, name@) {
                Some(i) => Some((self.weights@[i].buf, self.weights@[i].offset)),
                None => None,
            },
    {
        match self.find_weight(name) {
            Some(i) => Some((self.weights[i].buf, self.weights[i].offset)),
            None => None,
        }
    }

    /// Makes a buffer of `n_elements` single-precision numbers.
    pub fn new_f32_buffer(&mut self, n_elements: usize) -> (c: Command)
        requires
            n_elements * 4 <= usize::MAX,
            n_elements * 4 <= u64::MAX,
            old(self).scratch.next < usize::MAX,
        ensures
            c == (Command::Allocate {
                buf: old(self).scratch.next,
                bytes: (n_elements * 4) as u64,
            }),
            *final(self) == (MpsState {
                scratch: Scratch {
                    next: (old(self).scratch.next + 1) as usize,
                    ..old(self).scratch
                },
                ..*old(self)
            }),
    {
        let buf: usize = self.scratch.next;
        self.scratch.next = buf + 1;
        Command::Allocate { buf, bytes: (n_elements * 4) as u64 }
    }

    /// Registers a mapped file that `buf` covers, and gives the commands that read
    /// it once; an empty file is ignored.
    pub fn register_part(&mut self, base: usize, len: usize, buf: Buf, trace: bool) -> (commands:
        Vec<Command>)
        requires
            old(self).trace@.len() <= 16,
        ensures
            final(self).weights == old(self).weights,
            final(self).scratch == old(self).scratch,
            final(self).max_shared == old(self).max_shared,
            len == 0 ==> {
                &&& commands@ == Seq::<Command>::empty()
                &&& final(self).parts@ == old(self).parts@
                &&& final(self).trace@ == old(self).trace@
            },
            len != 0 ==> {
                &&& commands@ == warmup_commands(buf, 0, len)
                &&& final(self).parts@ == old(self).parts@.push(MappedPart { base, len, buf })
                &&& final(self).trace@ == remembered(old(self).trace@, trace, "part_warmup")
            },
    {
        if len == 0 {
            return Vec::new();
        }
        self.parts.push(MappedPart { base, len, buf });
        let mut b: MpsCommandBuffer = self.cmd_buffer(false, false, trace);
        b.part_warmup(buf, 0, len);
        let commands: Vec<Command> = self.finish(b);
        assert(commands@ =~= warmup_commands(buf, 0, len));
        commands
    }

    fn find_part(&self, ptr: usize, len: usize) -> (r: Option<usize>)
        requires
            ptr + len <= usize::MAX,
            forall|i: int| 0 <= i < self.parts@.len() ==> (#[trigger] self.parts@[i]).base
                + self.parts@[i].len <= usize::MAX,
        ensures
            match r {
                Some(i) => i < self.parts@.len() && covering(self.parts@, ptr, len) == Some(
                    i as int,
                ),
                None => covering(self.parts@, ptr, len) is None,
            },
    {
        let mut i: usize = 0;
        assert(self.parts@.take(0) =~= Seq::<MappedPart>::empty());
        while i < self.parts.len()
            invariant
                i <= self.parts@.len(),
                ptr + len <= usize::MAX,
                forall|k: int| 0 <= k < self.parts@.len() ==> (#[trigger] self.parts@[k]).base
                    + self.parts@[k].len <= usize::MAX,
                covering(self.parts@.take(i as int), ptr, len) is None,
            decreases self.parts@.len() - i,
        {
            let p: MappedPart = self.parts[i];
            assert(self.parts@.take(i + 1).drop_last() =~= self.parts@.take(i as int));
            assert(self.parts@.take(i + 1).last() == self.parts@[i as int]);
            if p.base <= ptr && ptr + len <= p.base + p.len {
                proof {
                    lemma_covering_prefix(self.parts@, ptr, len, i + 1);
                }
                return Some(i);
            }
            i = i + 1;
        }
        assert(self.parts@.take(i as int) =~= self.parts@);
        None
    }

    /// Registers a weight of `len` bytes at address `ptr`. If a mapped file
    /// covers it, the weight is a place in that file's buffer; otherwise, or if
    /// copies are forced, it gets a buffer of its own.
    pub fn register_weight(&mut self, name: &str, ptr: usize, len: usize, force_copy: bool) -> (r:
        WeightPlacement)
        requires
            ptr + len <= usize::MAX,
            forall|i: int| 0 <= i < old(self).parts@.len() ==> (#[trigger] old(self).parts@[i]).base
                + old(self).parts@[i].len <= usize::MAX,
            old(self).scratch.next < usize::MAX,
        ensures
            final(self).parts == old(self).parts,
            final(self).max_shared == old(self).max_shared,
            final(self).trace == old(self).trace,
            len == 0 ==> r == WeightPlacement::Empty && final(self).weights@ == old(self).weights@
                && final(self).scratch == old(self).scratch,
            len != 0 ==> match (if force_copy {
                None
            } else {
                covering(old(self).parts@, ptr, len)
            }) {
                Some(i) => {
                    let p = old(self).parts@[i];
                    &&& r == (WeightPlacement::Mapped {
                        buf: p.buf,
                        offset: (ptr - p.base) as u64,
                    })
                    &&& final(self).scratch == old(self).scratch
                    &&& final(self).weights@.len() == old(self).weights@.len() + 1
                    &&& final(self).weights@.drop_last() == old(self).weights@
                    &&& final(self).weights@.last().name@ == name@
                    &&& final(self).weights@.last().buf == p.buf
                    &&& final(self).weights@.last().offset == (ptr - p.base) as u64
                },
                None => {
                    &&& r == (WeightPlacement::Copied { buf: old(self).scratch.next })
                    &&& final(self).scratch == (Scratch {
                        next: (old(self).scratch.next + 1) as usize,
                        ..old(self).scratch
                    })
                    &&& final(self).weights@.len() == old(self).weights@.len() + 1
                    &&& final(self).weights@.drop_last() == old(self).weights@
                    &&& final(self).weights@.last().name@ == name@
                    &&& final(self).weights@.last().buf == old(self).scratch.next
                    &&& final(self).weights@.last().offset == 0
                },
            },
    {
        if len == 0 {
            return WeightPlacement::Empty;
        }
        let ghost before = self.weights@;
        let found: Option<usize> = if force_copy {
            None
        } else {
            self.find_part(ptr, len)
        };
        match found {
            Some(i) => {
                let p: MappedPart = self.parts[i];
                proof {
                    lemma_covering_covers(self.parts@, ptr, len);
                }
                let offset: u64 = (ptr - p.base) as u64;
                self.weights.push(WeightEntry { name: name.to_owned(), buf: p.buf, offset });
                assert(self.weights@.drop_last() =~= before);
                WeightPlacement::Mapped { buf: p.buf, offset }
            },
            None => {
                let buf: usize = self.scratch.next;
                self.scratch.next = buf + 1;
                self.weights.push(WeightEntry { name: name.to_owned(), buf, offset: 0 });
                assert(self.weights@.drop_last() =~= before);
                WeightPlacement::Copied { buf }
            },
        }
    }

    /// A command buffer for the device.
    pub fn cmd_buffer(&self, kv_half: bool, gemm: bool, trace: bool) -> (b: MpsCommandBuffer)
        requires
            self.trace@.len() <= 16,
        ensures
            b.wf(),
            b.config == (EncoderConfig { max_shared: self.max_shared, kv_half, gemm, trace }),
            b.scratch == self.scratch,
            b.commands@ == Seq::<Command>::empty(),
            b.trace@ == self.trace@,
    {
        MpsCommandBuffer::new(
            EncoderConfig { max_shared: self.max_shared, kv_half, gemm, trace },
            self.scratch,
            copy_labels(&self.trace),
        )
    }

    /// Takes over what a finished command buffer left: its scratch memory and the
    /// operators that it remembers.
    pub fn finish(&mut self, b: MpsCommandBuffer) -> (commands: Vec<Command>)
        ensures
            commands == b.commands,
            *final(self) == (MpsState { scratch: b.scratch, trace: b.trace, ..*old(self) }),
    {
        self.scratch = b.scratch;
        self.trace = b.trace;
        b.commands
    }
}

fn copy_labels(v: &Vec<&'static str>) -> (r: Vec<&'static str>)
    ensures
        r@ == v@,
{
    let mut r: Vec<&'static str> = Vec::new();
    let mut i: usize = 0;
    while i < v.len()
        invariant
            i <= v@.len(),
            r@ == v@.take(i as int),
        decreases v@.len() - i,
    {
        r.push(v[i]);
        assert(v@.take(i + 1) =~= v@.take(i as int).push(v@[i as int]));
        i = i + 1;
    }
    assert(v@.take(i as int) =~= v@);
    r
}

proof fn lemma_missing(built: Seq<bool>, i: int, n: int)
    requires
        0 <= i < n <= built.len(),
        missing_pipeline(built, i) is None,
        !built[i],
    ensures
        missing_pipeline(built, n) == Some(kernel_table()[i]),
    decreases n,
{
    if n > i + 1 {
        lemma_missing(built, i, n - 1);
    }
}

proof fn lemma_covering_prefix(parts: Seq<MappedPart>, ptr: usize, len: usize, k: int)
    requires
        0 <= k <= parts.len(),
        covering(parts.take(k), ptr, len) is Some,
    ensures
        covering(parts, ptr, len) == covering(parts.take(k), ptr, len),
    decreases parts.len() - k,
{
    if k < parts.len() {
        assert(parts.take(k + 1).drop_last() =~= parts.take(k));
        lemma_covering_prefix(parts, ptr, len, k + 1);
    } else {
        assert(parts.take(k) =~= parts);
    }
}

proof fn lemma_covering_covers(parts: Seq<MappedPart>, ptr: usize, len: usize)
    ensures
        covering(parts, ptr, len) matches Some(i) ==> 0 <= i < parts.len() && covers(
            parts[i],
            ptr,
            len,
        ),
    decreases parts.len(),
{
    if parts.len() > 0 {
        lemma_covering_covers(parts.drop_last(), ptr, len);
    }
}

/// A weight that a mapped file covers is read in place, and the place lies in
/// that file: from its offset on, the buffer holds the weight's bytes.
pub proof fn law_mapped_weight_lies_in_its_file(parts: Seq<MappedPart>, ptr: usize, len: usize)
    requires
        covering(parts, ptr, len) is Some,
    ensures
        ({
            let p = parts[covering(parts, ptr, len)->0];
            0 <= ptr - p.base && (ptr - p.base) + len <= p.len
        }),
{
    lemma_covering_covers(parts, ptr, len);
}

/// What a command buffer's completion means.
#[derive(Debug, Clone, Copy, PartialEq, Eq, Structural)]
pub enum Completion {
    /// The device finished without an error.
    Completed,
    /// The device finished with an error.
    Failed,
    /// The device did not finish in time.
    TimedOut,
}

/// The remembered operators, joined by arrows.
pub open spec fn joined(labels: Seq<&'static str>) -> Seq<char>
    decreases labels.len(),
{
    if labels.len() == 0 {
        Seq::empty()
    } else if labels.len() == 1 {
        labels[0]@
    } else {
        joined(labels.drop_last()) + " -> "@ + labels.last()@
    }
}

/// The remembered operators, joined by arrows.
pub fn recent_trace(labels: &Vec<&'static str>) -> (s: String)
    ensures
        s@ == joined(labels@),
{
    let mut s: String = String::new();
    let mut i: usize = 0;
    assert(labels@.take(0) =~= Seq::<&'static str>::empty());
    assert(s@ =~= joined(labels@.take(0)));
    while i < labels.len()
        invariant
            i <= labels@.len(),
            s@ == joined(labels@.take(i as int)),
        decreases labels@.len() - i,
    {
        let ghost before = s@;
        assert(labels@.take(i + 1).drop_last() =~= labels@.take(i as int));
        assert(labels@.take(i + 1).last() == labels@[i as int]);
        if i > 0 {
            s.append(" -> ");
        }
        s.append(labels[i]);
        assert(s@ =~= joined(labels@.take(i + 1)));
        i = i + 1;
    }
    assert(labels@.take(i as int) =~= labels@);
    s
}

/// The outcome of a submission: nothing if the device finished, else a message
/// with the operators that were encoded last. `status` is the device's own word
/// for a failure.
pub fn submit_result(c: Completion, status: &str, labels: &Vec<&'static str>) -> (r: Result<
    (),
    String,
>)
    ensures
        r is Ok <==> c is Completed,
        c is Failed ==> r is Err && r->Err_0@ == "Metal command buffer status="@ + status@
            + ". recent dispatches: "@ + joined(labels@),
        c is TimedOut ==> r is Err && r->Err_0@
            == "Metal command buffer timed out after 10s (GPU hang). recent dispatches: "@
            + joined(labels@),
{
    match c {
        Completion::Completed => Ok(()),
        Completion::Failed => {
            let mut s: String = "Metal command buffer status=".to_owned();
            s.append(status);
            s.append(". recent dispatches: ");
            let t: String = recent_trace(labels);
            s.append(t.as_str());
            Err(s)
        },
        Completion::TimedOut => {
            let mut s: String =
                "Metal command buffer timed out after 10s (GPU hang). recent dispatches: ".to_owned();
            let t: String = recent_trace(labels);
            s.append(t.as_str());
            Err(s)
        },
    }
}

/// A weight is what was registered last under its name.
pub proof fn law_last_registration_counts(ws: Seq<WeightEntry>, name: Seq<char>)
    ensures
        match weight_at(ws, name) {
            Some(i) => 0 <= i < ws.len() && ws[i].name@ == name && forall|k: int|
                i < k < ws.len() ==> (#[trigger] ws[k]).name@ != name,
            None => forall|k: int| 0 <= k < ws.len() ==> (#[trigger] ws[k]).name@ != name,
        },
    decreases ws.len(),
{
    if ws.len() > 0 && ws.last().name@ != name {
        law_last_registration_counts(ws.drop_last(), name);
        assert forall|k: int| 0 <= k < ws.len() - 1 implies ws[k] == ws.drop_last()[k] by {}
    }
}

/// A range of bytes is found in the first mapped file that holds all of it.
pub proof fn law_first_file_that_holds_a_range(parts: Seq<MappedPart>, ptr: usize, len: usize)
    ensures
        match covering(parts, ptr, len) {
            Some(i) => 0 <= i < parts.len() && parts[i].base <= ptr && ptr + len <= parts[i].base
                + parts[i].len && forall|k: int|
                0 <= k < i ==> !((#[trigger] parts[k]).base <= ptr && ptr + len <= parts[k].base
                    + parts[k].len),
            None => forall|k: int|
                0 <= k < parts.len() ==> !((#[trigger] parts[k]).base <= ptr && ptr + len
                    <= parts[k].base + parts[k].len),
        },
    decreases parts.len(),
{
    if parts.len() > 0 {
        law_first_file_that_holds_a_range(parts.drop_last(), ptr, len);
        assert forall|k: int| 0 <= k < parts.len() - 1 implies parts[k]
            == parts.drop_last()[k] by {}
    }
}

/// The first kernel of the table that was not built is the one that is missing.
pub proof fn law_first_missing_kernel(built: Seq<bool>, k: int, i: int)
    requires
        0 <= i <= k <= built.len(),
        forall|j: int| 0 <= j < i ==> #[trigger] built[j],
        i < k ==> !built[i],
    ensures
        i < k ==> missing_pipeline(built, k) == Some(kernel_table()[i]),
        i == k ==> missing_pipeline(built, k) is None,
    decreases k,
{
    if k > 0 {
        if i < k {
            if i < k - 1 {
                law_first_missing_kernel(built, k - 1, i);
            } else {
                law_first_missing_kernel(built, k - 1, k - 1);
            }
        } else {
            law_first_missing_kernel(built, k - 1, k - 1);
            assert(built[k - 1]);
        }
    }
}

/// Why Metal is not there, in this order: it is switched off, there is no device, there is
/// no library, a kernel is missing.
pub proof fn law_why_metal_is_not_there(
    disabled: bool,
    device: Option<DeviceInfo>,
    built: Seq<bool>,
)
    ensures
        disabled ==> init_error(disabled, device, built) == Some(InitError::Disabled),
        !disabled && device is None ==> init_error(disabled, device, built) == Some(
            InitError::NoDevice,
        ),
        !disabled && device is Some && library_spec(device->0.library) is None ==> init_error(
            disabled,
            device,
            built,
        ) == Some(InitError::NoLibrary),
        !disabled && device is Some && library_spec(device->0.library) is Some && (forall|j: int|
            0 <= j < built.len() ==> #[trigger] built[j]) ==> init_error(disabled, device, built)
            is None,
{
    if forall|j: int| 0 <= j < built.len() ==> #[trigger] built[j] {
        law_first_missing_kernel(built, built.len() as int, built.len() as int);
    }
}

} // verus!
