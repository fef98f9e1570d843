//! Optional timing of operators: per-operator totals, and the rule that decides
//! where an execution's times go.
//!
//! Reading the clock is left to the caller. A table is a destination of its own:
//! what one execution records into its private table no other execution can
//! move.
use crate::graph::ops::Op;
use vstd::prelude::*;

verus! {

/// Number of operators.
pub const OP_COUNT: usize = 23;

/// The operators' names, in table order.
pub const OP_NAMES: [&'static str; 23] = [
    "input",
    "add",
    "mul",
    "scale",
    "silu",
    "softmax",
    "rms_norm",
    "qk_norm",
    "matmul",
    "get_rows",
    "rope",
    "attn",
    "kvcache_store",
    "kvcache_load",
    "view",
    "reshape",
    "permute",
    "swiglu",
    "batch_matmul",
    "fused_qkv",
    "qkv_bias_rope_store",
    "fused_ffn",
    "fused_qkv_norm",
];

/// The operators' names, in table order.
pub open spec fn op_names() -> Seq<Seq<char>> {
    seq![
        "input"@,
        "add"@,
        "mul"@,
        "scale"@,
        "silu"@,
        "softmax"@,
        "rms_norm"@,
        "qk_norm"@,
        "matmul"@,
        "get_rows"@,
        "rope"@,
        "attn"@,
        "kvcache_store"@,
        "kvcache_load"@,
        "view"@,
        "reshape"@,
        "permute"@,
        "swiglu"@,
        "batch_matmul"@,
        "fused_qkv"@,
        "qkv_bias_rope_store"@,
        "fused_ffn"@,
        "fused_qkv_norm"@,
    ]
}

/// An operator's place in the table.
pub open spec fn index_spec(op: Op) -> usize {
    match op {
        Op::Input => 0,
        Op::Add => 1,
        Op::Mul => 2,
        Op::Scale(_) => 3,
        Op::Silu => 4,
        Op::Softmax { .. } => 5,
        Op::RmsNorm { .. } => 6,
        Op::QkNorm { .. } => 7,
        Op::MatMul { .. } => 8,
        Op::GetRows => 9,
        Op::RoPE { .. } => 10,
        Op::Attn { .. } => 11,
        Op::KvcacheStore { .. } => 12,
        Op::KvcacheLoad { .. } => 13,
        Op::View { .. } => 14,
        Op::Reshape { .. } => 15,
        Op::Permute { .. } => 16,
        Op::SwiGLU => 17,
        Op::BatchMatMul => 18,
        Op::FusedQKV { .. } => 19,
        Op::QkvBiasRopeStore { .. } => 20,
        Op::FusedFFN => 21,
        Op::FusedQkvNorm { .. } => 22,
    }
}

/// An operator's place in the table.
pub fn op_index(op: &Op) -> (i: usize)
    ensures
        i == index_spec(*op),
        i < OP_COUNT,
{
    match op {
        Op::Input => 0,
        Op::Add => 1,
        Op::Mul => 2,
        Op::Scale(_) => 3,
        Op::Silu => 4,
        Op::Softmax { .. } => 5,
        Op::RmsNorm { .. } => 6,
        Op::QkNorm { .. } => 7,
        Op::MatMul { .. } => 8,
        Op::GetRows => 9,
        Op::RoPE { .. } => 10,
        Op::Attn { .. } => 11,
        Op::KvcacheStore { .. } => 12,
        Op::KvcacheLoad { .. } => 13,
        Op::View { .. } => 14,
        Op::Reshape { .. } => 15,
        Op::Permute { .. } => 16,
        Op::SwiGLU => 17,
        Op::BatchMatMul => 18,
        Op::FusedQKV { .. } => 19,
        Op::QkvBiasRopeStore { .. } => 20,
        Op::FusedFFN => 21,
        Op::FusedQkvNorm { .. } => 22,
    }
}

/// The name at a place of the table.
pub fn op_name(i: usize) -> (name: &'static str)
    requires
        i < OP_COUNT,
    ensures
        name@ == op_names()[i as int],
{
    OP_NAMES[i]
}

/// An operator's totals.
#[derive(Debug, Clone, Copy, PartialEq, Eq)]
pub struct OpTimingEntry {
    pub name: &'static str,
    pub calls: u64,
    pub nanos: u64,
}

/// An operator's totals as a value.
#[verifier::ext_equal]
pub struct EntryView {
    pub name: Seq<char>,
    pub calls: u64,
    pub nanos: u64,
}

impl View for OpTimingEntry {
    type V = EntryView;

    open spec fn view(&self) -> EntryView {
        EntryView { name: self.name@, calls: self.calls, nanos: self.nanos }
    }
}

/// A sum that stops at the largest number.
pub open spec fn capped(n: int) -> u64 {
    if n > u64::MAX {
        u64::MAX
    } else {
        n as u64
    }
}

/// A number of nanoseconds, no larger than the table can hold.
pub fn nanos_of(elapsed: u128) -> (n: u64)
    ensures
        n == capped(elapsed as int),
{
    if elapsed > u64::MAX as u128 {
        u64::MAX
    } else {
        elapsed as u64
    }
}

/// The totals of all operators: one destination of times.
pub struct TimingSink {
    nanos: [u64; 23],
    calls: [u64; 23],
}

/// The totals of the operators that ran, among the first `n`.
pub open spec fn ran(calls: Seq<u64>, nanos: Seq<u64>, n: int) -> Seq<EntryView>
    decreases n,
{
    if n <= 0 {
        Seq::empty()
    } else if calls[n - 1] > 0 {
        ran(calls, nanos, n - 1).push(
            EntryView { name: op_names()[n - 1], calls: calls[n - 1], nanos: nanos[n - 1] },
        )
    } else {
        ran(calls, nanos, n - 1)
    }
}

impl TimingSink {
    /// The nanoseconds of each operator.
    pub closed spec fn all_nanos(&self) -> Seq<u64> {
        self.nanos@
    }

    /// The executions of each operator.
    pub closed spec fn all_calls(&self) -> Seq<u64> {
        self.calls@
    }

    /// A table has a row for every operator.
    pub proof fn lemma_rows(&self)
        ensures
            self.all_nanos().len() == OP_COUNT,
            self.all_calls().len() == OP_COUNT,
    {
    }

    /// An empty table.
    pub fn new() -> (r: TimingSink)
        ensures
            r.all_nanos() == Seq::new(23, |i: int| 0u64),
            r.all_calls() == Seq::new(23, |i: int| 0u64),
    {
        let r: TimingSink = TimingSink { nanos: [0u64; 23], calls: [0u64; 23] };
        assert(r.nanos@ =~= Seq::new(23, |i: int| 0u64));
        assert(r.calls@ =~= Seq::new(23, |i: int| 0u64));
        r
    }

    /// Adds one execution of the operator at a place. Totals stop at the largest
    /// number: a time that is too long to count must not look short.
    pub fn record(&mut self, index: usize, elapsed: u128)
        requires
            index < OP_COUNT,
        ensures
            final(self).all_calls() == old(self).all_calls().update(
                index as int,
                capped(old(self).all_calls()[index as int] + 1),
            ),
            final(self).all_nanos() == old(self).all_nanos().update(
                index as int,
                capped(old(self).all_nanos()[index as int] + capped(elapsed as int)),
            ),
    {
        let n: u64 = nanos_of(elapsed);
        let calls: u64 = self.calls[index].saturating_add(1);
        let nanos: u64 = self.nanos[index].saturating_add(n);
        self.calls[index] = calls;
        self.nanos[index] = nanos;
    }

    /// The totals of the operators that ran, in table order.
    pub fn snapshot(&self) -> (r: Vec<OpTimingEntry>)
        ensures
            r@.map_values(|e: OpTimingEntry| e@) == ran(self.all_calls(), self.all_nanos(), 23),
    {
        let mut r: Vec<OpTimingEntry> = Vec::new();
        let mut i: usize = 0;
        assert(r@.map_values(|e: OpTimingEntry| e@) =~= Seq::<EntryView>::empty());
        while i < OP_COUNT
            invariant
                i <= 23,
                r@.map_values(|e: OpTimingEntry| e@) == ran(
                    self.all_calls(),
                    self.all_nanos(),
                    i as int,
                ),
            decreases 23 - i,
        {
            let ghost before = r@;
            let calls: u64 = self.calls[i];
            if calls > 0 {
                let e: OpTimingEntry = OpTimingEntry {
                    name: op_name(i),
                    calls,
                    nanos: self.nanos[i],
                };
                r.push(e);
                assert(r@.map_values(|e: OpTimingEntry| e@) =~= before.map_values(
                    |e: OpTimingEntry| e@,
                ).push(e@));
            }
            i = i + 1;
        }
        r
    }

    /// Empties the table.
    pub fn reset(&mut self)
        ensures
            final(self).all_nanos() == Seq::new(23, |i: int| 0u64),
            final(self).all_calls() == Seq::new(23, |i: int| 0u64),
    {
        *self = TimingSink::new();
    }
}

impl Default for TimingSink {
    fn default() -> (r: TimingSink)
        ensures
            r.all_nanos() == Seq::new(23, |i: int| 0u64),
            r.all_calls() == Seq::new(23, |i: int| 0u64),
    {
        TimingSink::new()
    }
}

/// Where an execution's times go.
pub enum TimingMode {
    /// Into the shared table, if timing was switched on for the process.
    Global,
    /// Nowhere; the clock is not read.
    Off,
    /// Into a table of its own, if it is switched on itself.
    Private { sink: TimingSink, enabled: bool },
}

impl TimingMode {
    /// The table that the next execution records into; nothing means that the
    /// clock stays unread.
    pub fn resolve_for<'a>(&'a self, global_flag: bool, global: &'a TimingSink) -> (r: Option<
        &'a TimingSink,
    >)
        ensures
            match self {
                TimingMode::Global => r == (if global_flag {
                    Some(global)
                } else {
                    None
                }),
                TimingMode::Off => r is None,
                TimingMode::Private { sink, enabled } => r == (if *enabled {
                    Some(sink)
                } else {
                    None
                }),
            },
    {
        match self {
            TimingMode::Global => if global_flag {
                Some(global)
            } else {
                None
            },
            TimingMode::Off => None,
            TimingMode::Private { sink, enabled } => if *enabled {
                Some(sink)
            } else {
                None
            },
        }
    }
}

impl Default for TimingMode {
    fn default() -> (r: TimingMode)
        ensures
            r is Global,
    {
        TimingMode::Global
    }
}

/// The process's timing: the shared table, and whether it was switched on, once
/// that was looked up.
pub struct Timing {
    pub sink: TimingSink,
    pub flag: Option<bool>,
}

impl Timing {
    /// Nothing recorded, nothing looked up.
    pub fn new() -> (r: Timing)
        ensures
            r.flag is None,
            r.sink.all_nanos() == Seq::new(23, |i: int| 0u64),
            r.sink.all_calls() == Seq::new(23, |i: int| 0u64),
    {
        Timing { sink: TimingSink::new(), flag: None }
    }
}

/// Whether a switch is on: it is if its variable has a value, whichever.
pub fn flag_from_env(value: Option<&str>) -> (r: bool)
    ensures
        r == (value is Some),
{
    value.is_some()
}

/// Whether timing is on. The variable is looked at once; the answer stays.
pub fn enabled(t: &mut Timing, value: Option<&str>) -> (r: bool)
    ensures
        r == (match old(t).flag {
            Some(on) => on,
            None => value is Some,
        }),
        final(t).flag == Some(r),
        final(t).sink == old(t).sink,
{
    match t.flag {
        Some(on) => on,
        None => {
            let on: bool = flag_from_env(value);
            t.flag = Some(on);
            on
        },
    }
}

/// The shared table.
pub fn global_sink(t: &Timing) -> (r: &TimingSink)
    ensures
        *r == t.sink,
{
    &t.sink
}

/// Adds one execution to the shared table.
pub fn record(t: &mut Timing, index: usize, elapsed: u128)
    requires
        index < OP_COUNT,
    ensures
        final(t).flag == old(t).flag,
        final(t).sink.all_calls() == old(t).sink.all_calls().update(
            index as int,
            capped(old(t).sink.all_calls()[index as int] + 1),
        ),
        final(t).sink.all_nanos() == old(t).sink.all_nanos().update(
            index as int,
            capped(old(t).sink.all_nanos()[index as int] + capped(elapsed as int)),
        ),
{
    t.sink.record(index, elapsed);
}

/// The totals of the operators in the shared table that ran, in table order.
pub fn snapshot(t: &Timing) -> (r: Vec<OpTimingEntry>)
    ensures
        r@.map_values(|e: OpTimingEntry| e@) == ran(t.sink.all_calls(), t.sink.all_nanos(), 23),
{
    t.sink.snapshot()
}

/// Empties the shared table.
pub fn reset(t: &mut Timing)
    ensures
        final(t).flag == old(t).flag,
        final(t).sink.all_nanos() == Seq::new(23, |i: int| 0u64),
        final(t).sink.all_calls() == Seq::new(23, |i: int| 0u64),
{
    t.sink.reset();
}

/// Records one execution of an operator where a mode says: into the shared table,
/// into the mode's own, or not at all.
pub fn record_op(mode: &mut TimingMode, t: &mut Timing, value: Option<&str>, op: &Op, elapsed: u128)
    ensures
        final(t).flag == (if *old(mode) is Global {
            Some(
                match old(t).flag {
                    Some(on) => on,
                    None => value is Some,
                },
            )
        } else {
            old(t).flag
        }),
        *old(mode) is Global ==> {
            &&& *final(mode) is Global
            &&& if final(t).flag == Some(true) {
                recorded(old(t).sink, final(t).sink, index_spec(*op) as int, elapsed)
            } else {
                final(t).sink == old(t).sink
            }
        },
        *old(mode) is Off ==> *final(mode) is Off && final(t).sink == old(t).sink,
        *old(mode) matches TimingMode::Private { sink, enabled } ==> {
            &&& final(t).sink == old(t).sink
            &&& *final(mode) matches TimingMode::Private { sink: after, enabled: on } && on
                == enabled && (if enabled {
                recorded(sink, after, index_spec(*op) as int, elapsed)
            } else {
                after == sink
            })
        },
{
    let i: usize = op_index(op);
    match mode {
        TimingMode::Global => {
            if enabled(t, value) {
                t.sink.record(i, elapsed);
            }
        },
        TimingMode::Off => {},
        TimingMode::Private { sink, enabled } => {
            if *enabled {
                sink.record(i, elapsed);
            }
        },
    }
}

/// Whether `after` is `before` with one more execution of the operator at a
/// place.
pub open spec fn recorded(before: TimingSink, after: TimingSink, i: int, elapsed: u128) -> bool {
    &&& after.all_calls() == before.all_calls().update(i, capped(before.all_calls()[i] + 1))
    &&& after.all_nanos() == before.all_nanos().update(
        i,
        capped(before.all_nanos()[i] + capped(elapsed as int)),
    )
}

/// Recording an operator moves no other operator's totals, and never makes a
/// total smaller.
pub proof fn law_no_cross_talk(
    before: TimingSink,
    after: TimingSink,
    op: Op,
    elapsed: u128,
    k: int,
)
    requires
        0 <= k < OP_COUNT,
        recorded(before, after, index_spec(op) as int, elapsed),
    ensures
        k != index_spec(op) ==> after.all_calls()[k] == before.all_calls()[k]
            && after.all_nanos()[k] == before.all_nanos()[k],
        after.all_calls()[k] >= before.all_calls()[k],
        after.all_nanos()[k] >= before.all_nanos()[k],
        after.all_calls()[index_spec(op) as int] == capped(
            before.all_calls()[index_spec(op) as int] + 1,
        ),
{
    before.lemma_rows();
}

/// The place of a name.
spec fn place(s: Seq<char>) -> int {
    if s.len() == 3 {
        if s[0] == 'a' {
            1
        } else {
            2
        }
    } else if s.len() == 4 {
        if s[0] == 's' {
            4
        } else if s[0] == 'r' {
            10
        } else if s[0] == 'a' {
            11
        } else {
            14
        }
    } else if s.len() == 5 {
        if s[0] == 'i' {
            0
        } else {
            3
        }
    } else if s.len() == 6 {
        if s[0] == 'm' {
            8
        } else {
            17
        }
    } else if s.len() == 7 {
        if s[0] == 's' {
            5
        } else if s[0] == 'q' {
            7
        } else if s[0] == 'r' {
            15
        } else {
            16
        }
    } else if s.len() == 8 {
        if s[0] == 'r' {
            6
        } else {
            9
        }
    } else if s.len() == 9 {
        if s[6] == 'q' {
            19
        } else {
            21
        }
    } else if s.len() == 12 {
        if s[0] == 'k' {
            13
        } else {
            18
        }
    } else if s.len() == 13 {
        12
    } else if s.len() == 14 {
        22
    } else if s.len() == 19 {
        20
    } else {
        -1
    }
}

/// Two operators of different kinds have different places in the table: their
/// places agree only if their names do.
pub proof fn law_places_are_distinct(i: int, j: int)
    requires
        0 <= i < 23,
        0 <= j < 23,
        op_names()[i] == op_names()[j],
    ensures
        i == j,
{
    reveal_strlit("input");
    reveal_strlit("add");
    reveal_strlit("mul");
    reveal_strlit("scale");
    reveal_strlit("silu");
    reveal_strlit("softmax");
    reveal_strlit("rms_norm");
    reveal_strlit("qk_norm");
    reveal_strlit("matmul");
    reveal_strlit("get_rows");
    reveal_strlit("rope");
    reveal_strlit("attn");
    reveal_strlit("kvcache_store");
    reveal_strlit("kvcache_load");
    reveal_strlit("view");
    reveal_strlit("reshape");
    reveal_strlit("permute");
    reveal_strlit("swiglu");
    reveal_strlit("batch_matmul");
    reveal_strlit("fused_qkv");
    reveal_strlit("qkv_bias_rope_store");
    reveal_strlit("fused_ffn");
    reveal_strlit("fused_qkv_norm");
    assert(place(op_names()[i]) == i);
    assert(place(op_names()[j]) == j);
}

/// The time of an operator is shown under its own name.
pub proof fn law_operators_have_their_own_names(op: Op)
    ensures
        op is Input ==> op_names()[index_spec(op) as int] == "input"@,
        op is Add ==> op_names()[index_spec(op) as int] == "add"@,
        op is Mul ==> op_names()[index_spec(op) as int] == "mul"@,
        op is Scale ==> op_names()[index_spec(op) as int] == "scale"@,
        op is Silu ==> op_names()[index_spec(op) as int] == "silu"@,
        op is Softmax ==> op_names()[index_spec(op) as int] == "softmax"@,
        op is RmsNorm ==> op_names()[index_spec(op) as int] == "rms_norm"@,
        op is QkNorm ==> op_names()[index_spec(op) as int] == "qk_norm"@,
        op is MatMul ==> op_names()[index_spec(op) as int] == "matmul"@,
        op is GetRows ==> op_names()[index_spec(op) as int] == "get_rows"@,
        op is RoPE ==> op_names()[index_spec(op) as int] == "rope"@,
        op is Attn ==> op_names()[index_spec(op) as int] == "attn"@,
        op is KvcacheStore ==> op_names()[index_spec(op) as int] == "kvcache_store"@,
        op is KvcacheLoad ==> op_names()[index_spec(op) as int] == "kvcache_load"@,
        op is View ==> op_names()[index_spec(op) as int] == "view"@,
        op is Reshape ==> op_names()[index_spec(op) as int] == "reshape"@,
        op is Permute ==> op_names()[index_spec(op) as int] == "permute"@,
        op is SwiGLU ==> op_names()[index_spec(op) as int] == "swiglu"@,
        op is BatchMatMul ==> op_names()[index_spec(op) as int] == "batch_matmul"@,
        op is FusedQKV ==> op_names()[index_spec(op) as int] == "fused_qkv"@,
        op is QkvBiasRopeStore ==> op_names()[index_spec(op) as int] == "qkv_bias_rope_store"@,
        op is FusedFFN ==> op_names()[index_spec(op) as int] == "fused_ffn"@,
        op is FusedQkvNorm ==> op_names()[index_spec(op) as int] == "fused_qkv_norm"@,
        index_spec(op) < op_names().len(),
        op_names().len() == 23,
{
}

proof fn lemma_shown(calls: Seq<u64>, nanos: Seq<u64>, n: int, k: int)
    requires
        0 <= k < n <= 23,
        calls.len() == 23,
        nanos.len() == 23,
        calls[k] > 0,
    ensures
        exists|i: int|
            0 <= i < ran(calls, nanos, n).len() && #[trigger] ran(calls, nanos, n)[i] == (EntryView {
                name: op_names()[k],
                calls: calls[k],
                nanos: nanos[k],
            }),
    decreases n,
{
    let r = ran(calls, nanos, n);
    if k == n - 1 {
        assert(r[r.len() - 1] == r.last());
    } else {
        lemma_shown(calls, nanos, n - 1, k);
        let before = ran(calls, nanos, n - 1);
        let i = choose|i: int|
            0 <= i < before.len() && #[trigger] before[i] == (EntryView {
                name: op_names()[k],
                calls: calls[k],
                nanos: nanos[k],
            });
        assert(r[i] == before[i]);
    }
}

/// Every operator that ran is shown with its calls and its time, and none that did not.
pub proof fn law_what_ran_is_shown(calls: Seq<u64>, nanos: Seq<u64>, k: int)
    requires
        0 <= k < 23,
        calls.len() == 23,
        nanos.len() == 23,
    ensures
        calls[k] > 0 ==> exists|i: int|
            0 <= i < ran(calls, nanos, 23).len() && #[trigger] ran(calls, nanos, 23)[i] == (
            EntryView { name: op_names()[k], calls: calls[k], nanos: nanos[k] }),
        forall|i: int|
            0 <= i < ran(calls, nanos, 23).len() ==> (#[trigger] ran(calls, nanos, 23)[i]).calls
                > 0,
{
    if calls[k] > 0 {
        lemma_shown(calls, nanos, 23, k);
    }
    lemma_shown_ran(calls, nanos, 23);
}

proof fn lemma_shown_ran(calls: Seq<u64>, nanos: Seq<u64>, n: int)
    requires
        n <= 23,
    ensures
        forall|i: int|
            0 <= i < ran(calls, nanos, n).len() ==> (#[trigger] ran(calls, nanos, n)[i]).calls > 0,
    decreases n,
{
    if n > 0 {
        lemma_shown_ran(calls, nanos, n - 1);
        let before = ran(calls, nanos, n - 1);
        let r = ran(calls, nanos, n);
        assert forall|i: int| 0 <= i < r.len() implies (#[trigger] r[i]).calls > 0 by {
            if i < before.len() {
                assert(before[i].calls > 0);
            }
        }
    }
}

/// A total that would be too large stays at the largest value.
pub proof fn law_totals_stop_at_the_top(n: int)
    requires
        0 <= n,
    ensures
        n <= u64::MAX ==> capped(n) == n,
        n > u64::MAX ==> capped(n) == u64::MAX,
{
}

} // verus!
