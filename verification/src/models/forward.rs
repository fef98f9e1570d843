//! What a forward pass is laid out from.
use crate::graph::batch::Group;
use crate::graph::cache::GraphCache;
use crate::graph::params::{GraphParams, Platform};
use crate::graph::ComputeGraph;
use crate::metal::MpsState;
use crate::models::weights::CudaRegistry;
use crate::models::Device;
use vstd::prelude::*;

verus! {

/// A forward pass: what is built, what is filled in, what is read out.
pub struct BatchPlan {
    pub params: GraphParams,
    /// Rows whose logits are wanted.
    pub out_rows: Vec<u32>,
    pub positions: Vec<u32>,
    /// The wanted rows are an input of the graph.
    pub fill_tail: bool,
}

/// What a forward pass can run on.
pub struct PassSettings<'a> {
    /// The Metal device and the weights that it holds.
    pub mps: Option<&'a MpsState>,
    /// The weights that a CUDA device holds.
    pub cuda: Option<&'a CudaRegistry>,
    pub platform: Platform,
    /// The fused attention projections are switched off.
    pub no_fuse_qkv: bool,
    /// The fused feed-forward pass is switched off.
    pub no_fuse_ffn: bool,
}

/// A forward pass ready to run.
pub struct ForwardPass {
    /// Where it runs.
    pub device: Device,
    pub plan: BatchPlan,
    /// The graph to be used from now on; `None` if the last one serves again.
    pub graph: Option<ComputeGraph>,
    /// How many logits are read out.
    pub logits: usize,
}

/// Whether the last graph was built for these parameters.
pub open spec fn serves(cache: &GraphCache, p: GraphParams) -> bool {
    cache.current matches Some(c) && c.1 == p
}

/// The context that a pass asks for, no longer than the model's.
pub open spec fn clamped(n_ctx: usize, max_seq_len: i64) -> usize {
    if n_ctx <= max_seq_len {
        n_ctx
    } else {
        max_seq_len as usize
    }
}

/// The context that a pass asks for, no longer than the model's.
pub fn clamp_context(n_ctx: usize, max_seq_len: i64) -> (r: usize)
    requires
        0 <= max_seq_len <= usize::MAX,
    ensures
        r == clamped(n_ctx, max_seq_len),
{
    let max: usize = max_seq_len as usize;
    if n_ctx <= max {
        n_ctx
    } else {
        max
    }
}

/// Where the rows of a sequence start: 0 unless one is reserved.
pub open spec fn start_of(starts: Seq<(u32, usize)>, seq: u32) -> usize
    decreases starts.len(),
{
    if starts.len() == 0 {
        0
    } else if starts[0].0 == seq {
        starts[0].1
    } else {
        start_of(starts.drop_first(), seq)
    }
}

/// Whether positions alone do not bound a query's window: there are several
/// sequences, or one that does not start at row 0.
pub open spec fn span_spec(groups: Seq<Group>, starts: Seq<(u32, usize)>) -> bool {
    groups.len() > 1 || exists|i: int|
        0 <= i < groups.len() && start_of(starts, (#[trigger] groups[i]).seq) != 0
}

fn find_start(starts: &Vec<(u32, usize)>, seq: u32) -> (r: usize)
    ensures
        r == start_of(starts@, seq),
{
    let mut i: usize = 0;
    assert(starts@.skip(0) =~= starts@);
    while i < starts.len()
        invariant
            i <= starts@.len(),
            start_of(starts@, seq) == start_of(starts@.skip(i as int), seq),
        decreases starts@.len() - i,
    {
        assert(starts@.skip(i as int)[0] == starts@[i as int]);
        assert(starts@.skip(i as int).drop_first() =~= starts@.skip(i + 1));
        if starts[i].0 == seq {
            return starts[i].1;
        }
        i = i + 1;
    }
    0
}

/// Whether positions alone do not bound a query's window.
pub fn needs_span(groups: &Vec<Group>, starts: &Vec<(u32, usize)>) -> (r: bool)
    ensures
        r == span_spec(groups@, starts@),
{
    if groups.len() > 1 {
        return true;
    }
    let mut i: usize = 0;
    while i < groups.len()
        invariant
            i <= groups@.len(),
            groups@.len() <= 1,
            forall|k: int| 0 <= k < i ==> start_of(starts@, (#[trigger] groups@[k]).seq) == 0,
        decreases groups@.len() - i,
    {
        if find_start(starts, groups[i].seq) != 0 {
            return true;
        }
        i = i + 1;
    }
    false
}

/// The context of a pass is the smaller one of what is asked for and what the model has.
pub proof fn law_context_is_the_smaller_one(n_ctx: usize, max_seq_len: i64)
    requires
        0 <= max_seq_len <= usize::MAX,
    ensures
        clamped(n_ctx, max_seq_len) <= n_ctx,
        clamped(n_ctx, max_seq_len) <= max_seq_len,
        clamped(n_ctx, max_seq_len) == n_ctx || clamped(n_ctx, max_seq_len) == max_seq_len,
{
}

/// A sequence starts at the row that is reserved for it first, or at row 0 if none is.
pub proof fn law_sequence_starts_where_reserved(starts: Seq<(u32, usize)>, seq: u32, i: int)
    requires
        0 <= i <= starts.len(),
        forall|k: int| 0 <= k < i ==> (#[trigger] starts[k]).0 != seq,
        i < starts.len() ==> starts[i].0 == seq,
    ensures
        i < starts.len() ==> start_of(starts, seq) == starts[i].1,
        i == starts.len() ==> start_of(starts, seq) == 0,
    decreases starts.len(),
{
    if i > 0 {
        let rest = starts.drop_first();
        assert(starts[0].0 != seq);
        assert forall|k: int| 0 <= k < i - 1 implies (#[trigger] rest[k]).0 != seq by {
            assert(rest[k] == starts[k + 1]);
        }
        law_sequence_starts_where_reserved(rest, seq, i - 1);
    }
}

/// A single sequence from row 0 on needs no span; one that starts behind row 0 does, and
/// so do two sequences.
pub proof fn law_when_positions_bound_the_window(groups: Seq<Group>, starts: Seq<(u32, usize)>)
    ensures
        groups.len() == 0 ==> !span_spec(groups, starts),
        groups.len() == 1 ==> (span_spec(groups, starts) <==> start_of(starts, groups[0].seq)
            > 0),
        groups.len() >= 2 ==> span_spec(groups, starts),
{
    if groups.len() == 1 && start_of(starts, groups[0].seq) > 0 {
        let g = groups[0];
        assert(start_of(starts, groups[0].seq) != 0);
    }
}

/// Positions as the device reads them.
pub fn to_u32(v: &Vec<usize>) -> (r: Vec<u32>)
    ensures
        r@ == v@.map_values(|p: usize| p as u32),
{
    let ghost want = v@.map_values(|p: usize| p as u32);
    let mut r: Vec<u32> = Vec::new();
    let mut i: usize = 0;
    while i < v.len()
        invariant
            i <= v@.len(),
            want == v@.map_values(|p: usize| p as u32),
            r@ == want.take(i as int),
        decreases v@.len() - i,
    {
        r.push(v[i] as u32);
        assert(want.take(i + 1) =~= want.take(i as int).push(want[i as int]));
        i = i + 1;
    }
    assert(want.take(i as int) =~= want);
    r
}

} // verus!
