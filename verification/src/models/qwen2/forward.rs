//! The step-by-step forward pass: which device runs it, how it recovers when a
//! device gives up, and what the host computes for each block.
use crate::bits::trunc_div;
use crate::graph::ops::RopeStyle;
use crate::metal::{weight_at, MpsState};
use crate::models::weights::CudaRegistry;
use crate::tensor::{Tensor, TensorType};
use vstd::prelude::*;

use super::loader::{HParams, LayerWeights};
use super::Qwen2Model;

verus! {

/// A device that a pass can run on.
#[derive(Debug, Clone, Copy, PartialEq, Eq, Structural)]
pub enum Gpu {
    Metal,
    Cuda,
}

/// Work of a pass.
#[derive(Debug, Clone, Copy, PartialEq, Eq, Structural)]
pub enum Action {
    /// Decode the embedding rows on the host.
    EmbedTokens,
    /// Gather the embedding rows on Metal. Answers whether it did.
    EmbedOnMetal,
    /// Copy the hidden state to a device.
    UploadHidden(Gpu),
    /// Copy the positions to a device.
    UploadPositions(Gpu),
    /// Open a command buffer on Metal.
    OpenCommands,
    /// Run a block on a device. Answers whether it did.
    Layer(Gpu, usize),
    /// Run the norm and the head on a device. Answers whether it did.
    Head(Gpu),
    /// Submit the open command buffer.
    Submit,
    /// Copy the keys and values of all blocks to the host.
    SyncKv,
    /// Copy the logits to the host.
    DownloadLogits(Gpu),
    /// Copy the hidden state to the host.
    DownloadHidden(Gpu),
    /// Start to record the CUDA work. Answers whether it did.
    BeginCapture,
    /// End the recording.
    EndCapture,
    /// Replay the recorded work.
    LaunchGraph,
    /// Wait for CUDA.
    SyncCuda,
    /// Run a block on the host.
    HostLayer(usize),
    /// Norm of the hidden state, on the host.
    FinalNorm,
    /// Logits of the normed state, on the host.
    OutputLogits,
    /// Add the head's bias to the logits, on the host.
    OutputBias,
    /// The pass is over; the logits are its result.
    ReturnLogits,
    /// The pass is over without logits: the model has no head.
    ReturnNothing,
}

/// Where a pass stands: which answer it waits for.
#[derive(Debug, Clone, Copy, PartialEq, Eq, Structural)]
pub enum Stage {
    MetalEmbed,
    MetalLayer(usize),
    MetalHead,
    CudaCapture,
    CudaLayer { il: usize, capturing: bool },
    CudaHead { recording: bool },
    Done,
}

/// What a pass depends on.
#[derive(Debug, Clone, Copy, PartialEq, Eq, Structural)]
pub struct Pass {
    pub n_layer: usize,
    pub nt: usize,
    /// Metal holds the model.
    pub metal: bool,
    /// CUDA holds the model.
    pub cuda: bool,
    /// A recorded decode step can be replayed.
    pub graph_ready: bool,
    pub head: bool,
    pub head_bias: bool,
}

/// A piece of a pass: work to be done in order, the last of it answering the
/// question that the stage names.
pub struct Turn {
    pub actions: Vec<Action>,
    pub stage: Stage,
}

/// A piece of a pass as a value.
#[verifier::ext_equal]
pub struct TurnView {
    pub actions: Seq<Action>,
    pub stage: Stage,
}

impl View for Turn {
    type V = TurnView;

    open spec fn view(&self) -> TurnView {
        TurnView { actions: self.actions@, stage: self.stage }
    }
}

/// A turn with work before it.
pub open spec fn after(first: Seq<Action>, t: TurnView) -> TurnView {
    TurnView { actions: first + t.actions, stage: t.stage }
}

/// A turn of this work that waits at this stage.
pub open spec fn turn(actions: Seq<Action>, stage: Stage) -> TurnView {
    TurnView { actions, stage }
}

/// Norm and head on the host.
pub open spec fn host_head(p: Pass) -> Seq<Action> {
    if p.head {
        seq![Action::FinalNorm, Action::OutputLogits] + (if p.head_bias {
            seq![Action::OutputBias]
        } else {
            Seq::empty()
        }) + seq![Action::ReturnLogits]
    } else {
        seq![Action::FinalNorm, Action::ReturnNothing]
    }
}

/// The rest of a pass on the host: every block, unless a device has run them.
pub open spec fn host_part(p: Pass, layers: bool) -> TurnView {
    let blocks = if layers {
        Seq::new(p.n_layer as nat, |i: int| Action::HostLayer(i as usize))
    } else {
        Seq::empty()
    };
    turn(blocks + host_head(p), Stage::Done)
}

/// CUDA from block `il` on.
pub open spec fn cuda_from(p: Pass, il: int, capturing: bool) -> TurnView {
    if il < p.n_layer {
        turn(
            seq![Action::Layer(Gpu::Cuda, il as usize)],
            Stage::CudaLayer { il: il as usize, capturing },
        )
    } else {
        turn(seq![Action::Head(Gpu::Cuda)], Stage::CudaHead { recording: capturing })
    }
}

/// The rest of a pass behind Metal: on CUDA if it holds the model, else on the
/// host.
pub open spec fn cuda_part(p: Pass, layers: bool) -> TurnView {
    if !p.cuda {
        host_part(p, layers)
    } else {
        let upload = seq![Action::UploadHidden(Gpu::Cuda), Action::UploadPositions(Gpu::Cuda)];
        if p.nt == 1 && p.graph_ready {
            turn(
                upload + seq![
                    Action::LaunchGraph,
                    Action::SyncCuda,
                    Action::DownloadLogits(Gpu::Cuda),
                    Action::ReturnLogits,
                ],
                Stage::Done,
            )
        } else if p.nt == 1 {
            turn(upload + seq![Action::BeginCapture], Stage::CudaCapture)
        } else {
            after(upload, cuda_from(p, 0, false))
        }
    }
}

/// Metal from block `il` on.
pub open spec fn metal_from(p: Pass, il: int) -> TurnView {
    if il < p.n_layer {
        turn(seq![Action::Layer(Gpu::Metal, il as usize)], Stage::MetalLayer(il as usize))
    } else {
        turn(seq![Action::Head(Gpu::Metal)], Stage::MetalHead)
    }
}

/// How a pass begins.
pub open spec fn first_turn(p: Pass) -> TurnView {
    if p.metal {
        turn(seq![Action::EmbedTokens, Action::EmbedOnMetal], Stage::MetalEmbed)
    } else {
        after(seq![Action::EmbedTokens], cuda_part(p, true))
    }
}

/// How a pass goes on when the answer that it waited for is there.
pub open spec fn next_turn(p: Pass, s: Stage, ok: bool) -> TurnView {
    match s {
        Stage::MetalEmbed => {
            let upload = if ok {
                Seq::empty()
            } else {
                seq![Action::UploadHidden(Gpu::Metal)]
            };
            after(
                upload + seq![Action::UploadPositions(Gpu::Metal), Action::OpenCommands],
                metal_from(p, 0),
            )
        },
        Stage::MetalLayer(il) => if ok {
            metal_from(p, il + 1)
        } else {
            after(seq![Action::SyncKv], cuda_part(p, true))
        },
        Stage::MetalHead => if ok {
            turn(
                seq![
                    Action::Submit,
                    Action::DownloadLogits(Gpu::Metal),
                    Action::SyncKv,
                    Action::ReturnLogits,
                ],
                Stage::Done,
            )
        } else {
            after(
                seq![Action::Submit, Action::DownloadHidden(Gpu::Metal), Action::SyncKv],
                cuda_part(p, false),
            )
        },
        Stage::CudaCapture => cuda_from(p, 0, ok),
        Stage::CudaLayer { il, capturing } => if ok {
            cuda_from(p, il + 1, capturing)
        } else {
            after(seq![Action::SyncCuda], host_part(p, true))
        },
        Stage::CudaHead { recording } => {
            let close = if recording {
                seq![Action::EndCapture, Action::LaunchGraph, Action::SyncCuda]
            } else {
                seq![Action::SyncCuda]
            };
            if ok {
                turn(
                    close + seq![Action::DownloadLogits(Gpu::Cuda), Action::ReturnLogits],
                    Stage::Done,
                )
            } else {
                after(close.push(Action::DownloadHidden(Gpu::Cuda)), host_part(p, false))
            }
        },
        Stage::Done => turn(Seq::empty(), Stage::Done),
    }
}

/// A stage that a pass can be at.
pub open spec fn stage_ok(p: Pass, s: Stage) -> bool {
    match s {
        Stage::MetalLayer(il) => il < p.n_layer,
        Stage::CudaLayer { il, .. } => il < p.n_layer,
        _ => true,
    }
}

fn push_host_part(p: &Pass, layers: bool, actions: &mut Vec<Action>) -> (stage: Stage)
    ensures
        final(actions)@ == old(actions)@ + host_part(*p, layers).actions,
        stage == host_part(*p, layers).stage,
{
    let ghost before = actions@;
    let ghost blocks = Seq::new(p.n_layer as nat, |i: int| Action::HostLayer(i as usize));
    if layers {
        let mut il: usize = 0;
        while il < p.n_layer
            invariant
                il <= p.n_layer,
                blocks == Seq::new(p.n_layer as nat, |i: int| Action::HostLayer(i as usize)),
                actions@ == before + blocks.take(il as int),
            decreases p.n_layer - il,
        {
            actions.push(Action::HostLayer(il));
            assert(blocks.take(il + 1) =~= blocks.take(il as int).push(Action::HostLayer(il)));
            assert(actions@ =~= before + blocks.take(il + 1));
            il = il + 1;
        }
        assert(blocks.take(il as int) =~= blocks);
    }
    actions.push(Action::FinalNorm);
    if p.head {
        actions.push(Action::OutputLogits);
        if p.head_bias {
            actions.push(Action::OutputBias);
        }
        actions.push(Action::ReturnLogits);
    } else {
        actions.push(Action::ReturnNothing);
    }
    assert(actions@ =~= before + host_part(*p, layers).actions);
    Stage::Done
}

fn push_cuda_from(p: &Pass, il: usize, capturing: bool, actions: &mut Vec<Action>) -> (stage: Stage)
    ensures
        final(actions)@ == old(actions)@ + cuda_from(*p, il as int, capturing).actions,
        stage == cuda_from(*p, il as int, capturing).stage,
        stage_ok(*p, stage),
{
    let ghost before = actions@;
    if il < p.n_layer {
        actions.push(Action::Layer(Gpu::Cuda, il));
        assert(actions@ =~= before + cuda_from(*p, il as int, capturing).actions);
        Stage::CudaLayer { il, capturing }
    } else {
        actions.push(Action::Head(Gpu::Cuda));
        assert(actions@ =~= before + cuda_from(*p, il as int, capturing).actions);
        Stage::CudaHead { recording: capturing }
    }
}

fn push_cuda_part(p: &Pass, layers: bool, actions: &mut Vec<Action>) -> (stage: Stage)
    ensures
        final(actions)@ == old(actions)@ + cuda_part(*p, layers).actions,
        stage == cuda_part(*p, layers).stage,
        stage_ok(*p, stage),
{
    if !p.cuda {
        return push_host_part(p, layers, actions);
    }
    let ghost before = actions@;
    actions.push(Action::UploadHidden(Gpu::Cuda));
    actions.push(Action::UploadPositions(Gpu::Cuda));
    if p.nt == 1 && p.graph_ready {
        actions.push(Action::LaunchGraph);
        actions.push(Action::SyncCuda);
        actions.push(Action::DownloadLogits(Gpu::Cuda));
        actions.push(Action::ReturnLogits);
        assert(actions@ =~= before + cuda_part(*p, layers).actions);
        Stage::Done
    } else if p.nt == 1 {
        actions.push(Action::BeginCapture);
        assert(actions@ =~= before + cuda_part(*p, layers).actions);
        Stage::CudaCapture
    } else {
        let stage: Stage = push_cuda_from(p, 0, false, actions);
        assert(actions@ =~= before + cuda_part(*p, layers).actions);
        stage
    }
}

fn push_metal_from(p: &Pass, il: usize, actions: &mut Vec<Action>) -> (stage: Stage)
    ensures
        final(actions)@ == old(actions)@ + metal_from(*p, il as int).actions,
        stage == metal_from(*p, il as int).stage,
        stage_ok(*p, stage),
{
    let ghost before = actions@;
    if il < p.n_layer {
        actions.push(Action::Layer(Gpu::Metal, il));
        assert(actions@ =~= before + metal_from(*p, il as int).actions);
        Stage::MetalLayer(il)
    } else {
        actions.push(Action::Head(Gpu::Metal));
        assert(actions@ =~= before + metal_from(*p, il as int).actions);
        Stage::MetalHead
    }
}

/// Begins a pass.
pub fn forward(p: &Pass) -> (r: Turn)
    ensures
        r@ == first_turn(*p),
        stage_ok(*p, r.stage),
{
    let mut actions: Vec<Action> = Vec::new();
    actions.push(Action::EmbedTokens);
    if p.metal {
        actions.push(Action::EmbedOnMetal);
        let r: Turn = Turn { actions, stage: Stage::MetalEmbed };
        assert(r@ =~= first_turn(*p));
        return r;
    }
    let stage: Stage = push_cuda_part(p, true, &mut actions);
    let r: Turn = Turn { actions, stage };
    assert(r@ =~= first_turn(*p));
    r
}

/// Goes on with a pass: `ok` answers what its stage waits for.
pub fn resume(p: &Pass, s: Stage, ok: bool) -> (r: Turn)
    requires
        stage_ok(*p, s),
    ensures
        r@ == next_turn(*p, s, ok),
        stage_ok(*p, r.stage),
{
    let mut actions: Vec<Action> = Vec::new();
    let stage: Stage = match s {
        Stage::MetalEmbed => {
            if !ok {
                actions.push(Action::UploadHidden(Gpu::Metal));
            }
            actions.push(Action::UploadPositions(Gpu::Metal));
            actions.push(Action::OpenCommands);
            push_metal_from(p, 0, &mut actions)
        },
        Stage::MetalLayer(il) => {
            if ok {
                push_metal_from(p, il + 1, &mut actions)
            } else {
                actions.push(Action::SyncKv);
                push_cuda_part(p, true, &mut actions)
            }
        },
        Stage::MetalHead => {
            actions.push(Action::Submit);
            if ok {
                actions.push(Action::DownloadLogits(Gpu::Metal));
                actions.push(Action::SyncKv);
                actions.push(Action::ReturnLogits);
                Stage::Done
            } else {
                actions.push(Action::DownloadHidden(Gpu::Metal));
                actions.push(Action::SyncKv);
                push_cuda_part(p, false, &mut actions)
            }
        },
        Stage::CudaCapture => push_cuda_from(p, 0, ok, &mut actions),
        Stage::CudaLayer { il, capturing } => {
            if ok {
                push_cuda_from(p, il + 1, capturing, &mut actions)
            } else {
                actions.push(Action::SyncCuda);
                push_host_part(p, true, &mut actions)
            }
        },
        Stage::CudaHead { recording } => {
            if recording {
                actions.push(Action::EndCapture);
                actions.push(Action::LaunchGraph);
            }
            actions.push(Action::SyncCuda);
            if ok {
                actions.push(Action::DownloadLogits(Gpu::Cuda));
                actions.push(Action::ReturnLogits);
                Stage::Done
            } else {
                actions.push(Action::DownloadHidden(Gpu::Cuda));
                push_host_part(p, false, &mut actions)
            }
        },
        Stage::Done => Stage::Done,
    };
    let r: Turn = Turn { actions, stage };
    assert(r@ =~= next_turn(*p, s, ok));
    r
}

/// An upper bound on the turns that are left.
pub open spec fn turns_left(p: Pass, s: Stage) -> int {
    let n = p.n_layer as int;
    match s {
        Stage::MetalEmbed => 2 * n + 5,
        Stage::MetalLayer(il) => 2 * n + 4 - il,
        Stage::MetalHead => n + 4,
        Stage::CudaCapture => n + 3,
        Stage::CudaLayer { il, .. } => n + 2 - il,
        Stage::CudaHead { .. } => 1,
        Stage::Done => 0,
    }
}

/// Whether an action ends a pass.
pub open spec fn is_return(a: Action) -> bool {
    a is ReturnLogits || a is ReturnNothing
}

/// Whatever the devices answer, a pass comes to its end: each answer brings it
/// nearer.
pub proof fn law_pass_ends(p: Pass, s: Stage, ok: bool)
    requires
        stage_ok(p, s),
        s != Stage::Done,
    ensures
        0 <= turns_left(p, next_turn(p, s, ok).stage) < turns_left(p, s),
{
}

/// Whether a turn returns exactly if it is the last, and then as its last
/// action.
pub open spec fn returns_at_end(t: TurnView) -> bool {
    &&& t.actions.len() > 0
    &&& t.stage == Stage::Done <==> is_return(t.actions.last())
    &&& forall|i: int| 0 <= i < t.actions.len() - 1 ==> !is_return(#[trigger] t.actions[i])
}

proof fn lemma_host_returns(p: Pass, layers: bool)
    ensures
        returns_at_end(host_part(p, layers)),
{
}

proof fn lemma_after_returns(first: Seq<Action>, t: TurnView)
    requires
        returns_at_end(t),
        forall|i: int| 0 <= i < first.len() ==> !is_return(#[trigger] first[i]),
    ensures
        returns_at_end(after(first, t)),
{
    let a = after(first, t);
    assert(a.actions.last() == t.actions.last());
    assert forall|i: int| 0 <= i < a.actions.len() - 1 implies !is_return(
        #[trigger] a.actions[i],
    ) by {
        if i >= first.len() {
            assert(a.actions[i] == t.actions[i - first.len()]);
        } else {
            assert(a.actions[i] == first[i]);
        }
    }
}

proof fn lemma_cuda_returns(p: Pass, layers: bool)
    ensures
        returns_at_end(cuda_part(p, layers)),
{
    lemma_host_returns(p, layers);
    let upload = seq![Action::UploadHidden(Gpu::Cuda), Action::UploadPositions(Gpu::Cuda)];
    if p.cuda && p.nt != 1 {
        lemma_after_returns(upload, cuda_from(p, 0, false));
    }
}

/// A pass has one result: it returns with the last action of its last turn and
/// nowhere before.
pub proof fn law_pass_returns_once(p: Pass, s: Stage, ok: bool)
    requires
        stage_ok(p, s),
        s != Stage::Done,
    ensures
        returns_at_end(first_turn(p)),
        returns_at_end(next_turn(p, s, ok)),
{
    lemma_cuda_returns(p, true);
    lemma_cuda_returns(p, false);
    lemma_host_returns(p, true);
    lemma_host_returns(p, false);
    lemma_after_returns(seq![Action::EmbedTokens], cuda_part(p, true));
    lemma_after_returns(seq![Action::SyncKv], cuda_part(p, true));
    lemma_after_returns(
        seq![Action::Submit, Action::DownloadHidden(Gpu::Metal), Action::SyncKv],
        cuda_part(p, false),
    );
    lemma_after_returns(seq![Action::SyncCuda], host_part(p, true));
    lemma_after_returns(
        seq![Action::SyncCuda].push(Action::DownloadHidden(Gpu::Cuda)),
        host_part(p, false),
    );
    lemma_after_returns(
        seq![Action::EndCapture, Action::LaunchGraph, Action::SyncCuda].push(
            Action::DownloadHidden(Gpu::Cuda),
        ),
        host_part(p, false),
    );
}

/// Where a device has run all blocks and only its head failed, the host runs the
/// head and no block again.
pub proof fn law_blocks_run_once(p: Pass, s: Stage, ok: bool, i: int)
    requires
        s is MetalHead || s is CudaHead,
        0 <= i < next_turn(p, s, ok).actions.len(),
    ensures
        !(next_turn(p, s, ok).actions[i] is HostLayer),
{
}

/// Whether the model has the weight and the device holds it.
pub open spec fn held(t: Option<Tensor>, holds: spec_fn(Seq<char>) -> bool) -> bool {
    t is Some && holds(t->0.name@)
}

/// Whether the device holds the weight, if the model has it.
pub open spec fn held_if_there(t: Option<Tensor>, holds: spec_fn(Seq<char>) -> bool) -> bool {
    t is Some ==> holds(t->0.name@)
}

/// Whether a device holds a block: its matrices, its norms and those biases that
/// it has.
pub open spec fn block_held(l: LayerWeights, holds: spec_fn(Seq<char>) -> bool) -> bool {
    &&& held(l.wq, holds)
    &&& held(l.wk, holds)
    &&& held(l.wv, holds)
    &&& held(l.wo, holds)
    &&& held(l.ffn_gate, holds)
    &&& held(l.ffn_up, holds)
    &&& held(l.ffn_down, holds)
    &&& held(l.attn_norm, holds)
    &&& held(l.ffn_norm, holds)
    &&& held_if_there(l.bq, holds)
    &&& held_if_there(l.bk, holds)
    &&& held_if_there(l.bv, holds)
}

/// The names that Metal holds.
pub open spec fn metal_names(mps: &MpsState) -> spec_fn(Seq<char>) -> bool {
    |name: Seq<char>| weight_at(mps.weights@, name) is Some
}

/// The names that CUDA holds.
pub open spec fn cuda_names(reg: &CudaRegistry) -> spec_fn(Seq<char>) -> bool {
    |name: Seq<char>| reg.names(name)
}

fn metal_held(mps: &MpsState, t: &Option<Tensor>, needed: bool) -> (r: bool)
    ensures
        r == (if needed {
            held(*t, metal_names(mps))
        } else {
            held_if_there(*t, metal_names(mps))
        }),
{
    match t {
        None => !needed,
        Some(t) => mps.has_weight(t.name.as_str()),
    }
}

/// A block that has all its matrices.
pub open spec fn matrices_there(l: LayerWeights) -> bool {
    l.wq is Some && l.wk is Some && l.wv is Some && l.wo is Some && l.ffn_gate is Some
        && l.ffn_up is Some && l.ffn_down is Some
}

/// Whether Metal runs a model: its first block is held.
pub fn metal_runs(m: &Qwen2Model, mps: Option<&MpsState>) -> (r: bool)
    requires
        mps is Some ==> m.layers@.len() > 0 && matrices_there(m.layers@[0]),
    ensures
        r == (mps is Some && block_held(m.layers@[0], metal_names(mps->0))),
{
    match mps {
        None => false,
        Some(mps) => {
            let l: &LayerWeights = &m.layers[0];
            metal_held(mps, &l.wq, true) && metal_held(mps, &l.wk, true) && metal_held(
                mps,
                &l.wv,
                true,
            ) && metal_held(mps, &l.wo, true) && metal_held(mps, &l.ffn_gate, true) && metal_held(
                mps,
                &l.ffn_up,
                true,
            ) && metal_held(mps, &l.ffn_down, true) && metal_held(mps, &l.attn_norm, true)
                && metal_held(mps, &l.ffn_norm, true) && metal_held(mps, &l.bq, false)
                && metal_held(mps, &l.bk, false) && metal_held(mps, &l.bv, false)
        },
    }
}

/// The four-bit types with a block of 32.
pub open spec fn is_q4(t: TensorType) -> bool {
    t is Q4_0 || t is Q4_1
}

/// The super-block types that the CUDA blocks read.
pub open spec fn is_qk(t: TensorType) -> bool {
    t is Q4_K || t is Q6_K
}

/// The types of a block's matrices.
pub open spec fn matrix_types(l: LayerWeights) -> Seq<TensorType> {
    seq![
        l.wq->0.ttype,
        l.wk->0.ttype,
        l.wv->0.ttype,
        l.wo->0.ttype,
        l.ffn_gate->0.ttype,
        l.ffn_up->0.ttype,
        l.ffn_down->0.ttype,
    ]
}

/// Whether the CUDA blocks read the types of a block's matrices: all of the one
/// kind or all of the other.
pub open spec fn types_read(l: LayerWeights) -> bool {
    let ts = matrix_types(l);
    (forall|i: int| 0 <= i < 7 ==> is_q4(#[trigger] ts[i])) || (forall|i: int|
        0 <= i < 7 ==> is_qk(#[trigger] ts[i]))
}

/// Whether CUDA runs a block.
pub open spec fn cuda_runs_block(l: LayerWeights, reg: &CudaRegistry) -> bool {
    block_held(l, cuda_names(reg)) && types_read(l)
}

fn cuda_held(reg: &CudaRegistry, t: &Option<Tensor>, needed: bool) -> (r: bool)
    ensures
        r == (if needed {
            held(*t, cuda_names(reg))
        } else {
            held_if_there(*t, cuda_names(reg))
        }),
{
    match t {
        None => !needed,
        Some(t) => reg.has_weight(t.name.as_str()),
    }
}

fn q4(t: &Option<Tensor>) -> (r: bool)
    requires
        t is Some,
    ensures
        r == is_q4(t->0.ttype),
{
    matches!(t.as_ref().unwrap().ttype, TensorType::Q4_0 | TensorType::Q4_1)
}

fn qk(t: &Option<Tensor>) -> (r: bool)
    requires
        t is Some,
    ensures
        r == is_qk(t->0.ttype),
{
    matches!(t.as_ref().unwrap().ttype, TensorType::Q4_K | TensorType::Q6_K)
}

fn cuda_block(l: &LayerWeights, reg: &CudaRegistry) -> (r: bool)
    ensures
        r == cuda_runs_block(*l, reg),
{
    let all: bool = cuda_held(reg, &l.wq, true) && cuda_held(reg, &l.wk, true) && cuda_held(
        reg,
        &l.wv,
        true,
    ) && cuda_held(reg, &l.wo, true) && cuda_held(reg, &l.ffn_gate, true) && cuda_held(
        reg,
        &l.ffn_up,
        true,
    ) && cuda_held(reg, &l.ffn_down, true) && cuda_held(reg, &l.attn_norm, true) && cuda_held(
        reg,
        &l.ffn_norm,
        true,
    ) && cuda_held(reg, &l.bq, false) && cuda_held(reg, &l.bk, false) && cuda_held(
        reg,
        &l.bv,
        false,
    );
    if !all {
        return false;
    }
    let ghost ts = matrix_types(*l);
    let fours: bool = q4(&l.wq) && q4(&l.wk) && q4(&l.wv) && q4(&l.wo) && q4(&l.ffn_gate) && q4(
        &l.ffn_up,
    ) && q4(&l.ffn_down);
    let supers: bool = qk(&l.wq) && qk(&l.wk) && qk(&l.wv) && qk(&l.wo) && qk(&l.ffn_gate) && qk(
        &l.ffn_up,
    ) && qk(&l.ffn_down);
    proof {
        let all_q4 = forall|i: int| 0 <= i < 7 ==> is_q4(#[trigger] ts[i]);
        let all_qk = forall|i: int| 0 <= i < 7 ==> is_qk(#[trigger] ts[i]);
        let a = ts[0];
        let b = ts[1];
        let c = ts[2];
        let d = ts[3];
        let e = ts[4];
        let f = ts[5];
        let g = ts[6];
        assert(fours == all_q4);
        assert(supers == all_qk);
    }
    fours || supers
}

/// Whether CUDA runs a model: every block.
pub fn cuda_runs(m: &Qwen2Model, cuda: Option<&CudaRegistry>) -> (r: bool)
    ensures
        r == (cuda is Some && forall|i: int|
            0 <= i < m.layers@.len() ==> cuda_runs_block(#[trigger] m.layers@[i], cuda->0)),
{
    match cuda {
        None => false,
        Some(reg) => {
            let mut i: usize = 0;
            while i < m.layers.len()
                invariant
                    i <= m.layers@.len(),
                    cuda == Some(reg),
                    forall|k: int|
                        0 <= k < i ==> cuda_runs_block(#[trigger] m.layers@[k], reg),
                decreases m.layers@.len() - i,
            {
                if !cuda_block(&m.layers[i], reg) {
                    assert(!cuda_runs_block(m.layers@[i as int], reg));
                    return false;
                }
                i = i + 1;
            }
            true
        },
    }
}

/// The sizes of a pass on the host.
#[derive(Debug, Clone, Copy, PartialEq, Eq, Structural)]
pub struct HostDims {
    pub nt: usize,
    pub ne: usize,
    pub nh: usize,
    pub nk: usize,
    pub hd: usize,
    pub nqt: usize,
    pub nkt: usize,
    pub nf: usize,
}

/// Sizes that a pass of `nt` tokens can be laid out from.
pub open spec fn host_dims_ok(hp: HParams, nt: int) -> bool {
    let hd = trunc_div(hp.n_embd as int, hp.n_head as int);
    &&& 0 <= hp.n_embd <= usize::MAX
    &&& 0 < hp.n_head <= usize::MAX
    &&& 0 < hp.n_head_kv <= usize::MAX
    &&& 0 <= hp.n_kv_embd <= usize::MAX
    &&& 0 <= hp.n_ff <= usize::MAX
    &&& 0 <= hp.max_seq_len <= usize::MAX
    &&& hp.n_head * hd <= usize::MAX
    &&& nt * hp.n_embd <= usize::MAX
    &&& nt * (hp.n_head * hd) <= usize::MAX
    &&& nt * hp.n_kv_embd <= usize::MAX
    &&& nt * hp.n_ff <= usize::MAX
}

/// The sizes of a pass of `nt` tokens.
pub open spec fn host_dims_spec(hp: HParams, nt: usize) -> HostDims {
    let hd = trunc_div(hp.n_embd as int, hp.n_head as int);
    HostDims {
        nt,
        ne: hp.n_embd as usize,
        nh: hp.n_head as usize,
        nk: hp.n_head_kv as usize,
        hd: hd as usize,
        nqt: (hp.n_head * hd) as usize,
        nkt: hp.n_kv_embd as usize,
        nf: hp.n_ff as usize,
    }
}

/// The sizes of a pass of `nt` tokens.
pub fn host_dims(hp: &HParams, nt: usize) -> (d: HostDims)
    requires
        host_dims_ok(*hp, nt as int),
    ensures
        d == host_dims_spec(*hp, nt),
{
    let hd: i64 = hp.n_embd_head();
    proof {
        vstd::arithmetic::div_mod::lemma_div_pos_is_pos(hp.n_embd as int, hp.n_head as int);
        assert(hd <= hp.n_embd) by (nonlinear_arith)
            requires
                hd == hp.n_embd as int / hp.n_head as int,
                hp.n_embd >= 0,
                hp.n_head >= 1,
        ;
    }
    let nh: usize = hp.n_head as usize;
    HostDims {
        nt,
        ne: hp.n_embd as usize,
        nh,
        nk: hp.n_head_kv as usize,
        hd: hd as usize,
        nqt: nh * hd as usize,
        nkt: hp.n_kv_embd as usize,
        nf: hp.n_ff as usize,
    }
}

/// A buffer of the host.
#[derive(Debug, Clone, Copy, PartialEq, Eq, Structural)]
pub enum HostBuf {
    Hidden,
    Normed,
    Query,
    Key,
    Value,
    Attended,
    Up,
    Gate,
    /// A copy of the normed state, which both feed-forward products read.
    FfnInput,
}

/// Elements of a buffer.
pub open spec fn buf_len(d: HostDims, b: HostBuf) -> int {
    match b {
        HostBuf::Hidden | HostBuf::Normed | HostBuf::Attended | HostBuf::FfnInput => d.nt * d.ne,
        HostBuf::Query => d.nt * d.nqt,
        HostBuf::Key | HostBuf::Value => d.nt * d.nkt,
        HostBuf::Up => if d.nf >= d.ne {
            d.nt * d.nf
        } else {
            d.nt * d.ne
        },
        HostBuf::Gate => d.nt * d.nf,
    }
}

/// Elements of a buffer of a pass.
pub fn host_buffer_len(d: &HostDims, b: HostBuf) -> (n: usize)
    requires
        buf_len(*d, b) <= usize::MAX,
    ensures
        n == buf_len(*d, b),
{
    match b {
        HostBuf::Hidden | HostBuf::Normed | HostBuf::Attended | HostBuf::FfnInput => d.nt * d.ne,
        HostBuf::Query => d.nt * d.nqt,
        HostBuf::Key | HostBuf::Value => d.nt * d.nkt,
        HostBuf::Up => if d.nf >= d.ne {
            d.nt * d.nf
        } else {
            d.nt * d.ne
        },
        HostBuf::Gate => d.nt * d.nf,
    }
}

/// A weight of a block.
#[derive(Debug, Clone, Copy, PartialEq, Eq, Structural)]
pub enum Part {
    AttnNorm,
    Wq,
    Bq,
    Wk,
    Bk,
    Wv,
    Bv,
    Wo,
    FfnNorm,
    FfnGate,
    FfnUp,
    FfnDown,
}

/// What the host computes.
#[derive(Debug, Clone, Copy, PartialEq, Eq, Structural)]
pub enum HostOp {
    /// Norm of each row of `src`, times the weight where there is one.
    Norm { src: HostBuf, dst: HostBuf, weight: Option<Part>, width: usize },
    /// Each row of `src` times the weight.
    Matmul { weight: Part, src: HostBuf, dst: HostBuf, out_dim: usize, in_dim: usize },
    /// The first `count` elements of the bias onto each row.
    AddBias { bias: Part, dst: HostBuf, width: usize, count: usize },
    /// The rotary embedding of each head.
    Rope { dst: HostBuf, heads: usize, head_dim: usize },
    /// The new keys and values into the cache of the block.
    StoreKv { layer: usize },
    /// The attention of the queries over the cache of the block.
    Attend { layer: usize, dst: HostBuf },
    /// Copy of the first `len` elements.
    Copy { src: HostBuf, dst: HostBuf, len: usize },
    /// `dst + src`, element by element.
    Add { dst: HostBuf, src: HostBuf, len: usize },
    /// The sigmoid-weighted value of each element.
    Silu { dst: HostBuf, len: usize },
    /// `dst * src`, element by element.
    Mul { dst: HostBuf, src: HostBuf, len: usize },
}

/// How many elements of a bias of `bytes` bytes fit a row of `width`.
pub open spec fn bias_count(width: usize, bytes: int) -> int {
    if bytes / 4 < width {
        bytes / 4
    } else {
        width as int
    }
}

/// The bias of a projection, where the block has one.
pub open spec fn bias_ops(b: Option<Tensor>, bias: Part, dst: HostBuf, width: usize) -> Seq<HostOp> {
    match b {
        None => Seq::empty(),
        Some(t) => seq![
            HostOp::AddBias {
                bias,
                dst,
                width,
                count: bias_count(width, t.data@.len() as int) as usize,
            },
        ],
    }
}

/// A norm's weight, where the block has one.
pub open spec fn norm_part(t: Option<Tensor>, p: Part) -> Option<Part> {
    match t {
        None => None,
        Some(_) => Some(p),
    }
}

/// Queries, keys and values of the hidden state: norm, projections and biases.
pub open spec fn project_ops(l: LayerWeights, d: HostDims) -> Seq<HostOp> {
    seq![
        HostOp::Norm {
            src: HostBuf::Hidden,
            dst: HostBuf::Normed,
            weight: norm_part(l.attn_norm, Part::AttnNorm),
            width: d.ne,
        },
        HostOp::Matmul {
            weight: Part::Wq,
            src: HostBuf::Normed,
            dst: HostBuf::Query,
            out_dim: d.nqt,
            in_dim: d.ne,
        },
        HostOp::Matmul {
            weight: Part::Wk,
            src: HostBuf::Normed,
            dst: HostBuf::Key,
            out_dim: d.nkt,
            in_dim: d.ne,
        },
        HostOp::Matmul {
            weight: Part::Wv,
            src: HostBuf::Normed,
            dst: HostBuf::Value,
            out_dim: d.nkt,
            in_dim: d.ne,
        },
    ] + bias_ops(l.bq, Part::Bq, HostBuf::Query, d.nqt) + bias_ops(
        l.bk,
        Part::Bk,
        HostBuf::Key,
        d.nkt,
    ) + bias_ops(l.bv, Part::Bv, HostBuf::Value, d.nkt)
}

/// Rotation, cache, attention and the sum with the hidden state.
pub open spec fn attend_ops(d: HostDims, il: usize) -> Seq<HostOp> {
    seq![
        HostOp::Rope { dst: HostBuf::Query, heads: d.nh, head_dim: d.hd },
        HostOp::Rope { dst: HostBuf::Key, heads: d.nk, head_dim: d.hd },
        HostOp::StoreKv { layer: il },
        HostOp::Attend { layer: il, dst: HostBuf::Attended },
        HostOp::Matmul {
            weight: Part::Wo,
            src: HostBuf::Attended,
            dst: HostBuf::Normed,
            out_dim: d.ne,
            in_dim: d.ne,
        },
        HostOp::Add { dst: HostBuf::Hidden, src: HostBuf::Normed, len: (d.nt * d.ne) as usize },
    ]
}

/// The feed-forward part and the sum with the hidden state.
pub open spec fn feed_ops(l: LayerWeights, d: HostDims) -> Seq<HostOp> {
    let rows = (d.nt * d.ne) as usize;
    let wide = (d.nt * d.nf) as usize;
    seq![
        HostOp::Norm {
            src: HostBuf::Hidden,
            dst: HostBuf::Up,
            weight: norm_part(l.ffn_norm, Part::FfnNorm),
            width: d.ne,
        },
        HostOp::Copy { src: HostBuf::Up, dst: HostBuf::FfnInput, len: rows },
        HostOp::Matmul {
            weight: Part::FfnGate,
            src: HostBuf::FfnInput,
            dst: HostBuf::Gate,
            out_dim: d.nf,
            in_dim: d.ne,
        },
        HostOp::Matmul {
            weight: Part::FfnUp,
            src: HostBuf::FfnInput,
            dst: HostBuf::Up,
            out_dim: d.nf,
            in_dim: d.ne,
        },
        HostOp::Silu { dst: HostBuf::Gate, len: wide },
        HostOp::Mul { dst: HostBuf::Gate, src: HostBuf::Up, len: wide },
        HostOp::Matmul {
            weight: Part::FfnDown,
            src: HostBuf::Gate,
            dst: HostBuf::Normed,
            out_dim: d.ne,
            in_dim: d.nf,
        },
        HostOp::Add { dst: HostBuf::Hidden, src: HostBuf::Normed, len: rows },
    ]
}

/// What the host computes for block `il`.
pub open spec fn layer_ops(l: LayerWeights, d: HostDims, il: usize) -> Seq<HostOp> {
    project_ops(l, d) + attend_ops(d, il) + feed_ops(l, d)
}

fn push_bias(b: &Option<Tensor>, bias: Part, dst: HostBuf, width: usize, ops: &mut Vec<HostOp>)
    ensures
        final(ops)@ == old(ops)@ + bias_ops(*b, bias, dst, width),
{
    let ghost before = ops@;
    if let Some(t) = b {
        let n: usize = t.data.len() / 4;
        let count: usize = if n < width {
            n
        } else {
            width
        };
        ops.push(HostOp::AddBias { bias, dst, width, count });
    }
    assert(ops@ =~= before + bias_ops(*b, bias, dst, width));
}

fn part_of(t: &Option<Tensor>, p: Part) -> (r: Option<Part>)
    ensures
        r == norm_part(*t, p),
{
    match t {
        None => None,
        Some(_) => Some(p),
    }
}

fn push_projections(l: &LayerWeights, d: &HostDims, ops: &mut Vec<HostOp>)
    ensures
        final(ops)@ == old(ops)@ + project_ops(*l, *d),
{
    let ghost before = ops@;
    ops.push(
        HostOp::Norm {
            src: HostBuf::Hidden,
            dst: HostBuf::Normed,
            weight: part_of(&l.attn_norm, Part::AttnNorm),
            width: d.ne,
        },
    );
    ops.push(
        HostOp::Matmul {
            weight: Part::Wq,
            src: HostBuf::Normed,
            dst: HostBuf::Query,
            out_dim: d.nqt,
            in_dim: d.ne,
        },
    );
    ops.push(
        HostOp::Matmul {
            weight: Part::Wk,
            src: HostBuf::Normed,
            dst: HostBuf::Key,
            out_dim: d.nkt,
            in_dim: d.ne,
        },
    );
    ops.push(
        HostOp::Matmul {
            weight: Part::Wv,
            src: HostBuf::Normed,
            dst: HostBuf::Value,
            out_dim: d.nkt,
            in_dim: d.ne,
        },
    );
    push_bias(&l.bq, Part::Bq, HostBuf::Query, d.nqt, ops);
    push_bias(&l.bk, Part::Bk, HostBuf::Key, d.nkt, ops);
    push_bias(&l.bv, Part::Bv, HostBuf::Value, d.nkt, ops);
    assert(ops@ =~= before + project_ops(*l, *d));
}

fn push_attention(d: &HostDims, il: usize, ops: &mut Vec<HostOp>)
    requires
        d.nt * d.ne <= usize::MAX,
    ensures
        final(ops)@ == old(ops)@ + attend_ops(*d, il),
{
    let ghost before = ops@;
    ops.push(HostOp::Rope { dst: HostBuf::Query, heads: d.nh, head_dim: d.hd });
    ops.push(HostOp::Rope { dst: HostBuf::Key, heads: d.nk, head_dim: d.hd });
    ops.push(HostOp::StoreKv { layer: il });
    ops.push(HostOp::Attend { layer: il, dst: HostBuf::Attended });
    ops.push(
        HostOp::Matmul {
            weight: Part::Wo,
            src: HostBuf::Attended,
            dst: HostBuf::Normed,
            out_dim: d.ne,
            in_dim: d.ne,
        },
    );
    ops.push(HostOp::Add { dst: HostBuf::Hidden, src: HostBuf::Normed, len: d.nt * d.ne });
    assert(ops@ =~= before + attend_ops(*d, il));
}

fn push_feed(l: &LayerWeights, d: &HostDims, ops: &mut Vec<HostOp>)
    requires
        d.nt * d.ne <= usize::MAX,
        d.nt * d.nf <= usize::MAX,
    ensures
        final(ops)@ == old(ops)@ + feed_ops(*l, *d),
{
    let ghost before = ops@;
    let rows: usize = d.nt * d.ne;
    let wide: usize = d.nt * d.nf;
    ops.push(
        HostOp::Norm {
            src: HostBuf::Hidden,
            dst: HostBuf::Up,
            weight: part_of(&l.ffn_norm, Part::FfnNorm),
            width: d.ne,
        },
    );
    ops.push(HostOp::Copy { src: HostBuf::Up, dst: HostBuf::FfnInput, len: rows });
    ops.push(
        HostOp::Matmul {
            weight: Part::FfnGate,
            src: HostBuf::FfnInput,
            dst: HostBuf::Gate,
            out_dim: d.nf,
            in_dim: d.ne,
        },
    );
    ops.push(
        HostOp::Matmul {
            weight: Part::FfnUp,
            src: HostBuf::FfnInput,
            dst: HostBuf::Up,
            out_dim: d.nf,
            in_dim: d.ne,
        },
    );
    ops.push(HostOp::Silu { dst: HostBuf::Gate, len: wide });
    ops.push(HostOp::Mul { dst: HostBuf::Gate, src: HostBuf::Up, len: wide });
    ops.push(
        HostOp::Matmul {
            weight: Part::FfnDown,
            src: HostBuf::Gate,
            dst: HostBuf::Normed,
            out_dim: d.ne,
            in_dim: d.nf,
        },
    );
    ops.push(HostOp::Add { dst: HostBuf::Hidden, src: HostBuf::Normed, len: rows });
    assert(ops@ =~= before + feed_ops(*l, *d));
}

/// What the host computes for a block, in order.
pub fn host_layer(l: &LayerWeights, d: &HostDims, il: usize) -> (ops: Vec<HostOp>)
    requires
        d.nt * d.ne <= usize::MAX,
        d.nt * d.nf <= usize::MAX,
    ensures
        ops@ == layer_ops(*l, *d, il),
{
    let mut ops: Vec<HostOp> = Vec::new();
    push_projections(l, d, &mut ops);
    push_attention(d, il, &mut ops);
    push_feed(l, d, &mut ops);
    assert(ops@ =~= layer_ops(*l, *d, il));
    ops
}

/// The two elements that a rotation mixes: pair `i` of the head that starts at
/// `base` and has `2 * half` elements.
pub open spec fn pair_spec(style: RopeStyle, base: int, i: int, half: int) -> (int, int) {
    match style {
        RopeStyle::NonInterleaved => (base + i, base + i + half),
        RopeStyle::Interleaved => (base + 2 * i, base + 2 * i + 1),
    }
}

/// The two elements that a rotation mixes.
pub fn rope_pair(style: RopeStyle, base: usize, i: usize, half: usize) -> (r: (usize, usize))
    requires
        i < half,
        base + 2 * half <= usize::MAX,
    ensures
        r.0 == pair_spec(style, base as int, i as int, half as int).0,
        r.1 == pair_spec(style, base as int, i as int, half as int).1,
{
    match style {
        RopeStyle::NonInterleaved => (base + i, base + i + half),
        RopeStyle::Interleaved => (base + 2 * i, base + 2 * i + 1),
    }
}

/// A rotation takes every element of a head once: each element is in one pair,
/// and in one place of it.
pub proof fn law_rope_pairs_cover_the_head(style: RopeStyle, base: int, half: int, k: int)
    requires
        0 <= k < 2 * half,
    ensures
        exists|i: int|
            0 <= i < half && ((#[trigger] pair_spec(style, base, i, half)).0 == base + k
                || pair_spec(style, base, i, half).1 == base + k),
        forall|i: int, j: int|
            0 <= i < half && 0 <= j < half ==> (#[trigger] pair_spec(style, base, i, half)).0
                != (#[trigger] pair_spec(style, base, j, half)).1,
        forall|i: int, j: int|
            0 <= i < j < half ==> (#[trigger] pair_spec(style, base, i, half)).0 != (
            #[trigger] pair_spec(style, base, j, half)).0 && pair_spec(style, base, i, half).1
                != pair_spec(style, base, j, half).1,
{
    match style {
        RopeStyle::NonInterleaved => {
            let i = if k < half {
                k
            } else {
                k - half
            };
            assert(pair_spec(style, base, i, half).0 == base + k || pair_spec(
                style,
                base,
                i,
                half,
            ).1 == base + k);
        },
        RopeStyle::Interleaved => {
            let i = k / 2;
            assert(pair_spec(style, base, i, half).0 == base + k || pair_spec(
                style,
                base,
                i,
                half,
            ).1 == base + k);
        },
    }
}

/// The attention of one query of one head.
#[derive(Debug, Clone, Copy, PartialEq, Eq, Structural)]
pub struct AttnTask {
    /// Where the query starts, and where its result goes.
    pub query: usize,
    /// Where the head starts in a row of keys or values.
    pub kv: usize,
    /// Elements of a key that are compared.
    pub kv_dim: usize,
    /// Rows that the query may see.
    pub visible: usize,
}

/// Rows that a query at a position may see among `nkv`.
pub open spec fn visible_spec(pos: usize, nkv: usize) -> int {
    if pos < nkv {
        pos + 1
    } else {
        nkv as int
    }
}

/// Where query `t` of head `h` starts.
pub open spec fn query_start(d: HostDims, h: int, t: int) -> int {
    t * d.nqt + h * d.hd
}

/// Where the keys and values start in their rows that head `h` of the queries reads.
pub open spec fn kv_start(d: HostDims, h: int) -> int {
    (h / (d.nh as int / d.nk as int)) * (d.nkt as int / d.nk as int)
}

/// The attention of query `t` of head `h` at a position.
pub fn attn_task(d: &HostDims, h: usize, t: usize, pos: usize, nkv: usize) -> (r: AttnTask)
    requires
        h < d.nh,
        t < d.nt,
        0 < d.nk,
        d.nh % d.nk == 0,
        d.nkt / d.nk <= d.hd,
        d.nqt == d.nh * d.hd,
        d.nt * d.nqt <= usize::MAX,
    ensures
        r.query == t * d.nqt + h * d.hd,
        r.query == query_start(*d, h as int, t as int),
        r.query + d.hd <= d.nt * d.nqt,
        r.kv_dim == d.nkt / d.nk,
        r.kv == (h / (d.nh / d.nk)) * r.kv_dim,
        r.kv == kv_start(*d, h as int),
        r.kv + r.kv_dim <= d.nkt,
        r.visible == visible_spec(pos, nkv),
{
    proof {
        let nqt = d.nqt as int;
        assert(0 <= t * nqt && t * nqt + nqt <= d.nt * nqt) by (nonlinear_arith)
            requires
                t + 1 <= d.nt,
                nqt >= 0,
        ;
        assert(0 <= h * d.hd && h * d.hd + d.hd <= d.nh * d.hd) by (nonlinear_arith)
            requires
                h + 1 <= d.nh,
        ;
        lemma_kv_head(h as int, d.nh as int, d.nk as int, d.nkt as int);
    }
    let group: usize = d.nh / d.nk;
    let kv_dim: usize = d.nkt / d.nk;
    AttnTask {
        query: t * d.nqt + h * d.hd,
        kv: (h / group) * kv_dim,
        kv_dim,
        visible: if pos < nkv {
            pos + 1
        } else {
            nkv
        },
    }
}

proof fn lemma_kv_head(h: int, nh: int, nk: int, nkt: int)
    requires
        0 <= h < nh,
        0 < nk,
        nh % nk == 0,
        0 <= nkt,
    ensures
        nh / nk > 0,
        0 <= (h / (nh / nk)) * (nkt / nk),
        (h / (nh / nk)) * (nkt / nk) + nkt / nk <= nkt,
{
    let g = nh / nk;
    let w = nkt / nk;
    vstd::arithmetic::div_mod::lemma_fundamental_div_mod(nh, nk);
    assert(g > 0) by (nonlinear_arith)
        requires
            nk * g == nh,
            nh > 0,
            nk > 0,
    ;
    let k = h / g;
    vstd::arithmetic::div_mod::lemma_fundamental_div_mod(h, g);
    assert(0 <= k < nk) by (nonlinear_arith)
        requires
            h == g * k + h % g,
            0 <= h % g < g,
            0 <= h < nh,
            nk * g == nh,
            g > 0,
    ;
    vstd::arithmetic::div_mod::lemma_fundamental_div_mod(nkt, nk);
    vstd::arithmetic::div_mod::lemma_div_pos_is_pos(nkt, nk);
    assert(0 <= k * w && k * w + w <= nk * w) by (nonlinear_arith)
        requires
            0 <= k,
            k + 1 <= nk,
            w >= 0,
    ;
}

/// A query sees the rows up to its own position, as far as there are any.
pub proof fn law_queries_see_no_later_rows(pos: usize, nkv: usize, row: int)
    requires
        0 <= row,
    ensures
        row < visible_spec(pos, nkv) <==> row <= pos && row < nkv,
        0 <= visible_spec(pos, nkv) <= nkv,
{
}

/// The sizes of the host's work. Heads are as large as fit next to each other in a row.
pub proof fn law_host_sizes(hp: HParams, nt: usize)
    requires
        host_dims_ok(hp, nt as int),
    ensures
        ({
            let d = host_dims_spec(hp, nt);
            &&& d.nt == nt && d.ne == hp.n_embd && d.nh == hp.n_head && d.nk == hp.n_head_kv
            &&& d.nkt == hp.n_kv_embd && d.nf == hp.n_ff
            &&& d.nqt == d.nh * d.hd
            &&& d.nh * d.hd <= d.ne < d.nh * d.hd + d.nh
        }),
{
    let ne = hp.n_embd as int;
    let nh = hp.n_head as int;
    vstd::arithmetic::div_mod::lemma_fundamental_div_mod(ne, nh);
    vstd::arithmetic::div_mod::lemma_mod_bound(ne, nh);
    assert(ne / nh <= ne) by (nonlinear_arith)
        requires
            ne >= 0,
            nh >= 1,
    ;
    assert(ne / nh >= 0) by (nonlinear_arith)
        requires
            ne >= 0,
            nh >= 1,
    ;
}

/// Whether the buffers of an operation hold what it reads and writes, row for row.
pub open spec fn in_bounds(d: HostDims, op: HostOp) -> bool {
    match op {
        HostOp::Norm { src, dst, width, .. } => d.nt * width <= buf_len(d, src) && d.nt * width
            <= buf_len(d, dst),
        HostOp::Matmul { src, dst, out_dim, in_dim, .. } => d.nt * in_dim <= buf_len(d, src) && d.nt
            * out_dim <= buf_len(d, dst) && src != dst,
        HostOp::AddBias { dst, width, count, .. } => count <= width && d.nt * width == buf_len(
            d,
            dst,
        ),
        HostOp::Rope { dst, heads, head_dim } => dst == HostBuf::Query || dst == HostBuf::Key,
        HostOp::StoreKv { .. } => true,
        HostOp::Attend { dst, .. } => dst == HostBuf::Attended,
        HostOp::Copy { src, dst, len } => len <= buf_len(d, src) && len <= buf_len(d, dst),
        HostOp::Add { dst, src, len } => len <= buf_len(d, src) && len == buf_len(d, dst),
        HostOp::Silu { dst, len } => len == buf_len(d, dst),
        HostOp::Mul { dst, src, len } => len <= buf_len(d, src) && len == buf_len(d, dst),
    }
}

proof fn lemma_up_holds_both(d: HostDims)
    ensures
        d.nt * d.ne <= buf_len(d, HostBuf::Up),
        d.nt * d.nf <= buf_len(d, HostBuf::Up),
{
    let nt = d.nt as int;
    let ne = d.ne as int;
    let nf = d.nf as int;
    assert(nf >= ne ==> nt * ne <= nt * nf) by (nonlinear_arith)
        requires
            nt >= 0,
    ;
    assert(nf <= ne ==> nt * nf <= nt * ne) by (nonlinear_arith)
        requires
            nt >= 0,
    ;
}

/// The buffers hold what the work of a block reads and writes.
pub proof fn law_buffers_hold_the_work(l: LayerWeights, d: HostDims, il: usize, i: int)
    requires
        d.nt * d.ne <= usize::MAX,
        d.nt * d.nf <= usize::MAX,
        0 <= i < layer_ops(l, d, il).len(),
    ensures
        in_bounds(d, layer_ops(l, d, il)[i]),
{
    lemma_up_holds_both(d);
    let p = project_ops(l, d);
    let a = attend_ops(d, il);
    let f = feed_ops(l, d);
    assert(forall|k: int| 0 <= k < p.len() ==> in_bounds(d, #[trigger] p[k]));
    assert(forall|k: int| 0 <= k < a.len() ==> in_bounds(d, #[trigger] a[k]));
    assert(forall|k: int| 0 <= k < f.len() ==> in_bounds(d, #[trigger] f[k]));
}

/// The two elements that a rotation turns into each other: half a head apart, or side by
/// side.
pub proof fn law_rotation_pairs(style: RopeStyle, base: int, i: int, half: int)
    requires
        0 <= i < half,
    ensures
        ({
            let (a, b) = pair_spec(style, base, i, half);
            &&& base <= a < b < base + 2 * half
            &&& style is NonInterleaved ==> b - a == half && a - base == i
            &&& style is Interleaved ==> b - a == 1 && (a - base) % 2 == 0 && (a - base) / 2 == i
        }),
{
}

/// Queries lie side by side: head after head, and behind the last head of a token the first
/// of the next.
pub proof fn law_queries_lie_side_by_side(d: HostDims, h: int, t: int)
    requires
        d.nqt == d.nh * d.hd,
    ensures
        query_start(d, 0, 0) == 0,
        query_start(d, h + 1, t) == query_start(d, h, t) + d.hd,
        query_start(d, d.nh as int, t) == query_start(d, 0, t + 1),
{
    let nqt = d.nqt as int;
    let hd = d.hd as int;
    assert((h + 1) * hd == h * hd + hd) by (nonlinear_arith);
    assert((t + 1) * nqt == t * nqt + nqt) by (nonlinear_arith);
    assert(0 * nqt == 0 && 0 * hd == 0) by (nonlinear_arith);
}

/// Neighbouring heads of queries share keys and values: with `group` of them to each head
/// of keys, head `b` of group `a` reads head `a`.
pub proof fn law_neighbouring_heads_share_keys(d: HostDims, group: int, a: int, b: int)
    requires
        0 < d.nk,
        0 < group,
        d.nh == group * d.nk,
        0 <= a,
        0 <= b < group,
    ensures
        kv_start(d, a * group + b) == a * (d.nkt as int / d.nk as int),
{
    let nk = d.nk as int;
    assert((group * nk) / nk == group) by (nonlinear_arith)
        requires
            nk > 0,
    ;
    assert((a * group + b) / group == a) by (nonlinear_arith)
        requires
            0 <= b < group,
    ;
}

/// CUDA runs a block only if all of its matrices are of one family: Q4_0 and Q4_1, or Q4_K
/// and Q6_K.
pub proof fn law_matrices_of_one_family(l: LayerWeights)
    ensures
        types_read(l) <==> ((l.wq->0.ttype is Q4_0 || l.wq->0.ttype is Q4_1) && (l.wk->0.ttype is Q4_0 || l.wk->0.ttype is Q4_1) && (l.wv->0.ttype is Q4_0 || l.wv->0.ttype is Q4_1) && (l.wo->0.ttype is Q4_0 || l.wo->0.ttype is Q4_1) && (l.ffn_gate->0.ttype is Q4_0 || l.ffn_gate->0.ttype is Q4_1) && (l.ffn_up->0.ttype is Q4_0 || l.ffn_up->0.ttype is Q4_1) && (l.ffn_down->0.ttype is Q4_0 || l.ffn_down->0.ttype is Q4_1)) || ((l.wq->0.ttype is Q4_K || l.wq->0.ttype is Q6_K) && (l.wk->0.ttype is Q4_K || l.wk->0.ttype is Q6_K) && (l.wv->0.ttype is Q4_K || l.wv->0.ttype is Q6_K) && (l.wo->0.ttype is Q4_K || l.wo->0.ttype is Q6_K) && (l.ffn_gate->0.ttype is Q4_K || l.ffn_gate->0.ttype is Q6_K) && (l.ffn_up->0.ttype is Q4_K || l.ffn_up->0.ttype is Q6_K) && (l.ffn_down->0.ttype is Q4_K || l.ffn_down->0.ttype is Q6_K)),
{
    let ts = matrix_types(l);
    assert(ts[0] == l.wq->0.ttype && ts[1] == l.wk->0.ttype && ts[2] == l.wv->0.ttype);
    assert(ts[3] == l.wo->0.ttype && ts[4] == l.ffn_gate->0.ttype);
    assert(ts[5] == l.ffn_up->0.ttype && ts[6] == l.ffn_down->0.ttype);
}

/// A device holds a block if it has each matrix and each norm, and those biases that the
/// block has.
pub proof fn law_what_a_held_block_has(l: LayerWeights, holds: spec_fn(Seq<char>) -> bool)
    ensures
        block_held(l, holds) <==> {
            &&& l.wq is Some && holds(l.wq->0.name@)
            &&& l.wk is Some && holds(l.wk->0.name@)
            &&& l.wv is Some && holds(l.wv->0.name@)
            &&& l.wo is Some && holds(l.wo->0.name@)
            &&& l.ffn_gate is Some && holds(l.ffn_gate->0.name@)
            &&& l.ffn_up is Some && holds(l.ffn_up->0.name@)
            &&& l.ffn_down is Some && holds(l.ffn_down->0.name@)
            &&& l.attn_norm is Some && holds(l.attn_norm->0.name@)
            &&& l.ffn_norm is Some && holds(l.ffn_norm->0.name@)
            &&& l.bq is None || holds(l.bq->0.name@)
            &&& l.bk is None || holds(l.bk->0.name@)
            &&& l.bv is None || holds(l.bv->0.name@)
        },
{
}

} // verus!
