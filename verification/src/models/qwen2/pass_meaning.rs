//! What the work of a pass comes to: where the hidden state is, how many blocks it has
//! gone through, and which logits come back.
use super::forward::{
    cuda_from, cuda_part, first_turn, host_head, host_part, metal_from, next_turn, stage_ok, Action,
    Gpu, Pass, Stage,
};
use vstd::prelude::*;

verus! {

/// The state of a pass. A hidden state is counted by the blocks that it has gone through;
/// where there is none, or where the blocks were not taken in order, it is -1.
pub ghost struct Progress {
    pub host: int,
    pub metal: int,
    pub cuda: int,
    /// The device has the positions.
    pub metal_positions: bool,
    pub cuda_positions: bool,
    /// Work for Metal is gathered and not submitted yet.
    pub open: bool,
    /// Work for CUDA is recorded and not launched yet.
    pub recorded: bool,
    /// CUDA has done all of its work.
    pub waited: bool,
    /// The host has all keys and values.
    pub kv: bool,
    /// The device has the logits of the state behind the last block.
    pub metal_logits: bool,
    pub cuda_logits: bool,
    /// The host has the norm of the state behind the last block.
    pub normed: bool,
    /// The host has the logits, computed there or copied.
    pub product: bool,
    pub biased: bool,
    pub copied: bool,
}

/// Before the first work.
pub open spec fn nothing_yet(p: Pass) -> Progress {
    Progress {
        host: -1,
        metal: -1,
        cuda: -1,
        metal_positions: false,
        cuda_positions: false,
        open: false,
        recorded: false,
        waited: false,
        kv: !p.metal,
        metal_logits: false,
        cuda_logits: false,
        normed: false,
        product: false,
        biased: false,
        copied: false,
    }
}

/// A state that goes through block `il`.
pub open spec fn through(at: int, il: int) -> int {
    if at == il {
        il + 1
    } else {
        -1
    }
}

/// What work does that answers nothing. Recorded work replayed runs all blocks and the
/// head on the state that was copied to the device.
pub open spec fn done(p: Pass, s: Progress, a: Action) -> Progress {
    match a {
        Action::EmbedTokens => Progress { host: 0, ..s },
        Action::UploadHidden(Gpu::Metal) => Progress { metal: s.host, ..s },
        Action::UploadHidden(Gpu::Cuda) => Progress { cuda: s.host, ..s },
        Action::UploadPositions(Gpu::Metal) => Progress { metal_positions: true, ..s },
        Action::UploadPositions(Gpu::Cuda) => Progress { cuda_positions: true, ..s },
        Action::OpenCommands => Progress { open: true, kv: false, ..s },
        Action::Submit => Progress { open: false, ..s },
        Action::SyncKv => Progress { kv: true, ..s },
        Action::DownloadLogits(Gpu::Metal) => Progress { copied: s.metal_logits && !s.open, ..s },
        Action::DownloadLogits(Gpu::Cuda) => Progress {
            copied: s.cuda_logits && !s.recorded && s.waited,
            ..s
        },
        Action::DownloadHidden(Gpu::Metal) => Progress {
            host: if s.open {
                -1
            } else {
                s.metal
            },
            ..s
        },
        Action::DownloadHidden(Gpu::Cuda) => Progress {
            host: if s.recorded || !s.waited {
                -1
            } else {
                s.cuda
            },
            ..s
        },
        Action::LaunchGraph => Progress {
            recorded: false,
            waited: false,
            cuda_logits: s.cuda_logits || (p.graph_ready && s.cuda == 0 && s.cuda_positions),
            ..s
        },
        Action::SyncCuda => Progress { waited: true, ..s },
        Action::HostLayer(il) => Progress {
            host: if s.kv {
                through(s.host, il as int)
            } else {
                -1
            },
            ..s
        },
        Action::FinalNorm => Progress { normed: s.host == p.n_layer, ..s },
        Action::OutputLogits => Progress { product: s.normed, ..s },
        Action::OutputBias => Progress { biased: s.product, ..s },
        _ => s,
    }
}

/// What some work does, one after the other.
pub open spec fn all_done(p: Pass, s: Progress, actions: Seq<Action>) -> Progress
    decreases actions.len(),
{
    if actions.len() == 0 {
        s
    } else {
        done(p, all_done(p, s, actions.drop_last()), actions.last())
    }
}

/// What the work does that a stage waits for, once it has answered.
pub open spec fn answered(p: Pass, s: Progress, stage: Stage, ok: bool) -> Progress {
    if !ok {
        s
    } else {
        match stage {
            Stage::MetalEmbed => Progress { metal: 0, ..s },
            Stage::MetalLayer(il) => Progress {
                metal: if s.open && s.metal_positions {
                    through(s.metal, il as int)
                } else {
                    -1
                },
                ..s
            },
            Stage::MetalHead => Progress { metal_logits: s.metal == p.n_layer, ..s },
            Stage::CudaCapture => Progress { recorded: true, ..s },
            Stage::CudaLayer { il, capturing } => Progress {
                cuda: if s.cuda_positions && s.recorded == capturing {
                    through(s.cuda, il as int)
                } else {
                    -1
                },
                waited: false,
                ..s
            },
            Stage::CudaHead { recording } => Progress {
                cuda_logits: s.cuda == p.n_layer && s.recorded == recording,
                waited: false,
                ..s
            },
            Stage::Done => s,
        }
    }
}

/// The work that a stage waits for.
pub open spec fn asked(s: Stage) -> Action {
    match s {
        Stage::MetalEmbed => Action::EmbedOnMetal,
        Stage::MetalLayer(il) => Action::Layer(Gpu::Metal, il),
        Stage::MetalHead => Action::Head(Gpu::Metal),
        Stage::CudaCapture => Action::BeginCapture,
        Stage::CudaLayer { il, .. } => Action::Layer(Gpu::Cuda, il),
        Stage::CudaHead { .. } => Action::Head(Gpu::Cuda),
        Stage::Done => Action::ReturnLogits,
    }
}

/// How far a pass is at a stage. At the end the host has the keys and values, and with a
/// head the logits, which are those of the state behind the last block: copied from the
/// device or the head's product with its bias.
pub open spec fn on_track(p: Pass, s: Stage, x: Progress, last: Action) -> bool {
    match s {
        Stage::Done => {
            &&& x.kv
            &&& last is ReturnLogits || (last is ReturnNothing && !p.head)
            &&& last is ReturnLogits ==> x.copied || (p.head && x.product && x.biased
                == p.head_bias)
        },
        _ => {
            &&& last == asked(s)
            &&& x.host == 0
            &&& !x.biased
            &&& match s {
                Stage::MetalLayer(il) => x.metal == il && x.open && x.metal_positions && !x.recorded,
                Stage::MetalHead => x.metal == p.n_layer && !x.recorded,
                Stage::CudaCapture => x.cuda == 0 && x.cuda_positions && !x.recorded && x.kv,
                Stage::CudaLayer { il, capturing } => x.cuda == il && x.cuda_positions
                    && x.recorded == capturing && x.kv,
                Stage::CudaHead { recording } => x.cuda == p.n_layer && x.recorded == recording
                    && x.kv,
                _ => !x.recorded,
            }
        },
    }
}

proof fn lemma_join(p: Pass, s: Progress, a: Seq<Action>, b: Seq<Action>)
    ensures
        all_done(p, s, a + b) == all_done(p, all_done(p, s, a), b),
    decreases b.len(),
{
    if b.len() == 0 {
        assert(a + b =~= a);
    } else {
        lemma_join(p, s, a, b.drop_last());
        assert((a + b).drop_last() =~= a + b.drop_last());
    }
}

proof fn lemma_one(p: Pass, s: Progress, a: Action)
    ensures
        all_done(p, s, seq![a]) == done(p, s, a),
{
    assert(seq![a].drop_last() =~= Seq::<Action>::empty());
    assert(all_done(p, s, seq![a].drop_last()) == s);
}

proof fn lemma_two(p: Pass, s: Progress, a: Action, b: Action)
    ensures
        all_done(p, s, seq![a, b]) == done(p, done(p, s, a), b),
{
    assert(seq![a, b].drop_last() =~= seq![a]);
    lemma_one(p, s, a);
}

proof fn lemma_three(p: Pass, s: Progress, a: Action, b: Action, c: Action)
    ensures
        all_done(p, s, seq![a, b, c]) == done(p, done(p, done(p, s, a), b), c),
{
    assert(seq![a, b, c].drop_last() =~= seq![a, b]);
    lemma_two(p, s, a, b);
}

proof fn lemma_four(p: Pass, s: Progress, a: Action, b: Action, c: Action, d: Action)
    ensures
        all_done(p, s, seq![a, b, c, d]) == done(p, done(p, done(p, done(p, s, a), b), c), d),
{
    assert(seq![a, b, c, d].drop_last() =~= seq![a, b, c]);
    lemma_three(p, s, a, b, c);
}

proof fn lemma_host_blocks(p: Pass, s: Progress, k: nat)
    requires
        s.host == 0,
        s.kv,
        k <= usize::MAX,
    ensures
        all_done(p, s, Seq::new(k, |i: int| Action::HostLayer(i as usize))) == (Progress {
            host: k as int,
            ..s
        }),
    decreases k,
{
    let blocks = Seq::new(k, |i: int| Action::HostLayer(i as usize));
    if k > 0 {
        let before = Seq::new((k - 1) as nat, |i: int| Action::HostLayer(i as usize));
        lemma_host_blocks(p, s, (k - 1) as nat);
        assert(blocks.drop_last() =~= before);
    }
}

proof fn lemma_host_part(p: Pass, s: Progress, layers: bool)
    requires
        s.kv,
        !s.biased,
        layers ==> s.host == 0,
        !layers ==> s.host == p.n_layer,
    ensures
        ({
            let t = host_part(p, layers);
            &&& t.actions.len() > 0
            &&& on_track(p, t.stage, all_done(p, s, t.actions), t.actions.last())
        }),
{
    let t = host_part(p, layers);
    let blocks = Seq::new(p.n_layer as nat, |i: int| Action::HostLayer(i as usize));
    let head = host_head(p);
    let first = if layers {
        blocks
    } else {
        Seq::empty()
    };
    lemma_join(p, s, first, head);
    if layers {
        lemma_host_blocks(p, s, p.n_layer as nat);
    }
    let s1 = all_done(p, s, first);
    assert(s1.host == p.n_layer);
    if !p.head {
        lemma_two(p, s1, Action::FinalNorm, Action::ReturnNothing);
    } else if p.head_bias {
        assert(head =~= seq![
            Action::FinalNorm,
            Action::OutputLogits,
            Action::OutputBias,
            Action::ReturnLogits,
        ]);
        lemma_four(
            p,
            s1,
            Action::FinalNorm,
            Action::OutputLogits,
            Action::OutputBias,
            Action::ReturnLogits,
        );
    } else {
        assert(head =~= seq![Action::FinalNorm, Action::OutputLogits, Action::ReturnLogits]);
        lemma_three(p, s1, Action::FinalNorm, Action::OutputLogits, Action::ReturnLogits);
    }
    assert(t.actions.last() == head.last());
}

proof fn lemma_cuda_from(p: Pass, s: Progress, il: int, capturing: bool)
    requires
        0 <= il <= p.n_layer,
        s.host == 0,
        s.kv,
        !s.biased,
        s.cuda == il,
        s.cuda_positions,
        s.recorded == capturing,
    ensures
        ({
            let t = cuda_from(p, il, capturing);
            &&& t.actions.len() > 0
            &&& on_track(p, t.stage, all_done(p, s, t.actions), t.actions.last())
        }),
{
    if il < p.n_layer {
        lemma_one(p, s, Action::Layer(Gpu::Cuda, il as usize));
    } else {
        lemma_one(p, s, Action::Head(Gpu::Cuda));
    }
}

proof fn lemma_cuda_part(p: Pass, s: Progress, layers: bool)
    requires
        s.kv,
        !s.biased,
        !s.recorded,
        layers ==> s.host == 0,
        !layers ==> s.host == p.n_layer && !p.cuda,
    ensures
        ({
            let t = cuda_part(p, layers);
            &&& t.actions.len() > 0
            &&& on_track(p, t.stage, all_done(p, s, t.actions), t.actions.last())
        }),
{
    let upload = seq![Action::UploadHidden(Gpu::Cuda), Action::UploadPositions(Gpu::Cuda)];
    let s1 = all_done(p, s, upload);
    lemma_two(p, s, Action::UploadHidden(Gpu::Cuda), Action::UploadPositions(Gpu::Cuda));
    if !p.cuda {
        lemma_host_part(p, s, layers);
    } else if p.nt == 1 && p.graph_ready {
        let rest = seq![
            Action::LaunchGraph,
            Action::SyncCuda,
            Action::DownloadLogits(Gpu::Cuda),
            Action::ReturnLogits,
        ];
        lemma_join(p, s, upload, rest);
        lemma_four(
            p,
            s1,
            Action::LaunchGraph,
            Action::SyncCuda,
            Action::DownloadLogits(Gpu::Cuda),
            Action::ReturnLogits,
        );
        assert((upload + rest).last() == Action::ReturnLogits);
    } else if p.nt == 1 {
        let rest = seq![Action::BeginCapture];
        lemma_join(p, s, upload, rest);
        lemma_one(p, s1, Action::BeginCapture);
        assert((upload + rest).last() == Action::BeginCapture);
    } else {
        let t = cuda_from(p, 0, false);
        lemma_join(p, s, upload, t.actions);
        lemma_cuda_from(p, s1, 0, false);
        assert((upload + t.actions).last() == t.actions.last());
    }
}

/// A pass starts on track.
pub proof fn law_pass_starts_on_track(p: Pass)
    ensures
        ({
            let t = first_turn(p);
            &&& t.actions.len() > 0
            &&& on_track(p, t.stage, all_done(p, nothing_yet(p), t.actions), t.actions.last())
        }),
{
    let s = nothing_yet(p);
    lemma_one(p, s, Action::EmbedTokens);
    if p.metal {
        lemma_two(p, s, Action::EmbedTokens, Action::EmbedOnMetal);
    } else {
        let first = seq![Action::EmbedTokens];
        let t = cuda_part(p, true);
        lemma_join(p, s, first, t.actions);
        lemma_cuda_part(p, all_done(p, s, first), true);
        assert((first + t.actions).last() == t.actions.last());
    }
}

/// Whether a pass that was on track at a stage is so at the next one.
pub open spec fn stays_on_track(p: Pass, s: Stage, x: Progress, ok: bool) -> bool {
    let t = next_turn(p, s, ok);
    let y = all_done(p, answered(p, x, s, ok), t.actions);
    &&& t.actions.len() > 0
    &&& on_track(p, t.stage, y, t.actions.last())
}

proof fn lemma_metal_embed(p: Pass, s: Stage, x: Progress, ok: bool)
    requires
        s is MetalEmbed,
        stage_ok(p, s),
        on_track(p, s, x, asked(s)),
        !(s is MetalHead && !ok && p.cuda),
    ensures
        stays_on_track(p, s, x, ok),
{
    let x1 = answered(p, x, s, ok);
    let t = next_turn(p, s, ok);
    let open = seq![Action::UploadPositions(Gpu::Metal), Action::OpenCommands];
    let first = if ok {
        open
    } else {
        seq![Action::UploadHidden(Gpu::Metal)] + open
    };
    let rest = metal_from(p, 0).actions;
    assert(Seq::<Action>::empty() + open =~= open);
    assert(t.actions =~= first + rest);
    lemma_join(p, x1, first, rest);
    if ok {
        lemma_two(p, x1, open[0], open[1]);
    } else {
        assert(first =~= seq![Action::UploadHidden(Gpu::Metal), open[0], open[1]]);
        lemma_three(p, x1, Action::UploadHidden(Gpu::Metal), open[0], open[1]);
    }
    lemma_one(p, all_done(p, x1, first), rest[0]);
    assert(rest =~= seq![rest[0]]);
    assert(t.actions.last() == rest[0]);
}

proof fn lemma_metal_layer(p: Pass, s: Stage, x: Progress, ok: bool)
    requires
        s is MetalLayer,
        stage_ok(p, s),
        on_track(p, s, x, asked(s)),
        !(s is MetalHead && !ok && p.cuda),
    ensures
        stays_on_track(p, s, x, ok),
{
    let x1 = answered(p, x, s, ok);
    let t = next_turn(p, s, ok);
    let il = s->MetalLayer_0;
    if ok {
        let rest = metal_from(p, il + 1).actions;
        lemma_one(p, x1, rest[0]);
        assert(rest =~= seq![rest[0]]);
    } else {
        let first = seq![Action::SyncKv];
        let rest = cuda_part(p, true);
        lemma_one(p, x1, Action::SyncKv);
        lemma_join(p, x1, first, rest.actions);
        lemma_cuda_part(p, all_done(p, x1, first), true);
        assert((first + rest.actions).last() == rest.actions.last());
    }
}

proof fn lemma_metal_head(p: Pass, s: Stage, x: Progress, ok: bool)
    requires
        s is MetalHead,
        stage_ok(p, s),
        on_track(p, s, x, asked(s)),
        !(s is MetalHead && !ok && p.cuda),
    ensures
        stays_on_track(p, s, x, ok),
{
    let x1 = answered(p, x, s, ok);
    let t = next_turn(p, s, ok);
    if ok {
        lemma_four(
            p,
            x1,
            Action::Submit,
            Action::DownloadLogits(Gpu::Metal),
            Action::SyncKv,
            Action::ReturnLogits,
        );
    } else {
        let first = seq![
            Action::Submit,
            Action::DownloadHidden(Gpu::Metal),
            Action::SyncKv,
        ];
        let rest = cuda_part(p, false);
        lemma_three(
            p,
            x1,
            Action::Submit,
            Action::DownloadHidden(Gpu::Metal),
            Action::SyncKv,
        );
        lemma_join(p, x1, first, rest.actions);
        lemma_cuda_part(p, all_done(p, x1, first), false);
        assert((first + rest.actions).last() == rest.actions.last());
    }
}

proof fn lemma_cuda_capture(p: Pass, s: Stage, x: Progress, ok: bool)
    requires
        s is CudaCapture,
        stage_ok(p, s),
        on_track(p, s, x, asked(s)),
        !(s is MetalHead && !ok && p.cuda),
    ensures
        stays_on_track(p, s, x, ok),
{
    let x1 = answered(p, x, s, ok);
    let t = next_turn(p, s, ok);
    lemma_cuda_from(p, x1, 0, ok);
    let rest = cuda_from(p, 0, ok).actions;
    lemma_one(p, x1, rest[0]);
    assert(rest =~= seq![rest[0]]);
}

proof fn lemma_cuda_layer(p: Pass, s: Stage, x: Progress, ok: bool)
    requires
        s is CudaLayer,
        stage_ok(p, s),
        on_track(p, s, x, asked(s)),
        !(s is MetalHead && !ok && p.cuda),
    ensures
        stays_on_track(p, s, x, ok),
{
    let x1 = answered(p, x, s, ok);
    let t = next_turn(p, s, ok);
    let il = s->il;
    let capturing = s->capturing;
    if ok {
        lemma_cuda_from(p, x1, il + 1, capturing);
        let rest = cuda_from(p, il + 1, capturing).actions;
        lemma_one(p, x1, rest[0]);
        assert(rest =~= seq![rest[0]]);
    } else {
        let first = seq![Action::SyncCuda];
        let rest = host_part(p, true);
        lemma_one(p, x1, Action::SyncCuda);
        lemma_join(p, x1, first, rest.actions);
        lemma_host_part(p, all_done(p, x1, first), true);
        assert((first + rest.actions).last() == rest.actions.last());
    }
}

proof fn lemma_cuda_head(p: Pass, s: Stage, x: Progress, ok: bool)
    requires
        s is CudaHead,
        stage_ok(p, s),
        on_track(p, s, x, asked(s)),
        !(s is MetalHead && !ok && p.cuda),
    ensures
        stays_on_track(p, s, x, ok),
{
    let x1 = answered(p, x, s, ok);
    let t = next_turn(p, s, ok);
    let recording = s->recording;
    let close = if recording {
        seq![Action::EndCapture, Action::LaunchGraph, Action::SyncCuda]
    } else {
        seq![Action::SyncCuda]
    };
    lemma_three(p, x1, Action::EndCapture, Action::LaunchGraph, Action::SyncCuda);
    lemma_one(p, x1, Action::SyncCuda);
    let x2 = all_done(p, x1, close);
    if ok {
        let rest = seq![Action::DownloadLogits(Gpu::Cuda), Action::ReturnLogits];
        lemma_join(p, x1, close, rest);
        lemma_two(p, x2, rest[0], rest[1]);
        assert((close + rest).last() == Action::ReturnLogits);
    } else {
        let first = close.push(Action::DownloadHidden(Gpu::Cuda));
        let rest = host_part(p, false);
        assert(first.drop_last() =~= close);
        lemma_join(p, x1, first, rest.actions);
        lemma_host_part(p, all_done(p, x1, first), false);
        assert((first + rest.actions).last() == rest.actions.last());
    }
}

/// A pass stays on track, whatever a device answers: what comes back at its end are the
/// logits of a state that went through every block once and in order, on a device, on the
/// host, or on the device and for the head on the host. Only where a model is on both
/// devices and the head fails on Metal does the state go through the blocks again.
pub proof fn law_pass_stays_on_track(p: Pass, s: Stage, x: Progress, ok: bool)
    requires
        stage_ok(p, s),
        s != Stage::Done,
        on_track(p, s, x, asked(s)),
        !(s is MetalHead && !ok && p.cuda),
    ensures
        stays_on_track(p, s, x, ok),
{
    match s {
        Stage::MetalEmbed => lemma_metal_embed(p, s, x, ok),
        Stage::MetalLayer(_) => lemma_metal_layer(p, s, x, ok),
        Stage::MetalHead => lemma_metal_head(p, s, x, ok),
        Stage::CudaCapture => lemma_cuda_capture(p, s, x, ok),
        Stage::CudaLayer { .. } => lemma_cuda_layer(p, s, x, ok),
        Stage::CudaHead { .. } => lemma_cuda_head(p, s, x, ok),
        Stage::Done => {},
    }
}

} // verus!
