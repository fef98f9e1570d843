//! What is put onto a device while a model is loaded: how the offload plan comes
//! about, which tensors it admits, which weights are stacked for fused operators,
//! and the bytes that all of it takes.
use crate::graph::offload::{fit_blocks, prefix_bytes, OffloadPlan, OffloadRequest};
use crate::metal::concat::{can_stack, concat_rows, sound_sizes, stacked};
use crate::models::weight_reg::{
    register_cuda_weight, register_steps_spec, weight_reg_spec, RegisterStep,
};
use crate::models::weights::Weight;
use crate::models::Device;
use crate::tensor::{Tensor, TensorType};
use crate::text::{block_name, block_tensor};
use vstd::prelude::*;

verus! {

/// What was asked: an explicit request wins over the setting of the environment.
pub open spec fn request_spec(request: OffloadRequest, env: Option<Seq<char>>) -> Option<
    OffloadRequest,
> {
    match request {
        OffloadRequest::Default => OffloadRequest::parse_spec(env),
        _ => Some(request),
    }
}

/// Whether `k` is the number of leading blocks that a budget holds when a quarter
/// of it is kept back.
pub open spec fn fits_budget(k: int, budget: usize, per_block: Seq<usize>) -> bool {
    let reserve = budget / 4;
    &&& 0 <= k <= per_block.len()
    &&& k > 0 ==> prefix_bytes(per_block, k) + reserve <= budget
    &&& k < per_block.len() ==> prefix_bytes(per_block, k + 1) + reserve > budget
}

/// The offload plan of a load, before the first weight is registered. `budget` is
/// what the device lets weights take, where that is known; `per_block` are the
/// bytes of the blocks. `None` if the setting cannot be read, or if the memory
/// decides and is not known.
pub fn resolve_plan(
    request: OffloadRequest,
    env: Option<&str>,
    n_layer: usize,
    device: bool,
    budget: Option<usize>,
    per_block: &Vec<usize>,
) -> (r: Option<OffloadPlan>)
    ensures
        match request_spec(
            request,
            match env {
                Some(s) => Some(s@),
                None => None,
            },
        ) {
            None => r is None,
            Some(OffloadRequest::Auto) => match budget {
                None => r is None,
                Some(b) => r matches Some(p) && p.n_layers == n_layer && fits_budget(
                    p.gpu_layers as int,
                    b,
                    per_block@,
                ),
            },
            Some(q) => r == Some(q.plan_spec(n_layer, device, 0)),
        },
{
    let q: OffloadRequest = match request {
        OffloadRequest::Default => OffloadRequest::parse(env)?,
        _ => request,
    };
    match q {
        OffloadRequest::Auto => {
            let b: usize = budget?;
            let gpu_layers: usize = fit_blocks(b, per_block, b / 4);
            Some(OffloadPlan { gpu_layers, n_layers: n_layer })
        },
        _ => Some(q.plan(n_layer, device, 0)),
    }
}

/// The devices that weights are registered with.
#[derive(Debug, Clone, Copy, PartialEq, Eq, Structural)]
pub struct Targets {
    pub metal: bool,
    pub cuda: bool,
    /// The switches for the Q4_K scale plane are all on.
    pub dsc_gates: bool,
}

/// What an architecture registers with Metal besides what all of them do.
#[derive(Debug, Clone, Copy, PartialEq, Eq, Structural)]
pub struct MetalTypes {
    /// Weights of the five-bit types.
    pub fives: bool,
}

/// Whether weights of a type are registered with Metal.
pub open spec fn metal_takes(t: TensorType, kinds: MetalTypes) -> bool {
    ||| t is Q4_0 || t is Q4_1 || t is Q4_K || t is Q6_K || t is Q8_0 || t is F32
    ||| kinds.fives && (t is Q5_0 || t is Q5_1 || t is Q5_K)
}

/// How one tensor is registered.
pub struct TensorUpload {
    /// Its bytes go to Metal.
    pub metal: bool,
    /// What is done on CUDA, in order.
    pub cuda: Vec<RegisterStep>,
    /// The bytes that it is charged with.
    pub counted: usize,
}

/// Whether a tensor is registered with Metal.
pub open spec fn to_metal(t: Tensor, plan: OffloadPlan, to: Targets, kinds: MetalTypes) -> bool {
    to.metal && plan.allows(t.name@) && metal_takes(t.ttype, kinds)
}

/// What is done with a tensor on CUDA.
pub open spec fn to_cuda(t: Tensor, rank: int, plan: OffloadPlan, to: Targets) -> Seq<
    RegisterStep,
> {
    if to.cuda && plan.allows(t.name@) {
        register_steps_spec(
            weight_reg_spec(
                t.ttype,
                rank,
                t.data@.len() as int,
                t.shape@[1] as int,
                t.shape@[0] as int,
                to.dsc_gates,
            ),
        )
    } else {
        Seq::empty()
    }
}

/// The bytes that a tensor is charged with: on Metal if it is registered there, on
/// CUDA if the plan admits it.
pub open spec fn counted(t: Tensor, plan: OffloadPlan, to: Targets, kinds: MetalTypes) -> int {
    (if to_metal(t, plan, to, kinds) {
        t.data@.len() as int
    } else {
        0
    }) + (if to.cuda && plan.allows(t.name@) {
        t.data@.len() as int
    } else {
        0
    })
}

fn kept_on_metal(t: TensorType, kinds: MetalTypes) -> (r: bool)
    ensures
        r == metal_takes(t, kinds),
{
    match t {
        TensorType::Q4_0 | TensorType::Q4_1 | TensorType::Q4_K | TensorType::Q6_K
        | TensorType::Q8_0 | TensorType::F32 => true,
        TensorType::Q5_0 | TensorType::Q5_1 | TensorType::Q5_K => kinds.fives,
        _ => false,
    }
}

/// How a tensor of `rank` stored dimensions is registered: not at all, unless the
/// plan puts its block on the device.
pub fn upload_tensor(
    t: &Tensor,
    rank: usize,
    plan: OffloadPlan,
    to: Targets,
    kinds: MetalTypes,
) -> (r: TensorUpload)
    requires
        0 <= t.shape@[0] <= usize::MAX,
        0 <= t.shape@[1] <= usize::MAX,
        counted(*t, plan, to, kinds) <= usize::MAX,
    ensures
        r.metal == to_metal(*t, plan, to, kinds),
        r.cuda@ == to_cuda(*t, rank as int, plan, to),
        r.counted == counted(*t, plan, to, kinds),
{
    let n: usize = t.data.len();
    if !plan.allows_weight(t.name.as_str()) {
        return TensorUpload { metal: false, cuda: Vec::new(), counted: 0 };
    }
    let metal: bool = to.metal && kept_on_metal(t.ttype, kinds);
    let on_metal: usize = if metal {
        n
    } else {
        0
    };
    let on_cuda: usize = if to.cuda {
        n
    } else {
        0
    };
    let cuda: Vec<RegisterStep> = if to.cuda {
        register_cuda_weight(t.ttype, n, &t.shape, rank, to.dsc_gates)
    } else {
        Vec::new()
    };
    TensorUpload { metal, cuda, counted: on_metal + on_cuda }
}

/// The place of the head in a model's list of weights.
pub const HEAD: usize = 1;

/// The bytes that the first `n` weights of a model are charged with. A head that
/// is the token embedding again is not registered a second time.
pub open spec fn charged(
    ws: Seq<Weight<'_>>,
    tied: bool,
    plan: OffloadPlan,
    to: Targets,
    kinds: MetalTypes,
    n: int,
) -> int
    decreases n,
{
    if n <= 0 {
        0
    } else {
        charged(ws, tied, plan, to, kinds, n - 1) + (match ws[n - 1].tensor {
            Some(t) if !(tied && n - 1 == HEAD) => counted(*t, plan, to, kinds),
            _ => 0,
        })
    }
}

proof fn lemma_charged_grows(
    ws: Seq<Weight<'_>>,
    tied: bool,
    plan: OffloadPlan,
    to: Targets,
    kinds: MetalTypes,
    k: int,
    n: int,
)
    requires
        0 <= k <= n,
    ensures
        charged(ws, tied, plan, to, kinds, k) <= charged(ws, tied, plan, to, kinds, n),
    decreases n - k,
{
    if k < n {
        lemma_charged_grows(ws, tied, plan, to, kinds, k, n - 1);
    }
}

fn charge(t: &Tensor, plan: OffloadPlan, to: Targets, kinds: MetalTypes) -> (n: usize)
    requires
        counted(*t, plan, to, kinds) <= usize::MAX,
    ensures
        n == counted(*t, plan, to, kinds),
{
    let n: usize = t.data.len();
    if !plan.allows_weight(t.name.as_str()) {
        return 0;
    }
    let on_metal: usize = if to.metal && kept_on_metal(t.ttype, kinds) {
        n
    } else {
        0
    };
    let on_cuda: usize = if to.cuda {
        n
    } else {
        0
    };
    on_metal + on_cuda
}

/// The bytes that a model's weights take on the device.
pub fn device_bytes(
    ws: &Vec<Weight<'_>>,
    tied: bool,
    plan: OffloadPlan,
    to: Targets,
    kinds: MetalTypes,
) -> (n: usize)
    requires
        charged(ws@, tied, plan, to, kinds, ws@.len() as int) <= usize::MAX,
    ensures
        n == charged(ws@, tied, plan, to, kinds, ws@.len() as int),
{
    let mut n: usize = 0;
    let mut i: usize = 0;
    while i < ws.len()
        invariant
            i <= ws@.len(),
            charged(ws@, tied, plan, to, kinds, ws@.len() as int) <= usize::MAX,
            n == charged(ws@, tied, plan, to, kinds, i as int),
        decreases ws@.len() - i,
    {
        proof {
            lemma_charged_grows(ws@, tied, plan, to, kinds, i + 1, ws@.len() as int);
            lemma_charged_grows(ws@, tied, plan, to, kinds, 0, i as int);
        }
        match ws[i].tensor {
            Some(t) => {
                if !(tied && i == HEAD) {
                    n = n + charge(t, plan, to, kinds);
                }
            },
            None => {},
        }
        i = i + 1;
    }
    n
}

/// A plan without blocks registers nothing.
pub proof fn law_nothing_registered_without_blocks(
    t: Tensor,
    rank: int,
    plan: OffloadPlan,
    to: Targets,
    kinds: MetalTypes,
)
    requires
        plan.gpu_layers == 0,
    ensures
        !to_metal(t, plan, to, kinds),
        to_cuda(t, rank, plan, to) == Seq::<RegisterStep>::empty(),
        counted(t, plan, to, kinds) == 0,
{
}

/// The layout that stacked weights are registered in.
#[derive(Debug, Clone, Copy, PartialEq, Eq, Structural)]
pub enum StackLayout {
    Raw,
    /// Q6_K in its padded layout.
    Padded { rows: usize, cols: usize },
}

/// Weights stacked into one, to be registered under one name.
pub struct StackedUpload {
    pub device: Device,
    pub name: String,
    pub layout: StackLayout,
    pub data: Vec<u8>,
}

/// Stacked weights as a value.
#[verifier::ext_equal]
pub struct StackedView {
    pub device: Device,
    pub name: Seq<char>,
    pub layout: StackLayout,
    pub data: Seq<u8>,
}

impl View for StackedUpload {
    type V = StackedView;

    open spec fn view(&self) -> StackedView {
        StackedView {
            device: self.device,
            name: self.name@,
            layout: self.layout,
            data: self.data@,
        }
    }
}

/// The largest feed-forward size whose gate and up projection are stacked.
pub const MAX_STACKED_FF: i64 = 16384;

/// The stacked attention projections of a block.
pub open spec fn qkv_stack(
    parts: Option<Seq<&Tensor>>,
    ns: Seq<char>,
    il: usize,
    plan: OffloadPlan,
    to: Targets,
) -> Seq<StackedView> {
    match parts {
        Some(ts) if il < plan.gpu_layers && to.metal && can_stack(ts) => seq![
            StackedView {
                device: Device::Metal,
                name: ns + block_name(il as nat, "attn_qkv"@),
                layout: StackLayout::Raw,
                data: stacked(ts),
            },
        ],
        _ => Seq::empty(),
    }
}

/// The layout of a block's stacked gate and up projection on CUDA.
pub open spec fn gate_up_layout(gate: &Tensor, up: &Tensor) -> StackLayout {
    if gate.ttype is Q6_K {
        StackLayout::Padded {
            rows: (gate.shape@[1] + up.shape@[1]) as usize,
            cols: gate.shape@[0] as usize,
        }
    } else {
        StackLayout::Raw
    }
}

/// The stacked gate and up projection of a block: on Metal, then on CUDA.
pub open spec fn gate_up_stacks(
    pair: Option<(&Tensor, &Tensor)>,
    ns: Seq<char>,
    il: usize,
    plan: OffloadPlan,
    to: Targets,
    no_fuse: bool,
) -> Seq<StackedView> {
    match pair {
        Some((gate, up)) if il < plan.gpu_layers && gate.shape@[1] <= MAX_STACKED_FF && !no_fuse
            && can_stack(seq![gate, up]) => {
            let name = ns + block_name(il as nat, "ffn_gu"@);
            let data = stacked(seq![gate, up]);
            (if to.metal {
                seq![StackedView { device: Device::Metal, name, layout: StackLayout::Raw, data }]
            } else {
                Seq::empty()
            }) + (if to.cuda {
                seq![
                    StackedView {
                        device: Device::Cuda,
                        name,
                        layout: gate_up_layout(gate, up),
                        data,
                    },
                ]
            } else {
                Seq::empty()
            })
        },
        _ => Seq::empty(),
    }
}

/// The views of some stacked weights.
pub open spec fn stack_views(v: Seq<StackedUpload>) -> Seq<StackedView> {
    v.map_values(|s: StackedUpload| s@)
}

fn stack_name(ns: &str, il: usize, suffix: &str) -> (r: String)
    ensures
        r@ == ns@ + block_name(il as nat, suffix@),
{
    let mut r: String = ns.to_owned();
    let rest: String = block_tensor(il, suffix);
    r.append(rest.as_str());
    r
}

/// Three tensors, if all are there.
pub open spec fn three(a: Option<Tensor>, b: Option<Tensor>, c: Option<Tensor>) -> Option<
    Seq<&'static Tensor>,
> {
    if a is Some && b is Some && c is Some {
        Some(seq![&a->0, &b->0, &c->0])
    } else {
        None
    }
}

/// Two tensors, if both are there.
pub open spec fn two(a: Option<Tensor>, b: Option<Tensor>) -> Option<
    (&'static Tensor, &'static Tensor),
> {
    if a is Some && b is Some {
        Some((&a->0, &b->0))
    } else {
        None
    }
}

/// The stacked attention projections of a block, where a fused operator can read
/// them.
pub fn stack_qkv(
    wq: &Option<Tensor>,
    wk: &Option<Tensor>,
    wv: &Option<Tensor>,
    ns: &str,
    il: usize,
    plan: OffloadPlan,
    to: Targets,
    out: &mut Vec<StackedUpload>,
)
    requires
        three(*wq, *wk, *wv) matches Some(ts) ==> sound_sizes(ts),
    ensures
        stack_views(final(out)@) == stack_views(old(out)@) + qkv_stack(
            three(*wq, *wk, *wv),
            ns@,
            il,
            plan,
            to,
        ),
{
    let ghost before = out@;
    let ghost want = qkv_stack(three(*wq, *wk, *wv), ns@, il, plan, to);
    if plan.on_device(il) && to.metal {
        if let (Some(q), Some(k), Some(v)) = (wq, wk, wv) {
            let ts: [&Tensor; 3] = [q, k, v];
            assert(ts@ =~= three(*wq, *wk, *wv)->0);
            if let Some(data) = concat_rows(ts.as_slice()) {
                let s: StackedUpload = StackedUpload {
                    device: Device::Metal,
                    name: stack_name(ns, il, "attn_qkv"),
                    layout: StackLayout::Raw,
                    data,
                };
                out.push(s);
                assert(stack_views(out@) =~= stack_views(before).push(s@));
                assert(want =~= seq![s@]);
            }
        }
    }
    assert(stack_views(out@) =~= stack_views(before) + want);
}

/// The stacked gate and up projection of a block, where a fused operator can read
/// them.
pub fn stack_gate_up(
    gate: &Option<Tensor>,
    up: &Option<Tensor>,
    ns: &str,
    il: usize,
    plan: OffloadPlan,
    to: Targets,
    no_fuse: bool,
    out: &mut Vec<StackedUpload>,
)
    requires
        two(*gate, *up) matches Some((g, u)) ==> sound_sizes(seq![g, u]) && g.shape@[1]
            + u.shape@[1] <= usize::MAX,
    ensures
        stack_views(final(out)@) == stack_views(old(out)@) + gate_up_stacks(
            two(*gate, *up),
            ns@,
            il,
            plan,
            to,
            no_fuse,
        ),
{
    let ghost before = out@;
    let ghost want = gate_up_stacks(two(*gate, *up), ns@, il, plan, to, no_fuse);
    if plan.on_device(il) && !no_fuse {
        if let (Some(g), Some(u)) = (gate, up) {
            let ts: [&Tensor; 2] = [g, u];
            assert(ts@ =~= seq![g, u]);
            assert(sound_sizes(ts@));
            assert(ts@[0].shape@[0] >= 0 && ts@[1].shape@[1] >= 0);
            if g.shape[1] <= MAX_STACKED_FF {
                if to.metal {
                    if let Some(data) = concat_rows(ts.as_slice()) {
                        let s: StackedUpload = StackedUpload {
                            device: Device::Metal,
                            name: stack_name(ns, il, "ffn_gu"),
                            layout: StackLayout::Raw,
                            data,
                        };
                        let ghost here = out@;
                        out.push(s);
                        assert(stack_views(out@) =~= stack_views(here).push(s@));
                    }
                }
                if to.cuda {
                    if let Some(data) = concat_rows(ts.as_slice()) {
                        let layout: StackLayout = if g.ttype == TensorType::Q6_K {
                            StackLayout::Padded {
                                rows: g.shape[1] as usize + u.shape[1] as usize,
                                cols: g.shape[0] as usize,
                            }
                        } else {
                            StackLayout::Raw
                        };
                        let s: StackedUpload = StackedUpload {
                            device: Device::Cuda,
                            name: stack_name(ns, il, "ffn_gu"),
                            layout,
                            data,
                        };
                        let ghost here = out@;
                        out.push(s);
                        assert(stack_views(out@) =~= stack_views(here).push(s@));
                    }
                }
            }
        }
    }
    assert(stack_views(out@) =~= stack_views(before) + want);
}

/// Blocks are put on a device until three quarters of its budget are used: those that are
/// there take no more, and one more would.
pub proof fn law_a_quarter_is_kept_free(k: int, budget: usize, per_block: Seq<usize>)
    requires
        fits_budget(k, budget, per_block),
    ensures
        0 <= k <= per_block.len(),
        k > 0 ==> 4 * prefix_bytes(per_block, k) < 3 * budget + 4,
        k < per_block.len() ==> 4 * prefix_bytes(per_block, k + 1) > 3 * budget,
{
}

/// What Metal holds: plain floats, Q4 and Q8 blocks and the K types of four and six bits,
/// those of five bits only where they are asked for, half floats and bytes never.
pub proof fn law_what_metal_holds(t: TensorType, kinds: MetalTypes)
    ensures
        t is F32 || t is Q4_0 || t is Q4_1 || t is Q8_0 || t is Q4_K || t is Q6_K
            ==> metal_takes(t, kinds),
        t is Q5_0 || t is Q5_1 || t is Q5_K ==> metal_takes(t, kinds) == kinds.fives,
        t is F16 || t is I8 ==> !metal_takes(t, kinds),
{
}

/// A tensor counts with its bytes once for each device that it is put on.
pub proof fn law_bytes_count_per_device(
    t: Tensor,
    rank: int,
    plan: OffloadPlan,
    to: Targets,
    kinds: MetalTypes,
)
    ensures
        ({
            let metal = to_metal(t, plan, to, kinds);
            let n = counted(t, plan, to, kinds);
            let cuda = to.cuda && plan.allows(t.name@);
            &&& metal ==> to.metal && plan.allows(t.name@)
            &&& !metal && !cuda ==> n == 0
            &&& metal && !cuda ==> n == t.data@.len()
            &&& !metal && cuda ==> n == t.data@.len()
            &&& metal && cuda ==> n == t.data@.len() + t.data@.len()
            &&& !cuda ==> to_cuda(t, rank, plan, to).len() == 0
            &&& cuda && !(t.ttype is I8) ==> to_cuda(t, rank, plan, to).len() > 0
        }),
{
}

proof fn lemma_tied_head(
    ws: Seq<Weight<'_>>,
    plan: OffloadPlan,
    to: Targets,
    kinds: MetalTypes,
    n: int,
)
    requires
        0 <= n <= ws.len(),
    ensures
        charged(ws, false, plan, to, kinds, n) == charged(ws, true, plan, to, kinds, n) + (if n >= 2
            && ws[1].tensor is Some {
            counted(*ws[1].tensor->0, plan, to, kinds)
        } else {
            0
        }),
    decreases n,
{
    if n > 0 {
        lemma_tied_head(ws, plan, to, kinds, n - 1);
    }
}

/// All weights count, those that are there; of a model whose head is its embedding the
/// head, which is the second weight, does not.
pub proof fn law_a_tied_head_counts_once(
    ws: Seq<Weight<'_>>,
    plan: OffloadPlan,
    to: Targets,
    kinds: MetalTypes,
    n: int,
)
    requires
        0 < n <= ws.len(),
    ensures
        charged(ws, false, plan, to, kinds, n) == charged(ws, true, plan, to, kinds, n) + (if n >= 2
            && ws[1].tensor is Some {
            counted(*ws[1].tensor->0, plan, to, kinds)
        } else {
            0
        }),
        charged(ws, false, plan, to, kinds, 0) == 0,
        charged(ws, false, plan, to, kinds, n) - charged(ws, false, plan, to, kinds, n - 1) == (
        match ws[n - 1].tensor {
            Some(t) => counted(*t, plan, to, kinds),
            None => 0,
        }),
{
    lemma_tied_head(ws, plan, to, kinds, n);
}

proof fn lemma_stacked_pair(a: &Tensor, b: &Tensor)
    ensures
        stacked(seq![a, b]) == a.data@ + b.data@,
{
    let ts = seq![a, b];
    assert(ts.drop_last() =~= seq![a]);
    assert(ts.drop_last().drop_last() =~= Seq::<&Tensor>::empty());
    assert(stacked(ts.drop_last().drop_last()) == Seq::<u8>::empty());
    assert(stacked(ts.drop_last()) =~= a.data@);
}

/// A stack of projections is the bytes of the queries' weight, then the keys', then the
/// values'. Metal gets it for each block that runs there.
pub proof fn law_stacked_projections(
    q: Tensor,
    k: Tensor,
    v: Tensor,
    ns: Seq<char>,
    il: usize,
    plan: OffloadPlan,
    to: Targets,
)
    ensures
        ({
            let r = qkv_stack(three(Some(q), Some(k), Some(v)), ns, il, plan, to);
            &&& r.len() <= 1
            &&& r.len() == 1 <==> il < plan.gpu_layers && to.metal && can_stack(seq![&q, &k, &v])
            &&& r.len() == 1 ==> {
                &&& r[0].device is Metal
                &&& r[0].layout is Raw
                &&& r[0].name == ns + block_name(il as nat, "attn_qkv"@)
                &&& r[0].data == q.data@ + k.data@ + v.data@
            }
        }),
{
    let ts = seq![&q, &k, &v];
    assert(ts.drop_last() =~= seq![&q, &k]);
    lemma_stacked_pair(&q, &k);
}

/// A stack of gate and up projection is the bytes of `gate`, then those of `up`. Both devices get it for each block that runs there, unless it is switched
/// off or too tall; CUDA gets a Q6_K one padded, with the rows of both.
pub proof fn law_stacked_gate_and_up(
    gate: Tensor,
    up: Tensor,
    ns: Seq<char>,
    il: usize,
    plan: OffloadPlan,
    to: Targets,
    no_fuse: bool,
)
    requires
        0 <= gate.shape@[0] <= usize::MAX,
        0 <= gate.shape@[1] + up.shape@[1] <= usize::MAX,
    ensures
        ({
            let r = gate_up_stacks(two(Some(gate), Some(up)), ns, il, plan, to, no_fuse);
            let made = il < plan.gpu_layers && !no_fuse && gate.shape@[1] <= 16384 && can_stack(
                seq![&gate, &up],
            );
            &&& !made ==> r.len() == 0
            &&& made ==> r.len() == (if to.metal {
                1int
            } else {
                0
            }) + (if to.cuda {
                1int
            } else {
                0
            })
            &&& forall|i: int|
                0 <= i < r.len() ==> {
                    &&& (#[trigger] r[i]).name == ns + block_name(il as nat, "ffn_gu"@)
                    &&& r[i].data == gate.data@ + up.data@
                    &&& r[i].device is Metal || r[i].device is Cuda
                    &&& r[i].device is Metal ==> to.metal && r[i].layout is Raw
                    &&& r[i].device is Cuda ==> to.cuda && (r[i].layout is Padded
                        <==> gate.ttype is Q6_K)
                    &&& r[i].layout matches StackLayout::Padded { rows, cols } ==> rows
                        == gate.shape@[1] + up.shape@[1] && cols == gate.shape@[0]
                }
            &&& r.len() == 2 ==> r[0].device is Metal && r[1].device is Cuda
        }),
{
    lemma_stacked_pair(&gate, &up);
}

} // verus!
