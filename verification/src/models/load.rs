//! Loads a model for a device: the offload plan first, then the weights, then what
//! the device makes of them.
use crate::gguf::{GgufModel, GgufPart};
use crate::graph::offload::{OffloadPlan, OffloadRequest};
use crate::metal::MpsState;
use crate::models::def::ModelDef;
use crate::models::meta::{block_weight_bytes, parts_bytes, sizes_ok};
use crate::models::qwen2::graph::Qwen2Graph;
use crate::models::qwen2::Qwen2Model;
use crate::models::qwen3::graph::Qwen3Graph;
use crate::models::qwen3::Qwen3Model;
use crate::models::register::{
    charged, device_bytes, fits_budget, request_spec, resolve_plan, MetalTypes, Targets,
};
use crate::models::weights::{CudaRegistry, Weight};
use crate::models::{
    architecture, architecture_spec, qwen2, qwen3, Architecture, Device, LoadedModel, OffloadState,
};
use vstd::prelude::*;

verus! {

/// What a load is asked for, and what it finds.
pub struct LoadRequest<'a> {
    pub request: OffloadRequest,
    /// The setting of the environment, which counts if nothing was requested.
    pub gpu_layers: Option<&'a str>,
    /// A device is there.
    pub device: bool,
    /// What the device lets weights take, where that is known.
    pub budget: Option<usize>,
    pub targets: Targets,
    /// Where the request came from.
    pub source: String,
}

impl LoadRequest<'_> {
    /// The request that counts.
    pub open spec fn effective(&self) -> Option<OffloadRequest> {
        request_spec(
            self.request,
            match self.gpu_layers {
                Some(s) => Some(s@),
                None => None,
            },
        )
    }

    /// Whether the request leads to a plan: it can be read, and the memory is known
    /// if it decides.
    pub open spec fn has_plan(&self) -> bool {
        match self.effective() {
            None => false,
            Some(OffloadRequest::Auto) => self.budget is Some,
            Some(_) => true,
        }
    }

    /// Whether `p` is the plan that the request leads to for `n` blocks of these
    /// sizes.
    pub open spec fn leads_to(&self, p: OffloadPlan, n: usize, per_block: Seq<usize>) -> bool {
        match self.effective() {
            None => false,
            Some(OffloadRequest::Auto) => self.budget matches Some(b) && p.n_layers == n
                && fits_budget(p.gpu_layers as int, b, per_block),
            Some(q) => p == q.plan_spec(n, self.device, 0),
        }
    }
}

/// The bytes of each block, as the index has them.
pub open spec fn per_block(parts: Seq<GgufPart>, n: usize) -> Seq<usize> {
    Seq::new(n as nat, |b: int| parts_bytes(parts, b, parts.len() as int) as usize)
}

/// The bytes that the weights of a Qwen2 model are charged with. It registers no weight
/// of a five-bit type with Metal.
pub open spec fn qwen2_bytes(m: &Qwen2Model, plan: OffloadPlan, to: Targets) -> int {
    let ws = qwen2::graph::model_roles(m, m.layers@.len() as int);
    charged(ws, m.tied, plan, to, MetalTypes { fives: false }, ws.len() as int)
}

/// The bytes that the weights of a Qwen3 model are charged with.
pub open spec fn qwen3_bytes(m: &Qwen3Model, plan: OffloadPlan, to: Targets) -> int {
    let ws = qwen3::graph::model_roles(m, m.layers@.len() as int);
    charged(ws, m.tied, plan, to, MetalTypes { fives: true }, ws.len() as int)
}

/// Files that a Qwen2 model can be loaded from, in sizes that machine words hold.
pub open spec fn qwen2_ok(parts: Seq<GgufPart>, ns: Seq<char>, to: Targets) -> bool {
    &&& qwen2::loader::loadable(parts)
    &&& qwen2::loader::model_hparams(parts) matches Some(h) ==> sizes_ok(parts, h.n_layer as int)
    &&& forall|m: Qwen2Model, plan: OffloadPlan|
        qwen2::loader::model_loaded(m, parts, ns) ==> #[trigger] qwen2_bytes(&m, plan, to)
            <= usize::MAX
}

/// Files that a Qwen3 model can be loaded from, in sizes that machine words hold.
pub open spec fn qwen3_ok(parts: Seq<GgufPart>, ns: Seq<char>, to: Targets) -> bool {
    &&& qwen3::loader::loadable(parts)
    &&& qwen3::loader::model_hparams(parts) matches Some(h) ==> sizes_ok(parts, h.n_layer as int)
    &&& forall|m: Qwen3Model, plan: OffloadPlan|
        qwen3::loader::model_loaded(m, parts, ns) ==> #[trigger] qwen3_bytes(&m, plan, to)
            <= usize::MAX
}

proof fn lemma_qwen2_roles(a: &Qwen2Model, b: &Qwen2Model, k: int)
    requires
        *b == (Qwen2Model { offload: b.offload, ..*a }),
    ensures
        qwen2::graph::model_roles(a, k) == qwen2::graph::model_roles(b, k),
    decreases k,
{
    if k > 0 {
        lemma_qwen2_roles(a, b, k - 1);
    }
}

proof fn lemma_qwen3_roles(a: &Qwen3Model, b: &Qwen3Model, k: int)
    requires
        *b == (Qwen3Model { offload: b.offload, ..*a }),
    ensures
        qwen3::graph::model_roles(a, k) == qwen3::graph::model_roles(b, k),
    decreases k,
{
    if k > 0 {
        lemma_qwen3_roles(a, b, k - 1);
    }
}

fn plan_of(model: &GgufModel, n_layer: i64, q: &LoadRequest<'_>) -> (r: Option<OffloadPlan>)
    requires
        0 <= n_layer <= usize::MAX,
        sizes_ok(model.parts@, n_layer as int),
    ensures
        r is Some <==> q.has_plan(),
        r matches Some(p) ==> q.leads_to(
            p,
            n_layer as usize,
            per_block(model.parts@, n_layer as usize),
        ),
{
    let n: usize = n_layer as usize;
    let sizes: Vec<usize> = block_weight_bytes(model, n);
    assert(sizes@ =~= per_block(model.parts@, n));
    resolve_plan(q.request, q.gpu_layers, n, q.device, q.budget, &sizes)
}

fn load_qwen2(model: &GgufModel, ns: &str, q: LoadRequest<'_>) -> (r: Option<Qwen2Model>)
    requires
        qwen2_ok(model.parts@, ns@, q.targets),
    ensures
        r is Some <==> q.has_plan() && qwen2::loader::model_hparams(model.parts@) is Some
            && qwen2::loader::own(model.parts@, ns@, qwen2::tensor_names::TOKEN_EMBD@) is Some,
        r matches Some(m) ==> {
            let n = m.hparams.n_layer as usize;
            &&& qwen2::loader::model_loaded(m, model.parts@, ns@)
            &&& q.leads_to(m.offload.plan, n, per_block(model.parts@, n))
            &&& m.offload.device_bytes == qwen2_bytes(&m, m.offload.plan, q.targets)
            &&& m.offload.source == q.source
        },
{
    let h: qwen2::loader::HParams = qwen2::loader::hparams_from_gguf(&model.parts[0].ctx)?;
    let plan: OffloadPlan = plan_of(model, h.n_layer, &q)?;
    let to: Targets = q.targets;
    let first: OffloadState = OffloadState { plan, device_bytes: 0, source: q.source };
    let mut m: Qwen2Model = qwen2::loader::load(model, ns, first)?;
    let ghost before = m;
    let bytes: usize = {
        let ws: Vec<Weight<'_>> = Qwen2Graph::graph_weights(&m);
        assert(qwen2_bytes(&m, plan, to) <= usize::MAX);
        device_bytes(&ws, m.tied, plan, to, MetalTypes { fives: false })
    };
    m.offload.device_bytes = bytes;
    proof {
        lemma_qwen2_roles(&before, &m, m.layers@.len() as int);
    }
    Some(m)
}

fn load_qwen3(model: &GgufModel, ns: &str, q: LoadRequest<'_>) -> (r: Option<Qwen3Model>)
    requires
        qwen3_ok(model.parts@, ns@, q.targets),
    ensures
        r is Some <==> q.has_plan() && qwen3::loader::model_hparams(model.parts@) is Some
            && qwen3::loader::own(model.parts@, ns@, qwen3::tensor_names::TOKEN_EMBD@) is Some,
        r matches Some(m) ==> {
            let n = m.hparams.n_layer as usize;
            &&& qwen3::loader::model_loaded(m, model.parts@, ns@)
            &&& q.leads_to(m.offload.plan, n, per_block(model.parts@, n))
            &&& m.offload.device_bytes == qwen3_bytes(&m, m.offload.plan, q.targets)
            &&& m.offload.source == q.source
        },
{
    let h: qwen3::loader::HParams = qwen3::loader::hparams_from_gguf(&model.parts[0].ctx)?;
    let plan: OffloadPlan = plan_of(model, h.n_layer, &q)?;
    let to: Targets = q.targets;
    let first: OffloadState = OffloadState { plan, device_bytes: 0, source: q.source };
    let mut m: Qwen3Model = qwen3::loader::load(model, ns, first)?;
    let ghost before = m;
    let bytes: usize = {
        let ws: Vec<Weight<'_>> = Qwen3Graph::graph_weights(&m);
        assert(qwen3_bytes(&m, plan, to) <= usize::MAX);
        device_bytes(&ws, m.tied, plan, to, MetalTypes { fives: true })
    };
    m.offload.device_bytes = bytes;
    proof {
        lemma_qwen3_roles(&before, &m, m.layers@.len() as int);
    }
    Some(m)
}

/// Whether `r` is what a load gives: nothing, if the files name no architecture that
/// is known, lack a dimension or the token embedding, or if the request leads to no
/// plan; else the model, with the plan and the bytes that its weights take.
pub open spec fn loaded_as(
    r: Option<LoadedModel>,
    parts: Seq<GgufPart>,
    ns: Seq<char>,
    q: LoadRequest<'_>,
) -> bool {
    match architecture_spec(&parts[0].ctx) {
        None => r is None,
        Some(Architecture::Qwen2) => {
            &&& r is Some <==> q.has_plan() && qwen2::loader::model_hparams(parts) is Some
                && qwen2::loader::own(parts, ns, qwen2::tensor_names::TOKEN_EMBD@) is Some
            &&& r matches Some(l) ==> (l matches LoadedModel::Qwen2(m) && {
                let n = m.hparams.n_layer as usize;
                &&& qwen2::loader::model_loaded(m, parts, ns)
                &&& q.leads_to(m.offload.plan, n, per_block(parts, n))
                &&& m.offload.device_bytes == qwen2_bytes(&m, m.offload.plan, q.targets)
                &&& m.offload.source == q.source
            })
        },
        Some(Architecture::Qwen3) => {
            &&& r is Some <==> q.has_plan() && qwen3::loader::model_hparams(parts) is Some
                && qwen3::loader::own(parts, ns, qwen3::tensor_names::TOKEN_EMBD@) is Some
            &&& r matches Some(l) ==> (l matches LoadedModel::Qwen3(m) && {
                let n = m.hparams.n_layer as usize;
                &&& qwen3::loader::model_loaded(m, parts, ns)
                &&& q.leads_to(m.offload.plan, n, per_block(parts, n))
                &&& m.offload.device_bytes == qwen3_bytes(&m, m.offload.plan, q.targets)
                &&& m.offload.source == q.source
            })
        },
    }
}

/// Files that the model they name can be loaded from.
pub open spec fn files_ok(parts: Seq<GgufPart>, ns: Seq<char>, to: Targets) -> bool {
    &&& parts.len() >= 1
    &&& architecture_spec(&parts[0].ctx) == Some(Architecture::Qwen2) ==> qwen2_ok(parts, ns, to)
    &&& architecture_spec(&parts[0].ctx) == Some(Architecture::Qwen3) ==> qwen3_ok(parts, ns, to)
}

/// Loads the model of some files into the namespace `ns`, for an offload request.
pub fn load_model_with(model: &GgufModel, ns: &str, q: LoadRequest<'_>) -> (r: Option<LoadedModel>)
    requires
        files_ok(model.parts@, ns@, q.targets),
    ensures
        loaded_as(r, model.parts@, ns@, q),
{
    match architecture(&model.parts[0].ctx)? {
        Architecture::Qwen2 => match load_qwen2(model, ns, q) {
            Some(m) => Some(LoadedModel::Qwen2(m)),
            None => None,
        },
        Architecture::Qwen3 => match load_qwen3(model, ns, q) {
            Some(m) => Some(LoadedModel::Qwen3(m)),
            None => None,
        },
    }
}

/// Loads the model of some files into the namespace `ns`, as the environment asks.
pub fn load_model_ns(model: &GgufModel, ns: &str, q: LoadRequest<'_>) -> (r: Option<LoadedModel>)
    requires
        files_ok(model.parts@, ns@, q.targets),
    ensures
        loaded_as(
            r,
            model.parts@,
            ns@,
            (LoadRequest { request: OffloadRequest::Default, ..q }),
        ),
{
    let q: LoadRequest<'_> = LoadRequest {
        request: OffloadRequest::Default,
        gpu_layers: q.gpu_layers,
        device: q.device,
        budget: q.budget,
        targets: q.targets,
        source: q.source,
    };
    load_model_with(model, ns, q)
}

/// Loads the model of some files as the first of a process: its weights keep the
/// names that the files give them.
pub fn load_model(model: &GgufModel, q: LoadRequest<'_>) -> (r: Option<LoadedModel>)
    requires
        files_ok(model.parts@, Seq::empty(), q.targets),
    ensures
        loaded_as(
            r,
            model.parts@,
            Seq::empty(),
            (LoadRequest { request: OffloadRequest::Default, ..q }),
        ),
{
    proof {
        reveal_strlit("");
        assert(""@ =~= Seq::<char>::empty());
    }
    load_model_ns(model, "", q)
}

/// Whether `b` is what becomes of the offload state `a` on a device: if blocks were
/// asked onto a device that cannot run them, the host runs everything.
pub open spec fn settled(a: OffloadState, b: OffloadState, device: Device) -> bool {
    if a.plan.gpu_layers != 0 && device == Device::Cpu {
        b.plan == (OffloadPlan { gpu_layers: 0, n_layers: a.plan.n_layers }) && b.device_bytes == 0
            && b.source@ == "default"@
    } else {
        b == a
    }
}

impl LoadedModel {
    /// The plan held against what the devices have registered: nothing but the
    /// offload state changes.
    pub fn settle(self, mps: Option<&MpsState>, cuda: Option<&CudaRegistry>) -> (r: LoadedModel)
        ensures
            match self {
                LoadedModel::Qwen2(m) => r matches LoadedModel::Qwen2(x) && x == (Qwen2Model {
                    offload: x.offload,
                    ..m
                }) && settled(m.offload, x.offload, self.runs_on(mps, cuda)),
                LoadedModel::Qwen3(m) => r matches LoadedModel::Qwen3(x) && x == (Qwen3Model {
                    offload: x.offload,
                    ..m
                }) && settled(m.offload, x.offload, self.runs_on(mps, cuda)),
            },
    {
        let device: Device = self.device(mps, cuda);
        match self {
            LoadedModel::Qwen2(m) => {
                let offload: OffloadState = m.offload.settle(device);
                LoadedModel::Qwen2(
                    Qwen2Model {
                        hparams: m.hparams,
                        tok_embd: m.tok_embd,
                        output_norm: m.output_norm,
                        output: m.output,
                        output_b: m.output_b,
                        layers: m.layers,
                        ns: m.ns,
                        tied: m.tied,
                        offload,
                    },
                )
            },
            LoadedModel::Qwen3(m) => {
                let offload: OffloadState = m.offload.settle(device);
                LoadedModel::Qwen3(
                    Qwen3Model {
                        hparams: m.hparams,
                        tok_embd: m.tok_embd,
                        output_norm: m.output_norm,
                        output: m.output,
                        output_b: m.output_b,
                        layers: m.layers,
                        ns: m.ns,
                        tied: m.tied,
                        offload,
                    },
                )
            },
        }
    }
}

/// A model whose weights are on no device keeps no block there: after a load has
/// settled, blocks on a device mean that a device runs the model.
pub proof fn law_settled_plan_is_run(a: OffloadState, b: OffloadState, device: Device)
    requires
        settled(a, b, device),
    ensures
        b.plan.gpu_layers != 0 ==> device != Device::Cpu,
        b.plan.n_layers == a.plan.n_layers,
{
}

/// Settling twice is settling once.
pub proof fn law_settling_is_idempotent(
    a: OffloadState,
    b: OffloadState,
    c: OffloadState,
    device: Device,
)
    requires
        settled(a, b, device),
        settled(b, c, device),
    ensures
        c == b,
{
}

/// A model whose weights turn out to be on no device is run on the host: none of its blocks
/// is on a device, and neither are any bytes. Else nothing changes.
pub proof fn law_settling_on_the_host(a: OffloadState, b: OffloadState, device: Device)
    requires
        settled(a, b, device),
    ensures
        b.plan.n_layers == a.plan.n_layers,
        device == Device::Cpu ==> b.plan.gpu_layers == 0,
        device == Device::Cpu && a.plan.gpu_layers > 0 ==> b.device_bytes == 0 && b.source@
            == "default"@,
        device != Device::Cpu ==> b == a,
        a.plan.gpu_layers == 0 ==> b == a,
{
}

/// What a model takes on its devices: the bytes of its weights that are put there. Metal
/// holds the types of five bits of a Qwen3 model and not those of a Qwen2 model.
pub proof fn law_bytes_on_the_devices(
    a: &Qwen2Model,
    b: &Qwen3Model,
    plan: OffloadPlan,
    to: Targets,
)
    ensures
        ({
            let ws = qwen2::graph::model_roles(a, a.layers@.len() as int);
            qwen2_bytes(a, plan, to) == charged(
                ws,
                a.tied,
                plan,
                to,
                MetalTypes { fives: false },
                ws.len() as int,
            )
        }),
        ({
            let ws = qwen3::graph::model_roles(b, b.layers@.len() as int);
            qwen3_bytes(b, plan, to) == charged(
                ws,
                b.tied,
                plan,
                to,
                MetalTypes { fives: true },
                ws.len() as int,
            )
        }),
{
}

/// Where a plan comes from: the request, or the environment where the request leaves it
/// open; one for what fits needs to know how much that is.
pub proof fn law_where_a_plan_comes_from(q: LoadRequest<'_>)
    ensures
        q.request is Auto || q.request is Layers ==> q.effective() == Some(q.request),
        q.request is Default && q.gpu_layers is None ==> q.effective() == Some(
            OffloadRequest::Default,
        ),
        q.effective() is None ==> !q.has_plan(),
        q.effective() == Some(OffloadRequest::Auto) ==> q.has_plan() == (q.budget is Some),
        q.effective() is Some && !(q.effective()->0 is Auto) ==> q.has_plan(),
{
}

} // verus!
