//! What every architecture offers, whichever a file names.
use crate::bits::{trunc_div, Real};
use crate::graph::offload::{report_text, OffloadPlan};
use crate::graph::ops::RopeStyle;
use crate::graph::params::{GraphParams, Platform};
use crate::graph::{ComputeGraph, NodeView};
use crate::metal::MpsState;
use crate::models::qwen2::graph::Qwen2Graph;
use crate::models::qwen2::Qwen2Model;
use crate::models::qwen3::graph::Qwen3Graph;
use crate::models::qwen3::Qwen3Model;
use crate::models::weights::{device_spec, CudaRegistry, CudaTypes};
use crate::models::{chatml, format_chatml, qwen2, qwen3, Device, LoadedModel, SpecialTokens};
use vstd::prelude::*;

verus! {

/// What is known of a model.
pub ghost struct Facts {
    pub n_layer: int,
    pub n_head_kv: int,
    pub n_embd_head: int,
    pub n_kv_embd: int,
    pub n_vocab: int,
    pub rope_style: RopeStyle,
    /// Base and scale of the rotary frequencies.
    pub rope: (Real, Real),
    pub special: SpecialTokens,
    /// The offload plan in force, what it takes and where it comes from.
    pub plan: OffloadPlan,
    pub device_bytes: usize,
    pub source: Seq<char>,
}

/// A model of any architecture.
pub trait ModelDef {
    /// What is known of it.
    spec fn facts(&self) -> Facts;

    /// Whether its heads have a size.
    spec fn has_heads(&self) -> bool;

    /// Where its forward passes run.
    spec fn runs_on(&self, mps: Option<&MpsState>, cuda: Option<&CudaRegistry>) -> Device;

    /// Whether a graph can be built for it.
    spec fn buildable(&self, p: GraphParams) -> bool;

    /// The nodes of its graph.
    spec fn nodes(&self, p: GraphParams, e: Platform) -> Seq<NodeView>;

    /// The inputs of its graph.
    spec fn input_ids(&self, p: GraphParams, e: Platform) -> Seq<usize>;

    /// The graph of a forward pass, with the logits as its only output.
    fn build_graph(&self, p: &GraphParams, e: &Platform) -> (g: ComputeGraph)
        requires
            self.buildable(*p),
        ensures
            g.wf(),
            g.view_nodes() == self.nodes(*p, *e),
            g.inputs@ == self.input_ids(*p, *e),
            g.outputs@ == seq![(self.nodes(*p, *e).len() - 1) as usize],
    ;

    /// Where forward passes run.
    fn device(&self, mps: Option<&MpsState>, cuda: Option<&CudaRegistry>) -> (d: Device)
        ensures
            d == self.runs_on(mps, cuda),
    ;

    /// The offload plan in force.
    fn offload(&self) -> (p: OffloadPlan)
        ensures
            p == self.facts().plan,
    ;

    /// The start-up line on the plan; `None` if the host runs everything and nobody
    /// asked for anything else.
    fn offload_report(&self, device: Device) -> (r: Option<String>)
        ensures
            r is None <==> self.facts().plan.gpu_layers == 0 && self.facts().source == "default"@,
            r matches Some(s) ==> s@ == report_text(
                self.facts().plan,
                device.name_spec(),
                self.facts().device_bytes,
                self.facts().source,
            ),
    ;

    /// The messages as a prompt in the ChatML format.
    fn format_chat(&self, messages: &Vec<(String, String)>) -> (s: String)
        ensures
            s@ == chatml(messages@),
    ;

    /// Tokens that end a generation.
    fn special_tokens(&self) -> (r: SpecialTokens)
        ensures
            r == self.facts().special,
    ;

    /// Number of blocks.
    fn n_layer(&self) -> (n: usize)
        requires
            0 <= self.facts().n_layer <= usize::MAX,
        ensures
            n == self.facts().n_layer,
    ;

    /// Number of key/value heads.
    fn n_head_kv(&self) -> (n: usize)
        requires
            0 <= self.facts().n_head_kv <= usize::MAX,
        ensures
            n == self.facts().n_head_kv,
    ;

    /// Elements of one head.
    fn n_embd_head(&self) -> (n: usize)
        requires
            self.has_heads(),
            0 <= self.facts().n_embd_head <= usize::MAX,
        ensures
            n == self.facts().n_embd_head,
    ;

    /// Elements of one key or value row.
    fn n_kv_embd(&self) -> (n: usize)
        requires
            0 <= self.facts().n_kv_embd <= usize::MAX,
        ensures
            n == self.facts().n_kv_embd,
    ;

    /// Number of tokens in the vocabulary.
    fn n_vocab(&self) -> (n: usize)
        requires
            0 <= self.facts().n_vocab <= usize::MAX,
        ensures
            n == self.facts().n_vocab,
    ;

    /// How the rotary embedding pairs elements.
    fn rope_style(&self) -> (r: RopeStyle)
        ensures
            r == self.facts().rope_style,
    ;

    /// Base and scale of the rotary frequencies.
    fn rope_params(&self) -> (r: (Real, Real))
        ensures
            r == self.facts().rope,
    ;
}

impl ModelDef for Qwen2Model {
    open spec fn facts(&self) -> Facts {
        let h = self.hparams;
        Facts {
            n_layer: h.n_layer as int,
            n_head_kv: h.n_head_kv as int,
            n_embd_head: trunc_div(h.n_embd as int, h.n_head as int),
            n_kv_embd: h.n_kv_embd as int,
            n_vocab: h.n_vocab as int,
            rope_style: h.rope_style,
            rope: (h.rope_freq_base, h.rope_freq_scale),
            special: SpecialTokens { eos: h.eos_token_id, im_end: h.im_end_token_id },
            plan: self.offload.plan,
            device_bytes: self.offload.device_bytes,
            source: self.offload.source@,
        }
    }

    open spec fn has_heads(&self) -> bool {
        self.hparams.n_head != 0 && !(self.hparams.n_embd == i64::MIN && self.hparams.n_head == -1)
    }

    open spec fn runs_on(&self, mps: Option<&MpsState>, cuda: Option<&CudaRegistry>) -> Device {
        device_spec(
            qwen2::graph::model_roles(self, self.layers@.len() as int),
            CudaTypes { q5_0: true },
            mps,
            cuda,
        )
    }

    open spec fn buildable(&self, p: GraphParams) -> bool {
        qwen2::graph::model_ok(self, p)
    }

    open spec fn nodes(&self, p: GraphParams, e: Platform) -> Seq<NodeView> {
        qwen2::graph::graph_nodes(self, p, e)
    }

    open spec fn input_ids(&self, p: GraphParams, e: Platform) -> Seq<usize> {
        qwen2::graph::graph_inputs(p)
    }

    fn build_graph(&self, p: &GraphParams, e: &Platform) -> (g: ComputeGraph) {
        Qwen2Graph::build(self, p, e)
    }

    fn device(&self, mps: Option<&MpsState>, cuda: Option<&CudaRegistry>) -> (d: Device) {
        Qwen2Graph::device(self, mps, cuda)
    }

    fn offload(&self) -> (p: OffloadPlan) {
        self.offload.plan
    }

    fn offload_report(&self, device: Device) -> (r: Option<String>) {
        self.offload.report(device)
    }

    fn format_chat(&self, messages: &Vec<(String, String)>) -> (s: String) {
        format_chatml(messages)
    }

    fn special_tokens(&self) -> (r: SpecialTokens) {
        SpecialTokens { eos: self.hparams.eos_token_id, im_end: self.hparams.im_end_token_id }
    }

    fn n_layer(&self) -> (n: usize) {
        self.hparams.n_layer as usize
    }

    fn n_head_kv(&self) -> (n: usize) {
        self.hparams.n_head_kv as usize
    }

    fn n_embd_head(&self) -> (n: usize) {
        self.hparams.n_embd_head() as usize
    }

    fn n_kv_embd(&self) -> (n: usize) {
        self.hparams.n_kv_embd as usize
    }

    fn n_vocab(&self) -> (n: usize) {
        self.hparams.n_vocab as usize
    }

    fn rope_style(&self) -> (r: RopeStyle) {
        self.hparams.rope_style
    }

    fn rope_params(&self) -> (r: (Real, Real)) {
        (self.hparams.rope_freq_base, self.hparams.rope_freq_scale)
    }
}

impl ModelDef for Qwen3Model {
    open spec fn facts(&self) -> Facts {
        let h = self.hparams;
        Facts {
            n_layer: h.n_layer as int,
            n_head_kv: h.n_head_kv as int,
            n_embd_head: h.n_embd_head as int,
            n_kv_embd: h.n_kv_embd as int,
            n_vocab: h.n_vocab as int,
            rope_style: h.rope_style,
            rope: (h.rope_freq_base, h.rope_freq_scale),
            special: SpecialTokens { eos: h.eos_token_id, im_end: h.im_end_token_id },
            plan: self.offload.plan,
            device_bytes: self.offload.device_bytes,
            source: self.offload.source@,
        }
    }

    open spec fn has_heads(&self) -> bool {
        true
    }

    open spec fn runs_on(&self, mps: Option<&MpsState>, cuda: Option<&CudaRegistry>) -> Device {
        device_spec(
            qwen3::graph::model_roles(self, self.layers@.len() as int),
            CudaTypes { q5_0: false },
            mps,
            cuda,
        )
    }

    open spec fn buildable(&self, p: GraphParams) -> bool {
        qwen3::graph::model_ok(self, p)
    }

    open spec fn nodes(&self, p: GraphParams, e: Platform) -> Seq<NodeView> {
        qwen3::graph::graph_nodes(self, p, e)
    }

    open spec fn input_ids(&self, p: GraphParams, e: Platform) -> Seq<usize> {
        qwen3::graph::graph_inputs(self, p, e)
    }

    fn build_graph(&self, p: &GraphParams, e: &Platform) -> (g: ComputeGraph) {
        Qwen3Graph::build(self, p, e)
    }

    fn device(&self, mps: Option<&MpsState>, cuda: Option<&CudaRegistry>) -> (d: Device) {
        Qwen3Graph::device(self, mps, cuda)
    }

    fn offload(&self) -> (p: OffloadPlan) {
        self.offload.plan
    }

    fn offload_report(&self, device: Device) -> (r: Option<String>) {
        self.offload.report(device)
    }

    fn format_chat(&self, messages: &Vec<(String, String)>) -> (s: String) {
        format_chatml(messages)
    }

    fn special_tokens(&self) -> (r: SpecialTokens) {
        SpecialTokens { eos: self.hparams.eos_token_id, im_end: self.hparams.im_end_token_id }
    }

    fn n_layer(&self) -> (n: usize) {
        self.hparams.n_layer as usize
    }

    fn n_head_kv(&self) -> (n: usize) {
        self.hparams.n_head_kv as usize
    }

    fn n_embd_head(&self) -> (n: usize) {
        self.hparams.n_embd_head() as usize
    }

    fn n_kv_embd(&self) -> (n: usize) {
        self.hparams.n_kv_embd as usize
    }

    fn n_vocab(&self) -> (n: usize) {
        self.hparams.n_vocab as usize
    }

    fn rope_style(&self) -> (r: RopeStyle) {
        self.hparams.rope_style
    }

    fn rope_params(&self) -> (r: (Real, Real)) {
        (self.hparams.rope_freq_base, self.hparams.rope_freq_scale)
    }
}

impl ModelDef for LoadedModel {
    open spec fn facts(&self) -> Facts {
        match self {
            LoadedModel::Qwen2(m) => m.facts(),
            LoadedModel::Qwen3(m) => m.facts(),
        }
    }

    open spec fn has_heads(&self) -> bool {
        match self {
            LoadedModel::Qwen2(m) => m.has_heads(),
            LoadedModel::Qwen3(m) => m.has_heads(),
        }
    }

    open spec fn runs_on(&self, mps: Option<&MpsState>, cuda: Option<&CudaRegistry>) -> Device {
        match self {
            LoadedModel::Qwen2(m) => m.runs_on(mps, cuda),
            LoadedModel::Qwen3(m) => m.runs_on(mps, cuda),
        }
    }

    open spec fn buildable(&self, p: GraphParams) -> bool {
        match self {
            LoadedModel::Qwen2(m) => m.buildable(p),
            LoadedModel::Qwen3(m) => m.buildable(p),
        }
    }

    open spec fn nodes(&self, p: GraphParams, e: Platform) -> Seq<NodeView> {
        match self {
            LoadedModel::Qwen2(m) => m.nodes(p, e),
            LoadedModel::Qwen3(m) => m.nodes(p, e),
        }
    }

    open spec fn input_ids(&self, p: GraphParams, e: Platform) -> Seq<usize> {
        match self {
            LoadedModel::Qwen2(m) => m.input_ids(p, e),
            LoadedModel::Qwen3(m) => m.input_ids(p, e),
        }
    }

    fn build_graph(&self, p: &GraphParams, e: &Platform) -> (g: ComputeGraph) {
        match self {
            LoadedModel::Qwen2(m) => m.build_graph(p, e),
            LoadedModel::Qwen3(m) => m.build_graph(p, e),
        }
    }

    fn device(&self, mps: Option<&MpsState>, cuda: Option<&CudaRegistry>) -> (d: Device) {
        match self {
            LoadedModel::Qwen2(m) => m.device(mps, cuda),
            LoadedModel::Qwen3(m) => m.device(mps, cuda),
        }
    }

    fn offload(&self) -> (p: OffloadPlan) {
        match self {
            LoadedModel::Qwen2(m) => m.offload(),
            LoadedModel::Qwen3(m) => m.offload(),
        }
    }

    fn offload_report(&self, device: Device) -> (r: Option<String>) {
        match self {
            LoadedModel::Qwen2(m) => m.offload_report(device),
            LoadedModel::Qwen3(m) => m.offload_report(device),
        }
    }

    fn format_chat(&self, messages: &Vec<(String, String)>) -> (s: String) {
        match self {
            LoadedModel::Qwen2(m) => m.format_chat(messages),
            LoadedModel::Qwen3(m) => m.format_chat(messages),
        }
    }

    fn special_tokens(&self) -> (r: SpecialTokens) {
        match self {
            LoadedModel::Qwen2(m) => m.special_tokens(),
            LoadedModel::Qwen3(m) => m.special_tokens(),
        }
    }

    fn n_layer(&self) -> (n: usize) {
        match self {
            LoadedModel::Qwen2(m) => ModelDef::n_layer(m),
            LoadedModel::Qwen3(m) => ModelDef::n_layer(m),
        }
    }

    fn n_head_kv(&self) -> (n: usize) {
        match self {
            LoadedModel::Qwen2(m) => m.n_head_kv(),
            LoadedModel::Qwen3(m) => m.n_head_kv(),
        }
    }

    fn n_embd_head(&self) -> (n: usize) {
        match self {
            LoadedModel::Qwen2(m) => m.n_embd_head(),
            LoadedModel::Qwen3(m) => m.n_embd_head(),
        }
    }

    fn n_kv_embd(&self) -> (n: usize) {
        match self {
            LoadedModel::Qwen2(m) => m.n_kv_embd(),
            LoadedModel::Qwen3(m) => m.n_kv_embd(),
        }
    }

    fn n_vocab(&self) -> (n: usize) {
        match self {
            LoadedModel::Qwen2(m) => m.n_vocab(),
            LoadedModel::Qwen3(m) => m.n_vocab(),
        }
    }

    fn rope_style(&self) -> (r: RopeStyle) {
        match self {
            LoadedModel::Qwen2(m) => m.rope_style(),
            LoadedModel::Qwen3(m) => m.rope_style(),
        }
    }

    fn rope_params(&self) -> (r: (Real, Real)) {
        match self {
            LoadedModel::Qwen2(m) => m.rope_params(),
            LoadedModel::Qwen3(m) => m.rope_params(),
        }
    }
}

/// What is known of a Qwen2 model is what its file and its plan say.
pub proof fn law_facts_of_qwen2(m: &Qwen2Model)
    ensures
        m.facts().n_layer == m.hparams.n_layer,
        m.facts().n_head_kv == m.hparams.n_head_kv,
        m.facts().n_kv_embd == m.hparams.n_kv_embd,
        m.facts().n_vocab == m.hparams.n_vocab,
        m.facts().rope_style == m.hparams.rope_style,
        m.facts().rope.0 == m.hparams.rope_freq_base,
        m.facts().rope.1 == m.hparams.rope_freq_scale,
        m.facts().special.eos == m.hparams.eos_token_id,
        m.facts().special.im_end == m.hparams.im_end_token_id,
        m.facts().plan == m.offload.plan,
        m.facts().device_bytes == m.offload.device_bytes,
        m.facts().source == m.offload.source@,
        m.hparams.n_head > 0 && m.hparams.n_embd >= 0 ==> m.hparams.n_head * m.facts().n_embd_head
            <= m.hparams.n_embd < m.hparams.n_head * m.facts().n_embd_head + m.hparams.n_head,
{
    let ne = m.hparams.n_embd as int;
    let nh = m.hparams.n_head as int;
    if nh > 0 && ne >= 0 {
        vstd::arithmetic::div_mod::lemma_fundamental_div_mod(ne, nh);
        vstd::arithmetic::div_mod::lemma_mod_bound(ne, nh);
    }
}

/// What is known of a Qwen3 model is what its file and its plan say.
pub proof fn law_facts_of_qwen3(m: &Qwen3Model)
    ensures
        m.facts().n_layer == m.hparams.n_layer,
        m.facts().n_head_kv == m.hparams.n_head_kv,
        m.facts().n_kv_embd == m.hparams.n_kv_embd,
        m.facts().n_vocab == m.hparams.n_vocab,
        m.facts().rope_style == m.hparams.rope_style,
        m.facts().rope.0 == m.hparams.rope_freq_base,
        m.facts().rope.1 == m.hparams.rope_freq_scale,
        m.facts().special.eos == m.hparams.eos_token_id,
        m.facts().special.im_end == m.hparams.im_end_token_id,
        m.facts().plan == m.offload.plan,
        m.facts().device_bytes == m.offload.device_bytes,
        m.facts().source == m.offload.source@,
        m.facts().n_embd_head == m.hparams.n_embd_head,
{
}

/// A pass runs where its model does. Kernels for Q5_0 are counted on with Qwen2 only.
pub proof fn law_passes_run_where_their_model_does(
    a: &Qwen2Model,
    b: &Qwen3Model,
    s: &crate::models::forward::PassSettings<'_>,
)
    ensures
        qwen2::pass::runs_on(a, s) == a.runs_on(s.mps, s.cuda),
        qwen3::pass::runs_on(b, s) == b.runs_on(s.mps, s.cuda),
        a.runs_on(s.mps, s.cuda) == device_spec(
            qwen2::graph::model_roles(a, a.layers@.len() as int),
            CudaTypes { q5_0: true },
            s.mps,
            s.cuda,
        ),
        b.runs_on(s.mps, s.cuda) == device_spec(
            qwen3::graph::model_roles(b, b.layers@.len() as int),
            CudaTypes { q5_0: false },
            s.mps,
            s.cuda,
        ),
{
}

} // verus!
