//! Model architectures and the decisions shared between them.
pub mod def;
pub mod forward;
pub mod load;
pub mod meta;
pub mod qwen2;
pub mod qwen3;
pub mod register;
pub mod weight_reg;
pub mod weights;

use crate::gguf::{GgufContext, GgufModel};
use crate::graph::offload::{report, report_text, OffloadPlan};
use crate::graph::Backend;
use crate::text::same;
use vstd::prelude::*;

use self::qwen2::Qwen2Model;
use self::qwen3::Qwen3Model;

verus! {

/// What was decided about offloading, and what was measured on the way.
pub struct OffloadState {
    /// The plan in force.
    pub plan: OffloadPlan,
    /// Bytes that the offloaded weights take on the device.
    pub device_bytes: usize,
    /// Where the request came from.
    pub source: String,
}

impl OffloadState {
    /// No block on the device, nothing measured.
    pub fn cpu_only(n_layers: usize) -> (s: OffloadState)
        ensures
            s.plan == (OffloadPlan { gpu_layers: 0, n_layers }),
            s.device_bytes == 0,
            s.source@ == "default"@,
    {
        OffloadState {
            plan: OffloadPlan::all_on_cpu(n_layers),
            device_bytes: 0,
            source: "default".to_owned(),
        }
    }

    /// The start-up line; `None` if the host runs everything and nobody asked
    /// for anything else.
    pub fn report(&self, device: Device) -> (r: Option<String>)
        ensures
            r is None <==> self.plan.gpu_layers == 0 && self.source@ == "default"@,
            r matches Some(s) ==> s@ == report_text(
                self.plan,
                device.name_spec(),
                self.device_bytes,
                self.source@,
            ),
    {
        if self.plan.is_cpu_only() && same(self.source.as_str(), "default") {
            return None;
        }
        Some(report(self.plan, device_name(device), self.device_bytes, self.source.as_str()))
    }

    /// The state after registration: if blocks were asked onto the device but it
    /// cannot run them, the host runs everything.
    pub fn settle(self, device: Device) -> (s: OffloadState)
        ensures
            if self.plan.gpu_layers != 0 && device == Device::Cpu {
                s.plan == (OffloadPlan { gpu_layers: 0, n_layers: self.plan.n_layers })
                    && s.device_bytes == 0 && s.source@ == "default"@
            } else {
                s == self
            },
    {
        if !self.plan.is_cpu_only() && device == Device::Cpu {
            OffloadState::cpu_only(self.plan.n_layers)
        } else {
            self
        }
    }
}

/// The device as the report spells it.
pub fn device_name(device: Device) -> (r: &'static str)
    ensures
        r@ == device.name_spec(),
{
    match device {
        Device::Cpu => "cpu",
        Device::Metal => "metal",
        Device::Cuda => "cuda",
    }
}

/// What is known of the memory of a device.
#[derive(Debug, Clone, Copy, PartialEq, Eq, Structural)]
pub enum DeviceMemory {
    /// No device reports its memory.
    NoDevice,
    /// The device was asked and did not answer.
    Failed,
    /// This many bytes are free.
    Free(usize),
}

/// The device's memory: what the CUDA device answered, if there is one. Metal
/// reports no number.
pub fn device_memory(cuda: Option<DeviceMemory>) -> (r: DeviceMemory)
    ensures
        r == match cuda {
            Some(m) => m,
            None => DeviceMemory::NoDevice,
        },
{
    match cuda {
        Some(m) => m,
        None => DeviceMemory::NoDevice,
    }
}

/// Whether any device is present.
pub fn device_available(metal: bool, cuda: bool) -> (r: bool)
    ensures
        r == (metal || cuda),
{
    metal || cuda
}

/// Where a model's forward passes run.
#[derive(Debug, Clone, Copy, PartialEq, Eq, Structural)]
pub enum Device {
    Cpu,
    Metal,
    Cuda,
}

impl Device {
    /// The device's name.
    pub open spec fn name_spec(self) -> Seq<char> {
        match self {
            Device::Cpu => "cpu"@,
            Device::Metal => "metal"@,
            Device::Cuda => "cuda"@,
        }
    }

    /// Whether it is not the host.
    pub fn is_gpu(self) -> (r: bool)
        ensures
            r == !(self is Cpu),
    {
        !matches!(self, Device::Cpu)
    }

    /// Whether its attention can gather a window of scattered runs of rows.
    pub fn gathers_attn_map(self) -> (r: bool)
        ensures
            r == (self is Cpu || self is Cuda),
    {
        matches!(self, Device::Cpu | Device::Cuda)
    }

    /// The device's name.
    pub fn name(self) -> (r: &'static str)
        ensures
            r@ == self.name_spec(),
    {
        match self {
            Device::Cpu => "cpu",
            Device::Metal => "metal",
            Device::Cuda => "cuda",
        }
    }

    /// The backend that runs the device's nodes.
    pub open spec fn backend_spec(self) -> Backend {
        match self {
            Device::Cpu => Backend::CPU,
            Device::Metal => Backend::METAL,
            Device::Cuda => Backend::CUDA,
        }
    }

    /// The backend that runs the device's nodes.
    pub fn backend(self) -> (r: Backend)
        ensures
            r == self.backend_spec(),
    {
        match self {
            Device::Cpu => Backend::CPU,
            Device::Metal => Backend::METAL,
            Device::Cuda => Backend::CUDA,
        }
    }
}

/// A device and the backend of the same device have the same name.
pub proof fn law_device_and_backend_names_agree(d: Device)
    ensures
        d.name_spec() == d.backend_spec().name_spec(),
{
}

/// Whether the fused feed-forward pass is built from single nodes. It is opt-in
/// (`1`), and only where a window may start inside a buffer.
pub fn ffn_composition(requested: Option<&str>, device: Device) -> (r: bool)
    ensures
        r == (requested matches Some(v) && v@ == "1"@ && device is Cuda),
{
    let forced: bool = match requested {
        None => false,
        Some(v) => same(v, "1"),
    };
    if forced && !matches!(device, Device::Cuda) {
        return false;
    }
    forced
}

/// Tokens that end a generation.
#[derive(Debug, Clone, Copy, PartialEq, Eq, Structural)]
pub struct SpecialTokens {
    pub eos: u32,
    pub im_end: Option<u32>,
}

/// The architectures that can be loaded.
#[derive(Debug, Clone, Copy, PartialEq, Eq, Structural)]
pub enum Architecture {
    Qwen2,
    Qwen3,
}

/// The architecture that a file names, if it can be loaded.
pub open spec fn architecture_spec(ctx: &GgufContext) -> Option<Architecture> {
    match ctx.str_spec("general.architecture"@) {
        None => None,
        Some(a) => if a == "qwen2"@ {
            Some(Architecture::Qwen2)
        } else if a == "qwen3"@ {
            Some(Architecture::Qwen3)
        } else {
            None
        },
    }
}

/// The architecture that a file names; `None` if it names none or one that
/// cannot be loaded.
pub fn architecture(ctx: &GgufContext) -> (r: Option<Architecture>)
    ensures
        r == architecture_spec(ctx),
{
    let arch: String = ctx.get_key_val_str("general.architecture")?;
    if same(arch.as_str(), "qwen2") {
        Some(Architecture::Qwen2)
    } else if same(arch.as_str(), "qwen3") {
        Some(Architecture::Qwen3)
    } else {
        None
    }
}

/// A loaded model.
pub enum LoadedModel {
    Qwen2(Qwen2Model),
    Qwen3(Qwen3Model),
}

/// Loads the model of some files into the namespace `ns`, by the architecture
/// that they name; `None` if they name none that is known, or lack what it needs.
/// Only the first model of a process may have the empty namespace.
pub fn load_model_configured(model: &GgufModel, ns: &str, offload: OffloadState) -> (r: Option<
    LoadedModel,
>)
    requires
        model.parts@.len() >= 1,
        architecture_spec(&model.parts@[0].ctx) == Some(Architecture::Qwen2)
            ==> qwen2::loader::loadable(model.parts@),
        architecture_spec(&model.parts@[0].ctx) == Some(Architecture::Qwen3)
            ==> qwen3::loader::loadable(model.parts@),
    ensures
        match architecture_spec(&model.parts@[0].ctx) {
            None => r is None,
            Some(Architecture::Qwen2) => {
                &&& r is Some <==> qwen2::loader::model_hparams(model.parts@) is Some
                    && qwen2::loader::own(model.parts@, ns@, qwen2::tensor_names::TOKEN_EMBD@) is Some
                &&& r matches Some(l) ==> (l matches LoadedModel::Qwen2(m)
                    && qwen2::loader::model_loaded(m, model.parts@, ns@) && m.offload == offload)
            },
            Some(Architecture::Qwen3) => {
                &&& r is Some <==> qwen3::loader::model_hparams(model.parts@) is Some
                    && qwen3::loader::own(model.parts@, ns@, qwen3::tensor_names::TOKEN_EMBD@) is Some
                &&& r matches Some(l) ==> (l matches LoadedModel::Qwen3(m)
                    && qwen3::loader::model_loaded(m, model.parts@, ns@) && m.offload == offload)
            },
        },
{
    match architecture(&model.parts[0].ctx)? {
        Architecture::Qwen2 => match qwen2::loader::load(model, ns, offload) {
            Some(m) => Some(LoadedModel::Qwen2(m)),
            None => None,
        },
        Architecture::Qwen3 => match qwen3::loader::load(model, ns, offload) {
            Some(m) => Some(LoadedModel::Qwen3(m)),
            None => None,
        },
    }
}

/// One message in the ChatML format.
pub open spec fn chatml_message(m: (String, String)) -> Seq<char> {
    "<|im_start|>"@ + m.0@ + "\n"@ + m.1@ + "<|im_end|>\n"@
}

/// Messages in the ChatML format, before the assistant's turn.
pub open spec fn chatml_turns(messages: Seq<(String, String)>) -> Seq<char>
    decreases messages.len(),
{
    if messages.len() == 0 {
        Seq::empty()
    } else {
        chatml_turns(messages.drop_last()) + chatml_message(messages.last())
    }
}

/// A prompt in the ChatML format: the messages, then the assistant's turn.
pub open spec fn chatml(messages: Seq<(String, String)>) -> Seq<char> {
    chatml_turns(messages) + "<|im_start|>assistant\n"@
}

/// Messages, as (role, content), as a prompt in the ChatML format.
pub fn format_chatml(messages: &Vec<(String, String)>) -> (s: String)
    ensures
        s@ == chatml(messages@),
{
    let mut s: String = String::new();
    let mut i: usize = 0;
    assert(messages@.take(0) =~= Seq::<(String, String)>::empty());
    while i < messages.len()
        invariant
            i <= messages@.len(),
            s@ == chatml_turns(messages@.take(i as int)),
        decreases messages@.len() - i,
    {
        let ghost before = s@;
        s.append("<|im_start|>");
        s.append(messages[i].0.as_str());
        s.append("\n");
        s.append(messages[i].1.as_str());
        s.append("<|im_end|>\n");
        assert(messages@.take(i + 1).drop_last() =~= messages@.take(i as int));
        assert(s@ =~= before + chatml_message(messages@[i as int]));
        i = i + 1;
    }
    assert(messages@.take(i as int) =~= messages@);
    s.append("<|im_start|>assistant\n");
    s
}

/// A conversation is its messages one after the other, each with its role and its text
/// between the marks, and at the end the mark of an answer.
pub proof fn law_chat_is_its_messages(a: Seq<(String, String)>, b: Seq<(String, String)>)
    ensures
        chatml_turns(a + b) == chatml_turns(a) + chatml_turns(b),
        chatml(a) == chatml_turns(a) + "<|im_start|>assistant\n"@,
        a.len() == 1 ==> chatml_turns(a) == "<|im_start|>"@ + a[0].0@ + "\n"@ + a[0].1@
            + "<|im_end|>\n"@,
    decreases b.len(),
{
    if b.len() == 0 {
        assert(a + b =~= a);
        assert(chatml_turns(a) + chatml_turns(b) =~= chatml_turns(a));
    } else {
        law_chat_is_its_messages(a, b.drop_last());
        assert((a + b).drop_last() =~= a + b.drop_last());
        assert(chatml_turns(a + b) =~= chatml_turns(a) + chatml_turns(b));
    }
    if a.len() == 1 {
        assert(a.drop_last() =~= Seq::<(String, String)>::empty());
        assert(chatml_turns(a.drop_last()) == Seq::<char>::empty());
        assert(chatml_turns(a) =~= "<|im_start|>"@ + a[0].0@ + "\n"@ + a[0].1@ + "<|im_end|>\n"@);
    }
}

/// The architecture is what a file names, one of two.
pub proof fn law_architectures_by_name(ctx: &GgufContext)
    ensures
        ctx.str_spec("general.architecture"@) == Some("qwen2"@) <==> architecture_spec(ctx) == Some(
            Architecture::Qwen2,
        ),
        ctx.str_spec("general.architecture"@) == Some("qwen3"@) <==> architecture_spec(ctx) == Some(
            Architecture::Qwen3,
        ),
        ctx.str_spec("general.architecture"@) is None ==> architecture_spec(ctx) is None,
{
    reveal_strlit("qwen2");
    reveal_strlit("qwen3");
    assert("qwen2"@[4] == '2' && "qwen3"@[4] == '3');
}

/// Each device has its own backend and its own name.
pub proof fn law_devices_have_their_backends(d: Device)
    ensures
        d is Cpu <==> d.backend_spec() == Backend::CPU,
        d is Metal <==> d.backend_spec() == Backend::METAL,
        d is Cuda <==> d.backend_spec() == Backend::CUDA,
        d is Cpu ==> d.name_spec() == "cpu"@,
        d is Metal ==> d.name_spec() == "metal"@,
        d is Cuda ==> d.name_spec() == "cuda"@,
{
}

} // verus!
