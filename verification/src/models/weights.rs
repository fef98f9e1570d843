//! Which device can run a model, judged by its registered weights.
use crate::metal::{weight_at, MpsState};
use crate::models::Device;
use crate::tensor::{Tensor, TensorType};
use crate::text::same;
use vstd::prelude::*;

verus! {

/// What a weight is used for.
#[derive(Debug, Clone, Copy, PartialEq, Eq, Structural)]
pub enum Role {
    /// Rows of it are gathered.
    Embed,
    /// Activations are multiplied by it.
    Matmul,
    /// It is a norm or a bias.
    Plain,
}

/// A weight that a graph may read.
pub struct Weight<'a> {
    pub tensor: Option<&'a Tensor>,
    pub role: Role,
}

/// The weight types that an architecture's CUDA kernels read.
#[derive(Debug, Clone, Copy, PartialEq, Eq, Structural)]
pub struct CudaTypes {
    /// Q5_0 is among them.
    pub q5_0: bool,
}

impl CudaTypes {
    /// Types that activations can be multiplied by.
    pub open spec fn matmul(self, t: TensorType) -> bool {
        match t {
            TensorType::F16 | TensorType::I8 => false,
            TensorType::Q5_0 => self.q5_0,
            _ => true,
        }
    }

    /// Types that rows can be gathered of.
    pub open spec fn embed(self, t: TensorType) -> bool {
        match t {
            TensorType::F16 | TensorType::I8 | TensorType::Q4_1 => false,
            TensorType::Q5_0 => self.q5_0,
            _ => true,
        }
    }

    fn matmul_ok(self, t: TensorType) -> (r: bool)
        ensures
            r == self.matmul(t),
    {
        match t {
            TensorType::F16 | TensorType::I8 => false,
            TensorType::Q5_0 => self.q5_0,
            _ => true,
        }
    }

    fn embed_ok(self, t: TensorType) -> (r: bool)
        ensures
            r == self.embed(t),
    {
        match t {
            TensorType::F16 | TensorType::I8 | TensorType::Q4_1 => false,
            TensorType::Q5_0 => self.q5_0,
            _ => true,
        }
    }
}

/// The weights registered with CUDA, by name and size.
pub struct CudaRegistry {
    pub entries: Vec<(String, usize)>,
}

impl CudaRegistry {
    /// Whether a weight of that name and size is registered.
    pub open spec fn holds(&self, name: Seq<char>, len: int) -> bool {
        exists|i: int|
            0 <= i < self.entries@.len() && (#[trigger] self.entries@[i]).0@ == name
                && self.entries@[i].1 == len
    }

    /// Whether a weight of that name is registered.
    pub open spec fn names(&self, name: Seq<char>) -> bool {
        exists|i: int| 0 <= i < self.entries@.len() && (#[trigger] self.entries@[i]).0@ == name
    }

    /// Whether a weight of that name is registered.
    pub fn has_weight(&self, name: &str) -> (r: bool)
        ensures
            r == self.names(name@),
    {
        let mut i: usize = 0;
        while i < self.entries.len()
            invariant
                i <= self.entries@.len(),
                forall|k: int| 0 <= k < i ==> (#[trigger] self.entries@[k]).0@ != name@,
            decreases self.entries@.len() - i,
        {
            if same(self.entries[i].0.as_str(), name) {
                return true;
            }
            i = i + 1;
        }
        false
    }

    /// Whether a weight of that name and size is registered.
    pub fn has_weight_of_size(&self, name: &str, len: usize) -> (r: bool)
        ensures
            r == self.holds(name@, len as int),
    {
        let mut i: usize = 0;
        while i < self.entries.len()
            invariant
                i <= self.entries@.len(),
                forall|k: int|
                    0 <= k < i ==> !((#[trigger] self.entries@[k]).0@ == name@
                        && self.entries@[k].1 == len),
            decreases self.entries@.len() - i,
        {
            if self.entries[i].1 == len && same(self.entries[i].0.as_str(), name) {
                return true;
            }
            i = i + 1;
        }
        false
    }
}

/// Whether CUDA can use a weight: it is registered at its size, and a kernel
/// reads its type in its role. A weight that the model lacks is no obstacle.
pub open spec fn cuda_usable(w: Weight<'_>, types: CudaTypes, reg: &CudaRegistry) -> bool {
    match w.tensor {
        None => true,
        Some(t) => reg.holds(t.name@, t.data@.len() as int) && match w.role {
            Role::Embed => types.embed(t.ttype),
            Role::Matmul => types.matmul(t.ttype),
            Role::Plain => true,
        },
    }
}

/// Whether CUDA can use every weight.
pub open spec fn all_cuda_usable(ws: Seq<Weight<'_>>, types: CudaTypes, reg: &CudaRegistry) -> bool {
    forall|i: int| 0 <= i < ws.len() ==> cuda_usable(#[trigger] ws[i], types, reg)
}

/// Whether every weight that the model has is registered with Metal.
pub open spec fn all_on_metal(ws: Seq<Weight<'_>>, mps: &MpsState) -> bool {
    forall|i: int|
        0 <= i < ws.len() && (#[trigger] ws[i]).tensor is Some ==> weight_at(
            mps.weights@,
            ws[i].tensor->0.name@,
        ) is Some
}

fn usable(w: &Weight<'_>, types: CudaTypes, reg: &CudaRegistry) -> (r: bool)
    ensures
        r == cuda_usable(*w, types, reg),
{
    match w.tensor {
        None => true,
        Some(t) => {
            let kernel: bool = match w.role {
                Role::Embed => types.embed_ok(t.ttype),
                Role::Matmul => types.matmul_ok(t.ttype),
                Role::Plain => true,
            };
            kernel && reg.has_weight_of_size(t.name.as_str(), t.data.len())
        },
    }
}

/// The first weight that keeps a model off CUDA.
pub fn first_refused(ws: &Vec<Weight<'_>>, types: CudaTypes, reg: &CudaRegistry) -> (r: Option<usize>)
    ensures
        match r {
            None => all_cuda_usable(ws@, types, reg),
            Some(i) => {
                &&& i < ws@.len()
                &&& !cuda_usable(ws@[i as int], types, reg)
                &&& forall|k: int| 0 <= k < i ==> cuda_usable(#[trigger] ws@[k], types, reg)
            },
        },
{
    let mut i: usize = 0;
    while i < ws.len()
        invariant
            i <= ws@.len(),
            forall|k: int| 0 <= k < i ==> cuda_usable(#[trigger] ws@[k], types, reg),
        decreases ws@.len() - i,
    {
        if !usable(&ws[i], types, reg) {
            return Some(i);
        }
        i = i + 1;
    }
    None
}

/// Whether every weight that the model has is registered with Metal.
pub fn weights_on_metal(ws: &Vec<Weight<'_>>, mps: &MpsState) -> (r: bool)
    ensures
        r == all_on_metal(ws@, mps),
{
    let mut i: usize = 0;
    while i < ws.len()
        invariant
            i <= ws@.len(),
            forall|k: int|
                0 <= k < i && (#[trigger] ws@[k]).tensor is Some ==> weight_at(
                    mps.weights@,
                    ws@[k].tensor->0.name@,
                ) is Some,
        decreases ws@.len() - i,
    {
        match ws[i].tensor {
            Some(t) => {
                if !mps.has_weight(t.name.as_str()) {
                    assert(ws@[i as int].tensor is Some);
                    return false;
                }
            },
            None => {},
        }
        i = i + 1;
    }
    true
}

/// Where a model runs: on Metal if it is there and holds every weight, else on
/// CUDA if it is there and can use every weight, else on the host.
pub open spec fn device_spec(
    ws: Seq<Weight<'_>>,
    types: CudaTypes,
    mps: Option<&MpsState>,
    cuda: Option<&CudaRegistry>,
) -> Device {
    if mps is Some && all_on_metal(ws, mps->0) {
        Device::Metal
    } else if cuda is Some && all_cuda_usable(ws, types, cuda->0) {
        Device::Cuda
    } else {
        Device::Cpu
    }
}

/// Where a model runs.
pub fn device_of(
    ws: &Vec<Weight<'_>>,
    types: CudaTypes,
    mps: Option<&MpsState>,
    cuda: Option<&CudaRegistry>,
) -> (d: Device)
    ensures
        d == device_spec(ws@, types, mps, cuda),
{
    match mps {
        Some(m) => {
            if weights_on_metal(ws, m) {
                return Device::Metal;
            }
        },
        None => {},
    }
    match cuda {
        Some(c) => match first_refused(ws, types, c) {
            None => Device::Cuda,
            Some(_) => Device::Cpu,
        },
        None => Device::Cpu,
    }
}

/// What CUDA multiplies with and gathers rows from: everything but half floats and bytes,
/// Q5_0 only where there are kernels for it, and no rows of Q4_1.
pub proof fn law_what_cuda_reads(types: CudaTypes, t: TensorType)
    ensures
        t is F16 || t is I8 ==> !types.matmul(t) && !types.embed(t),
        t is Q5_0 ==> types.matmul(t) == types.q5_0 && types.embed(t) == types.q5_0,
        t is Q4_1 ==> types.matmul(t) && !types.embed(t),
        t is F32 || t is Q4_0 || t is Q5_1 || t is Q8_0 || t is Q4_K || t is Q5_K || t is Q6_K
            ==> types.matmul(t) && types.embed(t),
{
}

/// A model runs on a device only if every weight that it has is there, on CUDA with just
/// its bytes and a kernel for its use; Metal comes before CUDA, and the host takes what
/// neither can run.
pub proof fn law_models_run_where_their_weights_are(
    ws: Seq<Weight<'_>>,
    types: CudaTypes,
    mps: Option<&MpsState>,
    cuda: Option<&CudaRegistry>,
    i: int,
)
    requires
        0 <= i < ws.len(),
        ws[i].tensor is Some,
    ensures
        ({
            let d = device_spec(ws, types, mps, cuda);
            let t = ws[i].tensor->0;
            &&& d is Metal ==> mps is Some && weight_at(mps->0.weights@, t.name@) is Some
            &&& d is Cuda ==> cuda is Some && exists|k: int|
                0 <= k < cuda->0.entries@.len() && (#[trigger] cuda->0.entries@[k]).0@ == t.name@
                    && cuda->0.entries@[k].1 == t.data@.len()
            &&& d is Cuda && ws[i].role is Matmul ==> types.matmul(t.ttype)
            &&& d is Cuda && ws[i].role is Embed ==> types.embed(t.ttype)
            &&& mps is None && cuda is None ==> d is Cpu
            &&& mps is Some && all_on_metal(ws, mps->0) ==> d is Metal
            &&& !(d is Metal) && cuda is Some && all_cuda_usable(ws, types, cuda->0) ==> d is Cuda
        }),
{
    if device_spec(ws, types, mps, cuda) is Cuda {
        assert(cuda_usable(ws[i], types, cuda->0));
    }
}

} // verus!
