//! Tensor element types and their block geometry.
use crate::gguf::GgmlType;
use vstd::prelude::*;

verus! {

/// Elements per super-block of the K-quant types.
pub const QK_K: usize = 256;

/// Elements per block of the 32-wide quantised types.
pub const QK_32: usize = 32;

/// Bytes of one Q4_K super-block.
pub const Q4KB: usize = 144;

/// How the elements of a tensor are stored.
#[allow(non_camel_case_types)]
#[derive(Debug, Clone, Copy, PartialEq, Eq, Structural)]
pub enum TensorType {
    F32,
    F16,
    I8,
    Q4_0,
    Q4_1,
    Q5_0,
    Q5_1,
    Q8_0,
    Q4_K,
    Q5_K,
    Q6_K,
}

impl TensorType {
    /// The type that stores a GGUF element type. What has no kernel is held as
    /// raw bytes.
    pub open spec fn from_ggml_spec(t: GgmlType) -> TensorType {
        match t {
            GgmlType::F32 => TensorType::F32,
            GgmlType::F16 => TensorType::F16,
            GgmlType::Q4_0 => TensorType::Q4_0,
            GgmlType::Q4_1 => TensorType::Q4_1,
            GgmlType::Q5_0 => TensorType::Q5_0,
            GgmlType::Q5_1 => TensorType::Q5_1,
            GgmlType::Q8_0 => TensorType::Q8_0,
            GgmlType::Q4_K => TensorType::Q4_K,
            GgmlType::Q5_K => TensorType::Q5_K,
            GgmlType::Q6_K => TensorType::Q6_K,
            _ => TensorType::I8,
        }
    }

    /// The type that stores a GGUF element type.
    pub fn from_ggml_type(t: GgmlType) -> (r: TensorType)
        ensures
            r == TensorType::from_ggml_spec(t),
    {
        match t {
            GgmlType::F32 => TensorType::F32,
            GgmlType::F16 => TensorType::F16,
            GgmlType::Q4_0 => TensorType::Q4_0,
            GgmlType::Q4_1 => TensorType::Q4_1,
            GgmlType::Q5_0 => TensorType::Q5_0,
            GgmlType::Q5_1 => TensorType::Q5_1,
            GgmlType::Q8_0 => TensorType::Q8_0,
            GgmlType::Q4_K => TensorType::Q4_K,
            GgmlType::Q5_K => TensorType::Q5_K,
            GgmlType::Q6_K => TensorType::Q6_K,
            _ => TensorType::I8,
        }
    }

    /// Bytes of one block.
    pub open spec fn type_size_spec(self) -> usize {
        match self {
            TensorType::F32 => 4,
            TensorType::F16 => 2,
            TensorType::I8 => 1,
            TensorType::Q4_0 => 18,
            TensorType::Q4_1 => 20,
            TensorType::Q5_0 => 22,
            TensorType::Q5_1 => 24,
            TensorType::Q8_0 => 34,
            TensorType::Q4_K => 144,
            TensorType::Q5_K => 176,
            TensorType::Q6_K => 210,
        }
    }

    /// Elements of one block.
    pub open spec fn blck_size_spec(self) -> usize {
        match self {
            TensorType::F32 | TensorType::F16 | TensorType::I8 => 1,
            TensorType::Q4_K | TensorType::Q5_K | TensorType::Q6_K => 256,
            _ => 32,
        }
    }

    /// Bytes of one block.
    pub fn type_size(self) -> (r: usize)
        ensures
            r == self.type_size_spec(),
    {
        match self {
            TensorType::F32 => 4,
            TensorType::F16 => 2,
            TensorType::I8 => 1,
            TensorType::Q4_0 => 18,
            TensorType::Q4_1 => 20,
            TensorType::Q5_0 => 22,
            TensorType::Q5_1 => 24,
            TensorType::Q8_0 => 34,
            TensorType::Q4_K => 144,
            TensorType::Q5_K => 176,
            TensorType::Q6_K => 210,
        }
    }

    /// Elements of one block.
    pub fn blck_size(self) -> (r: usize)
        ensures
            r == self.blck_size_spec(),
    {
        match self {
            TensorType::F32 | TensorType::F16 | TensorType::I8 => 1,
            TensorType::Q4_K | TensorType::Q5_K | TensorType::Q6_K => 256,
            _ => 32,
        }
    }
}

/// A tensor: its element type, name, geometry and bytes.
#[derive(Clone)]
pub struct Tensor {
    pub ttype: TensorType,
    pub name: String,
    /// Elements along each dimension, innermost first.
    pub shape: [i64; 4],
    /// Bytes from one index to the next along each dimension.
    pub strides: [usize; 4],
    pub data: Vec<u8>,
}

/// What a tensor is, apart from how it is held.
#[verifier::ext_equal]
pub struct TensorView {
    pub ttype: TensorType,
    pub name: Seq<char>,
    pub shape: [i64; 4],
    pub strides: [usize; 4],
    pub data: Seq<u8>,
}

impl View for Tensor {
    type V = TensorView;

    open spec fn view(&self) -> TensorView {
        TensorView {
            ttype: self.ttype,
            name: self.name@,
            shape: self.shape,
            strides: self.strides,
            data: self.data@,
        }
    }
}

/// The view of an optional tensor.
pub open spec fn opt_view(t: Option<Tensor>) -> Option<TensorView> {
    match t {
        None => None,
        Some(t) => Some(t@),
    }
}

impl Tensor {
    /// The same tensor again.
    pub fn duplicate(&self) -> (t: Tensor)
        ensures
            t@ == self@,
    {
        Tensor {
            ttype: self.ttype,
            name: self.name.clone(),
            shape: self.shape,
            strides: self.strides,
            data: self.data.clone(),
        }
    }
}

/// Which type holds what a file stores: the same one where there are kernels for it, raw
/// bytes otherwise.
pub proof fn law_types_that_hold_stored_ones(t: GgmlType)
    ensures
        ({
            let h = TensorType::from_ggml_spec(t);
            &&& t is F32 <==> h is F32
            &&& t is F16 <==> h is F16
            &&& t is Q4_0 <==> h is Q4_0
            &&& t is Q4_1 <==> h is Q4_1
            &&& t is Q5_0 <==> h is Q5_0
            &&& t is Q5_1 <==> h is Q5_1
            &&& t is Q8_0 <==> h is Q8_0
            &&& t is Q4_K <==> h is Q4_K
            &&& t is Q5_K <==> h is Q5_K
            &&& t is Q6_K <==> h is Q6_K
            &&& !(h is I8) ==> h.type_size_spec() == t.type_size_spec() && h.blck_size_spec()
                == t.blck_size_spec()
        }),
{
}

/// The sizes of the types: a block of 32 is its codes, a scale of two bytes and, in the
/// types with a minimum, two more; a block of 256 has scales of its parts besides.
pub proof fn law_sizes_of_the_types(t: TensorType)
    ensures
        ({
            let n = t.blck_size_spec() as int;
            let b = t.type_size_spec() as int;
            match t {
                TensorType::F32 => n == 1 && b == 4,
                TensorType::F16 => n == 1 && b == 2,
                TensorType::I8 => n == 1 && b == 1,
                TensorType::Q4_0 => n == 32 && 8 * b == 4 * n + 16,
                TensorType::Q4_1 => n == 32 && 8 * b == 4 * n + 32,
                TensorType::Q5_0 => n == 32 && 8 * b == 5 * n + 16,
                TensorType::Q5_1 => n == 32 && 8 * b == 5 * n + 32,
                TensorType::Q8_0 => n == 32 && 8 * b == 8 * n + 16,
                TensorType::Q4_K => n == 256 && 8 * b == 4 * n + 12 * 8 + 32,
                TensorType::Q5_K => n == 256 && 8 * b == 5 * n + 12 * 8 + 32,
                TensorType::Q6_K => n == 256 && 8 * b == 6 * n + 16 * 8 + 16,
            }
        }),
{
}

} // verus!
