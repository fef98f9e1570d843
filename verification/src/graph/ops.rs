//! Operators of the compute graph and the attributes that nodes carry.
use crate::bits::Real;
use crate::tensor::TensorType;
use vstd::prelude::*;

verus! {

/// How the rotary embedding pairs the elements of a head.
#[derive(Debug, Clone, Copy, PartialEq, Eq, Structural)]
pub enum RopeStyle {
    /// Neighbouring elements form a pair.
    Interleaved,
    /// Element `i` pairs with element `i + hd / 2`.
    NonInterleaved,
}

/// Which attention kernel family a node asks for.
#[derive(Debug, Clone, Copy, PartialEq, Eq, Structural)]
pub enum AttnMode {
    Gqa,
    Flash,
}

/// One operator.
#[derive(Debug, Clone, Copy)]
pub enum Op {
    Input,
    Add,
    Mul,
    Scale(Real),
    Silu,
    Softmax { dim: usize },
    RmsNorm { eps: Real },
    QkNorm { hd: usize, nh: usize, eps: Real },
    MatMul { transpose_b: bool },
    GetRows,
    RoPE { style: RopeStyle },
    Attn { mode: AttnMode, explicit_span: bool },
    KvcacheStore { layer: usize },
    KvcacheLoad { layer: usize },
    View { offset: usize, shape: [usize; 4] },
    Reshape { shape: [usize; 4] },
    Permute { dims: [usize; 4] },
    SwiGLU,
    BatchMatMul,
    FusedQKV { layer: usize },
    QkvBiasRopeStore { layer: usize },
    FusedFFN,
    FusedQkvNorm { layer: usize },
}

/// The factor on the attention scores: `1 / sqrt(head_dim)`.
#[derive(Debug, Clone, Copy, PartialEq, Eq, Structural)]
pub struct InvSqrt {
    pub head_dim: i64,
}

/// Rotary embedding attributes.
#[derive(Debug, Clone, Copy, PartialEq, Eq, Structural)]
pub struct RoPEMeta {
    pub freq_base: Real,
    pub freq_scale: Real,
    pub n_head: usize,
    pub hd: usize,
}

/// Attention attributes.
#[derive(Debug, Clone, Copy, PartialEq, Eq, Structural)]
pub struct AttnMeta {
    pub layer: usize,
    pub n_head: usize,
    pub n_head_kv: usize,
    pub hd: usize,
    pub hd_kv: usize,
    pub nkt: usize,
    pub scale: InvSqrt,
}

/// Attributes of the fused projection, bias, rotation and store of one token.
#[derive(Debug, Clone, Copy, PartialEq, Eq, Structural)]
pub struct FusedQkvMeta {
    pub weight_ttype: TensorType,
    pub in_dim: usize,
    pub nqt: usize,
    pub nkt: usize,
    pub hd: usize,
    pub nh: usize,
    pub nk: usize,
    pub freq_base: Real,
    pub freq_scale: Real,
    pub rope_style: RopeStyle,
    pub kv_elems: usize,
}

/// Attributes of the bias, rotation and store epilogue.
#[derive(Debug, Clone, Copy, PartialEq, Eq, Structural)]
pub struct QkvBiasRopeStoreMeta {
    pub nqt: usize,
    pub nkt: usize,
    pub hd: usize,
    pub freq_base: Real,
    pub freq_scale: Real,
    pub rope_style: RopeStyle,
    pub kv_elems: usize,
}

/// Attributes of the fused projection with per-head norms.
#[derive(Debug, Clone, Copy, PartialEq, Eq, Structural)]
pub struct FusedQkvNormMeta {
    pub weight_ttype: TensorType,
    pub in_dim: usize,
    pub nqt: usize,
    pub nkt: usize,
    pub hd: usize,
    pub nh: usize,
    pub nk: usize,
    pub freq_base: Real,
    pub freq_scale: Real,
    pub rope_style: RopeStyle,
    pub kv_elems: usize,
    pub eps: Real,
}

/// Attributes of the fused gate and up projection.
#[derive(Debug, Clone, Copy, PartialEq, Eq, Structural)]
pub struct FusedFfnMeta {
    pub weight_ttype: TensorType,
    pub in_dim: usize,
    pub nf: usize,
}

/// The attributes of a node beyond its operator.
#[derive(Debug, Clone, Copy, PartialEq, Eq, Structural)]
pub enum NodeMeta {
    /// None.
    Plain,
    /// A weight of this type multiplies the source.
    Weight(TensorType),
    RoPE(RoPEMeta),
    Attn(AttnMeta),
    /// Rows of `nkt` elements, `n_ctx` of them, for `nk` heads.
    Kv { nkt: usize, n_ctx: usize, nk: usize },
    FusedQkv(FusedQkvMeta),
    QkvBiasRopeStore(QkvBiasRopeStoreMeta),
    FusedQkvNorm(FusedQkvNormMeta),
    FusedFfn(FusedFfnMeta),
}

/// The operator's head as messages print it: attributes in braces are cut off,
/// the blank before them is not.
pub open spec fn op_label_spec(op: Op) -> Seq<char> {
    match op {
        Op::Input => "Input"@,
        Op::Add => "Add"@,
        Op::Mul => "Mul"@,
        Op::Scale(_) => "Scale"@,
        Op::Silu => "Silu"@,
        Op::Softmax { .. } => "Softmax "@,
        Op::RmsNorm { .. } => "RmsNorm "@,
        Op::QkNorm { .. } => "QkNorm "@,
        Op::MatMul { .. } => "MatMul "@,
        Op::GetRows => "GetRows"@,
        Op::RoPE { .. } => "RoPE "@,
        Op::Attn { .. } => "Attn "@,
        Op::KvcacheStore { .. } => "KvcacheStore "@,
        Op::KvcacheLoad { .. } => "KvcacheLoad "@,
        Op::View { .. } => "View "@,
        Op::Reshape { .. } => "Reshape "@,
        Op::Permute { .. } => "Permute "@,
        Op::SwiGLU => "SwiGLU"@,
        Op::BatchMatMul => "BatchMatMul"@,
        Op::FusedQKV { .. } => "FusedQKV "@,
        Op::QkvBiasRopeStore { .. } => "QkvBiasRopeStore "@,
        Op::FusedFFN => "FusedFFN"@,
        Op::FusedQkvNorm { .. } => "FusedQkvNorm "@,
    }
}

/// The operator's head as messages print it.
pub fn op_label(op: &Op) -> (r: &'static str)
    ensures
        r@ == op_label_spec(*op),
{
    match op {
        Op::Input => "Input",
        Op::Add => "Add",
        Op::Mul => "Mul",
        Op::Scale(_) => "Scale",
        Op::Silu => "Silu",
        Op::Softmax { .. } => "Softmax ",
        Op::RmsNorm { .. } => "RmsNorm ",
        Op::QkNorm { .. } => "QkNorm ",
        Op::MatMul { .. } => "MatMul ",
        Op::GetRows => "GetRows",
        Op::RoPE { .. } => "RoPE ",
        Op::Attn { .. } => "Attn ",
        Op::KvcacheStore { .. } => "KvcacheStore ",
        Op::KvcacheLoad { .. } => "KvcacheLoad ",
        Op::View { .. } => "View ",
        Op::Reshape { .. } => "Reshape ",
        Op::Permute { .. } => "Permute ",
        Op::SwiGLU => "SwiGLU",
        Op::BatchMatMul => "BatchMatMul",
        Op::FusedQKV { .. } => "FusedQKV ",
        Op::QkvBiasRopeStore { .. } => "QkvBiasRopeStore ",
        Op::FusedFFN => "FusedFFN",
        Op::FusedQkvNorm { .. } => "FusedQkvNorm ",
    }
}

} // verus!
