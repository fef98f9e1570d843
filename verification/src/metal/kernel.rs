//! The kernels of the Metal library and their names.
use vstd::prelude::*;

verus! {

/// Block-quantised weight layouts with kernels of their own.
#[derive(Debug, Clone, Copy, PartialEq, Eq, Structural)]
pub enum QuantType {
    Q40,
    Q41,
    Q50,
    Q51,
    Q80,
    Q4K,
    Q5K,
    Q6K,
}

/// How a multiplication is laid out on the device.
#[derive(Debug, Clone, Copy, PartialEq, Eq, Structural)]
pub enum MatForm {
    /// One activation row.
    Single,
    /// A few activation rows.
    Multi,
    /// Tiles of many activation rows.
    Gemm,
}

/// One kernel.
#[derive(Debug, Clone, Copy, PartialEq, Eq, Structural)]
pub enum Kernel {
    MatMul(QuantType, MatForm),
    GetRows(QuantType),
    GetRowsF32,
    RmsNorm,
    RmsNorm256,
    Add,
    AddBias,
    Mul,
    Silu,
    Swiglu,
    Rope,
    GqaAttn { half: bool },
    GqaAttnPartial { half: bool },
    GqaAttnCombine,
    FlashAttn { wide: bool, half: bool },
    FlashAttnBlk { wide: bool, half: bool },
    KvTailPad,
    StoreKv { half: bool },
    AttnBiasRopeStore,
    AttnScores,
    AttnOutput,
    SoftmaxAttn,
    WarmupRead,
}

impl Kernel {
    /// The kernel's name in the library.
    pub open spec fn name_spec(self) -> Seq<char> {
        match self {
            Kernel::MatMul(QuantType::Q40, MatForm::Single) => "kernel_q4_0_f32_matmul"@,
            Kernel::MatMul(QuantType::Q40, MatForm::Multi) => "kernel_q4_0_f32_matmul_multi"@,
            Kernel::MatMul(QuantType::Q40, MatForm::Gemm) => "kernel_q4_0_mm_f32"@,
            Kernel::MatMul(QuantType::Q41, MatForm::Single) => "kernel_q4_1_f32_matmul"@,
            Kernel::MatMul(QuantType::Q41, MatForm::Multi) => "kernel_q4_1_f32_matmul_multi"@,
            Kernel::MatMul(QuantType::Q41, MatForm::Gemm) => "kernel_q4_1_mm_f32"@,
            Kernel::MatMul(QuantType::Q50, MatForm::Single) => "kernel_q5_0_f32_matmul"@,
            Kernel::MatMul(QuantType::Q50, MatForm::Multi) => "kernel_q5_0_f32_matmul_multi"@,
            Kernel::MatMul(QuantType::Q50, MatForm::Gemm) => "kernel_q5_0_mm_f32"@,
            Kernel::MatMul(QuantType::Q51, MatForm::Single) => "kernel_q5_1_f32_matmul"@,
            Kernel::MatMul(QuantType::Q51, MatForm::Multi) => "kernel_q5_1_f32_matmul_multi"@,
            Kernel::MatMul(QuantType::Q51, MatForm::Gemm) => "kernel_q5_1_mm_f32"@,
            Kernel::MatMul(QuantType::Q80, MatForm::Single) => "kernel_q8_0_f32_matmul"@,
            Kernel::MatMul(QuantType::Q80, MatForm::Multi) => "kernel_q8_0_f32_matmul_multi"@,
            Kernel::MatMul(QuantType::Q80, MatForm::Gemm) => "kernel_q8_0_mm_f32"@,
            Kernel::MatMul(QuantType::Q4K, MatForm::Single) => "kernel_q4_k_f32_matmul"@,
            Kernel::MatMul(QuantType::Q4K, MatForm::Multi) => "kernel_q4_k_f32_matmul_multi"@,
            Kernel::MatMul(QuantType::Q4K, MatForm::Gemm) => "kernel_q4_k_mm_f32"@,
            Kernel::MatMul(QuantType::Q5K, MatForm::Single) => "kernel_q5_k_f32_matmul"@,
            Kernel::MatMul(QuantType::Q5K, MatForm::Multi) => "kernel_q5_k_f32_matmul_multi"@,
            Kernel::MatMul(QuantType::Q5K, MatForm::Gemm) => "kernel_q5_k_mm_f32"@,
            Kernel::MatMul(QuantType::Q6K, MatForm::Single) => "kernel_q6_k_f32_matmul"@,
            Kernel::MatMul(QuantType::Q6K, MatForm::Multi) => "kernel_q6_k_f32_matmul_multi"@,
            Kernel::MatMul(QuantType::Q6K, MatForm::Gemm) => "kernel_q6_k_mm_f32"@,
            Kernel::GetRows(QuantType::Q40) => "kernel_get_rows_q4_0"@,
            Kernel::GetRows(QuantType::Q41) => "kernel_get_rows_q4_1"@,
            Kernel::GetRows(QuantType::Q50) => "kernel_get_rows_q5_0"@,
            Kernel::GetRows(QuantType::Q51) => "kernel_get_rows_q5_1"@,
            Kernel::GetRows(QuantType::Q80) => "kernel_get_rows_q8_0"@,
            Kernel::GetRows(QuantType::Q4K) => "kernel_get_rows_q4_k"@,
            Kernel::GetRows(QuantType::Q5K) => "kernel_get_rows_q5_k"@,
            Kernel::GetRows(QuantType::Q6K) => "kernel_get_rows_q6_k"@,
            Kernel::GetRowsF32 => "kernel_get_rows_f32"@,
            Kernel::RmsNorm => "kernel_rms_norm_f32"@,
            Kernel::RmsNorm256 => "kernel_rms_norm_f32_256"@,
            Kernel::Add => "kernel_add_f32"@,
            Kernel::AddBias => "kernel_add_bias_f32"@,
            Kernel::Mul => "kernel_mul_f32"@,
            Kernel::Silu => "kernel_silu_f32"@,
            Kernel::Swiglu => "kernel_swiglu_f32"@,
            Kernel::Rope => "kernel_rope_f32"@,
            Kernel::GqaAttn { half: false } => "kernel_gqa_attn_f32"@,
            Kernel::GqaAttn { half: true } => "kernel_gqa_attn_f16"@,
            Kernel::GqaAttnPartial { half: false } => "kernel_gqa_attn_partial_f32"@,
            Kernel::GqaAttnPartial { half: true } => "kernel_gqa_attn_partial_f16"@,
            Kernel::GqaAttnCombine => "kernel_gqa_attn_combine_f32"@,
            Kernel::FlashAttn { wide: false, half: false } => "kernel_flash_attn_ext_f32"@,
            Kernel::FlashAttn { wide: false, half: true } => "kernel_flash_attn_ext_f16"@,
            Kernel::FlashAttn { wide: true, half: false } => "kernel_flash_attn_ext_hd128_f32"@,
            Kernel::FlashAttn { wide: true, half: true } => "kernel_flash_attn_ext_hd128_f16"@,
            Kernel::FlashAttnBlk { wide: false, half: false } => "kernel_flash_attn_blk_f32"@,
            Kernel::FlashAttnBlk { wide: false, half: true } => "kernel_flash_attn_blk_f16"@,
            Kernel::FlashAttnBlk { wide: true, half: false } => "kernel_flash_attn_blk_hd128_f32"@,
            Kernel::FlashAttnBlk { wide: true, half: true } => "kernel_flash_attn_blk_hd128_f16"@,
            Kernel::KvTailPad => "kernel_kv_tail_pad"@,
            Kernel::StoreKv { half: false } => "kernel_store_kv_f32"@,
            Kernel::StoreKv { half: true } => "kernel_store_kv_f16"@,
            Kernel::AttnBiasRopeStore => "kernel_attn_bias_rope_store"@,
            Kernel::AttnScores => "kernel_attn_scores"@,
            Kernel::AttnOutput => "kernel_attn_output"@,
            Kernel::SoftmaxAttn => "kernel_softmax_attn"@,
            Kernel::WarmupRead => "kernel_warmup_read"@,
        }
    }

    /// The kernel's name in the library.
    pub fn name(self) -> (r: &'static str)
        ensures
            r@ == self.name_spec(),
    {
        match self {
            Kernel::MatMul(QuantType::Q40, MatForm::Single) => "kernel_q4_0_f32_matmul",
            Kernel::MatMul(QuantType::Q40, MatForm::Multi) => "kernel_q4_0_f32_matmul_multi",
            Kernel::MatMul(QuantType::Q40, MatForm::Gemm) => "kernel_q4_0_mm_f32",
            Kernel::MatMul(QuantType::Q41, MatForm::Single) => "kernel_q4_1_f32_matmul",
            Kernel::MatMul(QuantType::Q41, MatForm::Multi) => "kernel_q4_1_f32_matmul_multi",
            Kernel::MatMul(QuantType::Q41, MatForm::Gemm) => "kernel_q4_1_mm_f32",
            Kernel::MatMul(QuantType::Q50, MatForm::Single) => "kernel_q5_0_f32_matmul",
            Kernel::MatMul(QuantType::Q50, MatForm::Multi) => "kernel_q5_0_f32_matmul_multi",
            Kernel::MatMul(QuantType::Q50, MatForm::Gemm) => "kernel_q5_0_mm_f32",
            Kernel::MatMul(QuantType::Q51, MatForm::Single) => "kernel_q5_1_f32_matmul",
            Kernel::MatMul(QuantType::Q51, MatForm::Multi) => "kernel_q5_1_f32_matmul_multi",
            Kernel::MatMul(QuantType::Q51, MatForm::Gemm) => "kernel_q5_1_mm_f32",
            Kernel::MatMul(QuantType::Q80, MatForm::Single) => "kernel_q8_0_f32_matmul",
            Kernel::MatMul(QuantType::Q80, MatForm::Multi) => "kernel_q8_0_f32_matmul_multi",
            Kernel::MatMul(QuantType::Q80, MatForm::Gemm) => "kernel_q8_0_mm_f32",
            Kernel::MatMul(QuantType::Q4K, MatForm::Single) => "kernel_q4_k_f32_matmul",
            Kernel::MatMul(QuantType::Q4K, MatForm::Multi) => "kernel_q4_k_f32_matmul_multi",
            Kernel::MatMul(QuantType::Q4K, MatForm::Gemm) => "kernel_q4_k_mm_f32",
            Kernel::MatMul(QuantType::Q5K, MatForm::Single) => "kernel_q5_k_f32_matmul",
            Kernel::MatMul(QuantType::Q5K, MatForm::Multi) => "kernel_q5_k_f32_matmul_multi",
            Kernel::MatMul(QuantType::Q5K, MatForm::Gemm) => "kernel_q5_k_mm_f32",
            Kernel::MatMul(QuantType::Q6K, MatForm::Single) => "kernel_q6_k_f32_matmul",
            Kernel::MatMul(QuantType::Q6K, MatForm::Multi) => "kernel_q6_k_f32_matmul_multi",
            Kernel::MatMul(QuantType::Q6K, MatForm::Gemm) => "kernel_q6_k_mm_f32",
            Kernel::GetRows(QuantType::Q40) => "kernel_get_rows_q4_0",
            Kernel::GetRows(QuantType::Q41) => "kernel_get_rows_q4_1",
            Kernel::GetRows(QuantType::Q50) => "kernel_get_rows_q5_0",
            Kernel::GetRows(QuantType::Q51) => "kernel_get_rows_q5_1",
            Kernel::GetRows(QuantType::Q80) => "kernel_get_rows_q8_0",
            Kernel::GetRows(QuantType::Q4K) => "kernel_get_rows_q4_k",
            Kernel::GetRows(QuantType::Q5K) => "kernel_get_rows_q5_k",
            Kernel::GetRows(QuantType::Q6K) => "kernel_get_rows_q6_k",
            Kernel::GetRowsF32 => "kernel_get_rows_f32",
            Kernel::RmsNorm => "kernel_rms_norm_f32",
            Kernel::RmsNorm256 => "kernel_rms_norm_f32_256",
            Kernel::Add => "kernel_add_f32",
            Kernel::AddBias => "kernel_add_bias_f32",
            Kernel::Mul => "kernel_mul_f32",
            Kernel::Silu => "kernel_silu_f32",
            Kernel::Swiglu => "kernel_swiglu_f32",
            Kernel::Rope => "kernel_rope_f32",
            Kernel::GqaAttn { half: false } => "kernel_gqa_attn_f32",
            Kernel::GqaAttn { half: true } => "kernel_gqa_attn_f16",
            Kernel::GqaAttnPartial { half: false } => "kernel_gqa_attn_partial_f32",
            Kernel::GqaAttnPartial { half: true } => "kernel_gqa_attn_partial_f16",
            Kernel::GqaAttnCombine => "kernel_gqa_attn_combine_f32",
            Kernel::FlashAttn { wide: false, half: false } => "kernel_flash_attn_ext_f32",
            Kernel::FlashAttn { wide: false, half: true } => "kernel_flash_attn_ext_f16",
            Kernel::FlashAttn { wide: true, half: false } => "kernel_flash_attn_ext_hd128_f32",
            Kernel::FlashAttn { wide: true, half: true } => "kernel_flash_attn_ext_hd128_f16",
            Kernel::FlashAttnBlk { wide: false, half: false } => "kernel_flash_attn_blk_f32",
            Kernel::FlashAttnBlk { wide: false, half: true } => "kernel_flash_attn_blk_f16",
            Kernel::FlashAttnBlk { wide: true, half: false } => "kernel_flash_attn_blk_hd128_f32",
            Kernel::FlashAttnBlk { wide: true, half: true } => "kernel_flash_attn_blk_hd128_f16",
            Kernel::KvTailPad => "kernel_kv_tail_pad",
            Kernel::StoreKv { half: false } => "kernel_store_kv_f32",
            Kernel::StoreKv { half: true } => "kernel_store_kv_f16",
            Kernel::AttnBiasRopeStore => "kernel_attn_bias_rope_store",
            Kernel::AttnScores => "kernel_attn_scores",
            Kernel::AttnOutput => "kernel_attn_output",
            Kernel::SoftmaxAttn => "kernel_softmax_attn",
            Kernel::WarmupRead => "kernel_warmup_read",
        }
    }
}

/// All kernels, in the order in which their pipelines are made.
pub open spec fn kernel_table() -> Seq<Kernel> {
    seq![
        Kernel::MatMul(QuantType::Q40, MatForm::Single),
        Kernel::MatMul(QuantType::Q40, MatForm::Multi),
        Kernel::MatMul(QuantType::Q40, MatForm::Gemm),
        Kernel::MatMul(QuantType::Q41, MatForm::Single),
        Kernel::MatMul(QuantType::Q41, MatForm::Gemm),
        Kernel::MatMul(QuantType::Q41, MatForm::Multi),
        Kernel::MatMul(QuantType::Q80, MatForm::Single),
        Kernel::MatMul(QuantType::Q80, MatForm::Gemm),
        Kernel::MatMul(QuantType::Q80, MatForm::Multi),
        Kernel::MatMul(QuantType::Q4K, MatForm::Single),
        Kernel::MatMul(QuantType::Q4K, MatForm::Gemm),
        Kernel::MatMul(QuantType::Q4K, MatForm::Multi),
        Kernel::MatMul(QuantType::Q6K, MatForm::Single),
        Kernel::MatMul(QuantType::Q6K, MatForm::Gemm),
        Kernel::MatMul(QuantType::Q6K, MatForm::Multi),
        Kernel::MatMul(QuantType::Q50, MatForm::Single),
        Kernel::MatMul(QuantType::Q50, MatForm::Gemm),
        Kernel::MatMul(QuantType::Q50, MatForm::Multi),
        Kernel::MatMul(QuantType::Q51, MatForm::Single),
        Kernel::MatMul(QuantType::Q51, MatForm::Gemm),
        Kernel::MatMul(QuantType::Q51, MatForm::Multi),
        Kernel::MatMul(QuantType::Q5K, MatForm::Single),
        Kernel::MatMul(QuantType::Q5K, MatForm::Gemm),
        Kernel::MatMul(QuantType::Q5K, MatForm::Multi),
        Kernel::GetRows(QuantType::Q40),
        Kernel::GetRowsF32,
        Kernel::GetRows(QuantType::Q4K),
        Kernel::GetRows(QuantType::Q41),
        Kernel::GetRows(QuantType::Q50),
        Kernel::GetRows(QuantType::Q51),
        Kernel::GetRows(QuantType::Q80),
        Kernel::GetRows(QuantType::Q6K),
        Kernel::GetRows(QuantType::Q5K),
        Kernel::RmsNorm,
        Kernel::RmsNorm256,
        Kernel::Add,
        Kernel::AddBias,
        Kernel::Mul,
        Kernel::Silu,
        Kernel::Swiglu,
        Kernel::Rope,
        Kernel::GqaAttn { half: false },
        Kernel::GqaAttn { half: true },
        Kernel::GqaAttnPartial { half: false },
        Kernel::GqaAttnPartial { half: true },
        Kernel::GqaAttnCombine,
        Kernel::FlashAttn { wide: false, half: false },
        Kernel::FlashAttn { wide: false, half: true },
        Kernel::FlashAttn { wide: true, half: false },
        Kernel::FlashAttn { wide: true, half: true },
        Kernel::FlashAttnBlk { wide: false, half: false },
        Kernel::FlashAttnBlk { wide: false, half: true },
        Kernel::FlashAttnBlk { wide: true, half: false },
        Kernel::FlashAttnBlk { wide: true, half: true },
        Kernel::KvTailPad,
        Kernel::StoreKv { half: false },
        Kernel::StoreKv { half: true },
        Kernel::AttnBiasRopeStore,
        Kernel::AttnScores,
        Kernel::AttnOutput,
        Kernel::SoftmaxAttn,
        Kernel::WarmupRead,
    ]
}

/// All kernels, in the order in which their pipelines are made.
pub fn kernels() -> (v: Vec<Kernel>)
    ensures
        v@ == kernel_table(),
{
    let v: Vec<Kernel> = vec![
        Kernel::MatMul(QuantType::Q40, MatForm::Single),
        Kernel::MatMul(QuantType::Q40, MatForm::Multi),
        Kernel::MatMul(QuantType::Q40, MatForm::Gemm),
        Kernel::MatMul(QuantType::Q41, MatForm::Single),
        Kernel::MatMul(QuantType::Q41, MatForm::Gemm),
        Kernel::MatMul(QuantType::Q41, MatForm::Multi),
        Kernel::MatMul(QuantType::Q80, MatForm::Single),
        Kernel::MatMul(QuantType::Q80, MatForm::Gemm),
        Kernel::MatMul(QuantType::Q80, MatForm::Multi),
        Kernel::MatMul(QuantType::Q4K, MatForm::Single),
        Kernel::MatMul(QuantType::Q4K, MatForm::Gemm),
        Kernel::MatMul(QuantType::Q4K, MatForm::Multi),
        Kernel::MatMul(QuantType::Q6K, MatForm::Single),
        Kernel::MatMul(QuantType::Q6K, MatForm::Gemm),
        Kernel::MatMul(QuantType::Q6K, MatForm::Multi),
        Kernel::MatMul(QuantType::Q50, MatForm::Single),
        Kernel::MatMul(QuantType::Q50, MatForm::Gemm),
        Kernel::MatMul(QuantType::Q50, MatForm::Multi),
        Kernel::MatMul(QuantType::Q51, MatForm::Single),
        Kernel::MatMul(QuantType::Q51, MatForm::Gemm),
        Kernel::MatMul(QuantType::Q51, MatForm::Multi),
        Kernel::MatMul(QuantType::Q5K, MatForm::Single),
        Kernel::MatMul(QuantType::Q5K, MatForm::Gemm),
        Kernel::MatMul(QuantType::Q5K, MatForm::Multi),
        Kernel::GetRows(QuantType::Q40),
        Kernel::GetRowsF32,
        Kernel::GetRows(QuantType::Q4K),
        Kernel::GetRows(QuantType::Q41),
        Kernel::GetRows(QuantType::Q50),
        Kernel::GetRows(QuantType::Q51),
        Kernel::GetRows(QuantType::Q80),
        Kernel::GetRows(QuantType::Q6K),
        Kernel::GetRows(QuantType::Q5K),
        Kernel::RmsNorm,
        Kernel::RmsNorm256,
        Kernel::Add,
        Kernel::AddBias,
        Kernel::Mul,
        Kernel::Silu,
        Kernel::Swiglu,
        Kernel::Rope,
        Kernel::GqaAttn { half: false },
        Kernel::GqaAttn { half: true },
        Kernel::GqaAttnPartial { half: false },
        Kernel::GqaAttnPartial { half: true },
        Kernel::GqaAttnCombine,
        Kernel::FlashAttn { wide: false, half: false },
        Kernel::FlashAttn { wide: false, half: true },
        Kernel::FlashAttn { wide: true, half: false },
        Kernel::FlashAttn { wide: true, half: true },
        Kernel::FlashAttnBlk { wide: false, half: false },
        Kernel::FlashAttnBlk { wide: false, half: true },
        Kernel::FlashAttnBlk { wide: true, half: false },
        Kernel::FlashAttnBlk { wide: true, half: true },
        Kernel::KvTailPad,
        Kernel::StoreKv { half: false },
        Kernel::StoreKv { half: true },
        Kernel::AttnBiasRopeStore,
        Kernel::AttnScores,
        Kernel::AttnOutput,
        Kernel::SoftmaxAttn,
        Kernel::WarmupRead,
    ];
    assert(v@ =~= kernel_table());
    v
}

/// Where a kernel stands in the table.
pub open spec fn kernel_place(k: Kernel) -> int {
    match k {
        Kernel::MatMul(QuantType::Q40, MatForm::Single) => 0,
        Kernel::MatMul(QuantType::Q40, MatForm::Multi) => 1,
        Kernel::MatMul(QuantType::Q40, MatForm::Gemm) => 2,
        Kernel::MatMul(QuantType::Q41, MatForm::Single) => 3,
        Kernel::MatMul(QuantType::Q41, MatForm::Gemm) => 4,
        Kernel::MatMul(QuantType::Q41, MatForm::Multi) => 5,
        Kernel::MatMul(QuantType::Q80, MatForm::Single) => 6,
        Kernel::MatMul(QuantType::Q80, MatForm::Gemm) => 7,
        Kernel::MatMul(QuantType::Q80, MatForm::Multi) => 8,
        Kernel::MatMul(QuantType::Q4K, MatForm::Single) => 9,
        Kernel::MatMul(QuantType::Q4K, MatForm::Gemm) => 10,
        Kernel::MatMul(QuantType::Q4K, MatForm::Multi) => 11,
        Kernel::MatMul(QuantType::Q6K, MatForm::Single) => 12,
        Kernel::MatMul(QuantType::Q6K, MatForm::Gemm) => 13,
        Kernel::MatMul(QuantType::Q6K, MatForm::Multi) => 14,
        Kernel::MatMul(QuantType::Q50, MatForm::Single) => 15,
        Kernel::MatMul(QuantType::Q50, MatForm::Gemm) => 16,
        Kernel::MatMul(QuantType::Q50, MatForm::Multi) => 17,
        Kernel::MatMul(QuantType::Q51, MatForm::Single) => 18,
        Kernel::MatMul(QuantType::Q51, MatForm::Gemm) => 19,
        Kernel::MatMul(QuantType::Q51, MatForm::Multi) => 20,
        Kernel::MatMul(QuantType::Q5K, MatForm::Single) => 21,
        Kernel::MatMul(QuantType::Q5K, MatForm::Gemm) => 22,
        Kernel::MatMul(QuantType::Q5K, MatForm::Multi) => 23,
        Kernel::GetRows(QuantType::Q40) => 24,
        Kernel::GetRowsF32 => 25,
        Kernel::GetRows(QuantType::Q4K) => 26,
        Kernel::GetRows(QuantType::Q41) => 27,
        Kernel::GetRows(QuantType::Q50) => 28,
        Kernel::GetRows(QuantType::Q51) => 29,
        Kernel::GetRows(QuantType::Q80) => 30,
        Kernel::GetRows(QuantType::Q6K) => 31,
        Kernel::GetRows(QuantType::Q5K) => 32,
        Kernel::RmsNorm => 33,
        Kernel::RmsNorm256 => 34,
        Kernel::Add => 35,
        Kernel::AddBias => 36,
        Kernel::Mul => 37,
        Kernel::Silu => 38,
        Kernel::Swiglu => 39,
        Kernel::Rope => 40,
        Kernel::GqaAttn { half: false } => 41,
        Kernel::GqaAttn { half: true } => 42,
        Kernel::GqaAttnPartial { half: false } => 43,
        Kernel::GqaAttnPartial { half: true } => 44,
        Kernel::GqaAttnCombine => 45,
        Kernel::FlashAttn { wide: false, half: false } => 46,
        Kernel::FlashAttn { wide: false, half: true } => 47,
        Kernel::FlashAttn { wide: true, half: false } => 48,
        Kernel::FlashAttn { wide: true, half: true } => 49,
        Kernel::FlashAttnBlk { wide: false, half: false } => 50,
        Kernel::FlashAttnBlk { wide: false, half: true } => 51,
        Kernel::FlashAttnBlk { wide: true, half: false } => 52,
        Kernel::FlashAttnBlk { wide: true, half: true } => 53,
        Kernel::KvTailPad => 54,
        Kernel::StoreKv { half: false } => 55,
        Kernel::StoreKv { half: true } => 56,
        Kernel::AttnBiasRopeStore => 57,
        Kernel::AttnScores => 58,
        Kernel::AttnOutput => 59,
        Kernel::SoftmaxAttn => 60,
        Kernel::WarmupRead => 61,
    }
}

/// Every kernel that can be encoded has a pipeline: the table misses none.
pub proof fn law_table_is_complete(k: Kernel)
    ensures
        0 <= kernel_place(k) < kernel_table().len(),
        kernel_table()[kernel_place(k)] == k,
{
}

/// No kernel stands in the table twice.
pub proof fn law_table_has_no_duplicates(i: int, j: int)
    requires
        0 <= i < kernel_table().len(),
        0 <= j < kernel_table().len(),
        kernel_table()[i] == kernel_table()[j],
    ensures
        i == j,
{
    assert(kernel_place(kernel_table()[i]) == i);
    assert(kernel_place(kernel_table()[j]) == j);
}

/// What a layout is called.
pub open spec fn layout_name(q: QuantType) -> Seq<char> {
    match q {
        QuantType::Q40 => "q4_0"@,
        QuantType::Q41 => "q4_1"@,
        QuantType::Q50 => "q5_0"@,
        QuantType::Q51 => "q5_1"@,
        QuantType::Q80 => "q8_0"@,
        QuantType::Q4K => "q4_k"@,
        QuantType::Q5K => "q5_k"@,
        QuantType::Q6K => "q6_k"@,
    }
}

/// The kernels of a layout carry its name: one for a row of activations, one for several,
/// one for tiles, one for rows of a table.
pub proof fn law_kernels_carry_their_layout(q: QuantType)
    ensures
        Kernel::MatMul(q, MatForm::Single).name_spec() == "kernel_"@ + layout_name(q)
            + "_f32_matmul"@,
        Kernel::MatMul(q, MatForm::Multi).name_spec() == "kernel_"@ + layout_name(q)
            + "_f32_matmul_multi"@,
        Kernel::MatMul(q, MatForm::Gemm).name_spec() == "kernel_"@ + layout_name(q) + "_mm_f32"@,
        Kernel::GetRows(q).name_spec() == "kernel_get_rows_"@ + layout_name(q),
{
    reveal_strlit("kernel_");
    reveal_strlit("_f32_matmul");
    reveal_strlit("_f32_matmul_multi");
    reveal_strlit("_mm_f32");
    reveal_strlit("kernel_get_rows_");
    match q {
        QuantType::Q40 => {
            reveal_strlit("q4_0");
            reveal_strlit("kernel_q4_0_f32_matmul");
            reveal_strlit("kernel_q4_0_f32_matmul_multi");
            reveal_strlit("kernel_q4_0_mm_f32");
            reveal_strlit("kernel_get_rows_q4_0");
        },
        QuantType::Q41 => {
            reveal_strlit("q4_1");
            reveal_strlit("kernel_q4_1_f32_matmul");
            reveal_strlit("kernel_q4_1_f32_matmul_multi");
            reveal_strlit("kernel_q4_1_mm_f32");
            reveal_strlit("kernel_get_rows_q4_1");
        },
        QuantType::Q50 => {
            reveal_strlit("q5_0");
            reveal_strlit("kernel_q5_0_f32_matmul");
            reveal_strlit("kernel_q5_0_f32_matmul_multi");
            reveal_strlit("kernel_q5_0_mm_f32");
            reveal_strlit("kernel_get_rows_q5_0");
        },
        QuantType::Q51 => {
            reveal_strlit("q5_1");
            reveal_strlit("kernel_q5_1_f32_matmul");
            reveal_strlit("kernel_q5_1_f32_matmul_multi");
            reveal_strlit("kernel_q5_1_mm_f32");
            reveal_strlit("kernel_get_rows_q5_1");
        },
        QuantType::Q80 => {
            reveal_strlit("q8_0");
            reveal_strlit("kernel_q8_0_f32_matmul");
            reveal_strlit("kernel_q8_0_f32_matmul_multi");
            reveal_strlit("kernel_q8_0_mm_f32");
            reveal_strlit("kernel_get_rows_q8_0");
        },
        QuantType::Q4K => {
            reveal_strlit("q4_k");
            reveal_strlit("kernel_q4_k_f32_matmul");
            reveal_strlit("kernel_q4_k_f32_matmul_multi");
            reveal_strlit("kernel_q4_k_mm_f32");
            reveal_strlit("kernel_get_rows_q4_k");
        },
        QuantType::Q5K => {
            reveal_strlit("q5_k");
            reveal_strlit("kernel_q5_k_f32_matmul");
            reveal_strlit("kernel_q5_k_f32_matmul_multi");
            reveal_strlit("kernel_q5_k_mm_f32");
            reveal_strlit("kernel_get_rows_q5_k");
        },
        QuantType::Q6K => {
            reveal_strlit("q6_k");
            reveal_strlit("kernel_q6_k_f32_matmul");
            reveal_strlit("kernel_q6_k_f32_matmul_multi");
            reveal_strlit("kernel_q6_k_mm_f32");
            reveal_strlit("kernel_get_rows_q6_k");
        },
    }
    assert(Kernel::MatMul(q, MatForm::Single).name_spec() =~= "kernel_"@ + layout_name(q)
        + "_f32_matmul"@);
    assert(Kernel::MatMul(q, MatForm::Multi).name_spec() =~= "kernel_"@ + layout_name(q)
        + "_f32_matmul_multi"@);
    assert(Kernel::MatMul(q, MatForm::Gemm).name_spec() =~= "kernel_"@ + layout_name(q)
        + "_mm_f32"@);
    assert(Kernel::GetRows(q).name_spec() =~= "kernel_get_rows_"@ + layout_name(q));
}

/// The kernels that read keys and values carry their precision, and those for wide heads
/// the width.
pub proof fn law_kernels_carry_their_precision(wide: bool, half: bool)
    ensures
        ({
            let p = if half {
                "_f16"@
            } else {
                "_f32"@
            };
            let w = if wide {
                "_hd128"@
            } else {
                Seq::empty()
            };
            &&& (Kernel::GqaAttn { half }).name_spec() == "kernel_gqa_attn"@ + p
            &&& (Kernel::GqaAttnPartial { half }).name_spec() == "kernel_gqa_attn_partial"@ + p
            &&& (Kernel::StoreKv { half }).name_spec() == "kernel_store_kv"@ + p
            &&& (Kernel::FlashAttn { wide, half }).name_spec() == "kernel_flash_attn_ext"@ + w + p
            &&& (Kernel::FlashAttnBlk { wide, half }).name_spec() == "kernel_flash_attn_blk"@ + w
                + p
        }),
{
    reveal_strlit("_f16");
    reveal_strlit("_f32");
    reveal_strlit("_hd128");
    reveal_strlit("kernel_gqa_attn");
    reveal_strlit("kernel_gqa_attn_partial");
    reveal_strlit("kernel_store_kv");
    reveal_strlit("kernel_flash_attn_ext");
    reveal_strlit("kernel_flash_attn_blk");
    reveal_strlit("kernel_gqa_attn_f32");
    reveal_strlit("kernel_gqa_attn_f16");
    reveal_strlit("kernel_gqa_attn_partial_f32");
    reveal_strlit("kernel_gqa_attn_partial_f16");
    reveal_strlit("kernel_store_kv_f32");
    reveal_strlit("kernel_store_kv_f16");
    reveal_strlit("kernel_flash_attn_ext_f32");
    reveal_strlit("kernel_flash_attn_ext_f16");
    reveal_strlit("kernel_flash_attn_ext_hd128_f32");
    reveal_strlit("kernel_flash_attn_ext_hd128_f16");
    reveal_strlit("kernel_flash_attn_blk_f32");
    reveal_strlit("kernel_flash_attn_blk_f16");
    reveal_strlit("kernel_flash_attn_blk_hd128_f32");
    reveal_strlit("kernel_flash_attn_blk_hd128_f16");
}

/// The kernels of the other operators are called for what they do.
pub proof fn law_kernels_are_called_for_what_they_do()
    ensures
        Kernel::GetRowsF32.name_spec() == "kernel_get_rows_f32"@,
        Kernel::RmsNorm.name_spec() == "kernel_rms_norm_f32"@,
        Kernel::RmsNorm256.name_spec() == "kernel_rms_norm_f32_256"@,
        Kernel::Add.name_spec() == "kernel_add_f32"@,
        Kernel::AddBias.name_spec() == "kernel_add_bias_f32"@,
        Kernel::Mul.name_spec() == "kernel_mul_f32"@,
        Kernel::Silu.name_spec() == "kernel_silu_f32"@,
        Kernel::Swiglu.name_spec() == "kernel_swiglu_f32"@,
        Kernel::Rope.name_spec() == "kernel_rope_f32"@,
        Kernel::GqaAttnCombine.name_spec() == "kernel_gqa_attn_combine_f32"@,
        Kernel::KvTailPad.name_spec() == "kernel_kv_tail_pad"@,
        Kernel::AttnBiasRopeStore.name_spec() == "kernel_attn_bias_rope_store"@,
        Kernel::AttnScores.name_spec() == "kernel_attn_scores"@,
        Kernel::AttnOutput.name_spec() == "kernel_attn_output"@,
        Kernel::SoftmaxAttn.name_spec() == "kernel_softmax_attn"@,
        Kernel::WarmupRead.name_spec() == "kernel_warmup_read"@,
{
}

} // verus!
