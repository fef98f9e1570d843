//! How one weight tensor is registered on a CUDA device.
use crate::q4k_dsc::q4k_dsc_plane_admitted;
use crate::tensor::TensorType;
use vstd::prelude::*;

verus! {

/// What the loader does with one weight tensor.
#[derive(Debug, Clone, Copy, PartialEq, Eq, Structural)]
pub enum CudaWeightReg {
    /// No kernel reads this type: the registry stays untouched.
    Skip,
    /// The bytes as they are, with the extras that the flags ask for.
    Raw {
        /// The 32-wide split planes that Q8_0 decoding reads.
        q80_p32: bool,
        /// The weight is read as plain activations downstream, so producers
        /// may no longer skip writing them.
        clear_nb_bt_only: bool,
        /// The precomputed Q4_K scale plane.
        q4k_dsc: bool,
    },
    /// Q6_K in its padded layout.
    Q6kPadded,
}

/// The block-quantised types.
pub open spec fn quantized(t: TensorType) -> bool {
    t is Q4_0 || t is Q4_1 || t is Q4_K || t is Q5_0 || t is Q5_1 || t is Q5_K || t is Q6_K
        || t is Q8_0
}

/// The registration rule, by type.
pub open spec fn weight_reg_spec(
    ttype: TensorType,
    rank: int,
    payload_bytes: int,
    od: int,
    id: int,
    dsc_gates_on: bool,
) -> CudaWeightReg {
    match ttype {
        TensorType::I8 => CudaWeightReg::Skip,
        TensorType::Q6_K => CudaWeightReg::Q6kPadded,
        TensorType::F16 => CudaWeightReg::Raw {
            q80_p32: false,
            clear_nb_bt_only: true,
            q4k_dsc: false,
        },
        TensorType::F32 => CudaWeightReg::Raw {
            q80_p32: false,
            clear_nb_bt_only: rank == 2,
            q4k_dsc: false,
        },
        TensorType::Q4_K => CudaWeightReg::Raw {
            q80_p32: false,
            clear_nb_bt_only: false,
            q4k_dsc: dsc_gates_on && od % 2 == 0 && crate::q4k_dsc::whole_super_blocks(od, id)
                && payload_bytes == crate::q4k_dsc::payload_len(od, id),
        },
        _ => CudaWeightReg::Raw {
            q80_p32: ttype is Q8_0,
            clear_nb_bt_only: true,
            q4k_dsc: false,
        },
    }
}

/// Decides how a tensor is registered from its type, its number of stored
/// dimensions, its payload length and its geometry (`od` rows of `id` inputs).
pub fn cuda_weight_reg(
    ttype: TensorType,
    rank: usize,
    payload_bytes: usize,
    od: usize,
    id: usize,
    dsc_gates_on: bool,
) -> (r: CudaWeightReg)
    ensures
        r == weight_reg_spec(
            ttype,
            rank as int,
            payload_bytes as int,
            od as int,
            id as int,
            dsc_gates_on,
        ),
{
    let quantized: bool = matches!(
        ttype,
        TensorType::Q4_0 | TensorType::Q4_1 | TensorType::Q4_K | TensorType::Q5_0
            | TensorType::Q5_1 | TensorType::Q5_K | TensorType::Q6_K | TensorType::Q8_0
    );
    if quantized {
        if ttype == TensorType::Q6_K {
            return CudaWeightReg::Q6kPadded;
        }
        return CudaWeightReg::Raw {
            q80_p32: ttype == TensorType::Q8_0,
            clear_nb_bt_only: !matches!(ttype, TensorType::Q4_K | TensorType::Q6_K),
            q4k_dsc: dsc_gates_on && od % 2 == 0 && q4k_dsc_plane_admitted(
                ttype,
                payload_bytes,
                od,
                id,
            ),
        };
    }
    if ttype == TensorType::F16 {
        return CudaWeightReg::Raw { q80_p32: false, clear_nb_bt_only: true, q4k_dsc: false };
    }
    if ttype == TensorType::F32 {
        return CudaWeightReg::Raw { q80_p32: false, clear_nb_bt_only: rank == 2, q4k_dsc: false };
    }
    CudaWeightReg::Skip
}

/// One step of carrying a registration out on the device.
#[derive(Debug, Clone, Copy, PartialEq, Eq, Structural)]
pub enum RegisterStep {
    /// Upload the bytes as they are.
    Raw,
    /// Upload the padded Q6_K repack.
    Q6kPadded,
    /// Upload the split planes of a Q8_0 weight.
    Q80P32,
    /// Upload the Q4_K scale plane.
    Q4kDsc,
    /// Clear the process-wide flag that lets producers skip their writes.
    ClearNbBtOnly,
}

/// The steps of a registration, in order: the bytes, the extras, the flag.
pub open spec fn register_steps_spec(reg: CudaWeightReg) -> Seq<RegisterStep> {
    match reg {
        CudaWeightReg::Skip => Seq::empty(),
        CudaWeightReg::Q6kPadded => seq![RegisterStep::Q6kPadded],
        CudaWeightReg::Raw { q80_p32, clear_nb_bt_only, q4k_dsc } => seq![RegisterStep::Raw] + (
        if q80_p32 {
            seq![RegisterStep::Q80P32]
        } else {
            Seq::empty()
        }) + (if q4k_dsc {
            seq![RegisterStep::Q4kDsc]
        } else {
            Seq::empty()
        }) + (if clear_nb_bt_only {
            seq![RegisterStep::ClearNbBtOnly]
        } else {
            Seq::empty()
        }),
    }
}

/// The steps that register a tensor of the given type and GGUF shape
/// (`shape[0]` inputs, `shape[1]` rows) with `payload_bytes` of data.
pub fn register_cuda_weight(
    ttype: TensorType,
    payload_bytes: usize,
    shape: &[i64; 4],
    rank: usize,
    dsc_gates_on: bool,
) -> (steps: Vec<RegisterStep>)
    requires
        0 <= shape@[0] <= usize::MAX,
        0 <= shape@[1] <= usize::MAX,
    ensures
        steps@ == register_steps_spec(
            weight_reg_spec(
                ttype,
                rank as int,
                payload_bytes as int,
                shape@[1] as int,
                shape@[0] as int,
                dsc_gates_on,
            ),
        ),
{
    let id: usize = shape[0] as usize;
    let od: usize = shape[1] as usize;
    let mut steps: Vec<RegisterStep> = Vec::new();
    match cuda_weight_reg(ttype, rank, payload_bytes, od, id, dsc_gates_on) {
        CudaWeightReg::Skip => {},
        CudaWeightReg::Q6kPadded => {
            steps.push(RegisterStep::Q6kPadded);
        },
        CudaWeightReg::Raw { q80_p32, clear_nb_bt_only, q4k_dsc } => {
            steps.push(RegisterStep::Raw);
            if q80_p32 {
                steps.push(RegisterStep::Q80P32);
            }
            if q4k_dsc {
                steps.push(RegisterStep::Q4kDsc);
            }
            if clear_nb_bt_only {
                steps.push(RegisterStep::ClearNbBtOnly);
            }
        },
    }
    steps
}

/// A Q4_K scale plane is registered only for a Q4_K weight whose payload has
/// exactly the length of its geometry: no other bytes are ever expanded.
pub proof fn law_dsc_plane_only_for_exact_q4k(
    ttype: TensorType,
    rank: int,
    payload_bytes: int,
    od: int,
    id: int,
    gates: bool,
)
    ensures
        register_steps_spec(
            weight_reg_spec(ttype, rank, payload_bytes, od, id, gates),
        ).contains(RegisterStep::Q4kDsc) ==> ttype is Q4_K && gates && payload_bytes
            == crate::q4k_dsc::payload_len(od, id),
{
    let reg = weight_reg_spec(ttype, rank, payload_bytes, od, id, gates);
    let s = register_steps_spec(reg);
    if s.contains(RegisterStep::Q4kDsc) {
        let k = choose|k: int| 0 <= k < s.len() && s[k] == RegisterStep::Q4kDsc;
        assert(s[k] == RegisterStep::Q4kDsc);
        assert(reg is Raw);
        assert(reg->q4k_dsc);
    }
}

/// What is registered of a weight, by its type: nothing of plain bytes, Q6_K padded,
/// everything else as it is. Q8_0 gets its split planes, a Q4_K weight of an even number
/// of rows, whose payload is 144 bytes for every 256 elements, its scale plane. The flag
/// is cleared for all but Q4_K, Q6_K and those plain floats that are no matrix.
pub proof fn law_registration_by_type(
    ttype: TensorType,
    rank: int,
    payload_bytes: int,
    od: int,
    id: int,
    gates: bool,
)
    requires
        0 <= od,
        0 <= id,
    ensures
        ({
            let steps = register_steps_spec(
                weight_reg_spec(ttype, rank, payload_bytes, od, id, gates),
            );
            let raw = seq![RegisterStep::Raw];
            let clearing = seq![RegisterStep::Raw, RegisterStep::ClearNbBtOnly];
            match ttype {
                TensorType::I8 => steps == Seq::<RegisterStep>::empty(),
                TensorType::Q6_K => steps == seq![RegisterStep::Q6kPadded],
                TensorType::Q8_0 => steps == seq![
                    RegisterStep::Raw,
                    RegisterStep::Q80P32,
                    RegisterStep::ClearNbBtOnly,
                ],
                TensorType::F32 => steps == if rank == 2 {
                    clearing
                } else {
                    raw
                },
                TensorType::Q4_K => steps == if gates && od % 2 == 0 && od > 0 && id > 0 && id
                    % 256 == 0 && payload_bytes == 144 * (od * (id / 256)) {
                    seq![RegisterStep::Raw, RegisterStep::Q4kDsc]
                } else {
                    raw
                },
                _ => steps == clearing,
            }
        }),
{
}

} // verus!
