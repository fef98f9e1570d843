//! How weights are registered on CUDA.
use minfer::models::weight_reg::{
    cuda_weight_reg, register_cuda_weight, CudaWeightReg, RegisterStep,
};
use minfer::q4k_dsc::q4k_dsc_payload_bytes;
use minfer::tensor::TensorType;

#[test]
fn f16_weights_are_registered_raw_and_clear_the_nb_bt_flag() {
    let (id, od) = (1024usize, 3072usize);
    assert_eq!(
        cuda_weight_reg(TensorType::F16, 2, od * id * 2, od, id, true),
        CudaWeightReg::Raw {
            q80_p32: false,
            clear_nb_bt_only: true,
            q4k_dsc: false,
        },
        "an f16 weight must register raw and clear the NB-BT-only flag"
    );
    assert_eq!(
        cuda_weight_reg(TensorType::I8, 2, 0, od, id, true),
        CudaWeightReg::Skip
    );
}

#[test]
fn q4k_weights_register_the_dsc_plane_only_under_every_gate() {
    let (id, od) = (1024usize, 3072usize);
    let bytes = q4k_dsc_payload_bytes(od, id).expect("whole super-blocks");
    let dsc = |t, rank, b, od, id, gates| match cuda_weight_reg(t, rank, b, od, id, gates) {
        CudaWeightReg::Raw { q4k_dsc, .. } => q4k_dsc,
        other => panic!("expected Raw, got {other:?}"),
    };
    assert!(dsc(TensorType::Q4_K, 2, bytes, od, id, true));
    assert!(
        !dsc(TensorType::Q4_K, 2, bytes, od, id, false),
        "r59 gates off"
    );
    assert!(
        !dsc(TensorType::Q4_K, 2, bytes, od + 1, id, true),
        "an odd od has no row pair to stage"
    );
    assert_eq!(
        od * (id / 32) * 18,
        bytes,
        "q4_0 length == q4_K length here"
    );
    assert!(
        !dsc(TensorType::Q4_0, 2, bytes, od, id, true),
        "the type gate is the only thing that can refuse q4_0"
    );
    let q80 = od * (id / 32) * 34;
    assert!(q80 > bytes);
    assert!(!dsc(TensorType::Q4_K, 2, q80, od, id, true));
    assert!(!dsc(TensorType::F16, 2, bytes, od, id, true));
}

#[test]
fn the_quantized_arm_matches_the_pre_167_dispatch() {
    let (id, od) = (1024usize, 3072usize);
    assert_eq!(
        cuda_weight_reg(TensorType::Q6_K, 2, 0, od, id, true),
        CudaWeightReg::Q6kPadded
    );
    for t in [
        TensorType::Q4_0,
        TensorType::Q4_1,
        TensorType::Q5_0,
        TensorType::Q5_1,
        TensorType::Q5_K,
        TensorType::Q8_0,
    ] {
        let got = cuda_weight_reg(t, 2, 0, od, id, false);
        let want = CudaWeightReg::Raw {
            q80_p32: t == TensorType::Q8_0,
            clear_nb_bt_only: true,
            q4k_dsc: false,
        };
        assert_eq!(got, want, "{t:?}");
    }
    assert_eq!(
        cuda_weight_reg(TensorType::Q4_K, 2, 0, od, id, false),
        CudaWeightReg::Raw {
            q80_p32: false,
            clear_nb_bt_only: false,
            q4k_dsc: false,
        },
        "q4_K is NB-BT-consumable: it must not clear the flag"
    );
}

#[test]
fn only_a_2d_f32_weight_clears_the_nb_bt_flag() {
    let clear = |rank| match cuda_weight_reg(TensorType::F32, rank, 0, 1024, 1024, true) {
        CudaWeightReg::Raw {
            clear_nb_bt_only, ..
        } => clear_nb_bt_only,
        other => panic!("expected Raw, got {other:?}"),
    };
    assert!(!clear(1), "a 1-D norm/bias is not a matmul weight");
    assert!(clear(2), "a 2-D f32 weight is a matmul weight");
}

#[test]
fn the_rule_distinguishes_the_three_registration_kinds() {
    let (id, od) = (1024usize, 3072usize);
    assert_eq!(
        cuda_weight_reg(TensorType::Q6_K, 2, 0, od, id, true),
        CudaWeightReg::Q6kPadded
    );
    assert!(matches!(
        cuda_weight_reg(TensorType::Q8_0, 2, 0, od, id, true),
        CudaWeightReg::Raw { .. }
    ));
    assert_eq!(
        cuda_weight_reg(TensorType::I8, 2, 0, od, id, true),
        CudaWeightReg::Skip
    );
}

#[test]
fn the_steps_follow_the_rule_in_order() {
    let q80 = register_cuda_weight(TensorType::Q8_0, 34, &[32, 1, 1, 1], 2, false);
    assert_eq!(
        q80,
        vec![RegisterStep::Raw, RegisterStep::Q80P32, RegisterStep::ClearNbBtOnly]
    );
    let q6k = register_cuda_weight(TensorType::Q6_K, 210, &[256, 1, 1, 1], 2, false);
    assert_eq!(q6k, vec![RegisterStep::Q6kPadded]);
    let q4k = register_cuda_weight(TensorType::Q4_K, 288, &[256, 2, 1, 1], 2, true);
    assert_eq!(q4k, vec![RegisterStep::Raw, RegisterStep::Q4kDsc]);
    let i8 = register_cuda_weight(TensorType::I8, 4, &[4, 1, 1, 1], 1, true);
    assert!(i8.is_empty());
}
