//! The length of a Q4_K payload.
use minfer::q4k_dsc::{q4k_dsc_payload_bytes, q4k_dsc_payload_ok, q4k_dsc_plane_admitted};
use minfer::tensor::TensorType;

#[test]
fn the_q4k_dsc_payload_contract_refuses_a_q8_0_payload() {
    let (od, id) = (1024usize, 3072usize);
    let want = q4k_dsc_payload_bytes(od, id).expect("whole super-blocks per row");
    assert_eq!(want, od * (id / 256) * 144);
    let q80 = od * (id / 32) * 34;
    assert!(q80 > want, "q8_0 {q80} must exceed the q4_K {want}");
    assert!(
        !q4k_dsc_payload_ok(q80, od, id),
        "a q8_0 length is not a q4_K row"
    );
    assert!(
        !q4k_dsc_plane_admitted(TensorType::Q8_0, q80, od, id),
        "a q8_0 weight must be refused at its own length"
    );
    assert!(
        !q4k_dsc_plane_admitted(TensorType::Q8_0, want, od, id),
        "the type gate must refuse a q8_0 weight regardless of its length"
    );
    assert!(!q4k_dsc_plane_admitted(TensorType::Q5_K, want, od, id));
    assert!(q4k_dsc_plane_admitted(TensorType::Q4_K, want, od, id));
    assert_eq!(od * (id / 32) * 18, want);
    assert!(
        !q4k_dsc_plane_admitted(TensorType::Q4_0, want, od, id),
        "the type gate is the only thing that can refuse q4_0"
    );
}

#[test]
fn the_q4k_dsc_payload_contract_refuses_a_short_payload() {
    let (od, id) = (896usize, 4864usize);
    let want = q4k_dsc_payload_bytes(od, id).expect("whole super-blocks per row");
    assert_eq!(want, 896 * 19 * 144);
    assert!(!q4k_dsc_payload_ok(want - 144, od, id), "one block short");
    assert!(!q4k_dsc_payload_ok(want + 144, od, id), "one block long");
    assert!(!q4k_dsc_payload_ok(0, od, id), "empty");
    assert!(q4k_dsc_payload_ok(want, od, id));
    assert_eq!(
        q4k_dsc_payload_bytes(od, 896),
        None,
        "896 is not a whole number of 256-element super-blocks"
    );
    assert_eq!(q4k_dsc_payload_bytes(0, id), None);
    assert!(!q4k_dsc_plane_admitted(
        TensorType::Q4_K,
        want - 144,
        od,
        id
    ));
}
