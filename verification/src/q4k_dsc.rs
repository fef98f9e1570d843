//! Which weights get a precomputed Q4_K scale plane.
//!
//! The plane is expanded from whole 144-byte super-blocks, so a weight is
//! admitted only if it is Q4_K *and* its payload has exactly the length that
//! its geometry asks for.
use crate::tensor::{TensorType, Q4KB, QK_K};
use vstd::prelude::*;

verus! {

/// Whether an `od x id` tensor is a non-empty grid of whole super-blocks.
pub open spec fn whole_super_blocks(od: int, id: int) -> bool {
    od != 0 && id != 0 && id % 256 == 0
}

/// Bytes of an `od x id` Q4_K payload: one super-block per 256 inputs per row.
pub open spec fn payload_len(od: int, id: int) -> int {
    od * (id / 256) * 144
}

/// The byte length that an `od x id` Q4_K payload must have; `None` if the
/// geometry is empty or a row is not a whole number of super-blocks.
pub fn q4k_dsc_payload_bytes(od: usize, id: usize) -> (r: Option<usize>)
    requires
        whole_super_blocks(od as int, id as int) ==> payload_len(od as int, id as int) <= usize::MAX,
    ensures
        r is Some <==> whole_super_blocks(od as int, id as int),
        r matches Some(n) ==> n == payload_len(od as int, id as int),
{
    if od == 0 || id == 0 || id % QK_K != 0 {
        return None;
    }
    let ghost blocks = od * (id / 256);
    assert(blocks * 144 == payload_len(od as int, id as int));
    assert(blocks >= 0) by (nonlinear_arith)
        requires
            blocks == od * (id / 256),
    ;
    Some(od * (id / QK_K) * Q4KB)
}

/// Whether `payload_bytes` is exactly the Q4_K length of an `od x id` tensor.
/// A longer payload is another type's rows, a shorter one would be read past.
pub fn q4k_dsc_payload_ok(payload_bytes: usize, od: usize, id: usize) -> (r: bool)
    ensures
        r == (whole_super_blocks(od as int, id as int)
            && payload_bytes == payload_len(od as int, id as int)),
{
    if od == 0 || id == 0 || id % QK_K != 0 {
        return false;
    }
    proof {
        let q = (id / 256) as int;
        assert(od * q * 144 >= od * q) by (nonlinear_arith)
            requires
                od * q >= 0,
        ;
        assert(od * q >= 0) by (nonlinear_arith)
            requires
                q >= 0,
        ;
    }
    match od.checked_mul(id / QK_K) {
        None => false,
        Some(blocks) => match blocks.checked_mul(Q4KB) {
            None => false,
            Some(n) => n == payload_bytes,
        },
    }
}

/// The one admission rule: the type is Q4_K and the payload has its length.
/// Q4_0 has the same bytes per element, so only the type tells them apart.
pub fn q4k_dsc_plane_admitted(
    ttype: TensorType,
    payload_bytes: usize,
    od: usize,
    id: usize,
) -> (r: bool)
    ensures
        r == (ttype == TensorType::Q4_K && whole_super_blocks(od as int, id as int)
            && payload_bytes == payload_len(od as int, id as int)),
{
    ttype == TensorType::Q4_K && q4k_dsc_payload_ok(payload_bytes, od, id)
}

/// A Q4_K payload takes 144 bytes for every 256 elements.
pub proof fn law_payload_per_element(od: int, id: int)
    requires
        whole_super_blocks(od, id),
        0 <= od,
        0 <= id,
    ensures
        id % 256 == 0 && od > 0 && id > 0,
        payload_len(od, id) * 256 == od * id * 144,
{
    let q = id / 256;
    assert(id == q * 256);
    assert(od * q * 144 * 256 == od * (q * 256) * 144) by (nonlinear_arith);
}

/// A geometry without elements or with a row that is cut inside a super-block has no
/// Q4_K payload.
pub proof fn law_no_partial_super_blocks(od: int, id: int)
    ensures
        od == 0 || id == 0 || id % 256 != 0 ==> !whole_super_blocks(od, id),
        od > 0 && id > 0 && id % 256 == 0 ==> whole_super_blocks(od, id),
{
}

} // verus!
