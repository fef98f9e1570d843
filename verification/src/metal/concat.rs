//! Stacking quantised weights row by row, so that one multiplication serves
//! several projections.
use crate::tensor::{Tensor, TensorType};
use vstd::prelude::*;

verus! {

/// Elements per block of the multiplication kernels.
pub open spec fn block_elems(t: TensorType) -> int {
    match t {
        TensorType::Q4_K | TensorType::Q5_K | TensorType::Q6_K => 256,
        _ => 32,
    }
}

/// Bytes per block; 0 for the types that are not quantised in blocks.
pub open spec fn block_bytes(t: TensorType) -> int {
    match t {
        TensorType::Q4_0 => 18,
        TensorType::Q4_1 => 20,
        TensorType::Q5_0 => 22,
        TensorType::Q5_1 => 24,
        TensorType::Q8_0 => 34,
        TensorType::Q4_K => 144,
        TensorType::Q5_K => 176,
        TensorType::Q6_K => 210,
        _ => 0,
    }
}

/// Elements per block of the multiplication kernels.
pub fn quant_block_q(t: TensorType) -> (r: usize)
    ensures
        r == block_elems(t),
{
    match t {
        TensorType::Q4_K | TensorType::Q5_K | TensorType::Q6_K => 256,
        _ => 32,
    }
}

/// Bytes per block; 0 for the types that are not quantised in blocks.
pub fn quant_block_bytes(t: TensorType) -> (r: usize)
    ensures
        r == block_bytes(t),
{
    match t {
        TensorType::Q4_0 => 18,
        TensorType::Q4_1 => 20,
        TensorType::Q5_0 => 22,
        TensorType::Q5_1 => 24,
        TensorType::Q8_0 => 34,
        TensorType::Q4_K => 144,
        TensorType::Q5_K => 176,
        TensorType::Q6_K => 210,
        _ => 0,
    }
}

/// Rows of all tensors together.
pub open spec fn total_rows(ts: Seq<&Tensor>) -> int
    decreases ts.len(),
{
    if ts.len() == 0 {
        0
    } else {
        total_rows(ts.drop_last()) + ts.last().shape@[1]
    }
}

/// The bytes of all tensors, one after the other.
pub open spec fn stacked(ts: Seq<&Tensor>) -> Seq<u8>
    decreases ts.len(),
{
    if ts.len() == 0 {
        Seq::empty()
    } else {
        stacked(ts.drop_last()) + ts.last().data@
    }
}

/// Whether tensors share one multiplication: at least two, of one quantised
/// type, with equally long rows of whole blocks, and with exactly the bytes
/// that those rows take.
pub open spec fn can_stack(ts: Seq<&Tensor>) -> bool {
    &&& ts.len() >= 2
    &&& forall|i: int| 0 <= i < ts.len() ==> (#[trigger] ts[i]).ttype == ts[0].ttype
    &&& block_bytes(ts[0].ttype) != 0
    &&& forall|i: int| 0 <= i < ts.len() ==> (#[trigger] ts[i]).shape@[0] == ts[0].shape@[0]
    &&& ts[0].shape@[0] as int % block_elems(ts[0].ttype) == 0
    &&& stacked(ts).len() == total_rows(ts) * (ts[0].shape@[0] as int / block_elems(ts[0].ttype)
        * block_bytes(ts[0].ttype))
}

/// Dimensions and a byte count that machine words hold.
pub open spec fn sound_sizes(ts: Seq<&Tensor>) -> bool {
    sound_shapes(ts) && stacked(ts).len() <= usize::MAX
}

/// Dimensions that a machine word holds.
pub open spec fn sound_shapes(ts: Seq<&Tensor>) -> bool {
    forall|i: int|
        0 <= i < ts.len() ==> 0 <= (#[trigger] ts[i]).shape@[0] <= usize::MAX && 0
            <= ts[i].shape@[1] <= usize::MAX
}

proof fn lemma_rows_nonneg(ts: Seq<&Tensor>)
    requires
        sound_shapes(ts),
    ensures
        total_rows(ts) >= 0,
    decreases ts.len(),
{
    if ts.len() > 0 {
        assert(sound_shapes(ts.drop_last()));
        lemma_rows_nonneg(ts.drop_last());
        assert(ts[ts.len() - 1].shape@[1] >= 0);
    }
}

proof fn lemma_rows_grow(ts: Seq<&Tensor>, k: int)
    requires
        sound_shapes(ts),
        0 <= k <= ts.len(),
    ensures
        total_rows(ts.take(k)) <= total_rows(ts),
    decreases ts.len() - k,
{
    if k < ts.len() {
        lemma_rows_grow(ts, k + 1);
        assert(ts.take(k + 1).drop_last() =~= ts.take(k));
        assert(ts.take(k + 1).last() == ts[k]);
    } else {
        assert(ts.take(k) =~= ts);
    }
}

/// The rows of the tensors, if a machine word holds their number.
fn rows_of(ts: &[&Tensor]) -> (r: Option<usize>)
    requires
        sound_shapes(ts@),
    ensures
        match r {
            Some(n) => n == total_rows(ts@),
            None => total_rows(ts@) > usize::MAX,
        },
{
    let mut rows: usize = 0;
    let mut i: usize = 0;
    while i < ts.len()
        invariant
            i <= ts@.len(),
            sound_shapes(ts@),
            rows == total_rows(ts@.take(i as int)),
        decreases ts@.len() - i,
    {
        assert(ts@.take(i + 1).drop_last() =~= ts@.take(i as int));
        assert(ts@.take(i + 1).last() == ts@[i as int]);
        match rows.checked_add(ts[i].shape[1] as usize) {
            None => {
                proof {
                    lemma_rows_grow(ts@, i + 1);
                }
                return None;
            },
            Some(n) => {
                rows = n;
            },
        }
        i = i + 1;
    }
    assert(ts@.take(i as int) =~= ts@);
    Some(rows)
}

/// The bytes of all tensors, one after the other.
fn stack(ts: &[&Tensor]) -> (out: Vec<u8>)
    ensures
        out@ == stacked(ts@),
{
    let mut out: Vec<u8> = Vec::new();
    let mut i: usize = 0;
    while i < ts.len()
        invariant
            i <= ts@.len(),
            out@ == stacked(ts@.take(i as int)),
        decreases ts@.len() - i,
    {
        assert(ts@.take(i + 1).drop_last() =~= ts@.take(i as int));
        assert(ts@.take(i + 1).last() == ts@[i as int]);
        let mut part: Vec<u8> = ts[i].data.clone();
        out.append(&mut part);
        i = i + 1;
    }
    assert(ts@.take(i as int) =~= ts@);
    out
}

/// Bytes of the stacked tensors.
fn bytes_of(ts: &[&Tensor]) -> (n: usize)
    requires
        stacked(ts@).len() <= usize::MAX,
    ensures
        n == stacked(ts@).len(),
{
    let mut n: usize = 0;
    let mut i: usize = 0;
    while i < ts.len()
        invariant
            i <= ts@.len(),
            stacked(ts@).len() <= usize::MAX,
            n == stacked(ts@.take(i as int)).len(),
        decreases ts@.len() - i,
    {
        assert(ts@.take(i + 1).drop_last() =~= ts@.take(i as int));
        assert(ts@.take(i + 1).last() == ts@[i as int]);
        proof {
            lemma_stacked_grows(ts@, i + 1);
        }
        n = n + ts[i].data.len();
        i = i + 1;
    }
    assert(ts@.take(i as int) =~= ts@);
    n
}

proof fn lemma_stacked_grows(ts: Seq<&Tensor>, k: int)
    requires
        0 <= k <= ts.len(),
    ensures
        stacked(ts.take(k)).len() <= stacked(ts).len(),
    decreases ts.len() - k,
{
    if k < ts.len() {
        lemma_stacked_grows(ts, k + 1);
        assert(ts.take(k + 1).drop_last() =~= ts.take(k));
    } else {
        assert(ts.take(k) =~= ts);
    }
}

/// Whether tensors share one multiplication, without stacking them.
pub fn concat_rows_feasible(ts: &[&Tensor]) -> (r: bool)
    requires
        sound_sizes(ts@),
    ensures
        r == can_stack(ts@),
{
    if ts.len() < 2 {
        return false;
    }
    let tt: TensorType = ts[0].ttype;
    let bb: usize = quant_block_bytes(tt);
    let bq: usize = quant_block_q(tt);
    let ne0: i64 = ts[0].shape[0];
    let mut i: usize = 0;
    while i < ts.len()
        invariant
            i <= ts@.len(),
            ts@.len() >= 2,
            tt == ts@[0].ttype,
            ne0 == ts@[0].shape@[0],
            forall|k: int|
                0 <= k < i ==> (#[trigger] ts@[k]).ttype == tt && ts@[k].shape@[0] == ne0,
        decreases ts@.len() - i,
    {
        if ts[i].ttype != tt || ts[i].shape[0] != ne0 {
            assert(!(ts@[i as int].ttype == ts@[0].ttype && ts@[i as int].shape@[0]
                == ts@[0].shape@[0]));
            return false;
        }
        i = i + 1;
    }
    if bb == 0 {
        return false;
    }
    assert(ts@[0].shape@[0] >= 0);
    let width: usize = ne0 as usize;
    if width % bq != 0 {
        return false;
    }
    let ghost q = ne0 as int / bq as int;
    let ghost row = q * bb;
    proof {
        lemma_rows_nonneg(ts@);
        assert(q >= 0);
        assert(q <= row) by (nonlinear_arith)
            requires
                q >= 0,
                bb >= 1,
                row == q * bb,
        ;
    }
    let have: usize = bytes_of(ts);
    let rows: usize = match rows_of(ts) {
        Some(n) => n,
        None => {
            proof {
                let r = total_rows(ts@);
                if row > 0 {
                    assert(r <= r * row) by (nonlinear_arith)
                        requires
                            r >= 0,
                            row >= 1,
                    ;
                } else {
                    assert(r * row == 0) by (nonlinear_arith)
                        requires
                            row == 0,
                    ;
                }
            }
            return have == 0 && width < bq;
        },
    };
    if have == 0 {
        assert((rows == 0 || row == 0) <==> rows * row == 0) by (nonlinear_arith)
            requires
                rows >= 0,
                row >= 0,
        ;
        assert(row == 0 <==> q == 0) by (nonlinear_arith)
            requires
                row == q * bb,
                bb >= 1,
        ;
        return rows == 0 || width < bq;
    }
    match (width / bq).checked_mul(bb) {
        None => {
            proof {
                assert(rows * row == 0 || rows * row >= row) by (nonlinear_arith)
                    requires
                        rows >= 0,
                        row >= 0,
                ;
            }
            false
        },
        Some(r) => match rows.checked_mul(r) {
            None => false,
            Some(n) => n == have,
        },
    }
}

/// The stacked weights, or `None` if they do not share one multiplication.
pub fn concat_rows(ts: &[&Tensor]) -> (r: Option<Vec<u8>>)
    requires
        sound_sizes(ts@),
    ensures
        r is Some <==> can_stack(ts@),
        r matches Some(out) ==> out@ == stacked(ts@),
{
    if concat_rows_feasible(ts) {
        Some(stack(ts))
    } else {
        None
    }
}

/// The bytes of a stack are those of its tensors, in their order, and so are its rows.
pub proof fn law_stack_joins_tensors(ts: Seq<&Tensor>, k: int)
    requires
        0 <= k < ts.len(),
    ensures
        ({
            let from = stacked(ts.take(k)).len() as int;
            let to = from + ts[k].data@.len();
            &&& to <= stacked(ts).len()
            &&& stacked(ts).subrange(from, to) == ts[k].data@
            &&& stacked(ts.take(k + 1)).len() == to
            &&& total_rows(ts.take(k + 1)) == total_rows(ts.take(k)) + ts[k].shape@[1]
            &&& k == 0 ==> from == 0 && total_rows(ts.take(k)) == 0
            &&& k == ts.len() - 1 ==> to == stacked(ts).len() && total_rows(ts) == total_rows(
                ts.take(k + 1),
            )
        }),
    decreases ts.len(),
{
    let from = stacked(ts.take(k)).len() as int;
    let to = from + ts[k].data@.len();
    assert(ts.take(k + 1).drop_last() =~= ts.take(k));
    assert(ts.take(k + 1).last() == ts[k]);
    if k == ts.len() - 1 {
        assert(ts.drop_last() =~= ts.take(k));
        assert(ts.take(k + 1) =~= ts);
        assert(stacked(ts).subrange(from, to) =~= ts[k].data@);
    } else {
        let less = ts.drop_last();
        law_stack_joins_tensors(less, k);
        assert(less.take(k) =~= ts.take(k));
        assert(less.take(k + 1) =~= ts.take(k + 1));
        assert(stacked(ts).subrange(from, to) =~= stacked(less).subrange(from, to));
    }
    if k == 0 {
        assert(ts.take(0) =~= Seq::<&Tensor>::empty());
    }
}

/// The blocks of the multiplication kernels: 32 elements, 256 of the K types. A block of
/// 32 holds, beside its codes, the scale in two bytes and, with a minimum, two more.
pub proof fn law_kernel_blocks(t: TensorType)
    ensures
        t is Q4_0 ==> block_elems(t) == 32 && block_bytes(t) == 2 + 32 * 4 / 8,
        t is Q4_1 ==> block_elems(t) == 32 && block_bytes(t) == 4 + 32 * 4 / 8,
        t is Q5_0 ==> block_elems(t) == 32 && block_bytes(t) == 2 + 32 * 5 / 8,
        t is Q5_1 ==> block_elems(t) == 32 && block_bytes(t) == 4 + 32 * 5 / 8,
        t is Q8_0 ==> block_elems(t) == 32 && block_bytes(t) == 2 + 32,
        t is Q4_K ==> block_elems(t) == 256 && block_bytes(t) == 4 + 12 + 256 * 4 / 8,
        t is Q5_K ==> block_elems(t) == 256 && block_bytes(t) == 4 + 12 + 256 * 5 / 8,
        t is Q6_K ==> block_elems(t) == 256 && block_bytes(t) == 2 + 16 + 256 * 6 / 8,
        t is F32 || t is F16 || t is I8 ==> block_elems(t) == 32 && block_bytes(t) == 0,
{
}

/// What stacks: two or more tensors of one block-quantised type whose rows are equally
/// long and whole blocks, with a block's bytes for each block of theirs.
pub proof fn law_what_stacks(ts: Seq<&Tensor>)
    ensures
        can_stack(ts) <==> {
            let t = ts[0].ttype;
            let row = ts[0].shape@[0] as int;
            &&& ts.len() >= 2
            &&& !(t is F32 || t is F16 || t is I8)
            &&& forall|i: int|
                0 <= i < ts.len() ==> (#[trigger] ts[i]).ttype == t && ts[i].shape@[0] == row
            &&& row % block_elems(t) == 0
            &&& stacked(ts).len() == total_rows(ts) * (row / block_elems(t) * block_bytes(t))
        },
{
}

} // verus!
