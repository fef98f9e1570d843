//! What the operations of a block on the host come to: the values that the buffers hold
//! after them, as expressions over the state that came in.
use super::forward::{layer_ops, HostBuf, HostDims, HostOp, Part};
use super::loader::LayerWeights;
use crate::tensor::Tensor;
use vstd::prelude::*;

verus! {

/// The value of a buffer.
pub ghost enum HostValue {
    /// What the buffer held at first.
    Given(HostBuf),
    /// The first elements of a value.
    First { x: Box<HostValue>, len: usize },
    Norm { x: Box<HostValue>, weight: Option<Part>, width: usize },
    Product { x: Box<HostValue>, weight: Part, out_dim: usize, in_dim: usize },
    Biased { x: Box<HostValue>, bias: Part, width: usize, count: usize },
    /// Every head turned by its position.
    Turned { x: Box<HostValue>, heads: usize, head_dim: usize },
    /// The values that the queries find by the keys.
    Attended { layer: usize, q: Box<HostValue>, k: Box<HostValue>, v: Box<HostValue> },
    Silu { x: Box<HostValue>, len: usize },
    Sum { x: Box<HostValue>, y: Box<HostValue>, len: usize },
    Times { x: Box<HostValue>, y: Box<HostValue>, len: usize },
}

/// The buffers, and the keys and values that the caches of the blocks hold.
pub ghost struct HostState {
    pub bufs: Map<HostBuf, HostValue>,
    pub kept: Map<usize, (HostValue, HostValue)>,
}

/// Before the first operation.
pub open spec fn at_first() -> HostState {
    HostState {
        bufs: Map::new(|b: HostBuf| true, |b: HostBuf| HostValue::Given(b)),
        kept: Map::empty(),
    }
}

/// A buffer gets a value.
pub open spec fn put(s: HostState, b: HostBuf, v: HostValue) -> HostState {
    HostState { bufs: s.bufs.insert(b, v), ..s }
}

/// What one operation does.
pub open spec fn after_op(s: HostState, op: HostOp) -> HostState {
    match op {
        HostOp::Norm { src, dst, weight, width } => put(
            s,
            dst,
            HostValue::Norm { x: Box::new(s.bufs[src]), weight, width },
        ),
        HostOp::Matmul { weight, src, dst, out_dim, in_dim } => put(
            s,
            dst,
            HostValue::Product { x: Box::new(s.bufs[src]), weight, out_dim, in_dim },
        ),
        HostOp::AddBias { bias, dst, width, count } => put(
            s,
            dst,
            HostValue::Biased { x: Box::new(s.bufs[dst]), bias, width, count },
        ),
        HostOp::Rope { dst, heads, head_dim } => put(
            s,
            dst,
            HostValue::Turned { x: Box::new(s.bufs[dst]), heads, head_dim },
        ),
        HostOp::StoreKv { layer } => HostState {
            kept: s.kept.insert(layer, (s.bufs[HostBuf::Key], s.bufs[HostBuf::Value])),
            ..s
        },
        HostOp::Attend { layer, dst } => put(
            s,
            dst,
            HostValue::Attended {
                layer,
                q: Box::new(s.bufs[HostBuf::Query]),
                k: Box::new(s.kept[layer].0),
                v: Box::new(s.kept[layer].1),
            },
        ),
        HostOp::Copy { src, dst, len } => put(
            s,
            dst,
            HostValue::First { x: Box::new(s.bufs[src]), len },
        ),
        HostOp::Add { dst, src, len } => put(
            s,
            dst,
            HostValue::Sum { x: Box::new(s.bufs[dst]), y: Box::new(s.bufs[src]), len },
        ),
        HostOp::Silu { dst, len } => put(s, dst, HostValue::Silu { x: Box::new(s.bufs[dst]), len }),
        HostOp::Mul { dst, src, len } => put(
            s,
            dst,
            HostValue::Times { x: Box::new(s.bufs[dst]), y: Box::new(s.bufs[src]), len },
        ),
    }
}

/// What some operations do, one after the other.
pub open spec fn after_ops(s: HostState, ops: Seq<HostOp>) -> HostState
    decreases ops.len(),
{
    if ops.len() == 0 {
        s
    } else {
        after_op(after_ops(s, ops.drop_last()), ops.last())
    }
}

proof fn lemma_ops_join(s: HostState, a: Seq<HostOp>, b: Seq<HostOp>)
    ensures
        after_ops(s, a + b) == after_ops(after_ops(s, a), b),
    decreases b.len(),
{
    if b.len() == 0 {
        assert(a + b =~= a);
    } else {
        lemma_ops_join(s, a, b.drop_last());
        assert((a + b).drop_last() =~= a + b.drop_last());
    }
}

proof fn lemma_one_op(s: HostState, op: HostOp)
    ensures
        after_ops(s, seq![op]) == after_op(s, op),
{
    assert(seq![op].drop_last() =~= Seq::<HostOp>::empty());
    assert(after_ops(s, seq![op].drop_last()) == s);
}

/// A norm's weight, if the block has it.
pub open spec fn if_there(t: Option<Tensor>, p: Part) -> Option<Part> {
    if t is Some {
        Some(p)
    } else {
        None
    }
}

/// A projection of `x` to rows of `width`: the product, and the bias where the block has
/// one, as much of it as there is.
pub open spec fn projected(
    x: HostValue,
    weight: Part,
    b: Option<Tensor>,
    bias: Part,
    width: usize,
    ne: usize,
) -> HostValue {
    let y = HostValue::Product { x: Box::new(x), weight, out_dim: width, in_dim: ne };
    match b {
        None => y,
        Some(t) => HostValue::Biased {
            x: Box::new(y),
            bias,
            width,
            count: if t.data@.len() / 4 < width {
                (t.data@.len() / 4) as usize
            } else {
                width
            },
        },
    }
}

/// The keys that a block adds to its cache: turned by their positions.
pub open spec fn new_keys(l: LayerWeights, d: HostDims, x: HostValue) -> HostValue {
    let k = projected(x, Part::Wk, l.bk, Part::Bk, d.nkt, d.ne);
    HostValue::Turned { x: Box::new(k), heads: d.nk, head_dim: d.hd }
}

/// The values that a block adds to its cache: as they are projected.
pub open spec fn new_values(l: LayerWeights, d: HostDims, x: HostValue) -> HostValue {
    projected(x, Part::Wv, l.bv, Part::Bv, d.nkt, d.ne)
}

/// The hidden state after attention: the state and, on top of it, what its queries find,
/// projected.
pub open spec fn attended(l: LayerWeights, d: HostDims, il: usize, h: HostValue) -> HostValue {
    let x = HostValue::Norm {
        x: Box::new(h),
        weight: if_there(l.attn_norm, Part::AttnNorm),
        width: d.ne,
    };
    let q = projected(x, Part::Wq, l.bq, Part::Bq, d.nqt, d.ne);
    let found = HostValue::Attended {
        layer: il,
        q: Box::new(HostValue::Turned { x: Box::new(q), heads: d.nh, head_dim: d.hd }),
        k: Box::new(new_keys(l, d, x)),
        v: Box::new(new_values(l, d, x)),
    };
    HostValue::Sum {
        x: Box::new(h),
        y: Box::new(
            HostValue::Product { x: Box::new(found), weight: Part::Wo, out_dim: d.ne, in_dim: d.ne },
        ),
        len: (d.nt * d.ne) as usize,
    }
}

/// The hidden state after the feed-forward part: the state and, on top of it,
/// `down(silu(gate) * up)` of its norm.
pub open spec fn fed(l: LayerWeights, d: HostDims, h: HostValue) -> HostValue {
    let rows = (d.nt * d.ne) as usize;
    let wide = (d.nt * d.nf) as usize;
    let normed = HostValue::Norm {
        x: Box::new(h),
        weight: if_there(l.ffn_norm, Part::FfnNorm),
        width: d.ne,
    };
    let x = HostValue::First { x: Box::new(normed), len: rows };
    let gate = HostValue::Product {
        x: Box::new(x),
        weight: Part::FfnGate,
        out_dim: d.nf,
        in_dim: d.ne,
    };
    let up = HostValue::Product { x: Box::new(x), weight: Part::FfnUp, out_dim: d.nf, in_dim: d.ne };
    let inner = HostValue::Times {
        x: Box::new(HostValue::Silu { x: Box::new(gate), len: wide }),
        y: Box::new(up),
        len: wide,
    };
    let down = HostValue::Product {
        x: Box::new(inner),
        weight: Part::FfnDown,
        out_dim: d.ne,
        in_dim: d.nf,
    };
    HostValue::Sum { x: Box::new(h), y: Box::new(down), len: rows }
}

proof fn lemma_ops_of_a_block(l: LayerWeights, d: HostDims, il: usize, s: HostState)
    requires
        s == at_first(),
    ensures
        ({
            let r = after_ops(s, layer_ops(l, d, il));
            let h = HostValue::Given(HostBuf::Hidden);
            let x = HostValue::Norm {
                x: Box::new(h),
                weight: if_there(l.attn_norm, Part::AttnNorm),
                width: d.ne,
            };
            &&& r.bufs[HostBuf::Hidden] == fed(l, d, attended(l, d, il, h))
            &&& r.kept.dom().contains(il)
            &&& r.kept[il] == (new_keys(l, d, x), new_values(l, d, x))
            &&& forall|k: usize| k != il ==> !(#[trigger] r.kept.dom().contains(k))
        }),
{
    let a = super::forward::project_ops(l, d);
    let b = super::forward::attend_ops(d, il);
    let c = super::forward::feed_ops(l, d);
    lemma_ops_join(s, a + b, c);
    lemma_ops_join(s, a, b);
    let h = HostValue::Given(HostBuf::Hidden);
    let x = HostValue::Norm {
        x: Box::new(h),
        weight: if_there(l.attn_norm, Part::AttnNorm),
        width: d.ne,
    };
    let s1 = after_ops(s, a);
    lemma_projections(l, d, s);
    let s2 = after_ops(s1, b);
    lemma_attention(l, d, il, s1, x, h);
    lemma_feed(l, d, s2);
}

proof fn lemma_bias(s: HostState, b: Option<Tensor>, bias: Part, dst: HostBuf, width: usize)
    ensures
        ({
            let r = after_ops(s, super::forward::bias_ops(b, bias, dst, width));
            &&& r.kept == s.kept
            &&& r.bufs == (match b {
                None => s.bufs,
                Some(t) => s.bufs.insert(
                    dst,
                    HostValue::Biased {
                        x: Box::new(s.bufs[dst]),
                        bias,
                        width,
                        count: if t.data@.len() / 4 < width {
                            (t.data@.len() / 4) as usize
                        } else {
                            width
                        },
                    },
                ),
            })
        }),
{
    let ops = super::forward::bias_ops(b, bias, dst, width);
    if b is Some {
        lemma_one_op(s, ops[0]);
        assert(ops =~= seq![ops[0]]);
    }
}

proof fn lemma_projections(l: LayerWeights, d: HostDims, s: HostState)
    requires
        s == at_first(),
    ensures
        ({
            let r = after_ops(s, super::forward::project_ops(l, d));
            let h = HostValue::Given(HostBuf::Hidden);
            let x = HostValue::Norm {
                x: Box::new(h),
                weight: if_there(l.attn_norm, Part::AttnNorm),
                width: d.ne,
            };
            &&& r.kept == s.kept
            &&& r.bufs[HostBuf::Hidden] == h
            &&& r.bufs[HostBuf::Query] == projected(x, Part::Wq, l.bq, Part::Bq, d.nqt, d.ne)
            &&& r.bufs[HostBuf::Key] == projected(x, Part::Wk, l.bk, Part::Bk, d.nkt, d.ne)
            &&& r.bufs[HostBuf::Value] == projected(x, Part::Wv, l.bv, Part::Bv, d.nkt, d.ne)
        }),
{
    let all = super::forward::project_ops(l, d);
    let first = all.take(4);
    let bq = super::forward::bias_ops(l.bq, Part::Bq, HostBuf::Query, d.nqt);
    let bk = super::forward::bias_ops(l.bk, Part::Bk, HostBuf::Key, d.nkt);
    let bv = super::forward::bias_ops(l.bv, Part::Bv, HostBuf::Value, d.nkt);
    assert(all =~= first + bq + bk + bv);
    lemma_ops_join(s, first + bq + bk, bv);
    lemma_ops_join(s, first + bq, bk);
    lemma_ops_join(s, first, bq);
    let s4 = after_ops(s, first);
    assert(first =~= seq![first[0], first[1], first[2], first[3]]);
    lemma_four_ops(s, first[0], first[1], first[2], first[3]);
    let s5 = after_ops(s4, bq);
    let s6 = after_ops(s5, bk);
    lemma_bias(s4, l.bq, Part::Bq, HostBuf::Query, d.nqt);
    lemma_bias(s5, l.bk, Part::Bk, HostBuf::Key, d.nkt);
    lemma_bias(s6, l.bv, Part::Bv, HostBuf::Value, d.nkt);
}

proof fn lemma_four_ops(s: HostState, a: HostOp, b: HostOp, c: HostOp, d: HostOp)
    ensures
        after_ops(s, seq![a, b, c, d]) == after_op(
            after_op(after_op(after_op(s, a), b), c),
            d,
        ),
{
    reveal_with_fuel(after_ops, 5);
    let s4 = seq![a, b, c, d];
    assert(s4.drop_last() =~= seq![a, b, c]);
    assert(seq![a, b, c].drop_last() =~= seq![a, b]);
    assert(seq![a, b].drop_last() =~= seq![a]);
    lemma_one_op(s, a);
}

proof fn lemma_attention(
    l: LayerWeights,
    d: HostDims,
    il: usize,
    s: HostState,
    x: HostValue,
    h: HostValue,
)
    requires
        s.kept == Map::<usize, (HostValue, HostValue)>::empty(),
        s.bufs[HostBuf::Hidden] == h,
        x == (HostValue::Norm {
            x: Box::new(h),
            weight: if_there(l.attn_norm, Part::AttnNorm),
            width: d.ne,
        }),
        s.bufs[HostBuf::Query] == projected(x, Part::Wq, l.bq, Part::Bq, d.nqt, d.ne),
        s.bufs[HostBuf::Key] == projected(x, Part::Wk, l.bk, Part::Bk, d.nkt, d.ne),
        s.bufs[HostBuf::Value] == projected(x, Part::Wv, l.bv, Part::Bv, d.nkt, d.ne),
    ensures
        ({
            let r = after_ops(s, super::forward::attend_ops(d, il));
            &&& r.bufs[HostBuf::Hidden] == attended(l, d, il, h)
            &&& r.kept == Map::<usize, (HostValue, HostValue)>::empty().insert(
                il,
                (new_keys(l, d, x), new_values(l, d, x)),
            )
        }),
{
    let ops = super::forward::attend_ops(d, il);
    let a = seq![ops[0], ops[1], ops[2], ops[3]];
    let b = seq![ops[4]];
    let c = seq![ops[5]];
    assert(ops =~= a + b + c);
    lemma_ops_join(s, a + b, c);
    lemma_ops_join(s, a, b);
    lemma_four_ops(s, ops[0], ops[1], ops[2], ops[3]);
    lemma_one_op(after_ops(s, a), ops[4]);
    lemma_one_op(after_ops(s, a + b), ops[5]);
}

proof fn lemma_feed(l: LayerWeights, d: HostDims, s: HostState)
    ensures
        ({
            let r = after_ops(s, super::forward::feed_ops(l, d));
            &&& r.bufs[HostBuf::Hidden] == fed(l, d, s.bufs[HostBuf::Hidden])
            &&& r.kept == s.kept
        }),
{
    let ops = super::forward::feed_ops(l, d);
    let a = seq![ops[0], ops[1], ops[2], ops[3]];
    let b = seq![ops[4], ops[5], ops[6], ops[7]];
    assert(ops =~= a + b);
    lemma_ops_join(s, a, b);
    lemma_four_ops(s, ops[0], ops[1], ops[2], ops[3]);
    lemma_four_ops(after_ops(s, a), ops[4], ops[5], ops[6], ops[7]);
}

/// What a block on the host computes. To the hidden state it adds what the queries find in
/// the block's cache, projected; to that it adds `down(silu(gate) * up)` of its norm.
/// Queries, keys and values are projections of the same norm; queries and keys are turned
/// by their positions, head by head, and values are not. The cache of the block, and of no
/// other, has got the turned keys and the values.
pub proof fn law_a_block_on_the_host(l: LayerWeights, d: HostDims, il: usize)
    ensures
        ({
            let r = after_ops(at_first(), layer_ops(l, d, il));
            let h = HostValue::Given(HostBuf::Hidden);
            let x = HostValue::Norm {
                x: Box::new(h),
                weight: if_there(l.attn_norm, Part::AttnNorm),
                width: d.ne,
            };
            &&& r.bufs[HostBuf::Hidden] == fed(l, d, attended(l, d, il, h))
            &&& r.kept.dom() == set![il]
            &&& r.kept[il] == (new_keys(l, d, x), new_values(l, d, x))
        }),
{
    lemma_ops_of_a_block(l, d, il, at_first());
    let r = after_ops(at_first(), layer_ops(l, d, il));
    assert(r.kept.dom() =~= set![il]);
}

} // verus!
