//! What the nodes of a graph compute, as expressions over its inputs and weights.
//!
//! A graph names its sources by number, and a fused node does what several plain ones do.
//! An expression knows neither: two graphs that compute the same have the same one.
use crate::bits::Real;
use crate::graph::ops::{AttnMeta, AttnMode, NodeMeta, Op, RopeStyle};
use crate::graph::{DType, NodeView};
use crate::tensor::Tensor;
use vstd::prelude::*;

verus! {

/// What a node computes.
pub ghost enum Term {
    /// Data from outside.
    Input { name: Seq<char>, shape: Option<[usize; 4]>, dtype: DType },
    /// The rows of a table that belong to some tokens.
    Embedded { ids: Box<Term>, table: Option<Seq<char>>, kind: NodeMeta },
    /// Some rows of a value.
    Rows { x: Box<Term>, rows: Box<Term>, shape: Option<[usize; 4]> },
    Norm { x: Box<Term>, weight: Option<Seq<char>>, kind: NodeMeta, eps: Real },
    /// The norm of each head.
    HeadNorm { x: Box<Term>, weight: Option<Seq<char>>, hd: usize, heads: usize, eps: Real },
    /// A value times a weight, and a bias on top.
    Product { x: Box<Term>, weight: Option<Seq<char>>, kind: NodeMeta, bias: Option<Seq<char>> },
    /// The first `width` elements of every row, in heads of `hd`, turned by the positions.
    Turned {
        x: Box<Term>,
        positions: Box<Term>,
        style: RopeStyle,
        base: Real,
        scale: Real,
        width: int,
        hd: usize,
    },
    /// The keys and values of a block.
    Cached { layer: usize, k: Box<Term>, v: Box<Term>, kind: NodeMeta },
    /// What queries find in keys and values.
    Attended {
        q: Box<Term>,
        kv: Box<Term>,
        positions: Box<Term>,
        mode: AttnMode,
        span: bool,
        meta: NodeMeta,
    },
    Silu { x: Box<Term> },
    Sum { x: Box<Term>, y: Box<Term> },
    Times { x: Box<Term>, y: Box<Term> },
    /// Nothing that another node could read.
    Nothing,
}

/// The values of the nodes so far, and the keys and values that were stored last for each
/// block.
pub ghost struct Values {
    pub vals: Seq<Term>,
    pub kept: Map<usize, (Term, Term)>,
}

/// Before the first node.
pub open spec fn no_values() -> Values {
    Values { vals: Seq::empty(), kept: Map::empty() }
}

/// Which weight some rows of a stacked weight are: from which row on, and how many.
pub type RowsOf = spec_fn(Seq<char>, int, int) -> Seq<char>;

/// A weight that is some rows of another.
pub open spec fn slice(w: Option<Seq<char>>, rows_of: RowsOf, from: int, rows: int) -> Option<Seq<char>> {
    match w {
        Some(name) => Some(rows_of(name, from, rows)),
        None => None,
    }
}

/// A product with a bias on top, where it has none yet.
pub open spec fn biased(t: Term, b: Option<Seq<char>>) -> Term {
    match t {
        Term::Product { x, weight, kind, bias: None } => Term::Product { x, weight, kind, bias: b },
        _ => Term::Nothing,
    }
}

/// The values after a node that computes `t`.
pub open spec fn with(s: Values, t: Term) -> Values {
    Values { vals: s.vals.push(t), ..s }
}

/// The values after a node that computes `t` and stores keys and values of a block.
pub open spec fn storing(s: Values, t: Term, layer: usize, k: Term, v: Term) -> Values {
    Values { vals: s.vals.push(t), kept: s.kept.insert(layer, (k, v)) }
}

/// Source `i` of a node.
pub open spec fn source(s: Values, n: NodeView, i: int) -> Term {
    s.vals[n.src[i] as int]
}

/// What a node does.
pub open spec fn after_node(s: Values, n: NodeView, rows_of: RowsOf) -> Values {
    match (n.op, n.meta) {
        (Op::Input, _) => with(
            s,
            Term::Input { name: n.name, shape: n.shape, dtype: n.out_dtype },
        ),
        (Op::GetRows, kind) => if n.src.len() == 1 {
            with(
                s,
                Term::Embedded { ids: Box::new(source(s, n, 0)), table: n.weights[0], kind },
            )
        } else {
            with(
                s,
                Term::Rows {
                    x: Box::new(source(s, n, 0)),
                    rows: Box::new(source(s, n, 1)),
                    shape: n.shape,
                },
            )
        },
        (Op::RmsNorm { eps }, kind) => with(
            s,
            Term::Norm { x: Box::new(source(s, n, 0)), weight: n.weights[0], kind, eps },
        ),
        (Op::QkNorm { hd, nh, eps }, _) => with(
            s,
            Term::HeadNorm {
                x: Box::new(source(s, n, 0)),
                weight: n.weights[0],
                hd,
                heads: nh,
                eps,
            },
        ),
        (Op::MatMul { transpose_b: false }, kind) => with(
            s,
            Term::Product {
                x: Box::new(source(s, n, 0)),
                weight: n.weights[0],
                kind,
                bias: n.weights[1],
            },
        ),
        (Op::RoPE { style }, NodeMeta::RoPE(m)) => with(
            s,
            Term::Turned {
                x: Box::new(source(s, n, 0)),
                positions: Box::new(source(s, n, 1)),
                style,
                base: m.freq_base,
                scale: m.freq_scale,
                width: m.n_head * m.hd,
                hd: m.hd,
            },
        ),
        (Op::KvcacheStore { layer }, _) => storing(
            s,
            Term::Nothing,
            layer,
            source(s, n, 0),
            source(s, n, 1),
        ),
        (Op::KvcacheLoad { layer }, kind) => with(
            s,
            Term::Cached {
                layer,
                k: Box::new(s.kept[layer].0),
                v: Box::new(s.kept[layer].1),
                kind,
            },
        ),
        (Op::Attn { mode, explicit_span }, meta) => with(
            s,
            Term::Attended {
                q: Box::new(source(s, n, 0)),
                kv: Box::new(source(s, n, 1)),
                positions: Box::new(source(s, n, 2)),
                mode,
                span: explicit_span,
                meta,
            },
        ),
        (Op::FusedQKV { layer }, NodeMeta::FusedQkv(f)) => {
            let part = |from: int, rows: int, bias: Option<Seq<char>>|
                Term::Product {
                    x: Box::new(source(s, n, 0)),
                    weight: slice(n.weights[0], rows_of, from, rows),
                    kind: NodeMeta::Weight(f.weight_ttype),
                    bias,
                };
            let turn = |x: Term, width: int|
                Term::Turned {
                    x: Box::new(x),
                    positions: Box::new(source(s, n, 1)),
                    style: f.rope_style,
                    base: f.freq_base,
                    scale: f.freq_scale,
                    width,
                    hd: f.hd,
                };
            storing(
                s,
                turn(part(0, f.nqt as int, n.weights[1]), f.nh * f.hd),
                layer,
                turn(part(f.nqt as int, f.nkt as int, n.weights[2]), f.nk * f.hd),
                part(f.nqt + f.nkt, f.nkt as int, n.weights[3]),
            )
        },
        (Op::QkvBiasRopeStore { layer }, NodeMeta::QkvBiasRopeStore(f)) => {
            let turn = |x: Term, width: int|
                Term::Turned {
                    x: Box::new(x),
                    positions: Box::new(source(s, n, 3)),
                    style: f.rope_style,
                    base: f.freq_base,
                    scale: f.freq_scale,
                    width,
                    hd: f.hd,
                };
            storing(
                s,
                turn(biased(source(s, n, 0), n.weights[0]), f.nqt as int),
                layer,
                turn(biased(source(s, n, 1), n.weights[1]), f.nkt as int),
                biased(source(s, n, 2), n.weights[2]),
            )
        },
        (Op::FusedQkvNorm { layer }, NodeMeta::FusedQkvNorm(f)) => {
            let part = |from: int, rows: int|
                Term::Product {
                    x: Box::new(source(s, n, 0)),
                    weight: slice(n.weights[0], rows_of, from, rows),
                    kind: NodeMeta::Weight(f.weight_ttype),
                    bias: None,
                };
            let turn = |x: Term, weight: Option<Seq<char>>, heads: usize|
                Term::Turned {
                    x: Box::new(
                        Term::HeadNorm { x: Box::new(x), weight, hd: f.hd, heads, eps: f.eps },
                    ),
                    positions: Box::new(source(s, n, 1)),
                    style: f.rope_style,
                    base: f.freq_base,
                    scale: f.freq_scale,
                    width: heads * f.hd,
                    hd: f.hd,
                };
            storing(
                s,
                turn(part(0, f.nqt as int), n.weights[1], f.nh),
                layer,
                turn(part(f.nqt as int, f.nkt as int), n.weights[2], f.nk),
                part(f.nqt + f.nkt, f.nkt as int),
            )
        },
        (Op::FusedFFN, NodeMeta::FusedFfn(f)) => {
            let part = |from: int|
                Term::Product {
                    x: Box::new(source(s, n, 0)),
                    weight: slice(n.weights[0], rows_of, from, f.nf as int),
                    kind: NodeMeta::Weight(f.weight_ttype),
                    bias: None,
                };
            with(
                s,
                Term::Times {
                    x: Box::new(Term::Silu { x: Box::new(part(0)) }),
                    y: Box::new(part(f.nf as int)),
                },
            )
        },
        (Op::View { offset, shape }, _) => match source(s, n, 0) {
            Term::Product { x, weight, kind, bias: None } => with(
                s,
                Term::Product {
                    x,
                    weight: slice(weight, rows_of, offset as int, shape@[0] as int),
                    kind,
                    bias: None,
                },
            ),
            _ => with(s, Term::Nothing),
        },
        (Op::SwiGLU, _) => with(
            s,
            Term::Times {
                x: Box::new(Term::Silu { x: Box::new(source(s, n, 0)) }),
                y: Box::new(source(s, n, 1)),
            },
        ),
        (Op::Silu, _) => with(s, Term::Silu { x: Box::new(source(s, n, 0)) }),
        (Op::Add, _) => with(
            s,
            Term::Sum { x: Box::new(source(s, n, 0)), y: Box::new(source(s, n, 1)) },
        ),
        (Op::Mul, _) => with(
            s,
            Term::Times { x: Box::new(source(s, n, 0)), y: Box::new(source(s, n, 1)) },
        ),
        _ => with(s, Term::Nothing),
    }
}

/// What some nodes do, one after the other.
pub open spec fn after_nodes(s: Values, nodes: Seq<NodeView>, rows_of: RowsOf) -> Values
    decreases nodes.len(),
{
    if nodes.len() == 0 {
        s
    } else {
        after_node(after_nodes(s, nodes.drop_last(), rows_of), nodes.last(), rows_of)
    }
}

/// The values behind more nodes are those before and new ones.
pub proof fn lemma_nodes_join(s: Values, a: Seq<NodeView>, b: Seq<NodeView>, rows_of: RowsOf)
    ensures
        after_nodes(s, a + b, rows_of) == after_nodes(after_nodes(s, a, rows_of), b, rows_of),
    decreases b.len(),
{
    if b.len() == 0 {
        assert(a + b =~= a);
    } else {
        lemma_nodes_join(s, a, b.drop_last(), rows_of);
        assert((a + b).drop_last() =~= a + b.drop_last());
    }
}

/// The value of one node more.
pub proof fn lemma_next_node(s: Values, nodes: Seq<NodeView>, k: int, rows_of: RowsOf)
    requires
        0 <= k < nodes.len(),
    ensures
        after_nodes(s, nodes.take(k + 1), rows_of) == after_node(
            after_nodes(s, nodes.take(k), rows_of),
            nodes[k],
            rows_of,
        ),
        nodes.take(nodes.len() as int) == nodes,
        after_nodes(s, nodes.take(0), rows_of) == s,
{
    assert(nodes.take(k + 1).drop_last() =~= nodes.take(k));
    assert(nodes.take(nodes.len() as int) =~= nodes);
}

/// Every node has one value, and no node changes the value of another.
pub proof fn lemma_values_stay(s: Values, nodes: Seq<NodeView>, rows_of: RowsOf)
    ensures
        after_nodes(s, nodes, rows_of).vals.len() == s.vals.len() + nodes.len(),
        forall|i: int|
            0 <= i < s.vals.len() ==> #[trigger] after_nodes(s, nodes, rows_of).vals[i]
                == s.vals[i],
    decreases nodes.len(),
{
    if nodes.len() > 0 {
        lemma_values_stay(s, nodes.drop_last(), rows_of);
    }
}

/// The attributes of a node that reads a weight.
pub open spec fn kind_of(t: Tensor) -> NodeMeta {
    NodeMeta::Weight(t.ttype)
}

/// The name of a weight that may be missing.
pub open spec fn name_if(t: Option<Tensor>) -> Option<Seq<char>> {
    match t {
        Some(t) => Some(t.name@),
        None => None,
    }
}

/// A value times a weight, and a bias on top where there is one.
pub open spec fn product(x: Term, w: Tensor, b: Option<Tensor>) -> Term {
    Term::Product { x: Box::new(x), weight: Some(w.name@), kind: kind_of(w), bias: name_if(b) }
}

/// The norm of a value, times a weight where there is one.
pub open spec fn normed(x: Term, w: Option<Tensor>, eps: Real) -> Term {
    Term::Norm {
        x: Box::new(x),
        weight: name_if(w),
        kind: match w {
            Some(t) => kind_of(t),
            None => NodeMeta::Plain,
        },
        eps,
    }
}

/// An input of numbers, so many of them.
pub open spec fn numbers(name: Seq<char>, n: usize) -> Term {
    Term::Input { name, shape: Some([n, 1, 1, 1]), dtype: DType::I32 }
}

/// The feed-forward part of a block: the state and, on top of it,
/// `down(silu(gate) * up)` of its norm.
pub open spec fn fed(
    h: Term,
    norm: Option<Tensor>,
    gate: Tensor,
    up: Tensor,
    down: Tensor,
    eps: Real,
) -> Term {
    let x = normed(h, norm, eps);
    let inner = Term::Times {
        x: Box::new(Term::Silu { x: Box::new(product(x, gate, None)) }),
        y: Box::new(product(x, up, None)),
    };
    Term::Sum { x: Box::new(h), y: Box::new(product(inner, down, None)) }
}

/// The state with the output `w` of attention on top, of all rows or of those wanted.
pub open spec fn with_attention(h: Term, w: Term, wanted: Option<(Term, [usize; 4])>) -> Term {
    match wanted {
        None => Term::Sum { x: Box::new(h), y: Box::new(w) },
        Some((rows, shape)) => Term::Sum {
            x: Box::new(
                Term::Rows { x: Box::new(h), rows: Box::new(rows), shape: Some(shape) },
            ),
            y: Box::new(
                Term::Rows { x: Box::new(w), rows: Box::new(rows), shape: Some(shape) },
            ),
        },
    }
}

/// The attention of the queries `q` over keys and values of a block.
pub open spec fn found(
    q: Term,
    k: Term,
    v: Term,
    positions: Term,
    mode: AttnMode,
    span: bool,
    meta: AttnMeta,
    n_ctx: usize,
) -> Term {
    Term::Attended {
        q: Box::new(q),
        kv: Box::new(
            Term::Cached {
                layer: meta.layer,
                k: Box::new(k),
                v: Box::new(v),
                kind: NodeMeta::Kv { nkt: meta.nkt, n_ctx, nk: meta.n_head_kv },
            },
        ),
        positions: Box::new(positions),
        mode,
        span,
        meta: NodeMeta::Attn(meta),
    }
}

/// Whether a node belongs to block `il` of a model with rows of `ne` elements and a
/// context of `n_ctx` rows: its tag and its operator name the block, its buffers are
/// sized for the context, and only data from outside has a name.
pub open spec fn belongs(n: NodeView, il: usize, ne: int, n_ctx: usize) -> bool {
    &&& n.backend is None
    &&& n.op is Input ==> n.layer is None && n.out_dtype == DType::I32
    &&& !(n.op is Input) ==> n.layer == Some(il) && n.name.len() == 0 && n.out_dtype == DType::F32
    &&& match n.op {
        Op::KvcacheStore { layer } => layer == il && n.meta is Kv,
        Op::KvcacheLoad { layer } => layer == il && n.src.len() == 0 && n.meta is Kv,
        Op::FusedQKV { layer } => layer == il && n.meta is FusedQkv,
        Op::QkvBiasRopeStore { layer } => layer == il && n.meta is QkvBiasRopeStore,
        Op::FusedQkvNorm { layer } => layer == il && n.meta is FusedQkvNorm,
        Op::FusedFFN => n.meta is FusedFfn,
        Op::Attn { .. } => n.meta is Attn,
        Op::RoPE { .. } => n.meta is RoPE,
        _ => n.meta is Plain || n.meta is Weight,
    }
    &&& match n.meta {
        NodeMeta::Attn(a) => a.layer == il,
        NodeMeta::Kv { nkt: _, n_ctx: c, nk: _ } => c == n_ctx,
        NodeMeta::FusedQkv(f) => f.in_dim == ne && f.kv_elems == f.nkt * n_ctx && f.nqt == f.nh
            * f.hd,
        NodeMeta::QkvBiasRopeStore(f) => f.kv_elems == f.nkt * n_ctx,
        NodeMeta::FusedQkvNorm(f) => f.in_dim == ne && f.kv_elems == f.nkt * n_ctx && f.nqt
            == f.nh * f.hd,
        NodeMeta::FusedFfn(f) => f.in_dim == ne,
        _ => true,
    }
    &&& n.shape is Some <==> n.op is Input || n.op is View || (n.op is GetRows && n.src.len()
        == 2)
}

} // verus!
