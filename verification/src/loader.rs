//! Finds tensors in a GGUF index and cuts their bytes out of the file.
use crate::gguf::{element_count, elements, shape_ok, GgufPart, GgufTensorInfo};
use crate::model::tensor_names as tn;
use crate::model::{hparams_from_gguf, hparams_spec, HParams, LayerWeights, Model, ModelType};
use crate::tensor::{opt_view, Tensor, TensorType, TensorView};
use crate::text::{block_name, same};
use vstd::prelude::*;

verus! {

/// Where a tensor's bytes start in its file.
pub open spec fn data_start(offset: usize, ti: &GgufTensorInfo) -> int {
    offset + ti.offset
}

/// Whose blocks a tensor is cut out in.
#[derive(Debug, Clone, Copy, PartialEq, Eq, Structural)]
pub enum Geometry {
    /// Those of the type that it is held as.
    Held,
    /// Those of the type that it has in the file.
    Stored,
}

impl Geometry {
    /// Bytes of a block of a tensor.
    pub open spec fn bytes_spec(self, ti: &GgufTensorInfo) -> usize {
        match self {
            Geometry::Held => TensorType::from_ggml_spec(ti.type_).type_size_spec(),
            Geometry::Stored => ti.type_.type_size_spec(),
        }
    }

    /// Elements of a block of a tensor.
    pub open spec fn elements_spec(self, ti: &GgufTensorInfo) -> usize {
        match self {
            Geometry::Held => TensorType::from_ggml_spec(ti.type_).blck_size_spec(),
            Geometry::Stored => ti.type_.blck_size_spec(),
        }
    }

    /// Bytes of a tensor.
    pub open spec fn total_spec(self, ti: &GgufTensorInfo) -> int {
        elements(ti.ne) / self.elements_spec(ti) as int * self.bytes_spec(ti)
    }

    /// Bytes and elements of a block of a tensor.
    fn block(self, ti: &GgufTensorInfo) -> (r: (usize, usize))
        ensures
            r.0 == self.bytes_spec(ti),
            r.1 == self.elements_spec(ti),
            r.0 > 0,
            0 < r.1 <= 256,
    {
        match self {
            Geometry::Held => {
                let t: TensorType = TensorType::from_ggml_type(ti.type_);
                (t.type_size(), t.blck_size())
            },
            Geometry::Stored => (ti.type_.type_size(), ti.type_.blck_size()),
        }
    }
}

/// Bytes between neighbours along each dimension: blocks, rows, planes.
pub open spec fn stride(ti: &GgufTensorInfo, g: Geometry, d: int) -> int
    decreases d,
{
    if d <= 0 {
        g.bytes_spec(ti) as int
    } else if d == 1 {
        g.bytes_spec(ti) * (ti.ne@[0] as int / g.elements_spec(ti) as int)
    } else {
        stride(ti, g, d - 1) * ti.ne@[d - 1]
    }
}

/// The tensor lies inside the file, and its geometry fits machine words.
pub open spec fn tensor_fits(offset: usize, raw_len: int, ti: &GgufTensorInfo, g: Geometry) -> bool {
    &&& shape_ok(ti.ne)
    &&& ti.offset <= usize::MAX
    &&& data_start(offset, ti) + g.total_spec(ti) <= raw_len <= usize::MAX
    &&& stride(ti, g, 1) <= usize::MAX
    &&& stride(ti, g, 2) <= usize::MAX
    &&& stride(ti, g, 3) <= usize::MAX
}

/// The tensor that an index entry describes, under the name `name`.
pub open spec fn loaded(
    offset: usize,
    raw: Seq<u8>,
    ti: &GgufTensorInfo,
    name: Seq<char>,
    g: Geometry,
) -> TensorView {
    TensorView {
        ttype: TensorType::from_ggml_spec(ti.type_),
        name,
        shape: ti.ne,
        strides: [
            stride(ti, g, 0) as usize,
            stride(ti, g, 1) as usize,
            stride(ti, g, 2) as usize,
            stride(ti, g, 3) as usize,
        ],
        data: raw.subrange(data_start(offset, ti), data_start(offset, ti) + g.total_spec(ti)),
    }
}

/// Cuts a tensor out of the file in the blocks of the type that it is held as.
pub fn load_gguf_tensor(offset: usize, raw: &Vec<u8>, ti: &GgufTensorInfo, name: &str) -> (t: Tensor)
    requires
        tensor_fits(offset, raw@.len() as int, ti, Geometry::Held),
    ensures
        t@ == loaded(offset, raw@, ti, name@, Geometry::Held),
{
    load_tensor(offset, raw, ti, name, Geometry::Held)
}

/// Cuts a tensor out of the file.
pub fn load_tensor(
    offset: usize,
    raw: &Vec<u8>,
    ti: &GgufTensorInfo,
    name: &str,
    g: Geometry,
) -> (t: Tensor)
    requires
        tensor_fits(offset, raw@.len() as int, ti, g),
    ensures
        t@ == loaded(offset, raw@, ti, name@, g),
{
    let ttype: TensorType = TensorType::from_ggml_type(ti.type_);
    let (ts, bs): (usize, usize) = g.block(ti);
    proof {
        lemma_total_nonneg(ti, g);
        lemma_strides_nonneg(ti, g);
    }
    let n: usize = element_count(&ti.ne);
    let nbytes: usize = (n / bs) * ts;
    let off: usize = offset + ti.offset as usize;
    let data: Vec<u8> = copy_range(raw, off, off + nbytes);
    let rows: usize = (ti.ne[0] / bs as i64) as usize;
    let s1: usize = ts * rows;
    assert(s1 == stride(ti, g, 1));
    assert(stride(ti, g, 2) == s1 * ti.ne@[1]);
    let s2: usize = mul_dim(s1, ti.ne[1]);
    assert(stride(ti, g, 3) == s2 * ti.ne@[2]);
    let s3: usize = mul_dim(s2, ti.ne[2]);
    Tensor {
        ttype,
        name: name.to_owned(),
        shape: ti.ne,
        strides: [ts, s1, s2, s3],
        data,
    }
}

fn mul_dim(a: usize, b: i64) -> (r: usize)
    requires
        b >= 0,
        a * b <= usize::MAX,
    ensures
        r == a * b,
{
    if a == 0 || b == 0 {
        assert(a * b == 0) by (nonlinear_arith)
            requires
                a == 0 || b == 0,
        ;
        return 0;
    }
    assert(b <= a * b) by (nonlinear_arith)
        requires
            a >= 1,
            b >= 0,
    ;
    a * (b as usize)
}

proof fn lemma_total_nonneg(ti: &GgufTensorInfo, g: Geometry)
    requires
        shape_ok(ti.ne),
    ensures
        g.total_spec(ti) >= 0,
        elements(ti.ne) >= 0,
{
    let a = ti.ne@[0] * ti.ne@[1];
    assert(a >= 0) by (nonlinear_arith)
        requires
            a == ti.ne@[0] * ti.ne@[1],
            ti.ne@[0] >= 0,
            ti.ne@[1] >= 0,
    ;
    let b = a * ti.ne@[2];
    assert(b >= 0) by (nonlinear_arith)
        requires
            b == a * ti.ne@[2],
            a >= 0,
            ti.ne@[2] >= 0,
    ;
    assert(b * ti.ne@[3] >= 0) by (nonlinear_arith)
        requires
            b >= 0,
            ti.ne@[3] >= 0,
    ;
    let n = elements(ti.ne);
    let bs = g.elements_spec(ti) as int;
    let ts = g.bytes_spec(ti) as int;
    assert(n / bs >= 0) by (nonlinear_arith)
        requires
            n >= 0,
            bs > 0,
    ;
    assert((n / bs) * ts >= 0) by (nonlinear_arith)
        requires
            n / bs >= 0,
            ts >= 0,
    ;
}

proof fn lemma_strides_nonneg(ti: &GgufTensorInfo, g: Geometry)
    requires
        shape_ok(ti.ne),
        stride(ti, g, 1) <= usize::MAX,
    ensures
        0 <= ti.ne@[0] as int / g.elements_spec(ti) as int <= stride(ti, g, 1),
{
    let q = ti.ne@[0] as int / g.elements_spec(ti) as int;
    let bs = g.elements_spec(ti) as int;
    let ts = g.bytes_spec(ti) as int;
    assert(q >= 0) by (nonlinear_arith)
        requires
            q == ti.ne@[0] as int / bs,
            ti.ne@[0] >= 0,
            bs > 0,
    ;
    assert(stride(ti, g, 1) == ts * q);
    assert(q <= ts * q) by (nonlinear_arith)
        requires
            q >= 0,
            ts >= 1,
    ;
}

fn copy_range(raw: &Vec<u8>, a: usize, b: usize) -> (v: Vec<u8>)
    requires
        a <= b <= raw@.len(),
    ensures
        v@ == raw@.subrange(a as int, b as int),
{
    let mut v: Vec<u8> = Vec::new();
    let mut i: usize = a;
    while i < b
        invariant
            a <= i <= b <= raw@.len(),
            v@ == raw@.subrange(a as int, i as int),
        decreases b - i,
    {
        v.push(raw[i]);
        assert(raw@.subrange(a as int, i + 1) =~= raw@.subrange(a as int, i as int).push(
            raw@[i as int],
        ));
        i = i + 1;
    }
    v
}

/// Position of the last entry named `name`: a later entry replaces an earlier
/// one.
pub open spec fn last_named(info: Seq<GgufTensorInfo>, name: Seq<char>) -> Option<int>
    decreases info.len(),
{
    if info.len() == 0 {
        None
    } else if info.last().name@ == name {
        Some(info.len() - 1)
    } else {
        last_named(info.drop_last(), name)
    }
}

/// Where a tensor lies: its part and its place in that part's index. A later
/// part replaces an earlier one.
pub open spec fn locate(parts: Seq<GgufPart>, name: Seq<char>) -> Option<(int, int)>
    decreases parts.len(),
{
    if parts.len() == 0 {
        None
    } else {
        match last_named(parts.last().ctx.info@, name) {
            Some(i) => Some((parts.len() - 1, i)),
            None => locate(parts.drop_last(), name),
        }
    }
}

/// Whether the tensor of that name, if there is one, lies inside its file.
pub open spec fn named_fits(parts: Seq<GgufPart>, name: Seq<char>, g: Geometry) -> bool {
    match locate(parts, name) {
        None => true,
        Some((p, i)) => tensor_fits(
            parts[p].ctx.offset,
            parts[p].data@.len() as int,
            &parts[p].ctx.info@[i],
            g,
        ),
    }
}

/// The tensor of that name, registered as `reg`.
pub open spec fn tensor_named(
    parts: Seq<GgufPart>,
    name: Seq<char>,
    reg: Seq<char>,
    g: Geometry,
) -> Option<TensorView> {
    match locate(parts, name) {
        None => None,
        Some((p, i)) => Some(
            loaded(parts[p].ctx.offset, parts[p].data@, &parts[p].ctx.info@[i], reg, g),
        ),
    }
}

/// Position of the last entry of that name.
pub fn find_last(info: &Vec<GgufTensorInfo>, name: &str) -> (r: Option<usize>)
    ensures
        match r {
            Some(i) => i < info@.len() && last_named(info@, name@) == Some(i as int),
            None => last_named(info@, name@) is None,
        },
{
    let mut i: usize = info.len();
    assert(info@.take(i as int) =~= info@);
    while i > 0
        invariant
            i <= info@.len(),
            last_named(info@, name@) == last_named(info@.take(i as int), name@),
        decreases i,
    {
        i = i - 1;
        assert(info@.take(i + 1).drop_last() =~= info@.take(i as int));
        assert(info@.take(i + 1).last() == info@[i as int]);
        if same(info[i].name.as_str(), name) {
            return Some(i);
        }
    }
    None
}

/// Where the tensor of that name lies.
pub fn find_tensor(parts: &Vec<GgufPart>, name: &str) -> (r: Option<(usize, usize)>)
    ensures
        match r {
            Some((p, i)) => {
                &&& p < parts@.len()
                &&& i < parts@[p as int].ctx.info@.len()
                &&& locate(parts@, name@) == Some((p as int, i as int))
            },
            None => locate(parts@, name@) is None,
        },
{
    let mut p: usize = parts.len();
    assert(parts@.take(p as int) =~= parts@);
    while p > 0
        invariant
            p <= parts@.len(),
            locate(parts@, name@) == locate(parts@.take(p as int), name@),
        decreases p,
    {
        p = p - 1;
        assert(parts@.take(p + 1).drop_last() =~= parts@.take(p as int));
        assert(parts@.take(p + 1).last() == parts@[p as int]);
        match find_last(&parts[p].ctx.info, name) {
            Some(i) => {
                return Some((p, i));
            },
            None => {},
        }
    }
    None
}

/// Loads the tensor called `name`, if there is one, and calls it `reg`.
pub fn load_named(parts: &Vec<GgufPart>, name: &str, reg: &str, g: Geometry) -> (r: Option<Tensor>)
    requires
        named_fits(parts@, name@, g),
    ensures
        opt_view(r) == tensor_named(parts@, name@, reg@, g),
{
    match find_tensor(parts, name) {
        None => None,
        Some((p, i)) => Some(
            load_tensor(parts[p].ctx.offset, &parts[p].data, &parts[p].ctx.info[i], reg, g),
        ),
    }
}

/// The two geometries are one for every type that is held as itself.
pub proof fn law_geometries_agree(ti: &GgufTensorInfo)
    ensures
        TensorType::from_ggml_spec(ti.type_) != TensorType::I8 || ti.type_ is I8 ==> {
            &&& Geometry::Held.bytes_spec(ti) == Geometry::Stored.bytes_spec(ti)
            &&& Geometry::Held.elements_spec(ti) == Geometry::Stored.elements_spec(ti)
            &&& Geometry::Held.total_spec(ti) == ti.nbytes_spec()
        },
        Geometry::Stored.total_spec(ti) == ti.nbytes_spec(),
{
}

/// The parts of a block that have a tensor.
pub open spec fn layer_suffix(s: Seq<char>) -> bool {
    s == "attn_norm.weight"@
        || s == "attn_q.weight"@
        || s == "attn_q.bias"@
        || s == "attn_k.weight"@
        || s == "attn_k.bias"@
        || s == "attn_v.weight"@
        || s == "attn_v.bias"@
        || s == "attn_output.weight"@
        || s == "ffn_norm.weight"@
        || s == "ffn_gate.weight"@
        || s == "ffn_up.weight"@
        || s == "ffn_down.weight"@
}

/// The tensors of a model of `n` blocks.
pub open spec fn model_tensor(name: Seq<char>, n: int) -> bool {
    name == tn::TOKEN_EMBD@ || name == tn::OUTPUT_NORM@ || name == tn::OUTPUT@ || name
        == tn::OUTPUT_BIAS@ || exists|i: nat, s: Seq<char>|
        i < n && layer_suffix(s) && name == #[trigger] block_name(i, s)
}

/// The tensor of part `s` of block `i`, under its own name.
pub open spec fn block_part(parts: Seq<GgufPart>, i: nat, s: Seq<char>) -> Option<TensorView> {
    tensor_named(parts, block_name(i, s), block_name(i, s), Geometry::Held)
}

/// `l` holds the tensors of block `i`.
pub open spec fn layer_loaded(l: LayerWeights, parts: Seq<GgufPart>, i: nat) -> bool {
    &&& opt_view(l.attn_norm) == block_part(parts, i, "attn_norm.weight"@)
    &&& opt_view(l.wq) == block_part(parts, i, "attn_q.weight"@)
    &&& opt_view(l.bq) == block_part(parts, i, "attn_q.bias"@)
    &&& opt_view(l.wk) == block_part(parts, i, "attn_k.weight"@)
    &&& opt_view(l.bk) == block_part(parts, i, "attn_k.bias"@)
    &&& opt_view(l.wv) == block_part(parts, i, "attn_v.weight"@)
    &&& opt_view(l.bv) == block_part(parts, i, "attn_v.bias"@)
    &&& opt_view(l.wo) == block_part(parts, i, "attn_output.weight"@)
    &&& opt_view(l.ffn_norm) == block_part(parts, i, "ffn_norm.weight"@)
    &&& opt_view(l.ffn_gate) == block_part(parts, i, "ffn_gate.weight"@)
    &&& opt_view(l.ffn_up) == block_part(parts, i, "ffn_up.weight"@)
    &&& opt_view(l.ffn_down) == block_part(parts, i, "ffn_down.weight"@)
}

fn load_own(parts: &Vec<GgufPart>, name: String) -> (r: Option<Tensor>)
    requires
        named_fits(parts@, name@, Geometry::Held),
    ensures
        opt_view(r) == tensor_named(parts@, name@, name@, Geometry::Held),
{
    load_named(parts, name.as_str(), name.as_str(), Geometry::Held)
}

fn load_layer(parts: &Vec<GgufPart>, i: usize, Ghost(n): Ghost<int>) -> (l: LayerWeights)
    requires
        i < n,
        forall|name: Seq<char>| model_tensor(name, n) ==> #[trigger] named_fits(parts@, name, Geometry::Held),
    ensures
        layer_loaded(l, parts@, i as nat),
{
    proof {
        assert forall|s: Seq<char>| layer_suffix(s) implies #[trigger] named_fits(
            parts@,
            block_name(i as nat, s),
            Geometry::Held,
        ) by {
            assert(model_tensor(block_name(i as nat, s), n));
        }
    }
    let mut layer: LayerWeights = LayerWeights::new();
    layer.attn_norm = load_own(parts, tn::attn_norm(i));
    layer.wq = load_own(parts, tn::attn_q(i));
    layer.bq = load_own(parts, tn::attn_q_bias(i));
    layer.wk = load_own(parts, tn::attn_k(i));
    layer.bk = load_own(parts, tn::attn_k_bias(i));
    layer.wv = load_own(parts, tn::attn_v(i));
    layer.bv = load_own(parts, tn::attn_v_bias(i));
    layer.wo = load_own(parts, tn::attn_out(i));
    layer.ffn_norm = load_own(parts, tn::ffn_norm(i));
    layer.ffn_gate = load_own(parts, tn::ffn_gate(i));
    layer.ffn_up = load_own(parts, tn::ffn_up(i));
    layer.ffn_down = load_own(parts, tn::ffn_down(i));
    layer
}

/// What loading a model gives: its hyperparameters, its head, which is the
/// embedding itself where the file has none, and its blocks.
pub open spec fn model_loaded(m: Model, parts: Seq<GgufPart>) -> bool {
    let embd = tensor_named(parts, tn::TOKEN_EMBD@, tn::TOKEN_EMBD@, Geometry::Held);
    let head = tensor_named(parts, tn::OUTPUT@, tn::OUTPUT@, Geometry::Held);
    &&& Some(m.hparams) == hparams_spec(&parts[0].ctx)
    &&& m.arch == ModelType::Qwen2
    &&& opt_view(m.tok_embd) == embd
    &&& opt_view(m.output_norm) == tensor_named(parts, tn::OUTPUT_NORM@, tn::OUTPUT_NORM@, Geometry::Held)
    &&& opt_view(m.output) == (if head is Some {
        head
    } else {
        embd
    })
    &&& opt_view(m.output_b) == tensor_named(parts, tn::OUTPUT_BIAS@, tn::OUTPUT_BIAS@, Geometry::Held)
    &&& m.layers@.len() == m.hparams.n_layer
    &&& forall|i: int| 0 <= i < m.layers@.len() ==> layer_loaded(#[trigger] m.layers@[i], parts, i as nat)
}

/// Loads a model; `None` if the file lacks a hyperparameter.
pub fn load_model(parts: &Vec<GgufPart>) -> (r: Option<Model>)
    requires
        parts@.len() >= 1,
        crate::model::keys_readable(&parts@[0].ctx),
        hparams_spec(&parts@[0].ctx) matches Some(h) ==> 0 <= h.n_layer <= usize::MAX && forall|
            name: Seq<char>,
        |
            model_tensor(name, h.n_layer as int) ==> #[trigger] named_fits(parts@, name, Geometry::Held),
    ensures
        r is Some <==> hparams_spec(&parts@[0].ctx) is Some,
        r matches Some(m) ==> model_loaded(m, parts@),
{
    let hparams: HParams = hparams_from_gguf(&parts[0].ctx)?;
    let ghost n = hparams.n_layer as int;
    let mut model: Model = Model::new(hparams);
    proof {
        assert(model_tensor(tn::TOKEN_EMBD@, n));
        assert(model_tensor(tn::OUTPUT_NORM@, n));
        assert(model_tensor(tn::OUTPUT@, n));
        assert(model_tensor(tn::OUTPUT_BIAS@, n));
    }
    match load_named(parts, tn::TOKEN_EMBD, tn::TOKEN_EMBD, Geometry::Held) {
        Some(t) => model.set_tok_embd(t),
        None => {},
    }
    match load_named(parts, tn::OUTPUT_NORM, tn::OUTPUT_NORM, Geometry::Held) {
        Some(t) => model.set_output_norm(t),
        None => {},
    }
    match load_named(parts, tn::OUTPUT, tn::OUTPUT, Geometry::Held) {
        Some(t) => model.set_output(t),
        None => {
            match &model.tok_embd {
                Some(t) => {
                    let tied: Tensor = t.duplicate();
                    model.set_output(tied);
                },
                None => {},
            }
        },
    }
    match load_named(parts, tn::OUTPUT_BIAS, tn::OUTPUT_BIAS, Geometry::Held) {
        Some(t) => model.set_output_b(t),
        None => {},
    }
    let n_layer: usize = model.n_layer();
    let ghost start = model;
    let mut i: usize = 0;
    while i < n_layer
        invariant
            i <= n_layer,
            n_layer == n,
            n_layer == model.layers@.len(),
            forall|name: Seq<char>| model_tensor(name, n) ==> #[trigger] named_fits(parts@, name, Geometry::Held),
            model.hparams == start.hparams,
            model.arch == start.arch,
            model.tok_embd == start.tok_embd,
            model.output_norm == start.output_norm,
            model.output == start.output,
            model.output_b == start.output_b,
            forall|k: int|
                0 <= k < i ==> layer_loaded(#[trigger] model.layers@[k], parts@, k as nat),
        decreases n_layer - i,
    {
        let loaded_layer: LayerWeights = load_layer(parts, i, Ghost(n));
        let layer: &mut LayerWeights = model.layer_mut(i);
        *layer = loaded_layer;
        i = i + 1;
    }
    Some(model)
}

/// A name stands for the last tensor that has it, in the last part that has one.
pub proof fn law_last_tensor_of_a_name_counts(info: Seq<GgufTensorInfo>, name: Seq<char>)
    ensures
        match last_named(info, name) {
            Some(i) => 0 <= i < info.len() && info[i].name@ == name && forall|k: int|
                i < k < info.len() ==> (#[trigger] info[k]).name@ != name,
            None => forall|k: int| 0 <= k < info.len() ==> (#[trigger] info[k]).name@ != name,
        },
    decreases info.len(),
{
    if info.len() > 0 && info.last().name@ != name {
        law_last_tensor_of_a_name_counts(info.drop_last(), name);
        assert forall|k: int| 0 <= k < info.len() - 1 implies info[k] == info.drop_last()[k] by {}
    }
}

/// Of several parts the last one that has a name counts.
pub proof fn law_last_part_of_a_name_counts(parts: Seq<GgufPart>, name: Seq<char>)
    ensures
        match locate(parts, name) {
            Some((p, i)) => 0 <= p < parts.len() && 0 <= i < parts[p].ctx.info@.len()
                && parts[p].ctx.info@[i].name@ == name && (forall|k: int|
                i < k < parts[p].ctx.info@.len() ==> (#[trigger] parts[p].ctx.info@[k]).name@
                    != name) && forall|q: int, k: int|
                p < q < parts.len() && 0 <= k < parts[q].ctx.info@.len() ==> (
                #[trigger] parts[q].ctx.info@[k]).name@ != name,
            None => forall|q: int, k: int|
                0 <= q < parts.len() && 0 <= k < parts[q].ctx.info@.len() ==> (
                #[trigger] parts[q].ctx.info@[k]).name@ != name,
        },
    decreases parts.len(),
{
    if parts.len() > 0 {
        law_last_tensor_of_a_name_counts(parts.last().ctx.info@, name);
        if last_named(parts.last().ctx.info@, name) is None {
            law_last_part_of_a_name_counts(parts.drop_last(), name);
            assert forall|q: int| 0 <= q < parts.len() - 1 implies parts[q]
                == parts.drop_last()[q] by {}
        }
    }
}

/// The bytes of a tensor start where its part's data and the tensor in it start, and are
/// copied as they are.
pub proof fn law_tensor_bytes_are_copied(
    offset: usize,
    raw: Seq<u8>,
    ti: &GgufTensorInfo,
    name: Seq<char>,
    g: Geometry,
    j: int,
)
    requires
        tensor_fits(offset, raw.len() as int, ti, g),
        0 <= j < g.total_spec(ti),
    ensures
        ({
            let t = loaded(offset, raw, ti, name, g);
            &&& t.data.len() == g.total_spec(ti)
            &&& t.data[j] == raw[offset + ti.offset + j]
            &&& t.name == name
            &&& t.shape == ti.ne
        }),
{
}

proof fn lemma_blocks_of_a_box(q: int, bs: int, b: int, c: int, d: int)
    requires
        bs > 0,
    ensures
        ((q * bs) * b * c * d) / bs == q * b * c * d,
{
    let n = q * b * c * d;
    assert((q * bs) * b * c * d == n * bs) by (nonlinear_arith)
        requires
            n == q * b * c * d,
    ;
    assert((n * bs) / bs == n) by (nonlinear_arith)
        requires
            bs > 0,
    ;
}

/// Where rows are whole blocks, the strides of a tensor step over what lies inside: one
/// block, one row, one matrix, one box; the last side times the last stride is all bytes.
pub proof fn law_strides_step_over_their_insides(ti: &GgufTensorInfo, g: Geometry)
    requires
        shape_ok(ti.ne),
        ti.ne@[0] as int % g.elements_spec(ti) as int == 0,
    ensures
        stride(ti, g, 0) == g.bytes_spec(ti),
        stride(ti, g, 1) * g.elements_spec(ti) == stride(ti, g, 0) * ti.ne@[0],
        stride(ti, g, 2) == stride(ti, g, 1) * ti.ne@[1],
        stride(ti, g, 3) == stride(ti, g, 2) * ti.ne@[2],
        g.total_spec(ti) == stride(ti, g, 3) * ti.ne@[3],
{
    let bs = g.elements_spec(ti) as int;
    let ts = g.bytes_spec(ti) as int;
    let a = ti.ne@[0] as int;
    let b = ti.ne@[1] as int;
    let c = ti.ne@[2] as int;
    let d = ti.ne@[3] as int;
    let q = a / bs;
    assert(bs > 0);
    assert(a == q * bs) by (nonlinear_arith)
        requires
            a % bs == 0,
            q == a / bs,
            bs > 0,
    ;
    lemma_blocks_of_a_box(q, bs, b, c, d);
    assert(stride(ti, g, 1) == ts * q);
    assert(ts * q * bs == ts * (q * bs)) by (nonlinear_arith);
    assert(stride(ti, g, 2) == stride(ti, g, 1) * ti.ne@[1]);
    assert(stride(ti, g, 3) == stride(ti, g, 2) * ti.ne@[2]);
    assert(elements(ti.ne) == a * b * c * d);
    assert((q * b * c * d) * ts == ((ts * q) * b * c) * d) by (nonlinear_arith);
}

} // verus!
