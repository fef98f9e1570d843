//! Metadata that the architectures read in the same way.
use crate::bits::Real;
use crate::gguf::{GgufContext, GgufKv, GgufModel, GgufPart, GgufType};
use crate::graph::offload::{block_of, block_of_spec};
use crate::text::same;
use vstd::prelude::*;

verus! {

/// The number under `key`, else under `fallback`.
pub open spec fn number_spec(ctx: &GgufContext, key: Seq<char>, fallback: Seq<char>) -> Option<i64> {
    match ctx.i64_spec(key) {
        Some(v) => Some(v),
        None => ctx.i64_spec(fallback),
    }
}

/// The float under `key`, else under `fallback`, else the given bits.
pub open spec fn float_spec(
    ctx: &GgufContext,
    key: Seq<char>,
    fallback: Seq<char>,
    bits: u32,
) -> Real {
    match ctx.float_spec(key) {
        Some(v) => v,
        None => match ctx.float_spec(fallback) {
            Some(v) => v,
            None => Real::Single(bits),
        },
    }
}

/// Whether the number under `key`, else under `fallback`, can be read: the second key is
/// looked at only if the first gives none.
pub open spec fn number_readable(ctx: &GgufContext, key: Seq<char>, fallback: Seq<char>) -> bool {
    &&& ctx.integer_readable(key)
    &&& ctx.i64_spec(key) is None ==> ctx.integer_readable(fallback)
}

/// Whether the float under `key`, else under `fallback`, can be read.
pub open spec fn float_readable(ctx: &GgufContext, key: Seq<char>, fallback: Seq<char>) -> bool {
    &&& ctx.float_readable(key)
    &&& ctx.float_spec(key) is None ==> ctx.float_readable(fallback)
}

/// The chat template of a model, if its first key of that name holds a text.
pub fn chat_template(ctx: &GgufContext) -> (r: Option<String>)
    ensures
        r is Some <==> ctx.str_spec("tokenizer.chat_template"@) is Some,
        r matches Some(s) ==> Some(s@) == ctx.str_spec("tokenizer.chat_template"@),
{
    ctx.get_key_val_str("tokenizer.chat_template")
}

/// The number under `key`, else under `fallback`.
pub fn number(ctx: &GgufContext, key: &str, fallback: &str) -> (r: Option<i64>)
    requires
        number_readable(ctx, key@, fallback@),
    ensures
        r == number_spec(ctx, key@, fallback@),
{
    match ctx.get_key_val_i64(key) {
        Some(v) => Some(v),
        None => ctx.get_key_val_i64(fallback),
    }
}

/// The float under `key`, else under `fallback`, else the given bits.
pub fn float(ctx: &GgufContext, key: &str, fallback: &str, bits: u32) -> (r: Real)
    requires
        float_readable(ctx, key@, fallback@),
    ensures
        r == float_spec(ctx, key@, fallback@, bits),
{
    match ctx.get_key_val_f32(key) {
        Some(v) => v,
        None => match ctx.get_key_val_f32(fallback) {
            Some(v) => v,
            None => Real::Single(bits),
        },
    }
}

/// Whether a key holds the list of tokens.
pub open spec fn token_list(kv: GgufKv) -> bool {
    kv.key@ == "tokenizer.ggml.tokens"@ && kv.is_array
}

/// Every list of tokens that holds something holds strings.
pub open spec fn tokens_are_text(ctx: &GgufContext) -> bool {
    forall|i: int|
        0 <= i < ctx.kv@.len() && token_list(#[trigger] ctx.kv@[i]) && ctx.kv@[i].ne_spec() > 0
            ==> ctx.kv@[i].type_ is String
}

/// The tokens of a list.
pub open spec fn tokens_of(kv: GgufKv) -> Seq<String> {
    if kv.type_ is String {
        kv.data_string@
    } else {
        Seq::empty()
    }
}

/// Position of a text in a list of strings, from `from` on.
pub open spec fn text_at(list: Seq<String>, target: Seq<char>, from: int) -> Option<int>
    decreases list.len() - from,
{
    if from < 0 || from >= list.len() {
        None
    } else if list[from]@ == target {
        Some(from)
    } else {
        text_at(list, target, from + 1)
    }
}

/// The id of a token: its first position in a list of tokens.
pub open spec fn token_id_spec(kv: Seq<GgufKv>, target: Seq<char>) -> Option<u32>
    decreases kv.len(),
{
    if kv.len() == 0 {
        None
    } else if token_list(kv[0]) && text_at(tokens_of(kv[0]), target, 0) is Some {
        Some(text_at(tokens_of(kv[0]), target, 0)->0 as u32)
    } else {
        token_id_spec(kv.drop_first(), target)
    }
}

fn find_text(list: &Vec<String>, target: &str) -> (r: Option<usize>)
    ensures
        match r {
            Some(i) => text_at(list@, target@, 0) == Some(i as int),
            None => text_at(list@, target@, 0) is None,
        },
{
    let mut i: usize = 0;
    while i < list.len()
        invariant
            i <= list@.len(),
            text_at(list@, target@, 0) == text_at(list@, target@, i as int),
        decreases list@.len() - i,
    {
        if same(list[i].as_str(), target) {
            return Some(i);
        }
        i = i + 1;
    }
    None
}

/// The id of a token.
pub fn find_token_id(ctx: &GgufContext, target: &str) -> (r: Option<u32>)
    requires
        tokens_are_text(ctx),
    ensures
        r == token_id_spec(ctx.kv@, target@),
{
    let mut i: usize = 0;
    assert(ctx.kv@.skip(0) =~= ctx.kv@);
    while i < ctx.kv.len()
        invariant
            i <= ctx.kv@.len(),
            tokens_are_text(ctx),
            token_id_spec(ctx.kv@, target@) == token_id_spec(ctx.kv@.skip(i as int), target@),
        decreases ctx.kv@.len() - i,
    {
        assert(ctx.kv@.skip(i as int)[0] == ctx.kv@[i as int]);
        assert(ctx.kv@.skip(i as int).drop_first() =~= ctx.kv@.skip(i + 1));
        if same(ctx.kv[i].key.as_str(), "tokenizer.ggml.tokens") && ctx.kv[i].is_array
            && ctx.kv[i].type_ == GgufType::String {
            match find_text(&ctx.kv[i].data_string, target) {
                Some(k) => {
                    return Some(k as u32);
                },
                None => {},
            }
        }
        i = i + 1;
    }
    None
}

/// Bytes of the tensors of block `b` among the first `k` entries of an index.
pub open spec fn index_bytes(part: GgufPart, b: int, k: int) -> int
    decreases k,
{
    if k <= 0 {
        0
    } else {
        index_bytes(part, b, k - 1) + (if block_of_spec(part.ctx.info@[k - 1].name@) == Some(
            b as usize,
        ) {
            part.ctx.info@[k - 1].nbytes_spec()
        } else {
            0
        })
    }
}

/// Bytes of the tensors of block `b` in the first `p` parts.
pub open spec fn parts_bytes(parts: Seq<GgufPart>, b: int, p: int) -> int
    decreases p,
{
    if p <= 0 {
        0
    } else {
        parts_bytes(parts, b, p - 1) + index_bytes(
            parts[p - 1],
            b,
            parts[p - 1].ctx.info@.len() as int,
        )
    }
}

/// Every tensor has a size, and no block's sizes overflow a machine word.
pub open spec fn sizes_ok(parts: Seq<GgufPart>, n_layer: int) -> bool {
    &&& forall|p: int, i: int|
        0 <= p < parts.len() && 0 <= i < parts[p].ctx.info@.len() ==> crate::gguf::shape_ok(
            (#[trigger] parts[p].ctx.info@[i]).ne,
        ) && 0 <= parts[p].ctx.info@[i].nbytes_spec() <= usize::MAX
    &&& forall|b: int|
        0 <= b < n_layer ==> #[trigger] parts_bytes(parts, b, parts.len() as int) <= usize::MAX
}

proof fn lemma_index_bytes_grow(parts: Seq<GgufPart>, n: int, p: int, b: int, i: int, j: int)
    requires
        sizes_ok(parts, n),
        0 <= p < parts.len(),
        0 <= i <= j <= parts[p].ctx.info@.len(),
    ensures
        0 <= index_bytes(parts[p], b, i) <= index_bytes(parts[p], b, j),
    decreases j,
{
    if j > 0 {
        assert(parts[p].ctx.info@[j - 1].nbytes_spec() >= 0);
        if i < j {
            lemma_index_bytes_grow(parts, n, p, b, i, j - 1);
        } else {
            lemma_index_bytes_grow(parts, n, p, b, i - 1, j - 1);
        }
    }
}

proof fn lemma_parts_bytes_grow(parts: Seq<GgufPart>, n: int, b: int, p: int, q: int)
    requires
        sizes_ok(parts, n),
        0 <= p <= q <= parts.len(),
    ensures
        0 <= parts_bytes(parts, b, p) <= parts_bytes(parts, b, q),
    decreases q,
{
    if q > 0 {
        lemma_index_bytes_grow(
            parts,
            n,
            q - 1,
            b,
            0,
            parts[q - 1].ctx.info@.len() as int,
        );
        if p < q {
            lemma_parts_bytes_grow(parts, n, b, p, q - 1);
        } else {
            lemma_parts_bytes_grow(parts, n, b, p - 1, q - 1);
        }
    }
}

/// The weight bytes of each block, read off the index alone.
pub fn block_weight_bytes(model: &GgufModel, n_layer: usize) -> (bytes: Vec<usize>)
    requires
        sizes_ok(model.parts@, n_layer as int),
    ensures
        bytes@.len() == n_layer,
        forall|b: int|
            0 <= b < n_layer ==> #[trigger] bytes@[b] == parts_bytes(
                model.parts@,
                b,
                model.parts@.len() as int,
            ),
{
    let mut bytes: Vec<usize> = Vec::new();
    let mut b: usize = 0;
    while b < n_layer
        invariant
            b <= n_layer,
            bytes@.len() == b,
            forall|k: int| 0 <= k < b ==> #[trigger] bytes@[k] == 0,
        decreases n_layer - b,
    {
        bytes.push(0);
        b = b + 1;
    }
    let mut p: usize = 0;
    while p < model.parts.len()
        invariant
            p <= model.parts@.len(),
            sizes_ok(model.parts@, n_layer as int),
            bytes@.len() == n_layer,
            forall|k: int|
                0 <= k < n_layer ==> #[trigger] bytes@[k] == parts_bytes(
                    model.parts@,
                    k,
                    p as int,
                ),
        decreases model.parts@.len() - p,
    {
        let part: &GgufPart = &model.parts[p];
        let mut i: usize = 0;
        while i < part.ctx.info.len()
            invariant
                p < model.parts@.len(),
                *part == model.parts@[p as int],
                i <= part.ctx.info@.len(),
                sizes_ok(model.parts@, n_layer as int),
                bytes@.len() == n_layer,
                forall|k: int|
                    0 <= k < n_layer ==> #[trigger] bytes@[k] == parts_bytes(
                        model.parts@,
                        k,
                        p as int,
                    ) + index_bytes(*part, k, i as int),
            decreases part.ctx.info@.len() - i,
        {
            let ghost before = bytes@;
            assert(crate::gguf::shape_ok(model.parts@[p as int].ctx.info@[i as int].ne));
            match block_of(part.ctx.info[i].name.as_str()) {
                Some(blk) => {
                    if blk < n_layer {
                        let add: usize = part.ctx.info[i].nbytes();
                        let have: usize = bytes[blk];
                        proof {
                            let m = model.parts@;
                            lemma_index_bytes_grow(
                                m,
                                n_layer as int,
                                p as int,
                                blk as int,
                                i + 1,
                                part.ctx.info@.len() as int,
                            );
                            lemma_parts_bytes_grow(
                                m,
                                n_layer as int,
                                blk as int,
                                p + 1,
                                m.len() as int,
                            );
                            assert(before[blk as int] == have);
                            assert(parts_bytes(m, blk as int, m.len() as int) <= usize::MAX);
                        }
                        bytes.set(blk, have + add);
                    }
                },
                None => {},
            }
            i = i + 1;
        }
        p = p + 1;
    }
    bytes
}

proof fn lemma_text_found(list: Seq<String>, target: Seq<char>, from: int, i: int)
    requires
        0 <= from <= i < list.len(),
        list[i]@ == target,
        forall|k: int| from <= k < i ==> (#[trigger] list[k])@ != target,
    ensures
        text_at(list, target, from) == Some(i),
    decreases i - from,
{
    if from < i {
        lemma_text_found(list, target, from + 1, i);
    }
}

proof fn lemma_text_missing(list: Seq<String>, target: Seq<char>, from: int)
    requires
        0 <= from,
        forall|k: int| from <= k < list.len() ==> (#[trigger] list[k])@ != target,
    ensures
        text_at(list, target, from) is None,
    decreases list.len() - from,
{
    if from < list.len() {
        lemma_text_missing(list, target, from + 1);
    }
}

/// The id of a token is its place in the token list, the first one if it is there twice;
/// a text that is in no token list has none.
pub proof fn law_token_id_is_its_place(kv: Seq<GgufKv>, target: Seq<char>, i: int)
    requires
        kv.len() > 0,
        token_list(kv[0]),
        kv[0].type_ is String,
    ensures
        0 <= i < kv[0].data_string@.len() && kv[0].data_string@[i]@ == target && (forall|k: int|
            0 <= k < i ==> (#[trigger] kv[0].data_string@[k])@ != target) ==> token_id_spec(
            kv,
            target,
        ) == Some(i as u32),
        (forall|k: int| 0 <= k < kv[0].data_string@.len() ==> (#[trigger] kv[0].data_string@[k])@
            != target) ==> token_id_spec(kv, target) == token_id_spec(kv.drop_first(), target),
        token_id_spec(Seq::<GgufKv>::empty(), target) is None,
{
    let list = kv[0].data_string@;
    if 0 <= i < list.len() && list[i]@ == target && (forall|k: int|
        0 <= k < i ==> (#[trigger] list[k])@ != target) {
        lemma_text_found(list, target, 0, i);
    }
    if forall|k: int| 0 <= k < list.len() ==> (#[trigger] list[k])@ != target {
        lemma_text_missing(list, target, 0);
    }
}

/// A tensor counts for the block in its name with its bytes, and for no other block.
pub proof fn law_tensors_count_for_their_block(
    part: GgufPart,
    b: usize,
    c: usize,
    suffix: Seq<char>,
    k: int,
)
    requires
        0 <= k < part.ctx.info@.len(),
        part.ctx.info@[k].name@ == crate::text::block_name(c as nat, suffix),
    ensures
        index_bytes(part, b as int, 0) == 0,
        index_bytes(part, b as int, k + 1) == index_bytes(part, b as int, k) + (if b == c {
            part.ctx.info@[k].nbytes_spec()
        } else {
            0
        }),
{
    crate::graph::offload::law_block_of_block_name(c, suffix);
}

/// A number or a float is read under its own key, else under the other one; a float that
/// is under neither has its default.
pub proof fn law_own_key_comes_first(
    ctx: &GgufContext,
    key: Seq<char>,
    fallback: Seq<char>,
    bits: u32,
)
    ensures
        ctx.i64_spec(key) is Some ==> number_spec(ctx, key, fallback) == ctx.i64_spec(key),
        ctx.i64_spec(key) is None ==> number_spec(ctx, key, fallback) == ctx.i64_spec(fallback),
        ctx.float_spec(key) is Some ==> Some(float_spec(ctx, key, fallback, bits))
            == ctx.float_spec(key),
        ctx.float_spec(key) is None && ctx.float_spec(fallback) is Some ==> Some(
            float_spec(ctx, key, fallback, bits),
        ) == ctx.float_spec(fallback),
        ctx.float_spec(key) is None && ctx.float_spec(fallback) is None ==> float_spec(
            ctx,
            key,
            fallback,
            bits,
        ) == Real::Single(bits),
{
}

} // verus!
