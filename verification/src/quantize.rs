//! Quantisation targets, and the bytes of quantised weights: what a stored tensor
//! decodes to and how encoded blocks are packed.
//!
//! Rounding numbers to codes is floating-point work and belongs to the caller;
//! everything from the codes on is here.
use crate::block::{
    bit, block_at, block_bytes, block_values, code, decode_block, has_second, is_quantised, nibble,
    pair, second_of, scale_of, signed, weight, Element,
};
use crate::gguf::GgmlType;
use crate::tensor::TensorType;
use crate::text::{lower, same, to_lower};
use vstd::prelude::*;
use vstd::slice::slice_subrange;

verus! {

/// What weights can be written as.
#[allow(non_camel_case_types)]
#[derive(Debug, Clone, Copy, PartialEq, Eq, Structural)]
pub enum QuantTarget {
    F32,
    F16,
    Q8_0,
    Q4_0,
    Q4_1,
    Q5_0,
    Q5_1,
}

/// The targets, as they are spelled on a command line.
pub const SUPPORTED_TARGETS: &'static str = "q4_0, q4_1, q5_0, q5_1, q8_0, f16, f32";

/// How a text looks as a quoted and escaped literal: what `str`'s `Debug` writes.
pub uninterp spec fn quoted(s: Seq<char>) -> Seq<char>;

/// The `Debug` form of `str`, through `format!`: the text as a quoted and escaped
/// literal. The literal depends on the text alone; no more is claimed.
#[verifier::external_body]
fn quote(s: &str) -> (r: String)
    ensures
        r@ == quoted(s@),
{
    format!("{:?}", s)
}

/// The targets that names in small letters stand for.
pub open spec fn target_of(name: Seq<char>) -> Option<QuantTarget> {
    if name == "f32"@ || name == "fp32"@ {
        Some(QuantTarget::F32)
    } else if name == "f16"@ || name == "fp16"@ {
        Some(QuantTarget::F16)
    } else if name == "q8_0"@ {
        Some(QuantTarget::Q8_0)
    } else if name == "q4_0"@ {
        Some(QuantTarget::Q4_0)
    } else if name == "q4_1"@ {
        Some(QuantTarget::Q4_1)
    } else if name == "q5_0"@ {
        Some(QuantTarget::Q5_0)
    } else if name == "q5_1"@ {
        Some(QuantTarget::Q5_1)
    } else {
        None
    }
}

/// Whether a name in small letters is a type of the format that nothing here
/// encodes.
pub open spec fn known_unsupported(name: Seq<char>) -> bool {
    name == "q2_k"@ || name == "q3_k"@ || name == "q4_k"@ || name == "q5_k"@ || name == "q6_k"@
        || name == "q8_k"@ || name == "q8_1"@ || name == "iq2_xxs"@ || name == "iq2_xs"@ || name
        == "iq3_xxs"@ || name == "iq1_s"@ || name == "iq4_nl"@ || name == "iq3_s"@ || name
        == "iq2_s"@ || name == "iq4_xs"@ || name == "iq1_m"@ || name == "tq1_0"@ || name
        == "tq2_0"@ || name == "mxfp4"@ || name == "nvfp4"@ || name == "q1_0"@ || name == "bf16"@
        || name == "f64"@ || name == "i8"@ || name == "i16"@ || name == "i32"@ || name == "i64"@
}

fn is_known_unsupported(name: &str) -> (r: bool)
    ensures
        r == known_unsupported(name@),
{
    same(name, "q2_k") || same(name, "q3_k") || same(name, "q4_k") || same(name, "q5_k") || same(
        name,
        "q6_k",
    ) || same(name, "q8_k") || same(name, "q8_1") || same(name, "iq2_xxs") || same(name, "iq2_xs")
        || same(name, "iq3_xxs") || same(name, "iq1_s") || same(name, "iq4_nl") || same(
        name,
        "iq3_s",
    ) || same(name, "iq2_s") || same(name, "iq4_xs") || same(name, "iq1_m") || same(name, "tq1_0")
        || same(name, "tq2_0") || same(name, "mxfp4") || same(name, "nvfp4") || same(name, "q1_0")
        || same(name, "bf16") || same(name, "f64") || same(name, "i8") || same(name, "i16")
        || same(name, "i32") || same(name, "i64")
}

/// Why a target is refused: `literal` is its name as a literal.
pub open spec fn refusal_text(known: bool, literal: Seq<char>) -> Seq<char> {
    if known {
        "minfer quantize: target "@ + literal
            + " is a known GGUF type but minfer has no weight encoder for it (minfer can only read it, so writing it would emit wrong weights); supported encoder targets: "@
            + SUPPORTED_TARGETS@
    } else {
        "minfer quantize: unknown quant target "@ + literal + "; supported: "@
            + SUPPORTED_TARGETS@
    }
}

/// Why a target is refused. A type of the format without an encoder and a name
/// that means nothing are different mistakes.
pub fn refusal(known: bool, literal: &str) -> (r: String)
    ensures
        r@ == refusal_text(known, literal@),
{
    if known {
        let mut r: String = "minfer quantize: target ".to_owned();
        r.append(literal);
        r.append(
            " is a known GGUF type but minfer has no weight encoder for it (minfer can only read it, so writing it would emit wrong weights); supported encoder targets: ",
        );
        r.append(SUPPORTED_TARGETS);
        r
    } else {
        let mut r: String = "minfer quantize: unknown quant target ".to_owned();
        r.append(literal);
        r.append("; supported: ");
        r.append(SUPPORTED_TARGETS);
        r
    }
}

impl QuantTarget {
    /// Reads a target, in capitals or small letters. Whatever has no encoder is
    /// refused by name.
    pub fn parse(s: &str) -> (r: Result<QuantTarget, String>)
        ensures
            match target_of(lower(s@)) {
                Some(t) => r == Ok::<QuantTarget, String>(t),
                None => r is Err && r->Err_0@ == refusal_text(
                    known_unsupported(lower(s@)),
                    quoted(lower(s@)),
                ),
            },
    {
        let low: String = to_lower(s);
        let name: &str = low.as_str();
        if same(name, "f32") || same(name, "fp32") {
            Ok(QuantTarget::F32)
        } else if same(name, "f16") || same(name, "fp16") {
            Ok(QuantTarget::F16)
        } else if same(name, "q8_0") {
            Ok(QuantTarget::Q8_0)
        } else if same(name, "q4_0") {
            Ok(QuantTarget::Q4_0)
        } else if same(name, "q4_1") {
            Ok(QuantTarget::Q4_1)
        } else if same(name, "q5_0") {
            Ok(QuantTarget::Q5_0)
        } else if same(name, "q5_1") {
            Ok(QuantTarget::Q5_1)
        } else {
            let literal: String = quote(name);
            Err(refusal(is_known_unsupported(name), literal.as_str()))
        }
    }

    /// The name of a target.
    pub open spec fn name_spec(self) -> Seq<char> {
        match self {
            QuantTarget::F32 => "f32"@,
            QuantTarget::F16 => "f16"@,
            QuantTarget::Q8_0 => "q8_0"@,
            QuantTarget::Q4_0 => "q4_0"@,
            QuantTarget::Q4_1 => "q4_1"@,
            QuantTarget::Q5_0 => "q5_0"@,
            QuantTarget::Q5_1 => "q5_1"@,
        }
    }

    /// The name of a target.
    pub fn name(self) -> (r: &'static str)
        ensures
            r@ == self.name_spec(),
    {
        match self {
            QuantTarget::F32 => "f32",
            QuantTarget::F16 => "f16",
            QuantTarget::Q8_0 => "q8_0",
            QuantTarget::Q4_0 => "q4_0",
            QuantTarget::Q4_1 => "q4_1",
            QuantTarget::Q5_0 => "q5_0",
            QuantTarget::Q5_1 => "q5_1",
        }
    }

    /// The element type that a target is stored as.
    pub open spec fn ggml_spec(self) -> GgmlType {
        match self {
            QuantTarget::F32 => GgmlType::F32,
            QuantTarget::F16 => GgmlType::F16,
            QuantTarget::Q8_0 => GgmlType::Q8_0,
            QuantTarget::Q4_0 => GgmlType::Q4_0,
            QuantTarget::Q4_1 => GgmlType::Q4_1,
            QuantTarget::Q5_0 => GgmlType::Q5_0,
            QuantTarget::Q5_1 => GgmlType::Q5_1,
        }
    }

    /// The element type that a target is stored as.
    pub fn ggml_type(self) -> (r: GgmlType)
        ensures
            r == self.ggml_spec(),
    {
        match self {
            QuantTarget::F32 => GgmlType::F32,
            QuantTarget::F16 => GgmlType::F16,
            QuantTarget::Q8_0 => GgmlType::Q8_0,
            QuantTarget::Q4_0 => GgmlType::Q4_0,
            QuantTarget::Q4_1 => GgmlType::Q4_1,
            QuantTarget::Q5_0 => GgmlType::Q5_0,
            QuantTarget::Q5_1 => GgmlType::Q5_1,
        }
    }

    /// The value of `general.file_type`.
    pub open spec fn file_type_spec(self) -> u32 {
        match self {
            QuantTarget::F32 => 0,
            QuantTarget::F16 => 1,
            QuantTarget::Q4_0 => 2,
            QuantTarget::Q4_1 => 3,
            QuantTarget::Q8_0 => 7,
            QuantTarget::Q5_0 => 8,
            QuantTarget::Q5_1 => 9,
        }
    }

    /// The value of `general.file_type` for a file of this target.
    pub fn file_type(self) -> (r: u32)
        ensures
            r == self.file_type_spec(),
    {
        match self {
            QuantTarget::F32 => 0,
            QuantTarget::F16 => 1,
            QuantTarget::Q4_0 => 2,
            QuantTarget::Q4_1 => 3,
            QuantTarget::Q8_0 => 7,
            QuantTarget::Q5_0 => 8,
            QuantTarget::Q5_1 => 9,
        }
    }

    /// Elements of a block.
    pub fn blck_size(self) -> (r: usize)
        ensures
            r == self.ggml_spec().blck_size_spec(),
    {
        match self {
            QuantTarget::F32 | QuantTarget::F16 => 1,
            _ => 32,
        }
    }
}

/// The quantised types that are both decoded and encoded here.
pub open spec fn legacy(t: GgmlType) -> Option<TensorType> {
    match t {
        GgmlType::Q8_0 => Some(TensorType::Q8_0),
        GgmlType::Q4_0 => Some(TensorType::Q4_0),
        GgmlType::Q4_1 => Some(TensorType::Q4_1),
        GgmlType::Q5_0 => Some(TensorType::Q5_0),
        GgmlType::Q5_1 => Some(TensorType::Q5_1),
        _ => None,
    }
}

fn legacy_type(t: GgmlType) -> (r: Option<TensorType>)
    ensures
        r == legacy(t),
        r is Some ==> {
            &&& is_quantised(r->0)
            &&& r->0.type_size_spec() == t.type_size_spec()
            &&& r->0.blck_size_spec() == 32
        },
{
    match t {
        GgmlType::Q8_0 => Some(TensorType::Q8_0),
        GgmlType::Q4_0 => Some(TensorType::Q4_0),
        GgmlType::Q4_1 => Some(TensorType::Q4_1),
        GgmlType::Q5_0 => Some(TensorType::Q5_0),
        GgmlType::Q5_1 => Some(TensorType::Q5_1),
        _ => None,
    }
}

/// Whether weights of a type can be decoded: the plain floating-point types and
/// the types of [`legacy`].
pub open spec fn decodable(t: GgmlType) -> bool {
    t is F32 || t is F16 || t is BF16 || legacy(t) is Some
}

/// Whether weights of a type can be decoded, as far as can be told before a byte
/// is read.
pub fn can_decode(type_: GgmlType) -> (r: bool)
    ensures
        r == decodable(type_),
{
    matches!(
        type_,
        GgmlType::F32 | GgmlType::F16 | GgmlType::BF16 | GgmlType::Q8_0 | GgmlType::Q4_0
            | GgmlType::Q4_1 | GgmlType::Q5_0 | GgmlType::Q5_1
    )
}

/// Decoded weights.
pub enum Decoded {
    /// Single-precision numbers, as their bits.
    Singles(Vec<u32>),
    /// Half-precision numbers, as their bits.
    Halves(Vec<u16>),
    /// Codes with the constants of their blocks.
    Elements(Vec<Element>),
}

/// Four bytes, the lowest first.
pub open spec fn quad(b: Seq<u8>, i: int) -> u32 {
    (b[i] + 0x100 * b[i + 1] + 0x1_0000 * b[i + 2] + 0x100_0000 * b[i + 3]) as u32
}

/// The single-precision numbers of some bytes; bytes that do not fill one are
/// left out.
pub open spec fn singles(data: Seq<u8>) -> Seq<u32> {
    Seq::new(data.len() / 4, |i: int| quad(data, 4 * i))
}

/// The half-precision numbers of some bytes.
pub open spec fn halves(data: Seq<u8>) -> Seq<u16> {
    Seq::new(data.len() / 2, |i: int| pair(data, 2 * i))
}

/// The single-precision numbers whose upper halves some bytes are.
pub open spec fn brain_singles(data: Seq<u8>) -> Seq<u32> {
    Seq::new(data.len() / 2, |i: int| (0x1_0000 * pair(data, 2 * i)) as u32)
}

/// The elements of the first `n` blocks.
pub open spec fn blocks_values(t: TensorType, data: Seq<u8>, n: int) -> Seq<Element>
    decreases n,
{
    if n <= 0 {
        Seq::empty()
    } else {
        blocks_values(t, data, n - 1) + block_values(t, block_bytes(t, data, n - 1))
    }
}

/// The elements of all whole blocks of some bytes.
pub open spec fn all_values(t: TensorType, data: Seq<u8>) -> Seq<Element> {
    blocks_values(t, data, data.len() as int / t.type_size_spec() as int)
}

fn read_pair(b: &[u8], i: usize) -> (r: u16)
    requires
        i + 1 < b@.len(),
    ensures
        r == pair(b@, i as int),
{
    b[i] as u16 + 256 * b[i + 1] as u16
}

fn read_singles(data: &[u8]) -> (r: Vec<u32>)
    ensures
        r@ == singles(data@),
{
    let n: usize = data.len() / 4;
    let mut r: Vec<u32> = Vec::new();
    let mut i: usize = 0;
    while i < n
        invariant
            i <= n,
            n == data@.len() / 4,
            n <= usize::MAX / 4,
            r@ == singles(data@).take(i as int),
        decreases n - i,
    {
        let k: usize = 4 * i;
        let v: u32 = data[k] as u32 + 0x100 * data[k + 1] as u32 + 0x1_0000 * data[k + 2] as u32
            + 0x100_0000 * data[k + 3] as u32;
        r.push(v);
        assert(singles(data@).take(i + 1) =~= singles(data@).take(i as int).push(v));
        i = i + 1;
    }
    assert(singles(data@).take(n as int) =~= singles(data@));
    r
}

fn read_halves(data: &[u8]) -> (r: Vec<u16>)
    ensures
        r@ == halves(data@),
{
    let n: usize = data.len() / 2;
    let mut r: Vec<u16> = Vec::new();
    let mut i: usize = 0;
    while i < n
        invariant
            i <= n,
            n == data@.len() / 2,
            n <= usize::MAX / 2,
            r@ == halves(data@).take(i as int),
        decreases n - i,
    {
        let v: u16 = read_pair(data, 2 * i);
        r.push(v);
        assert(halves(data@).take(i + 1) =~= halves(data@).take(i as int).push(v));
        i = i + 1;
    }
    assert(halves(data@).take(n as int) =~= halves(data@));
    r
}

fn read_brain_singles(data: &[u8]) -> (r: Vec<u32>)
    ensures
        r@ == brain_singles(data@),
{
    let h: Vec<u16> = read_halves(data);
    let mut r: Vec<u32> = Vec::new();
    let mut i: usize = 0;
    while i < h.len()
        invariant
            i <= h@.len(),
            h@ == halves(data@),
            r@ == brain_singles(data@).take(i as int),
        decreases h@.len() - i,
    {
        let v: u32 = 0x1_0000 * h[i] as u32;
        r.push(v);
        assert(brain_singles(data@).take(i + 1) =~= brain_singles(data@).take(i as int).push(v));
        i = i + 1;
    }
    assert(brain_singles(data@).take(h@.len() as int) =~= brain_singles(data@));
    r
}

fn append(out: &mut Vec<Element>, more: &Vec<Element>)
    ensures
        final(out)@ == old(out)@ + more@,
{
    let ghost before = out@;
    let mut i: usize = 0;
    while i < more.len()
        invariant
            i <= more@.len(),
            out@ == before + more@.take(i as int),
        decreases more@.len() - i,
    {
        out.push(more[i]);
        assert(more@.take(i + 1) =~= more@.take(i as int).push(more@[i as int]));
        assert(out@ =~= before + more@.take(i + 1));
        i = i + 1;
    }
    assert(more@.take(more@.len() as int) =~= more@);
}

fn read_blocks(t: TensorType, data: &[u8]) -> (r: Vec<Element>)
    requires
        is_quantised(t),
    ensures
        r@ == all_values(t, data@),
{
    let ts: usize = t.type_size();
    let n: usize = data.len() / ts;
    let mut r: Vec<Element> = Vec::new();
    let mut i: usize = 0;
    while i < n
        invariant
            i <= n,
            is_quantised(t),
            ts == t.type_size_spec(),
            n == data@.len() as int / ts as int,
            r@ == blocks_values(t, data@, i as int),
        decreases n - i,
    {
        proof {
            assert((i + 1) * ts <= data@.len()) by (nonlinear_arith)
                requires
                    i + 1 <= n,
                    n == data@.len() as int / ts as int,
                    ts > 0,
            ;
        }
        let vals: Vec<Element> = decode_block(t, block_at(t, data, i));
        append(&mut r, &vals);
        i = i + 1;
    }
    r
}

/// Decodes weights, row by row. What cannot be encoded again is not decoded
/// either.
pub fn decode_to_f32(type_: GgmlType, data: &[u8], _row_elems: usize) -> (r: Option<Decoded>)
    ensures
        match type_ {
            GgmlType::F32 => r matches Some(Decoded::Singles(v)) && v@ == singles(data@),
            GgmlType::F16 => r matches Some(Decoded::Halves(v)) && v@ == halves(data@),
            GgmlType::BF16 => r matches Some(Decoded::Singles(v)) && v@ == brain_singles(data@),
            _ => match legacy(type_) {
                Some(t) => r matches Some(Decoded::Elements(v)) && v@ == all_values(t, data@),
                None => r is None,
            },
        },
{
    match type_ {
        GgmlType::F32 => Some(Decoded::Singles(read_singles(data))),
        GgmlType::F16 => Some(Decoded::Halves(read_halves(data))),
        GgmlType::BF16 => Some(Decoded::Singles(read_brain_singles(data))),
        _ => match legacy_type(type_) {
            Some(t) => Some(Decoded::Elements(read_blocks(t, data))),
            None => None,
        },
    }
}

/// The elements of one block; none for a type that is not decoded here.
pub fn dequantize_block(type_: GgmlType, b: &[u8]) -> (r: Vec<Element>)
    requires
        legacy(type_) is Some ==> b@.len() >= type_.type_size_spec(),
    ensures
        match legacy(type_) {
            Some(t) => r@ == block_values(t, b@.take(t.type_size_spec() as int)),
            None => r@ == Seq::<Element>::empty(),
        },
{
    match legacy_type(type_) {
        Some(t) => {
            let first: &[u8] = slice_subrange(b, 0, t.type_size());
            assert(first@ =~= b@.take(t.type_size_spec() as int));
            decode_block(t, first)
        },
        None => Vec::new(),
    }
}

/// A block of 32 numbers rounded to codes: the half-precision bits of its scale
/// and of its minimum, and what each number was truncated to.
pub struct QuantBlock {
    pub d: u16,
    pub m: u16,
    pub codes: Vec<i8>,
}

/// A row rounded to what a target stores.
pub enum Row {
    /// Single-precision numbers, as their bits.
    Singles(Vec<u32>),
    /// Half-precision numbers, as their bits.
    Halves(Vec<u16>),
    /// Blocks of codes.
    Blocks(Vec<QuantBlock>),
}

/// A row that a target can store.
pub open spec fn row_ok(target: QuantTarget, row: Row) -> bool {
    match target {
        QuantTarget::F32 => row is Singles,
        QuantTarget::F16 => row is Halves,
        _ => row matches Row::Blocks(bs) && forall|i: int|
            0 <= i < bs@.len() ==> (#[trigger] bs@[i]).codes@.len() == 32,
    }
}

/// A number as a two's complement byte.
pub open spec fn wrapped(c: int) -> u8 {
    if c < 0 {
        (c + 256) as u8
    } else {
        c as u8
    }
}

/// The byte that a code is stored from: the types with a largest code take no
/// larger one, except for Q5_1, which drops what lies above its five bits.
pub open spec fn stored(t: TensorType, c: i8) -> u8 {
    match t {
        TensorType::Q4_0 | TensorType::Q4_1 => wrapped(
            if c > 15 {
                15
            } else {
                c as int
            },
        ),
        TensorType::Q5_0 => wrapped(
            if c > 31 {
                31
            } else {
                c as int
            },
        ),
        _ => wrapped(c as int),
    }
}

/// Two bytes of a number, the low one first.
pub open spec fn pair_bytes(v: u16) -> Seq<u8> {
    seq![(v % 256) as u8, (v / 256) as u8]
}

/// Four bytes of a number, the lowest first.
pub open spec fn quad_bytes(v: u32) -> Seq<u8> {
    seq![
        (v % 256) as u8,
        (v / 0x100 % 256) as u8,
        (v / 0x1_0000 % 256) as u8,
        (v / 0x100_0000) as u8,
    ]
}

/// The fifth bit of a stored code.
pub open spec fn fifth(t: TensorType, c: i8) -> int {
    (stored(t, c) as int / 16) % 2
}

/// Byte `k` of the plane of fifth bits.
pub open spec fn plane_byte(t: TensorType, codes: Seq<i8>, k: int) -> u8 {
    (fifth(t, codes[8 * k]) + 2 * fifth(t, codes[8 * k + 1]) + 4 * fifth(t, codes[8 * k + 2]) + 8
        * fifth(t, codes[8 * k + 3]) + 16 * fifth(t, codes[8 * k + 4]) + 32 * fifth(
        t,
        codes[8 * k + 5],
    ) + 64 * fifth(t, codes[8 * k + 6]) + 128 * fifth(t, codes[8 * k + 7])) as u8
}

/// Byte `j` of the codes: element `j` low, element `j + 16` high.
pub open spec fn code_byte(t: TensorType, codes: Seq<i8>, j: int) -> u8 {
    let a = stored(t, codes[j]);
    let b = stored(t, codes[j + 16]);
    match t {
        TensorType::Q4_0 | TensorType::Q4_1 => a | (b << 4),
        _ => (a as int % 16 + 16 * (b as int % 16)) as u8,
    }
}

/// The bytes of a block.
pub open spec fn packed(t: TensorType, d: u16, m: u16, codes: Seq<i8>) -> Seq<u8> {
    let low = Seq::new(16, |j: int| code_byte(t, codes, j));
    let plane = Seq::new(4, |k: int| plane_byte(t, codes, k));
    match t {
        TensorType::Q8_0 => pair_bytes(d) + Seq::new(32, |j: int| stored(t, codes[j])),
        TensorType::Q4_0 => pair_bytes(d) + low,
        TensorType::Q4_1 => pair_bytes(d) + pair_bytes(m) + low,
        TensorType::Q5_0 => pair_bytes(d) + plane + low,
        _ => pair_bytes(d) + pair_bytes(m) + plane + low,
    }
}

/// The bytes of some blocks.
pub open spec fn packed_blocks(t: TensorType, bs: Seq<QuantBlock>) -> Seq<u8>
    decreases bs.len(),
{
    if bs.len() == 0 {
        Seq::empty()
    } else {
        packed_blocks(t, bs.drop_last()) + packed(t, bs.last().d, bs.last().m, bs.last().codes@)
    }
}

/// The bytes of some single-precision numbers.
pub open spec fn singles_bytes(v: Seq<u32>) -> Seq<u8>
    decreases v.len(),
{
    if v.len() == 0 {
        Seq::empty()
    } else {
        singles_bytes(v.drop_last()) + quad_bytes(v.last())
    }
}

/// The bytes of some half-precision numbers.
pub open spec fn halves_bytes(v: Seq<u16>) -> Seq<u8>
    decreases v.len(),
{
    if v.len() == 0 {
        Seq::empty()
    } else {
        halves_bytes(v.drop_last()) + pair_bytes(v.last())
    }
}

/// The bytes of a row.
pub open spec fn row_bytes(target: QuantTarget, row: Row) -> Seq<u8> {
    match row {
        Row::Singles(v) => singles_bytes(v@),
        Row::Halves(v) => halves_bytes(v@),
        Row::Blocks(bs) => packed_blocks(legacy(target.ggml_spec())->0, bs@),
    }
}

fn push_pair(out: &mut Vec<u8>, v: u16)
    ensures
        final(out)@ == old(out)@ + pair_bytes(v),
{
    let ghost before = out@;
    out.push((v % 256) as u8);
    out.push((v / 256) as u8);
    assert(out@ =~= before + pair_bytes(v));
}

fn push_quad(out: &mut Vec<u8>, v: u32)
    ensures
        final(out)@ == old(out)@ + quad_bytes(v),
{
    let ghost before = out@;
    out.push((v % 256) as u8);
    out.push((v / 0x100 % 256) as u8);
    out.push((v / 0x1_0000 % 256) as u8);
    out.push((v / 0x100_0000) as u8);
    assert(out@ =~= before + quad_bytes(v));
}

fn wrap(c: i8) -> (r: u8)
    ensures
        r == wrapped(c as int),
{
    if c < 0 {
        (c as i16 + 256) as u8
    } else {
        c as u8
    }
}

fn store(t: TensorType, c: i8) -> (r: u8)
    ensures
        r == stored(t, c),
{
    match t {
        TensorType::Q4_0 | TensorType::Q4_1 => if c > 15 {
            15
        } else {
            wrap(c)
        },
        TensorType::Q5_0 => if c > 31 {
            31
        } else {
            wrap(c)
        },
        _ => wrap(c),
    }
}

fn fifth_of(t: TensorType, c: i8) -> (r: u8)
    ensures
        r == fifth(t, c),
        r <= 1,
{
    (store(t, c) / 16) % 2
}

fn push_plane(out: &mut Vec<u8>, t: TensorType, codes: &Vec<i8>)
    requires
        codes@.len() == 32,
    ensures
        final(out)@ == old(out)@ + Seq::new(4, |k: int| plane_byte(t, codes@, k)),
{
    let ghost plane = Seq::new(4, |k: int| plane_byte(t, codes@, k));
    let ghost before = out@;
    let mut k: usize = 0;
    while k < 4
        invariant
            k <= 4,
            codes@.len() == 32,
            plane == Seq::new(4, |k: int| plane_byte(t, codes@, k)),
            out@ == before + plane.take(k as int),
        decreases 4 - k,
    {
        let b: u8 = fifth_of(t, codes[8 * k]) + 2 * fifth_of(t, codes[8 * k + 1]) + 4 * fifth_of(
            t,
            codes[8 * k + 2],
        ) + 8 * fifth_of(t, codes[8 * k + 3]) + 16 * fifth_of(t, codes[8 * k + 4]) + 32 * fifth_of(
            t,
            codes[8 * k + 5],
        ) + 64 * fifth_of(t, codes[8 * k + 6]) + 128 * fifth_of(t, codes[8 * k + 7]);
        out.push(b);
        assert(plane.take(k + 1) =~= plane.take(k as int).push(b));
        assert(out@ =~= before + plane.take(k + 1));
        k = k + 1;
    }
    assert(plane.take(4) =~= plane);
}

fn push_codes(out: &mut Vec<u8>, t: TensorType, codes: &Vec<i8>)
    requires
        codes@.len() == 32,
    ensures
        final(out)@ == old(out)@ + Seq::new(16, |j: int| code_byte(t, codes@, j)),
{
    let ghost low = Seq::new(16, |j: int| code_byte(t, codes@, j));
    let ghost before = out@;
    let mut j: usize = 0;
    while j < 16
        invariant
            j <= 16,
            codes@.len() == 32,
            low == Seq::new(16, |j: int| code_byte(t, codes@, j)),
            out@ == before + low.take(j as int),
        decreases 16 - j,
    {
        let a: u8 = store(t, codes[j]);
        let b: u8 = store(t, codes[j + 16]);
        let v: u8 = match t {
            TensorType::Q4_0 | TensorType::Q4_1 => a | (b << 4),
            _ => a % 16 + 16 * (b % 16),
        };
        out.push(v);
        assert(low.take(j + 1) =~= low.take(j as int).push(v));
        assert(out@ =~= before + low.take(j + 1));
        j = j + 1;
    }
    assert(low.take(16) =~= low);
}

fn push_bytes(out: &mut Vec<u8>, t: TensorType, codes: &Vec<i8>)
    requires
        codes@.len() == 32,
    ensures
        final(out)@ == old(out)@ + Seq::new(32, |j: int| stored(t, codes@[j])),
{
    let ghost all = Seq::new(32, |j: int| stored(t, codes@[j]));
    let ghost before = out@;
    let mut j: usize = 0;
    while j < 32
        invariant
            j <= 32,
            codes@.len() == 32,
            all == Seq::new(32, |j: int| stored(t, codes@[j])),
            out@ == before + all.take(j as int),
        decreases 32 - j,
    {
        let v: u8 = store(t, codes[j]);
        out.push(v);
        assert(all.take(j + 1) =~= all.take(j as int).push(v));
        assert(out@ =~= before + all.take(j + 1));
        j = j + 1;
    }
    assert(all.take(32) =~= all);
}

fn push_block(out: &mut Vec<u8>, t: TensorType, b: &QuantBlock)
    requires
        b.codes@.len() == 32,
    ensures
        final(out)@ == old(out)@ + packed(t, b.d, b.m, b.codes@),
{
    let ghost before = out@;
    push_pair(out, b.d);
    match t {
        TensorType::Q8_0 => push_bytes(out, t, &b.codes),
        TensorType::Q4_0 => push_codes(out, t, &b.codes),
        TensorType::Q4_1 => {
            push_pair(out, b.m);
            push_codes(out, t, &b.codes);
        },
        TensorType::Q5_0 => {
            push_plane(out, t, &b.codes);
            push_codes(out, t, &b.codes);
        },
        _ => {
            push_pair(out, b.m);
            push_plane(out, t, &b.codes);
            push_codes(out, t, &b.codes);
        },
    }
    assert(out@ =~= before + packed(t, b.d, b.m, b.codes@));
}

fn block_type(target: QuantTarget) -> (r: TensorType)
    requires
        !(target is F32 || target is F16),
    ensures
        Some(r) == legacy(target.ggml_spec()),
{
    match target {
        QuantTarget::Q8_0 => TensorType::Q8_0,
        QuantTarget::Q4_0 => TensorType::Q4_0,
        QuantTarget::Q4_1 => TensorType::Q4_1,
        QuantTarget::Q5_0 => TensorType::Q5_0,
        _ => TensorType::Q5_1,
    }
}

/// The bytes of a row in a target's layout.
pub fn quantize_row(target: QuantTarget, row: &Row) -> (out: Vec<u8>)
    requires
        row_ok(target, *row),
    ensures
        out@ == row_bytes(target, *row),
{
    let mut out: Vec<u8> = Vec::new();
    match row {
        Row::Singles(v) => {
            let mut i: usize = 0;
            while i < v.len()
                invariant
                    i <= v@.len(),
                    out@ == singles_bytes(v@.take(i as int)),
                decreases v@.len() - i,
            {
                push_quad(&mut out, v[i]);
                assert(v@.take(i + 1).drop_last() =~= v@.take(i as int));
                i = i + 1;
            }
            assert(v@.take(v@.len() as int) =~= v@);
        },
        Row::Halves(v) => {
            let mut i: usize = 0;
            while i < v.len()
                invariant
                    i <= v@.len(),
                    out@ == halves_bytes(v@.take(i as int)),
                decreases v@.len() - i,
            {
                push_pair(&mut out, v[i]);
                assert(v@.take(i + 1).drop_last() =~= v@.take(i as int));
                i = i + 1;
            }
            assert(v@.take(v@.len() as int) =~= v@);
        },
        Row::Blocks(bs) => {
            let t: TensorType = block_type(target);
            let mut i: usize = 0;
            while i < bs.len()
                invariant
                    i <= bs@.len(),
                    forall|i: int|
                        0 <= i < bs@.len() ==> (#[trigger] bs@[i]).codes@.len() == 32,
                    out@ == packed_blocks(t, bs@.take(i as int)),
                decreases bs@.len() - i,
            {
                push_block(&mut out, t, &bs[i]);
                assert(bs@.take(i + 1).drop_last() =~= bs@.take(i as int));
                i = i + 1;
            }
            assert(bs@.take(bs@.len() as int) =~= bs@);
        },
    }
    out
}

/// Whether `c` is what `a` holds and, behind it, what `b` holds.
pub open spec fn joined(a: Row, b: Row, c: Row) -> bool {
    match (a, b, c) {
        (Row::Singles(x), Row::Singles(y), Row::Singles(z)) => z@ == x@ + y@,
        (Row::Halves(x), Row::Halves(y), Row::Halves(z)) => z@ == x@ + y@,
        (Row::Blocks(x), Row::Blocks(y), Row::Blocks(z)) => z@ == x@ + y@,
        _ => false,
    }
}

proof fn lemma_singles_join(a: Seq<u32>, b: Seq<u32>)
    ensures
        singles_bytes(a + b) == singles_bytes(a) + singles_bytes(b),
    decreases b.len(),
{
    if b.len() == 0 {
        assert(a + b =~= a);
        assert(singles_bytes(a) + singles_bytes(b) =~= singles_bytes(a));
    } else {
        lemma_singles_join(a, b.drop_last());
        assert((a + b).drop_last() =~= a + b.drop_last());
        assert(singles_bytes(a + b) =~= singles_bytes(a) + singles_bytes(b));
    }
}

proof fn lemma_halves_join(a: Seq<u16>, b: Seq<u16>)
    ensures
        halves_bytes(a + b) == halves_bytes(a) + halves_bytes(b),
    decreases b.len(),
{
    if b.len() == 0 {
        assert(a + b =~= a);
        assert(halves_bytes(a) + halves_bytes(b) =~= halves_bytes(a));
    } else {
        lemma_halves_join(a, b.drop_last());
        assert((a + b).drop_last() =~= a + b.drop_last());
        assert(halves_bytes(a + b) =~= halves_bytes(a) + halves_bytes(b));
    }
}

proof fn lemma_blocks_join(t: TensorType, a: Seq<QuantBlock>, b: Seq<QuantBlock>)
    ensures
        packed_blocks(t, a + b) == packed_blocks(t, a) + packed_blocks(t, b),
    decreases b.len(),
{
    if b.len() == 0 {
        assert(a + b =~= a);
        assert(packed_blocks(t, a) + packed_blocks(t, b) =~= packed_blocks(t, a));
    } else {
        lemma_blocks_join(t, a, b.drop_last());
        assert((a + b).drop_last() =~= a + b.drop_last());
        assert(packed_blocks(t, a + b) =~= packed_blocks(t, a) + packed_blocks(t, b));
    }
}

/// Rows can be stored one behind the other: the bytes of joined rows are the joined bytes
/// of the rows.
pub proof fn law_joined_rows_join_their_bytes(target: QuantTarget, a: Row, b: Row, c: Row)
    requires
        joined(a, b, c),
    ensures
        row_bytes(target, c) == row_bytes(target, a) + row_bytes(target, b),
        row_ok(target, a) && row_ok(target, b) ==> row_ok(target, c),
{
    match (a, b, c) {
        (Row::Singles(x), Row::Singles(y), _) => lemma_singles_join(x@, y@),
        (Row::Halves(x), Row::Halves(y), _) => lemma_halves_join(x@, y@),
        (Row::Blocks(x), Row::Blocks(y), _) => {
            lemma_blocks_join(legacy(target.ggml_spec())->0, x@, y@)
        },
        _ => {},
    }
}

/// Weights can be decoded exactly if decoding gives something.
pub proof fn law_decodable_targets(t: QuantTarget)
    ensures
        decodable(t.ggml_spec()),
        !(t is F32 || t is F16) ==> legacy(t.ggml_spec()) is Some,
{
}

/// The name of a target is read as the target.
pub proof fn law_names_are_read_back(t: QuantTarget)
    ensures
        target_of(lower(t.name_spec())) == Some(t),
{
    reveal_strlit("f32");
    reveal_strlit("fp32");
    reveal_strlit("f16");
    reveal_strlit("fp16");
    reveal_strlit("q8_0");
    reveal_strlit("q4_0");
    reveal_strlit("q4_1");
    reveal_strlit("q5_0");
    reveal_strlit("q5_1");
    let n = t.name_spec();
    assert(lower(n) =~= n);
    assert("f32"@.len() == 3 && "fp32"@.len() == 4 && "f16"@.len() == 3 && "fp16"@.len() == 4);
    assert("f32"@[1] == '3' && "f16"@[1] == '1');
    assert("fp32"@[0] == 'f' && "fp16"@[0] == 'f');
    assert("q8_0"@[0] == 'q' && "q4_0"@[0] == 'q' && "q4_1"@[0] == 'q' && "q5_0"@[0] == 'q'
        && "q5_1"@[0] == 'q');
    assert("q8_0"@[1] == '8' && "q4_0"@[1] == '4' && "q4_1"@[1] == '4' && "q5_0"@[1] == '5'
        && "q5_1"@[1] == '5');
    assert("q4_0"@[3] == '0' && "q4_1"@[3] == '1' && "q5_0"@[3] == '0' && "q5_1"@[3] == '1');
}

/// What a code is decoded to, apart from the type's zero point.
pub open spec fn kept(t: TensorType, c: i8) -> int {
    match t {
        TensorType::Q8_0 => c as int,
        TensorType::Q5_1 => c as int % 32,
        _ => stored(t, c) as int,
    }
}

/// The code that stands for zero.
pub open spec fn zero_point(t: TensorType) -> int {
    match t {
        TensorType::Q4_0 => 8,
        TensorType::Q5_0 => 16,
        _ => 0,
    }
}

proof fn lemma_nibbles(a: u8, b: u8)
    requires
        a < 16,
        b < 16,
    ensures
        (a | (b << 4)) as int % 16 == a,
        (a | (b << 4)) as int / 16 == b,
{
    assert((a | (b << 4)) % 16 == a && (a | (b << 4)) / 16 == b) by (bit_vector)
        requires
            a < 16,
            b < 16,
    ;
}

proof fn lemma_split(s: int, low: int, w: int, f: int, rest: int)
    requires
        s == low + w * (f + 2 * rest),
        0 <= low < w,
        0 <= f <= 1,
    ensures
        (s / w) % 2 == f,
{
    let q = f + 2 * rest;
    assert(w * q == q * w) by (nonlinear_arith);
    vstd::arithmetic::div_mod::lemma_fundamental_div_mod_converse(s, w, q, low);
}

proof fn lemma_bits(f0: int, f1: int, f2: int, f3: int, f4: int, f5: int, f6: int, f7: int)
    requires
        0 <= f0 <= 1,
        0 <= f1 <= 1,
        0 <= f2 <= 1,
        0 <= f3 <= 1,
        0 <= f4 <= 1,
        0 <= f5 <= 1,
        0 <= f6 <= 1,
        0 <= f7 <= 1,
    ensures
        ({
            let s = f0 + 2 * f1 + 4 * f2 + 8 * f3 + 16 * f4 + 32 * f5 + 64 * f6 + 128 * f7;
            &&& 0 <= s < 256
            &&& (s / 1) % 2 == f0
            &&& (s / 2) % 2 == f1
            &&& (s / 4) % 2 == f2
            &&& (s / 8) % 2 == f3
            &&& (s / 16) % 2 == f4
            &&& (s / 32) % 2 == f5
            &&& (s / 64) % 2 == f6
            &&& (s / 128) % 2 == f7
        }),
{
    let s = f0 + 2 * f1 + 4 * f2 + 8 * f3 + 16 * f4 + 32 * f5 + 64 * f6 + 128 * f7;
    lemma_split(s, 0, 1, f0, f1 + 2 * f2 + 4 * f3 + 8 * f4 + 16 * f5 + 32 * f6 + 64 * f7);
    lemma_split(s, f0, 2, f1, f2 + 2 * f3 + 4 * f4 + 8 * f5 + 16 * f6 + 32 * f7);
    lemma_split(s, f0 + 2 * f1, 4, f2, f3 + 2 * f4 + 4 * f5 + 8 * f6 + 16 * f7);
    lemma_split(s, f0 + 2 * f1 + 4 * f2, 8, f3, f4 + 2 * f5 + 4 * f6 + 8 * f7);
    lemma_split(s, f0 + 2 * f1 + 4 * f2 + 8 * f3, 16, f4, f5 + 2 * f6 + 4 * f7);
    lemma_split(s, f0 + 2 * f1 + 4 * f2 + 8 * f3 + 16 * f4, 32, f5, f6 + 2 * f7);
    lemma_split(s, f0 + 2 * f1 + 4 * f2 + 8 * f3 + 16 * f4 + 32 * f5, 64, f6, f7);
    lemma_split(s, f0 + 2 * f1 + 4 * f2 + 8 * f3 + 16 * f4 + 32 * f5 + 64 * f6, 128, f7, 0);
}

proof fn lemma_fifth_is_a_bit(t: TensorType, c: i8)
    ensures
        0 <= fifth(t, c) <= 1,
{
}

proof fn lemma_plane_bit(t: TensorType, codes: Seq<i8>, k: int, i: int)
    requires
        codes.len() == 32,
        0 <= k < 4,
        0 <= i < 8,
    ensures
        bit(plane_byte(t, codes, k), i) == fifth(t, codes[8 * k + i]),
{
    let f0 = fifth(t, codes[8 * k]);
    let f1 = fifth(t, codes[8 * k + 1]);
    let f2 = fifth(t, codes[8 * k + 2]);
    let f3 = fifth(t, codes[8 * k + 3]);
    let f4 = fifth(t, codes[8 * k + 4]);
    let f5 = fifth(t, codes[8 * k + 5]);
    let f6 = fifth(t, codes[8 * k + 6]);
    let f7 = fifth(t, codes[8 * k + 7]);
    lemma_fifth_is_a_bit(t, codes[8 * k]);
    lemma_fifth_is_a_bit(t, codes[8 * k + 1]);
    lemma_fifth_is_a_bit(t, codes[8 * k + 2]);
    lemma_fifth_is_a_bit(t, codes[8 * k + 3]);
    lemma_fifth_is_a_bit(t, codes[8 * k + 4]);
    lemma_fifth_is_a_bit(t, codes[8 * k + 5]);
    lemma_fifth_is_a_bit(t, codes[8 * k + 6]);
    lemma_fifth_is_a_bit(t, codes[8 * k + 7]);
    lemma_bits(f0, f1, f2, f3, f4, f5, f6, f7);
    if i == 0 {
        assert(weight(i) == 1);
    } else if i == 1 {
        assert(weight(i) == 2);
    } else if i == 2 {
        assert(weight(i) == 4);
    } else if i == 3 {
        assert(weight(i) == 8);
    } else if i == 4 {
        assert(weight(i) == 16);
    } else if i == 5 {
        assert(weight(i) == 32);
    } else if i == 6 {
        assert(weight(i) == 64);
    } else {
        assert(weight(i) == 128);
    }
}

proof fn lemma_packed_fours(t: TensorType, d: u16, m: u16, codes: Seq<i8>, j: int)
    requires
        t is Q4_0 || t is Q4_1,
        codes.len() == 32,
        0 <= j < 32,
        forall|i: int| 0 <= i < 32 ==> 0 <= #[trigger] codes[i],
    ensures
        code(t, packed(t, d, m, codes), j) == kept(t, codes[j]) - zero_point(t),
{
    let p = packed(t, d, m, codes);
    let h = if j < 16 {
        j
    } else {
        j - 16
    };
    let start = if t is Q4_0 {
        2
    } else {
        4int
    };
    assert(p[start + h] == code_byte(t, codes, h));
    assert(0 <= codes[h] && 0 <= codes[h + 16]);
    lemma_nibbles(stored(t, codes[h]), stored(t, codes[h + 16]));
}

proof fn lemma_five_bits(x: int)
    requires
        0 <= x < 256,
    ensures
        x % 16 + 16 * ((x / 16) % 2) == x % 32,
{
}

proof fn lemma_halves(a: int, b: int)
    ensures
        0 <= a % 16 + 16 * (b % 16) < 256,
        (a % 16 + 16 * (b % 16)) % 16 == a % 16,
        (a % 16 + 16 * (b % 16)) / 16 == b % 16,
{
}

/// Where the plane of fifth bits starts in a block; the codes follow it.
spec fn plane_at(t: TensorType) -> int {
    if t is Q5_0 {
        2
    } else {
        4
    }
}

proof fn lemma_fives_code(t: TensorType, p: Seq<u8>, c: i8, j: int)
    requires
        t is Q5_0 || t is Q5_1,
        0 <= j < 32,
        nibble(p, plane_at(t) + 4, j) == stored(t, c) as int % 16,
        bit(p[plane_at(t) + j / 8], j % 8) == fifth(t, c),
    ensures
        0 <= c ==> code(t, p, j) == kept(t, c) - zero_point(t),
{
    lemma_five_bits(stored(t, c) as int);
}

proof fn lemma_five_bytes(t: TensorType, d: u16, m: u16, codes: Seq<i8>, h: int, k: int)
    requires
        t is Q5_0 || t is Q5_1,
        0 <= h < 16,
        0 <= k < 4,
    ensures
        ({
            let p = packed(t, d, m, codes);
            &&& p[plane_at(t) + 4 + h] == code_byte(t, codes, h)
            &&& p[plane_at(t) + k] == plane_byte(t, codes, k)
        }),
{
}

proof fn lemma_fives_low(t: TensorType, d: u16, m: u16, codes: Seq<i8>, j: int)
    requires
        t is Q5_0 || t is Q5_1,
        0 <= j < 32,
    ensures
        nibble(packed(t, d, m, codes), plane_at(t) + 4, j) == stored(t, codes[j]) as int % 16,
{
    let h = if j < 16 {
        j
    } else {
        j - 16
    };
    lemma_five_bytes(t, d, m, codes, h, 0);
    lemma_halves(stored(t, codes[h]) as int, stored(t, codes[h + 16]) as int);
}

proof fn lemma_fives_high(t: TensorType, d: u16, m: u16, codes: Seq<i8>, j: int)
    requires
        t is Q5_0 || t is Q5_1,
        codes.len() == 32,
        0 <= j < 32,
    ensures
        bit(packed(t, d, m, codes)[plane_at(t) + j / 8], j % 8) == fifth(t, codes[j]),
{
    lemma_five_bytes(t, d, m, codes, 0, j / 8);
    lemma_plane_bit(t, codes, j / 8, j % 8);
    assert(8 * (j / 8) + j % 8 == j);
}

proof fn lemma_packed_fives(t: TensorType, d: u16, m: u16, codes: Seq<i8>, j: int)
    requires
        t is Q5_0 || t is Q5_1,
        codes.len() == 32,
        0 <= j < 32,
        forall|i: int| 0 <= i < 32 ==> 0 <= #[trigger] codes[i],
    ensures
        code(t, packed(t, d, m, codes), j) == kept(t, codes[j]) - zero_point(t),
{
    lemma_fives_low(t, d, m, codes, j);
    lemma_fives_high(t, d, m, codes, j);
    lemma_fives_code(t, packed(t, d, m, codes), codes[j], j);
    assert(0 <= codes[j]);
}

/// Packing loses nothing: a packed block has the size of its type, and decoding it
/// gives back its constants and the codes, as far as the type keeps them.
pub proof fn law_packed_blocks_decode(t: TensorType, d: u16, m: u16, codes: Seq<i8>, j: int)
    requires
        t is Q8_0 || t is Q4_0 || t is Q4_1 || t is Q5_0 || t is Q5_1,
        codes.len() == 32,
        0 <= j < 32,
        t is Q8_0 || forall|i: int| 0 <= i < 32 ==> 0 <= #[trigger] codes[i],
    ensures
        packed(t, d, m, codes).len() == t.type_size_spec(),
        scale_of(t, packed(t, d, m, codes)) == d,
        has_second(t) ==> second_of(t, packed(t, d, m, codes)) == m,
        code(t, packed(t, d, m, codes), j) == kept(t, codes[j]) - zero_point(t),
{
    let p = packed(t, d, m, codes);
    assert(p[0] == d % 256 && p[1] == d / 256);
    assert(pair(p, 0) == d);
    if has_second(t) {
        assert(p[2] == m % 256 && p[3] == m / 256);
        assert(pair(p, 2) == m);
    }
    if t is Q8_0 {
        assert(p[2 + j] == stored(t, codes[j]));
        assert(signed(stored(t, codes[j])) == codes[j]);
    } else if t is Q4_0 || t is Q4_1 {
        lemma_packed_fours(t, d, m, codes, j);
    } else {
        lemma_packed_fives(t, d, m, codes, j);
    }
}

/// The bytes of a row have the length that its target's block geometry tells.
pub proof fn law_written_length(target: QuantTarget, row: Row)
    requires
        row_ok(target, row),
    ensures
        row_bytes(target, row).len() == target.ggml_spec().type_size_spec() * (match row {
            Row::Singles(v) => v@.len(),
            Row::Halves(v) => v@.len(),
            Row::Blocks(bs) => bs@.len(),
        }),
{
    match row {
        Row::Singles(v) => lemma_singles_length(v@),
        Row::Halves(v) => lemma_halves_length(v@),
        Row::Blocks(bs) => lemma_blocks_length(legacy(target.ggml_spec())->0, bs@),
    }
}

proof fn lemma_singles_length(v: Seq<u32>)
    ensures
        singles_bytes(v).len() == 4 * v.len(),
    decreases v.len(),
{
    if v.len() > 0 {
        lemma_singles_length(v.drop_last());
    }
}

proof fn lemma_halves_length(v: Seq<u16>)
    ensures
        halves_bytes(v).len() == 2 * v.len(),
    decreases v.len(),
{
    if v.len() > 0 {
        lemma_halves_length(v.drop_last());
    }
}

proof fn lemma_blocks_length(t: TensorType, bs: Seq<QuantBlock>)
    requires
        t is Q8_0 || t is Q4_0 || t is Q4_1 || t is Q5_0 || t is Q5_1,
    ensures
        packed_blocks(t, bs).len() == t.type_size_spec() * bs.len(),
    decreases bs.len(),
{
    if bs.len() > 0 {
        lemma_blocks_length(t, bs.drop_last());
        assert(packed(t, bs.last().d, bs.last().m, bs.last().codes@).len() == t.type_size_spec());
        assert(t.type_size_spec() * (bs.len() - 1) + t.type_size_spec() == t.type_size_spec()
            * bs.len()) by (nonlinear_arith);
    }
}

/// Plain numbers are written and read back unchanged.
pub proof fn law_plain_rows_round_trip(v: Seq<u32>, w: Seq<u16>)
    ensures
        singles(singles_bytes(v)) == v,
        halves(halves_bytes(w)) == w,
{
    lemma_singles_back(v);
    lemma_halves_back(w);
}

proof fn lemma_quad_parts(x: u32)
    ensures
        x % 256 + 0x100 * (x / 0x100 % 256) + 0x1_0000 * (x / 0x1_0000 % 256) + 0x100_0000 * (x
            / 0x100_0000) == x,
        x / 0x100_0000 < 256,
{
    assert(x / 0x100 == x / 0x100 % 256 + 256 * (x / 0x1_0000));
    assert(x / 0x1_0000 == x / 0x1_0000 % 256 + 256 * (x / 0x100_0000));
}

proof fn lemma_last_quad(b: Seq<u8>, x: u32)
    ensures
        quad(b + quad_bytes(x), b.len() as int) == x,
{
    let all = b + quad_bytes(x);
    let n = b.len() as int;
    assert(all[n] == quad_bytes(x)[0]);
    assert(all[n + 1] == quad_bytes(x)[1]);
    assert(all[n + 2] == quad_bytes(x)[2]);
    assert(all[n + 3] == quad_bytes(x)[3]);
    lemma_quad_parts(x);
}

proof fn lemma_singles_back(v: Seq<u32>)
    ensures
        singles(singles_bytes(v)) == v,
    decreases v.len(),
{
    lemma_singles_length(v);
    if v.len() > 0 {
        let init = v.drop_last();
        let b = singles_bytes(init);
        lemma_singles_back(init);
        lemma_singles_length(init);
        let all = b + quad_bytes(v.last());
        assert forall|i: int| 0 <= i < v.len() implies quad(all, 4 * i) == v[i] by {
            if i < v.len() - 1 {
                assert(quad(all, 4 * i) == quad(b, 4 * i));
                assert(singles(b)[i] == init[i]);
            } else {
                lemma_last_quad(b, v.last());
            }
        }
        assert(singles(all) =~= v);
    } else {
        assert(singles(singles_bytes(v)) =~= v);
    }
}

proof fn lemma_halves_back(v: Seq<u16>)
    ensures
        halves(halves_bytes(v)) == v,
    decreases v.len(),
{
    lemma_halves_length(v);
    if v.len() > 0 {
        let init = v.drop_last();
        let b = halves_bytes(init);
        lemma_halves_back(init);
        lemma_halves_length(init);
        let all = b + pair_bytes(v.last());
        assert forall|i: int| 0 <= i < v.len() implies pair(all, 2 * i) == v[i] by {
            if i < v.len() - 1 {
                assert(pair(all, 2 * i) == pair(b, 2 * i));
                assert(halves(b)[i] == init[i]);
            } else {
                let x = v.last();
                assert(all[2 * i] == x % 256);
                assert(all[2 * i + 1] == x / 256);
            }
        }
        assert(halves(all) =~= v);
    } else {
        assert(halves(halves_bytes(v)) =~= v);
    }
}

/// A code is stored as it is, up to the largest one that its bits hold: 15 with four
/// bits, 31 with the five of a type without minimum. A negative one is stored in the
/// upper half of a byte.
pub proof fn law_codes_are_cut_at_the_top(t: TensorType, c: i8)
    ensures
        c < 0 ==> stored(t, c) == 256 + c && stored(t, c) >= 128,
        0 <= c <= 15 ==> stored(t, c) == c,
        c > 15 && (t is Q4_0 || t is Q4_1) ==> stored(t, c) == 15,
        15 < c <= 31 && !(t is Q4_0 || t is Q4_1) ==> stored(t, c) == c,
        c > 31 && t is Q5_0 ==> stored(t, c) == 31,
        c > 31 && (t is Q5_1 || t is Q8_0) ==> stored(t, c) == c,
{
}

/// What the number of a file's type says.
pub proof fn law_file_types(t: QuantTarget)
    ensures
        t is F32 <==> t.file_type_spec() == 0,
        t is F16 <==> t.file_type_spec() == 1,
        t is Q4_0 <==> t.file_type_spec() == 2,
        t is Q4_1 <==> t.file_type_spec() == 3,
        t is Q8_0 <==> t.file_type_spec() == 7,
        t is Q5_0 <==> t.file_type_spec() == 8,
        t is Q5_1 <==> t.file_type_spec() == 9,
{
}

/// Plain elements are read in order, lowest byte first; a brain float is the upper half
/// of a single.
pub proof fn law_plain_elements_in_order(data: Seq<u8>, i: int)
    ensures
        0 <= i < data.len() / 4 ==> ({
            let v = singles(data)[i];
            &&& singles(data).len() == data.len() / 4
            &&& v % 256 == data[4 * i]
            &&& v / 256 % 256 == data[4 * i + 1]
            &&& v / 65536 % 256 == data[4 * i + 2]
            &&& v / 16777216 == data[4 * i + 3]
        }),
        0 <= i < data.len() / 2 ==> ({
            let h = halves(data)[i];
            let v = brain_singles(data)[i];
            &&& halves(data).len() == data.len() / 2
            &&& brain_singles(data).len() == data.len() / 2
            &&& h % 256 == data[2 * i]
            &&& h / 256 == data[2 * i + 1]
            &&& v % 65536 == 0
            &&& v / 65536 % 256 == data[2 * i]
            &&& v / 16777216 == data[2 * i + 1]
        }),
{
    if 0 <= i < data.len() / 4 {
        let v = singles(data)[i] as int;
        assert(v == data[4 * i] + 256 * data[4 * i + 1] + 65536 * data[4 * i + 2] + 16777216
            * data[4 * i + 3]);
        assert(v / 256 == data[4 * i + 1] + 256 * data[4 * i + 2] + 65536 * data[4 * i + 3]);
        assert(v / 65536 == data[4 * i + 2] + 256 * data[4 * i + 3]);
    }
    if 0 <= i < data.len() / 2 {
        let v = brain_singles(data)[i] as int;
        assert(v == 65536 * data[2 * i] + 16777216 * data[2 * i + 1]);
        assert(v / 65536 == data[2 * i] + 256 * data[2 * i + 1]);
    }
}

proof fn lemma_block_values_at(t: TensorType, data: Seq<u8>, n: int, e: int)
    requires
        is_quantised(t),
        t.blck_size_spec() == 32,
        0 <= e < 32 * n,
    ensures
        blocks_values(t, data, n).len() == 32 * n,
        blocks_values(t, data, n)[e] == block_values(t, block_bytes(t, data, e / 32))[e % 32],
    decreases n,
{
    let before = blocks_values(t, data, n - 1);
    if n > 1 {
        if e < 32 * (n - 1) {
            lemma_block_values_at(t, data, n - 1, e);
        } else {
            lemma_block_values_at(t, data, n - 1, 0);
        }
    } else {
        assert(before.len() == 0);
    }
    if e >= 32 * (n - 1) {
        assert(e / 32 == n - 1 && e % 32 == e - 32 * (n - 1));
    }
}

/// The elements of a weight in blocks of 32 come block after block: element `e` is
/// element `e % 32` of block `e / 32`.
pub proof fn law_elements_come_block_by_block(t: TensorType, data: Seq<u8>, e: int)
    requires
        t is Q8_0 || t is Q4_0 || t is Q4_1 || t is Q5_0 || t is Q5_1,
        0 <= e < 32 * (data.len() as int / t.type_size_spec() as int),
    ensures
        all_values(t, data).len() == 32 * (data.len() as int / t.type_size_spec() as int),
        all_values(t, data)[e] == block_values(t, block_bytes(t, data, e / 32))[e % 32],
{
    lemma_block_values_at(t, data, data.len() as int / t.type_size_spec() as int, e);
}

/// Which stored types are read, and as what.
pub proof fn law_what_is_decoded(t: GgmlType)
    ensures
        decodable(t) <==> t is F32 || t is F16 || t is BF16 || t is Q8_0 || t is Q4_0 || t is Q4_1
            || t is Q5_0 || t is Q5_1,
        legacy(t) == Some(TensorType::Q8_0) <==> t is Q8_0,
        legacy(t) == Some(TensorType::Q4_0) <==> t is Q4_0,
        legacy(t) == Some(TensorType::Q4_1) <==> t is Q4_1,
        legacy(t) == Some(TensorType::Q5_0) <==> t is Q5_0,
        legacy(t) == Some(TensorType::Q5_1) <==> t is Q5_1,
        legacy(t) is None <==> !(t is Q8_0 || t is Q4_0 || t is Q4_1 || t is Q5_0 || t is Q5_1),
{
}

/// The types that are known and not written, by name, and the other names of plain floats.
pub proof fn law_types_that_are_not_written(name: Seq<char>)
    ensures
        known_unsupported("q2_k"@),
        known_unsupported("q3_k"@),
        known_unsupported("q4_k"@),
        known_unsupported("q5_k"@),
        known_unsupported("q6_k"@),
        known_unsupported("q8_k"@),
        known_unsupported("q8_1"@),
        known_unsupported("iq2_xxs"@),
        known_unsupported("iq2_xs"@),
        known_unsupported("iq3_xxs"@),
        known_unsupported("iq1_s"@),
        known_unsupported("iq4_nl"@),
        known_unsupported("iq3_s"@),
        known_unsupported("iq2_s"@),
        known_unsupported("iq4_xs"@),
        known_unsupported("iq1_m"@),
        known_unsupported("tq1_0"@),
        known_unsupported("tq2_0"@),
        known_unsupported("mxfp4"@),
        known_unsupported("nvfp4"@),
        known_unsupported("q1_0"@),
        known_unsupported("bf16"@),
        known_unsupported("f64"@),
        known_unsupported("i8"@),
        known_unsupported("i16"@),
        known_unsupported("i32"@),
        known_unsupported("i64"@),
        target_of("fp32"@) == Some(QuantTarget::F32),
        target_of("fp16"@) == Some(QuantTarget::F16),
        target_of(name) is Some ==> name == target_of(name)->0.name_spec() || name == "fp32"@ || name
            == "fp16"@,
{
    reveal_strlit("f32");
    reveal_strlit("fp32");
    reveal_strlit("f16");
    reveal_strlit("fp16");
    assert("f32"@.len() == 3 && "fp32"@.len() == 4 && "f16"@.len() == 3 && "fp16"@.len() == 4);
    assert("fp32"@[2] == '3' && "fp16"@[2] == '1');
}

/// The type that a target is stored as has the target's name.
pub proof fn law_targets_are_stored_as_themselves(t: QuantTarget)
    ensures
        t is F32 <==> t.ggml_spec() is F32,
        t is F16 <==> t.ggml_spec() is F16,
        t is Q8_0 <==> t.ggml_spec() is Q8_0,
        t is Q4_0 <==> t.ggml_spec() is Q4_0,
        t is Q4_1 <==> t.ggml_spec() is Q4_1,
        t is Q5_0 <==> t.ggml_spec() is Q5_0,
        t is Q5_1 <==> t.ggml_spec() is Q5_1,
{
}

} // verus!
