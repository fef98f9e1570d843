//! The block layouts of the quantised types: where the codes, scales and minima
//! of a block lie in its bytes.
use crate::tensor::TensorType;
use vstd::prelude::*;
use vstd::slice::slice_subrange;

verus! {

/// What a stored element stands for: an integer code and the constants of its
/// block, half-precision numbers held as their bits. The arithmetic is done in
/// single precision, in the order written.
#[derive(Debug, Clone, Copy, PartialEq, Eq, Structural)]
pub enum Element {
    /// `code * d`.
    Scaled { code: i32, d: u16 },
    /// `code * d + m`.
    Shifted { code: i32, d: u16, m: u16 },
    /// `(d * scale) * code - m * min`.
    Affine { code: i32, d: u16, scale: u8, m: u16, min: u8 },
    /// `(d * grade) * code`.
    Graded { code: i32, d: u16, grade: i8 },
}

/// Whether the type is stored in quantised blocks.
pub open spec fn is_quantised(t: TensorType) -> bool {
    !(t is F32 || t is F16 || t is I8)
}

/// A byte read as a two's complement number.
pub open spec fn signed(b: u8) -> int {
    if b < 128 {
        b as int
    } else {
        b - 256
    }
}

/// Two to the power `i`, for a bit of a byte.
pub open spec fn weight(i: int) -> int {
    if i == 0 {
        1
    } else if i == 1 {
        2
    } else if i == 2 {
        4
    } else if i == 3 {
        8
    } else if i == 4 {
        16
    } else if i == 5 {
        32
    } else if i == 6 {
        64
    } else {
        128
    }
}

/// Bit `i` of a byte.
pub open spec fn bit(b: u8, i: int) -> int {
    (b as int / weight(i)) % 2
}

/// The half of a byte that belongs to an element: the low one for the first
/// sixteen elements of a block, the high one for the others.
pub open spec fn nibble(b: Seq<u8>, start: int, j: int) -> int {
    if j < 16 {
        b[start + j] as int % 16
    } else {
        b[start + j - 16] as int / 16
    }
}

/// The half of a byte that belongs to an element of a super-block: each run of 32
/// bytes holds two sub-blocks, the even one in the low halves.
pub open spec fn sub_nibble(b: Seq<u8>, start: int, j: int) -> int {
    let sub = j / 32;
    let byte = b[start + (sub / 2) * 32 + j % 32] as int;
    if sub % 2 == 0 {
        byte % 16
    } else {
        byte / 16
    }
}

/// Six-bit scale `s` of a super-block with eight scales and eight minima packed
/// into the twelve bytes from 4 on.
pub open spec fn packed_scale(b: Seq<u8>, s: int) -> int {
    if s < 4 {
        b[4 + s] as int % 64
    } else {
        b[4 + s + 4] as int % 16 + 16 * (b[4 + s - 4] as int / 64)
    }
}

/// Six-bit minimum `s` of such a super-block.
pub open spec fn packed_min(b: Seq<u8>, s: int) -> int {
    if s < 4 {
        b[4 + s + 4] as int % 64
    } else {
        b[4 + s + 4] as int / 16 + 16 * (b[4 + s] as int / 64)
    }
}

/// The integer code of element `j` of a block.
pub open spec fn code(t: TensorType, b: Seq<u8>, j: int) -> int {
    match t {
        TensorType::Q8_0 => signed(b[2 + j]),
        TensorType::Q4_0 => nibble(b, 2, j) - 8,
        TensorType::Q4_1 => nibble(b, 4, j),
        TensorType::Q5_0 => nibble(b, 6, j) + 16 * bit(b[2 + j / 8], j % 8) - 16,
        TensorType::Q5_1 => nibble(b, 8, j) + 16 * bit(b[4 + j / 8], j % 8),
        TensorType::Q4_K => sub_nibble(b, 16, j),
        TensorType::Q5_K => sub_nibble(b, 48, j) + 16 * bit(b[16 + j % 32], j / 32),
        TensorType::Q6_K => {
            let n = j / 128;
            let g = (j % 128) / 32;
            let l = j % 32;
            let byte = b[n * 64 + l + 32 * (g % 2)] as int;
            let low = if g < 2 {
                byte % 16
            } else {
                byte / 16
            };
            low + 16 * ((b[128 + n * 32 + l] as int / weight(2 * g)) % 4) - 32
        },
        _ => 0,
    }
}

/// Element `j` of a block whose constants are `d` and `m`.
pub open spec fn element(t: TensorType, b: Seq<u8>, d: u16, m: u16, j: int) -> Element {
    let code = code(t, b, j) as i32;
    match t {
        TensorType::Q4_1 | TensorType::Q5_1 => Element::Shifted { code, d, m },
        TensorType::Q4_K | TensorType::Q5_K => Element::Affine {
            code,
            d,
            scale: packed_scale(b, j / 32) as u8,
            m,
            min: packed_min(b, j / 32) as u8,
        },
        TensorType::Q6_K => Element::Graded {
            code,
            d,
            grade: signed(b[192 + (j / 128) * 8 + (j % 32) / 16 + 2 * ((j % 128) / 32)]) as i8,
        },
        _ => Element::Scaled { code, d },
    }
}

/// The elements of a block whose constants are `d` and `m`.
pub open spec fn elements(t: TensorType, b: Seq<u8>, d: u16, m: u16) -> Seq<Element> {
    Seq::new(t.blck_size_spec() as nat, |j: int| element(t, b, d, m, j))
}

/// Where the scale of a block lies.
pub open spec fn scale_at(t: TensorType) -> int {
    if t is Q6_K {
        208
    } else {
        0
    }
}

/// Whether a block has a second constant, behind its scale.
pub open spec fn has_second(t: TensorType) -> bool {
    t is Q4_1 || t is Q5_1 || t is Q4_K || t is Q5_K
}

/// Two bytes, the low one first.
pub open spec fn pair(b: Seq<u8>, i: int) -> u16 {
    (b[i] + 256 * b[i + 1]) as u16
}

/// The scale of a block.
pub open spec fn scale_of(t: TensorType, b: Seq<u8>) -> u16 {
    pair(b, scale_at(t))
}

/// The second constant of a block, zero where there is none.
pub open spec fn second_of(t: TensorType, b: Seq<u8>) -> u16 {
    if has_second(t) {
        pair(b, 2)
    } else {
        0
    }
}

/// The elements of a block.
pub open spec fn block_values(t: TensorType, b: Seq<u8>) -> Seq<Element> {
    elements(t, b, scale_of(t, b), second_of(t, b))
}

fn signed_byte(b: u8) -> (r: i8)
    ensures
        r == signed(b),
{
    if b < 128 {
        b as i8
    } else {
        (b as i16 - 256) as i8
    }
}

fn weight_of(i: usize) -> (r: u8)
    requires
        i < 8,
    ensures
        r == weight(i as int),
{
    if i == 0 {
        1
    } else if i == 1 {
        2
    } else if i == 2 {
        4
    } else if i == 3 {
        8
    } else if i == 4 {
        16
    } else if i == 5 {
        32
    } else if i == 6 {
        64
    } else {
        128
    }
}

fn bit_of(b: u8, i: usize) -> (r: u8)
    requires
        i < 8,
    ensures
        r == bit(b, i as int),
        r <= 1,
{
    (b / weight_of(i)) % 2
}

fn nibble_of(b: &[u8], start: usize, j: usize) -> (r: u8)
    requires
        j < 32,
        start <= 8,
        start + 16 <= b@.len(),
    ensures
        r == nibble(b@, start as int, j as int),
        r < 16,
{
    if j < 16 {
        b[start + j] % 16
    } else {
        b[start + j - 16] / 16
    }
}

fn sub_nibble_of(b: &[u8], start: usize, j: usize) -> (r: u8)
    requires
        j < 256,
        start <= 48,
        start + 128 <= b@.len(),
    ensures
        r == sub_nibble(b@, start as int, j as int),
        r < 16,
{
    let sub: usize = j / 32;
    let byte: u8 = b[start + (sub / 2) * 32 + j % 32];
    if sub % 2 == 0 {
        byte % 16
    } else {
        byte / 16
    }
}

/// The scale and the minimum of a sub-block of eight.
pub fn unpack_scale(b: &[u8], s: usize) -> (r: (u8, u8))
    requires
        s < 8,
        b@.len() >= 16,
    ensures
        r.0 == packed_scale(b@, s as int),
        r.1 == packed_min(b@, s as int),
{
    if s < 4 {
        (b[4 + s] % 64, b[4 + s + 4] % 64)
    } else {
        (b[4 + s + 4] % 16 + 16 * (b[4 + s - 4] / 64), b[4 + s + 4] / 16 + 16 * (b[4 + s] / 64))
    }
}

fn six_bit_of(b: &[u8], j: usize) -> (r: i32)
    requires
        j < 256,
        b@.len() >= 210,
    ensures
        r == code(TensorType::Q6_K, b@, j as int),
{
    let n: usize = j / 128;
    let g: usize = (j % 128) / 32;
    let l: usize = j % 32;
    let byte: u8 = b[n * 64 + l + 32 * (g % 2)];
    let low: u8 = if g < 2 {
        byte % 16
    } else {
        byte / 16
    };
    let high: u8 = (b[128 + n * 32 + l] / weight_of(2 * g)) % 4;
    low as i32 + 16 * high as i32 - 32
}

/// The integer code of an element of a block.
pub fn code_of(t: TensorType, b: &[u8], j: usize) -> (r: i32)
    requires
        is_quantised(t),
        b@.len() == t.type_size_spec(),
        j < t.blck_size_spec(),
    ensures
        r == code(t, b@, j as int),
        -128 <= r < 128,
{
    match t {
        TensorType::Q8_0 => signed_byte(b[2 + j]) as i32,
        TensorType::Q4_0 => nibble_of(b, 2, j) as i32 - 8,
        TensorType::Q4_1 => nibble_of(b, 4, j) as i32,
        TensorType::Q5_0 => nibble_of(b, 6, j) as i32 + 16 * bit_of(b[2 + j / 8], j % 8) as i32
            - 16,
        TensorType::Q5_1 => nibble_of(b, 8, j) as i32 + 16 * bit_of(b[4 + j / 8], j % 8) as i32,
        TensorType::Q4_K => sub_nibble_of(b, 16, j) as i32,
        TensorType::Q5_K => sub_nibble_of(b, 48, j) as i32 + 16 * bit_of(b[16 + j % 32], j / 32)
            as i32,
        TensorType::Q6_K => six_bit_of(b, j),
        _ => 0,
    }
}

/// An element of a block whose constants are `d` and `m`.
pub fn element_of(t: TensorType, b: &[u8], d: u16, m: u16, j: usize) -> (r: Element)
    requires
        is_quantised(t),
        b@.len() == t.type_size_spec(),
        j < t.blck_size_spec(),
    ensures
        r == element(t, b@, d, m, j as int),
{
    let code: i32 = code_of(t, b, j);
    match t {
        TensorType::Q4_1 | TensorType::Q5_1 => Element::Shifted { code, d, m },
        TensorType::Q4_K | TensorType::Q5_K => {
            let (scale, min): (u8, u8) = unpack_scale(b, j / 32);
            Element::Affine { code, d, scale, m, min }
        },
        TensorType::Q6_K => Element::Graded {
            code,
            d,
            grade: signed_byte(b[192 + (j / 128) * 8 + (j % 32) / 16 + 2 * ((j % 128) / 32)]),
        },
        _ => Element::Scaled { code, d },
    }
}

/// The elements of a block whose constants are `d` and `m`.
pub fn block_elements(t: TensorType, b: &[u8], d: u16, m: u16) -> (r: Vec<Element>)
    requires
        is_quantised(t),
        b@.len() == t.type_size_spec(),
    ensures
        r@ == elements(t, b@, d, m),
{
    let n: usize = t.blck_size();
    let mut r: Vec<Element> = Vec::new();
    let mut j: usize = 0;
    while j < n
        invariant
            j <= n,
            n == t.blck_size_spec(),
            is_quantised(t),
            b@.len() == t.type_size_spec(),
            r@ == elements(t, b@, d, m).take(j as int),
        decreases n - j,
    {
        r.push(element_of(t, b, d, m, j));
        assert(elements(t, b@, d, m).take(j + 1) =~= elements(t, b@, d, m).take(j as int).push(
            element(t, b@, d, m, j as int),
        ));
        j = j + 1;
    }
    assert(elements(t, b@, d, m).take(n as int) =~= elements(t, b@, d, m));
    r
}

fn pair_of(b: &[u8], i: usize) -> (r: u16)
    requires
        i + 1 < b@.len(),
    ensures
        r == pair(b@, i as int),
{
    b[i] as u16 + 256 * b[i + 1] as u16
}

/// The elements of a block, with the constants that its bytes hold.
pub fn decode_block(t: TensorType, b: &[u8]) -> (r: Vec<Element>)
    requires
        is_quantised(t),
        b@.len() == t.type_size_spec(),
    ensures
        r@ == block_values(t, b@),
{
    let d: u16 = match t {
        TensorType::Q6_K => pair_of(b, 208),
        _ => pair_of(b, 0),
    };
    let m: u16 = match t {
        TensorType::Q4_1 | TensorType::Q5_1 | TensorType::Q4_K | TensorType::Q5_K => pair_of(b, 2),
        _ => 0,
    };
    block_elements(t, b, d, m)
}

/// The bytes of block `i`.
pub open spec fn block_bytes(t: TensorType, data: Seq<u8>, i: int) -> Seq<u8> {
    data.subrange(i * t.type_size_spec(), (i + 1) * t.type_size_spec())
}

/// The bytes of a block.
pub fn block_at(t: TensorType, data: &[u8], i: usize) -> (r: &[u8])
    requires
        (i + 1) * t.type_size_spec() <= data@.len(),
    ensures
        r@ == block_bytes(t, data@, i as int),
        r@.len() == t.type_size_spec(),
{
    let n: usize = t.type_size();
    let _len: usize = data.len();
    proof {
        assert((i + 1) * n == i * n + n) by (nonlinear_arith);
        assert(0 <= i * n) by (nonlinear_arith);
    }
    slice_subrange(data, i * n, i * n + n)
}

/// The codes of a block are small: every one fits a byte.
pub proof fn law_codes_fit_a_byte(t: TensorType, b: Seq<u8>, j: int)
    requires
        is_quantised(t),
        b.len() == t.type_size_spec(),
        0 <= j < t.blck_size_spec(),
    ensures
        -128 <= code(t, b, j) < 128,
{
}

/// The blocks of a type: how many elements one holds, and in how many bytes.
pub proof fn law_block_shapes()
    ensures
        TensorType::Q4_0.blck_size_spec() == 32 && TensorType::Q4_0.type_size_spec() == 2 + 16,
        TensorType::Q4_1.blck_size_spec() == 32 && TensorType::Q4_1.type_size_spec() == 4 + 16,
        TensorType::Q5_0.blck_size_spec() == 32 && TensorType::Q5_0.type_size_spec() == 2 + 4 + 16,
        TensorType::Q5_1.blck_size_spec() == 32 && TensorType::Q5_1.type_size_spec() == 4 + 4 + 16,
        TensorType::Q8_0.blck_size_spec() == 32 && TensorType::Q8_0.type_size_spec() == 2 + 32,
        TensorType::Q4_K.blck_size_spec() == 256 && TensorType::Q4_K.type_size_spec() == 4 + 12
            + 128,
        TensorType::Q5_K.blck_size_spec() == 256 && TensorType::Q5_K.type_size_spec() == 4 + 12
            + 32 + 128,
        TensorType::Q6_K.blck_size_spec() == 256 && TensorType::Q6_K.type_size_spec() == 128 + 64
            + 16 + 2,
        TensorType::F32.blck_size_spec() == 1 && TensorType::F32.type_size_spec() == 4,
        TensorType::F16.blck_size_spec() == 1 && TensorType::F16.type_size_spec() == 2,
        TensorType::I8.blck_size_spec() == 1 && TensorType::I8.type_size_spec() == 1,
{
}

/// A signed code is stored as a byte of its own, modulo 256.
pub proof fn law_eight_bit_codes_are_bytes(b: Seq<u8>, j: int)
    requires
        0 <= j < 32,
    ensures
        (code(TensorType::Q8_0, b, j) - b[2 + j]) % 256 == 0,
        -128 <= code(TensorType::Q8_0, b, j) < 128,
{
}

/// Four-bit codes of a block of 32: a byte holds the code of an element and, sixteen times
/// as heavy, that of the element sixteen places on. So the bytes can be read back from the
/// codes, and every code from its half of a byte.
pub proof fn law_four_bit_codes_share_bytes(b: Seq<u8>, l: int)
    requires
        0 <= l < 16,
    ensures
        ({
            let low = code(TensorType::Q4_0, b, l);
            let high = code(TensorType::Q4_0, b, l + 16);
            &&& -8 <= low < 8 && -8 <= high < 8
            &&& b[2 + l] == (low + 8) + 16 * (high + 8)
        }),
        ({
            let low = code(TensorType::Q4_1, b, l);
            let high = code(TensorType::Q4_1, b, l + 16);
            &&& 0 <= low < 16 && 0 <= high < 16
            &&& b[4 + l] == low + 16 * high
        }),
{
}

/// Five-bit codes of a block of 32: the low four bits share bytes as four-bit codes do.
pub proof fn law_five_bit_codes_share_bytes(b: Seq<u8>, l: int)
    requires
        0 <= l < 16,
    ensures
        ({
            let low = code(TensorType::Q5_0, b, l);
            let high = code(TensorType::Q5_0, b, l + 16);
            &&& -16 <= low < 16 && -16 <= high < 16
            &&& b[6 + l] == (low + 16) % 16 + 16 * ((high + 16) % 16)
        }),
        ({
            let low = code(TensorType::Q5_1, b, l);
            let high = code(TensorType::Q5_1, b, l + 16);
            &&& 0 <= low < 32 && 0 <= high < 32
            &&& b[8 + l] == low % 16 + 16 * (high % 16)
        }),
{
}

/// The number that eight bits make, the first the lightest.
pub open spec fn byte_of_bits(b0: int, b1: int, b2: int, b3: int, b4: int, b5: int, b6: int, b7: int) -> int {
    b0 + 2 * b1 + 4 * b2 + 8 * b3 + 16 * b4 + 32 * b5 + 64 * b6 + 128 * b7
}

proof fn lemma_bits_make_a_byte(x: u8)
    ensures
        x == byte_of_bits(
            bit(x, 0),
            bit(x, 1),
            bit(x, 2),
            bit(x, 3),
            bit(x, 4),
            bit(x, 5),
            bit(x, 6),
            bit(x, 7),
        ),
        forall|i: int| 0 <= i < 8 ==> 0 <= #[trigger] bit(x, i) <= 1,
{
    let a = x as int;
    assert(a == 2 * (a / 2) + a % 2);
    assert(a / 2 == 2 * (a / 4) + (a / 2) % 2);
    assert(a / 4 == 2 * (a / 8) + (a / 4) % 2);
    assert(a / 8 == 2 * (a / 16) + (a / 8) % 2);
    assert(a / 16 == 2 * (a / 32) + (a / 16) % 2);
    assert(a / 32 == 2 * (a / 64) + (a / 32) % 2);
    assert(a / 64 == 2 * (a / 128) + (a / 64) % 2);
    assert((a / 128) % 2 == a / 128);
}

/// Five-bit codes of a block of 32: their fifth bits lie side by side, eight to a byte, the
/// first element's the lightest.
pub proof fn law_fifth_bits_lie_side_by_side(b: Seq<u8>, k: int)
    requires
        0 <= k < 4,
    ensures
        ({
            let top = |i: int| (code(TensorType::Q5_0, b, 8 * k + i) + 16) / 16;
            b[2 + k] == byte_of_bits(
                top(0),
                top(1),
                top(2),
                top(3),
                top(4),
                top(5),
                top(6),
                top(7),
            )
        }),
        ({
            let top = |i: int| code(TensorType::Q5_1, b, 8 * k + i) / 16;
            b[4 + k] == byte_of_bits(
                top(0),
                top(1),
                top(2),
                top(3),
                top(4),
                top(5),
                top(6),
                top(7),
            )
        }),
{
    lemma_bits_make_a_byte(b[2 + k]);
    lemma_bits_make_a_byte(b[4 + k]);
    assert forall|i: int| 0 <= i < 8 implies (#[trigger] code(TensorType::Q5_0, b, 8 * k + i) + 16)
        / 16 == bit(b[2 + k], i) by {
        lemma_top_bit(nibble(b, 6, 8 * k + i), bit(b[2 + k], i));
        assert((8 * k + i) / 8 == k && (8 * k + i) % 8 == i);
    }
    assert forall|i: int| 0 <= i < 8 implies (#[trigger] code(TensorType::Q5_1, b, 8 * k + i)) / 16
        == bit(b[4 + k], i) by {
        lemma_top_bit(nibble(b, 8, 8 * k + i), bit(b[4 + k], i));
        assert((8 * k + i) / 8 == k && (8 * k + i) % 8 == i);
    }
}

proof fn lemma_top_bit(low: int, top: int)
    requires
        0 <= low < 16,
        0 <= top <= 1,
    ensures
        (low + 16 * top) / 16 == top,
        (low + 16 * top) % 16 == low,
{
}

/// Codes of a super-block of 256 with four low bits in 128 bytes: the bytes come in runs of
/// 32, a run for 64 elements; its byte `l` holds the low bits of element `l` of them and,
/// sixteen times as heavy, those of element `32 + l`.
pub proof fn law_super_block_codes_share_bytes(b: Seq<u8>, c: int, l: int)
    requires
        0 <= c < 4,
        0 <= l < 32,
    ensures
        ({
            let low = code(TensorType::Q4_K, b, 64 * c + l);
            let high = code(TensorType::Q4_K, b, 64 * c + 32 + l);
            &&& 0 <= low < 16 && 0 <= high < 16
            &&& low == b[16 + 32 * c + l] as int % 16
            &&& high == b[16 + 32 * c + l] as int / 16
            &&& b[16 + 32 * c + l] == low + 16 * high
        }),
        ({
            let low = code(TensorType::Q5_K, b, 64 * c + l);
            let high = code(TensorType::Q5_K, b, 64 * c + 32 + l);
            &&& 0 <= low < 32 && 0 <= high < 32
            &&& b[48 + 32 * c + l] == low % 16 + 16 * (high % 16)
        }),
{
    let j = 64 * c + l;
    let k = 64 * c + 32 + l;
    assert(j / 32 == 2 * c && j % 32 == l);
    assert(k / 32 == 2 * c + 1 && k % 32 == l);
    assert((2 * c) / 2 == c && (2 * c) % 2 == 0);
    assert((2 * c + 1) / 2 == c && (2 * c + 1) % 2 == 1);
    lemma_bits_make_a_byte(b[16 + l]);
    lemma_top_bit(sub_nibble(b, 48, j), bit(b[16 + l], 2 * c));
    lemma_top_bit(sub_nibble(b, 48, k), bit(b[16 + l], 2 * c + 1));
}

/// Five-bit codes of a super-block: byte `l` of the plane of fifth bits has one bit for
/// element `l` of each of the eight sub-blocks, the first sub-block's the lightest.
pub proof fn law_super_block_fifth_bits(b: Seq<u8>, l: int)
    requires
        0 <= l < 32,
    ensures
        ({
            let top = |s: int| code(TensorType::Q5_K, b, 32 * s + l) / 16;
            b[16 + l] == byte_of_bits(
                top(0),
                top(1),
                top(2),
                top(3),
                top(4),
                top(5),
                top(6),
                top(7),
            )
        }),
{
    lemma_bits_make_a_byte(b[16 + l]);
    assert forall|s: int| 0 <= s < 8 implies (#[trigger] code(TensorType::Q5_K, b, 32 * s + l))
        / 16 == bit(b[16 + l], s) by {
        assert((32 * s + l) / 32 == s && (32 * s + l) % 32 == l);
        lemma_top_bit(sub_nibble(b, 48, 32 * s + l), bit(b[16 + l], s));
    }
}

/// Six-bit codes of a super-block, 128 elements at a time in four runs of 32: the first and
/// the third run share bytes for their low four bits, and so do the second and the fourth;
/// all four share a byte for their high two bits, the first run's the lightest.
pub proof fn law_six_bit_codes_share_bytes(b: Seq<u8>, n: int, l: int)
    requires
        0 <= n < 2,
        0 <= l < 32,
    ensures
        ({
            let c = |g: int| code(TensorType::Q6_K, b, 128 * n + 32 * g + l) + 32;
            &&& 0 <= c(0) < 64 && 0 <= c(1) < 64 && 0 <= c(2) < 64 && 0 <= c(3) < 64
            &&& b[64 * n + l] == c(0) % 16 + 16 * (c(2) % 16)
            &&& b[64 * n + 32 + l] == c(1) % 16 + 16 * (c(3) % 16)
            &&& b[128 + 32 * n + l] == c(0) / 16 + 4 * (c(1) / 16) + 16 * (c(2) / 16) + 64 * (c(3)
                / 16)
        }),
{
    let h = b[128 + 32 * n + l] as int;
    assert forall|g: int| 0 <= g < 4 implies ({
        let j = #[trigger] (128 * n + 32 * g + l);
        &&& j / 128 == n
        &&& (j % 128) / 32 == g
        &&& j % 32 == l
    }) by {}
    let two = |g: int| (h / weight(2 * g)) % 4;
    assert(h == two(0) + 4 * two(1) + 16 * two(2) + 64 * two(3));
    let lo = b[64 * n + l] as int;
    let hi = b[64 * n + 32 + l] as int;
    assert(code(TensorType::Q6_K, b, 128 * n + 32 * 0 + l) + 32 == lo % 16 + 16 * two(0));
    assert(code(TensorType::Q6_K, b, 128 * n + 32 * 1 + l) + 32 == hi % 16 + 16 * two(1));
    assert(code(TensorType::Q6_K, b, 128 * n + 32 * 2 + l) + 32 == lo / 16 + 16 * two(2));
    assert(code(TensorType::Q6_K, b, 128 * n + 32 * 3 + l) + 32 == hi / 16 + 16 * two(3));
    lemma_two_bits(lo % 16, two(0));
    lemma_two_bits(hi % 16, two(1));
    lemma_two_bits(lo / 16, two(2));
    lemma_two_bits(hi / 16, two(3));
}

proof fn lemma_two_bits(low: int, top: int)
    requires
        0 <= low < 16,
        0 <= top < 4,
    ensures
        (low + 16 * top) / 16 == top,
        (low + 16 * top) % 16 == low,
{
}

/// The eight scales and eight minima of a super-block take six bits each: the first four of
/// either lie in the low bits of a byte of their own; of the others the low four bits share
/// a byte, a scale with its minimum, and the high two bits fill up the bytes of the first.
pub proof fn law_scales_and_minima_fill_twelve_bytes(b: Seq<u8>, s: int)
    requires
        0 <= s < 4,
    ensures
        0 <= packed_scale(b, s) < 64 && 0 <= packed_scale(b, s + 4) < 64,
        0 <= packed_min(b, s) < 64 && 0 <= packed_min(b, s + 4) < 64,
        b[4 + s] == packed_scale(b, s) + 64 * (packed_scale(b, s + 4) / 16),
        b[8 + s] == packed_min(b, s) + 64 * (packed_min(b, s + 4) / 16),
        b[12 + s] == packed_scale(b, s + 4) % 16 + 16 * (packed_min(b, s + 4) % 16),
{
    lemma_two_bits(b[12 + s] as int % 16, b[4 + s] as int / 64);
    lemma_two_bits(b[12 + s] as int / 16, b[8 + s] as int / 64);
}

/// The constants of a block: its scale and its second constant are the first two pairs of
/// bytes, low byte first, but that the six-bit blocks end with their scale.
pub proof fn law_block_constants(t: TensorType, b: Seq<u8>)
    requires
        is_quantised(t),
    ensures
        t is Q6_K ==> scale_of(t, b) == b[208] + 256 * b[209],
        !(t is Q6_K) ==> scale_of(t, b) == b[0] + 256 * b[1],
        t is Q4_1 || t is Q5_1 || t is Q4_K || t is Q5_K ==> second_of(t, b) == b[2] + 256 * b[3],
{
}

/// What an element of a block stands for: its code, with the scale alone, with scale and
/// offset, with the scale and the minimum of its run of 32, or with the grade of its run of
/// sixteen.
pub proof fn law_elements_of_a_block(t: TensorType, b: Seq<u8>, j: int)
    requires
        is_quantised(t),
        0 <= j < t.blck_size_spec(),
    ensures
        block_values(t, b).len() == (if t is Q4_K || t is Q5_K || t is Q6_K {
            256int
        } else {
            32
        }),
        match block_values(t, b)[j] {
            Element::Scaled { code: c, d } => (t is Q4_0 || t is Q5_0 || t is Q8_0) && c == code(
                t,
                b,
                j,
            ) && d == scale_of(t, b),
            Element::Shifted { code: c, d, m } => (t is Q4_1 || t is Q5_1) && c == code(t, b, j)
                && d == scale_of(t, b) && m == second_of(t, b),
            Element::Affine { code: c, d, scale, m, min } => (t is Q4_K || t is Q5_K) && c == code(
                t,
                b,
                j,
            ) && d == scale_of(t, b) && m == second_of(t, b) && scale == packed_scale(b, j / 32)
                && min == packed_min(b, j / 32),
            Element::Graded { code: c, d, grade } => t is Q6_K && c == code(t, b, j) && d
                == scale_of(t, b) && (grade - b[192 + j / 16]) % 256 == 0,
        },
{
    lemma_codes_fit_in_words(t, b, j);
    if t is Q6_K {
        assert((j / 128) * 8 + (j % 32) / 16 + 2 * ((j % 128) / 32) == j / 16);
    }
    if t is Q4_K || t is Q5_K {
        let s = j / 32;
        if s < 4 {
            law_scales_and_minima_fill_twelve_bytes(b, s);
        } else {
            law_scales_and_minima_fill_twelve_bytes(b, s - 4);
        }
    }
}

proof fn lemma_codes_fit_in_words(t: TensorType, b: Seq<u8>, j: int)
    requires
        is_quantised(t),
        0 <= j < t.blck_size_spec(),
    ensures
        code(t, b, j) as i32 == code(t, b, j),
{
}

/// Blocks lie one behind the other without gaps: byte `k` of block `i` is byte
/// `i * size + k` of the data.
pub proof fn law_blocks_lie_side_by_side(t: TensorType, data: Seq<u8>, i: int, k: int)
    requires
        0 <= i,
        0 <= k < t.type_size_spec(),
        (i + 1) * t.type_size_spec() <= data.len(),
    ensures
        block_bytes(t, data, i).len() == t.type_size_spec(),
        block_bytes(t, data, i)[k] == data[i * t.type_size_spec() + k],
{
    let n = t.type_size_spec() as int;
    assert((i + 1) * n == i * n + n) by (nonlinear_arith);
    assert(0 <= i * n) by (nonlinear_arith)
        requires
            i >= 0,
            n >= 0,
    ;
}

} // verus!
