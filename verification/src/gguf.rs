//! GGUF metadata: key/value pairs and the tensor index.
use crate::bits::Real;
use crate::text::same;
use vstd::prelude::*;

verus! {

/// Value types of a GGUF key.
#[derive(Debug, Clone, Copy, PartialEq, Eq, Structural)]
pub enum GgufType {
    Uint8,
    Int8,
    Uint16,
    Int16,
    Uint32,
    Int32,
    Float32,
    Bool,
    String,
    Array,
    Uint64,
    Int64,
    Float64,
}

/// Element types of a GGUF tensor.
#[allow(non_camel_case_types)]
#[derive(Debug, Clone, Copy, PartialEq, Eq, Structural)]
pub enum GgmlType {
    F32,
    F16,
    BF16,
    F64,
    I8,
    I16,
    I32,
    I64,
    Q4_0,
    Q4_1,
    Q5_0,
    Q5_1,
    Q8_0,
    Q8_1,
    Q2_K,
    Q3_K,
    Q4_K,
    Q5_K,
    Q6_K,
    Q8_K,
}

impl GgmlType {
    /// Bytes of one block.
    pub open spec fn type_size_spec(self) -> usize {
        match self {
            GgmlType::F32 | GgmlType::I32 => 4,
            GgmlType::F16 | GgmlType::BF16 | GgmlType::I16 => 2,
            GgmlType::F64 | GgmlType::I64 => 8,
            GgmlType::I8 => 1,
            GgmlType::Q4_0 => 18,
            GgmlType::Q4_1 => 20,
            GgmlType::Q5_0 => 22,
            GgmlType::Q5_1 => 24,
            GgmlType::Q8_0 => 34,
            GgmlType::Q8_1 => 36,
            GgmlType::Q2_K => 84,
            GgmlType::Q3_K => 110,
            GgmlType::Q4_K => 144,
            GgmlType::Q5_K => 176,
            GgmlType::Q6_K => 210,
            GgmlType::Q8_K => 292,
        }
    }

    /// Elements of one block.
    pub open spec fn blck_size_spec(self) -> usize {
        match self {
            GgmlType::Q4_0 | GgmlType::Q4_1 | GgmlType::Q5_0 | GgmlType::Q5_1 | GgmlType::Q8_0
            | GgmlType::Q8_1 => 32,
            GgmlType::Q2_K | GgmlType::Q3_K | GgmlType::Q4_K | GgmlType::Q5_K | GgmlType::Q6_K
            | GgmlType::Q8_K => 256,
            _ => 1,
        }
    }

    /// Bytes of one block.
    pub fn type_size(self) -> (r: usize)
        ensures
            r == self.type_size_spec(),
    {
        match self {
            GgmlType::F32 | GgmlType::I32 => 4,
            GgmlType::F16 | GgmlType::BF16 | GgmlType::I16 => 2,
            GgmlType::F64 | GgmlType::I64 => 8,
            GgmlType::I8 => 1,
            GgmlType::Q4_0 => 18,
            GgmlType::Q4_1 => 20,
            GgmlType::Q5_0 => 22,
            GgmlType::Q5_1 => 24,
            GgmlType::Q8_0 => 34,
            GgmlType::Q8_1 => 36,
            GgmlType::Q2_K => 84,
            GgmlType::Q3_K => 110,
            GgmlType::Q4_K => 144,
            GgmlType::Q5_K => 176,
            GgmlType::Q6_K => 210,
            GgmlType::Q8_K => 292,
        }
    }

    /// Elements of one block.
    pub fn blck_size(self) -> (r: usize)
        ensures
            r == self.blck_size_spec(),
    {
        match self {
            GgmlType::Q4_0 | GgmlType::Q4_1 | GgmlType::Q5_0 | GgmlType::Q5_1 | GgmlType::Q8_0
            | GgmlType::Q8_1 => 32,
            GgmlType::Q2_K | GgmlType::Q3_K | GgmlType::Q4_K | GgmlType::Q5_K | GgmlType::Q6_K
            | GgmlType::Q8_K => 256,
            _ => 1,
        }
    }
}

/// One key with its value: little-endian numbers, or strings.
pub struct GgufKv {
    pub key: String,
    pub is_array: bool,
    /// The type of the value, or of the elements of an array.
    pub type_: GgufType,
    pub data: Vec<u8>,
    pub data_string: Vec<String>,
}

/// Bytes of one number of a type; 0 for the types without a fixed size.
pub open spec fn number_size(t: GgufType) -> nat {
    match t {
        GgufType::Uint8 | GgufType::Int8 | GgufType::Bool => 1,
        GgufType::Uint16 | GgufType::Int16 => 2,
        GgufType::Uint32 | GgufType::Int32 | GgufType::Float32 => 4,
        GgufType::Uint64 | GgufType::Int64 | GgufType::Float64 => 8,
        GgufType::String | GgufType::Array => 0,
    }
}

/// The little-endian number in the first four bytes.
pub open spec fn le_u32(b: Seq<u8>) -> u32 {
    (b[0] + 0x100 * b[1] + 0x1_0000 * b[2] + 0x100_0000 * b[3]) as u32
}

/// The little-endian number in the first eight bytes.
pub open spec fn le_u64(b: Seq<u8>) -> u64 {
    (b[0] + 0x100 * b[1] + 0x1_0000 * b[2] + 0x100_0000 * b[3] + 0x1_0000_0000 * b[4]
        + 0x100_0000_0000 * b[5] + 0x1_0000_0000_0000 * b[6] + 0x100_0000_0000_0000 * b[7]) as u64
}

/// The number that 32 bits stand for in two's complement.
pub open spec fn signed_32(n: u32) -> i32 {
    if n < 0x8000_0000 {
        n as i32
    } else {
        (n - 0x1_0000_0000) as i32
    }
}

/// The number that 64 bits stand for in two's complement.
pub open spec fn signed_64(n: u64) -> i64 {
    if n < 0x8000_0000_0000_0000 {
        n as i64
    } else {
        (n - 0x1_0000_0000_0000_0000) as i64
    }
}

/// The low 32 bits of a number.
pub open spec fn low_32(n: u64) -> u32 {
    (n % 0x1_0000_0000) as u32
}

fn to_signed_32(n: u32) -> (r: i32)
    ensures
        r == signed_32(n),
{
    if n < 0x8000_0000 {
        n as i32
    } else {
        (n as i64 - 0x1_0000_0000) as i32
    }
}

fn to_signed_64(n: u64) -> (r: i64)
    ensures
        r == signed_64(n),
{
    if n < 0x8000_0000_0000_0000 {
        n as i64
    } else {
        (n as i128 - 0x1_0000_0000_0000_0000) as i64
    }
}

/// Reads four little-endian bytes.
pub fn read_u32(b: &Vec<u8>) -> (r: u32)
    requires
        b@.len() >= 4,
    ensures
        r == le_u32(b@),
{
    b[0] as u32 + 0x100 * b[1] as u32 + 0x1_0000 * b[2] as u32 + 0x100_0000 * b[3] as u32
}

/// Reads eight little-endian bytes.
pub fn read_u64(b: &Vec<u8>) -> (r: u64)
    requires
        b@.len() >= 8,
    ensures
        r == le_u64(b@),
{
    b[0] as u64 + 0x100 * b[1] as u64 + 0x1_0000 * b[2] as u64 + 0x100_0000 * b[3] as u64
        + 0x1_0000_0000 * b[4] as u64 + 0x100_0000_0000 * b[5] as u64 + 0x1_0000_0000_0000
        * b[6] as u64 + 0x100_0000_0000_0000 * b[7] as u64
}

impl GgufKv {
    /// Number of values that the key holds.
    pub open spec fn ne_spec(&self) -> int {
        if self.type_ is String {
            self.data_string@.len() as int
        } else if number_size(self.type_) == 0 {
            0
        } else {
            self.data@.len() as int / number_size(self.type_) as int
        }
    }

    /// Whether the first value is there, if it is an integer of at least 32 bits.
    pub open spec fn holds_integer(&self) -> bool {
        self.type_ is Uint32 || self.type_ is Int32 || self.type_ is Uint64 || self.type_ is Int64
            ==> self.data@.len() >= number_size(self.type_)
    }

    /// Whether the first value is there, if it is a floating-point number.
    pub open spec fn holds_float(&self) -> bool {
        self.type_ is Float32 || self.type_ is Float64 ==> self.data@.len() >= number_size(
            self.type_,
        )
    }

    /// The value as a string, if it is one.
    pub open spec fn string_spec(&self) -> Option<Seq<char>> {
        if self.type_ is String && self.data_string@.len() > 0 {
            Some(self.data_string@[0]@)
        } else {
            None
        }
    }

    /// The value as a signed number, if it is an integer of at least 32 bits.
    pub open spec fn i64_spec(&self) -> Option<i64> {
        match self.type_ {
            GgufType::Int64 | GgufType::Uint64 => Some(signed_64(le_u64(self.data@))),
            GgufType::Uint32 => Some(le_u32(self.data@) as i64),
            GgufType::Int32 => Some(signed_32(le_u32(self.data@)) as i64),
            _ => None,
        }
    }

    /// The value as a 32-bit number, if it is an integer of at least 32 bits.
    pub open spec fn u32_spec(&self) -> Option<u32> {
        match self.type_ {
            GgufType::Uint32 | GgufType::Int32 => Some(le_u32(self.data@)),
            GgufType::Uint64 | GgufType::Int64 => Some(low_32(le_u64(self.data@))),
            _ => None,
        }
    }

    /// The value as a floating-point number, if it is one.
    pub open spec fn float_spec(&self) -> Option<Real> {
        match self.type_ {
            GgufType::Float32 => Some(Real::Single(le_u32(self.data@))),
            GgufType::Float64 => Some(Real::Double(le_u64(self.data@))),
            _ => None,
        }
    }

    /// Number of values that the key holds.
    pub fn get_ne(&self) -> (n: usize)
        ensures
            n == self.ne_spec(),
    {
        match self.type_ {
            GgufType::String => self.data_string.len(),
            GgufType::Array => 0,
            GgufType::Uint8 | GgufType::Int8 | GgufType::Bool => self.data.len(),
            GgufType::Uint16 | GgufType::Int16 => self.data.len() / 2,
            GgufType::Uint32 | GgufType::Int32 | GgufType::Float32 => self.data.len() / 4,
            GgufType::Uint64 | GgufType::Int64 | GgufType::Float64 => self.data.len() / 8,
        }
    }

    /// The value as a string: the first one, if the key holds strings.
    pub fn get_string(&self) -> (r: Option<String>)
        ensures
            r is Some <==> self.string_spec() is Some,
            r matches Some(s) ==> Some(s@) == self.string_spec(),
    {
        if self.type_ == GgufType::String && self.data_string.len() > 0 {
            Some(self.data_string[0].clone())
        } else {
            None
        }
    }

    /// The value as a signed number. A 64-bit unsigned value keeps its bits.
    pub fn get_i64(&self) -> (r: Option<i64>)
        requires
            self.holds_integer(),
        ensures
            r == self.i64_spec(),
    {
        match self.type_ {
            GgufType::Int64 | GgufType::Uint64 => Some(to_signed_64(read_u64(&self.data))),
            GgufType::Uint32 => Some(read_u32(&self.data) as i64),
            GgufType::Int32 => Some(to_signed_32(read_u32(&self.data)) as i64),
            _ => None,
        }
    }

    /// The value as a 32-bit number. A wider value keeps its low bits.
    pub fn get_u32(&self) -> (r: Option<u32>)
        requires
            self.holds_integer(),
        ensures
            r == self.u32_spec(),
    {
        match self.type_ {
            GgufType::Uint32 | GgufType::Int32 => Some(read_u32(&self.data)),
            GgufType::Uint64 | GgufType::Int64 => Some(
                (read_u64(&self.data) % 0x1_0000_0000) as u32,
            ),
            _ => None,
        }
    }

    /// The value as a floating-point number.
    pub fn get_f32(&self) -> (r: Option<Real>)
        requires
            self.holds_float(),
        ensures
            r == self.float_spec(),
    {
        match self.type_ {
            GgufType::Float32 => Some(Real::Single(read_u32(&self.data))),
            GgufType::Float64 => Some(Real::Double(read_u64(&self.data))),
            _ => None,
        }
    }
}

/// One tensor of the index.
pub struct GgufTensorInfo {
    pub name: String,
    pub type_: GgmlType,
    /// Elements along each dimension, innermost first.
    pub ne: [i64; 4],
    /// Bytes from the start of the tensor data.
    pub offset: u64,
}

/// Number of elements of a shape.
pub open spec fn elements(ne: [i64; 4]) -> int {
    ne@[0] * ne@[1] * ne@[2] * ne@[3]
}

/// A shape without negative dimensions, whose element count fits a machine word
/// however it is multiplied out.
pub open spec fn shape_ok(ne: [i64; 4]) -> bool {
    &&& ne@[0] >= 0 && ne@[1] >= 0 && ne@[2] >= 0 && ne@[3] >= 0
    &&& ne@[0] * ne@[1] <= i64::MAX
    &&& ne@[0] * ne@[1] * ne@[2] <= i64::MAX
    &&& elements(ne) <= i64::MAX
    &&& elements(ne) <= usize::MAX
}

/// Number of elements of a shape.
pub fn element_count(ne: &[i64; 4]) -> (n: usize)
    requires
        shape_ok(*ne),
    ensures
        n == elements(*ne),
{
    proof {
        let a = ne@[0] * ne@[1];
        assert(a >= 0) by (nonlinear_arith)
            requires
                a == ne@[0] * ne@[1],
                ne@[0] >= 0,
                ne@[1] >= 0,
        ;
        let b = a * ne@[2];
        assert(b >= 0) by (nonlinear_arith)
            requires
                b == a * ne@[2],
                a >= 0,
                ne@[2] >= 0,
        ;
        assert(b * ne@[3] >= 0) by (nonlinear_arith)
            requires
                b >= 0,
                ne@[3] >= 0,
        ;
    }
    (ne[0] * ne[1] * ne[2] * ne[3]) as usize
}

impl GgufTensorInfo {
    /// Bytes that the tensor occupies.
    pub open spec fn nbytes_spec(&self) -> int {
        elements(self.ne) / self.type_.blck_size_spec() as int * self.type_.type_size_spec()
    }

    /// Bytes that the tensor occupies.
    pub fn nbytes(&self) -> (n: usize)
        requires
            shape_ok(self.ne),
            self.nbytes_spec() <= usize::MAX,
        ensures
            n == self.nbytes_spec(),
    {
        let n: usize = element_count(&self.ne);
        let bs: usize = self.type_.blck_size();
        let ts: usize = self.type_.type_size();
        (n / bs) * ts
    }
}

/// A parsed header: the keys, the tensor index and where the data starts.
pub struct GgufContext {
    pub kv: Vec<GgufKv>,
    pub info: Vec<GgufTensorInfo>,
    pub offset: usize,
}

/// One file of a model.
pub struct GgufPart {
    pub ctx: GgufContext,
    pub data: Vec<u8>,
}

/// A model in one file or split over several.
pub struct GgufModel {
    pub parts: Vec<GgufPart>,
}

/// Position of the first key that is `key`.
pub open spec fn key_at(kv: Seq<GgufKv>, key: Seq<char>) -> Option<int>
    decreases kv.len(),
{
    if kv.len() == 0 {
        None
    } else {
        match key_at(kv.drop_last(), key) {
            Some(i) => Some(i),
            None => if kv.last().key@ == key {
                Some(kv.len() - 1)
            } else {
                None
            },
        }
    }
}

proof fn lemma_key_found(kv: Seq<GgufKv>, key: Seq<char>, i: int)
    requires
        0 <= i < kv.len(),
        kv[i].key@ == key,
        forall|k: int| 0 <= k < i ==> (#[trigger] kv[k]).key@ != key,
    ensures
        key_at(kv, key) == Some(i),
    decreases kv.len(),
{
    if i == kv.len() - 1 {
        lemma_key_missing(kv.drop_last(), key);
    } else {
        lemma_key_found(kv.drop_last(), key, i);
    }
}

proof fn lemma_key_missing(kv: Seq<GgufKv>, key: Seq<char>)
    requires
        forall|k: int| 0 <= k < kv.len() ==> (#[trigger] kv[k]).key@ != key,
    ensures
        key_at(kv, key) is None,
    decreases kv.len(),
{
    if kv.len() > 0 {
        lemma_key_missing(kv.drop_last(), key);
    }
}

impl GgufContext {
    /// A key whose first value is there, if it is an integer: it is not an array cut
    /// short.
    pub open spec fn integer_readable(&self, key: Seq<char>) -> bool {
        match key_at(self.kv@, key) {
            Some(i) => self.kv@[i].holds_integer(),
            None => true,
        }
    }

    /// A key whose first value is there, if it is a floating-point number.
    pub open spec fn float_readable(&self, key: Seq<char>) -> bool {
        match key_at(self.kv@, key) {
            Some(i) => self.kv@[i].holds_float(),
            None => true,
        }
    }

    /// The string value of a key.
    pub open spec fn str_spec(&self, key: Seq<char>) -> Option<Seq<char>> {
        match key_at(self.kv@, key) {
            Some(i) => self.kv@[i].string_spec(),
            None => None,
        }
    }

    /// The signed value of a key.
    pub open spec fn i64_spec(&self, key: Seq<char>) -> Option<i64> {
        match key_at(self.kv@, key) {
            Some(i) => self.kv@[i].i64_spec(),
            None => None,
        }
    }

    /// The 32-bit value of a key.
    pub open spec fn u32_spec(&self, key: Seq<char>) -> Option<u32> {
        match key_at(self.kv@, key) {
            Some(i) => self.kv@[i].u32_spec(),
            None => None,
        }
    }

    /// The floating-point value of a key.
    pub open spec fn float_spec(&self, key: Seq<char>) -> Option<Real> {
        match key_at(self.kv@, key) {
            Some(i) => self.kv@[i].float_spec(),
            None => None,
        }
    }

    /// Position of a key: the first one counts.
    pub fn find_key(&self, key: &str) -> (r: Option<usize>)
        ensures
            match r {
                Some(i) => i < self.kv@.len() && key_at(self.kv@, key@) == Some(i as int),
                None => key_at(self.kv@, key@) is None,
            },
    {
        let mut i: usize = 0;
        while i < self.kv.len()
            invariant
                i <= self.kv@.len(),
                forall|k: int| 0 <= k < i ==> (#[trigger] self.kv@[k]).key@ != key@,
            decreases self.kv@.len() - i,
        {
            if same(self.kv[i].key.as_str(), key) {
                proof {
                    lemma_key_found(self.kv@, key@, i as int);
                }
                return Some(i);
            }
            i = i + 1;
        }
        proof {
            lemma_key_missing(self.kv@, key@);
        }
        None
    }

    /// The string value of a key.
    pub fn get_key_val_str(&self, key: &str) -> (r: Option<String>)
        ensures
            r is Some <==> self.str_spec(key@) is Some,
            r matches Some(s) ==> Some(s@) == self.str_spec(key@),
    {
        match self.find_key(key) {
            Some(i) => self.kv[i].get_string(),
            None => None,
        }
    }

    /// The signed value of a key.
    pub fn get_key_val_i64(&self, key: &str) -> (r: Option<i64>)
        requires
            self.integer_readable(key@),
        ensures
            r == self.i64_spec(key@),
    {
        match self.find_key(key) {
            Some(i) => self.kv[i].get_i64(),
            None => None,
        }
    }

    /// The 32-bit value of a key.
    pub fn get_key_val_u32(&self, key: &str) -> (r: Option<u32>)
        requires
            self.integer_readable(key@),
        ensures
            r == self.u32_spec(key@),
    {
        match self.find_key(key) {
            Some(i) => self.kv[i].get_u32(),
            None => None,
        }
    }

    /// The floating-point value of a key.
    pub fn get_key_val_f32(&self, key: &str) -> (r: Option<Real>)
        requires
            self.float_readable(key@),
        ensures
            r == self.float_spec(key@),
    {
        match self.find_key(key) {
            Some(i) => self.kv[i].get_f32(),
            None => None,
        }
    }
}

/// Numbers are stored lowest byte first.
pub proof fn law_numbers_lowest_byte_first(b: Seq<u8>)
    requires
        b.len() >= 8,
    ensures
        le_u32(b) % 256 == b[0],
        le_u32(b) / 256 % 256 == b[1],
        le_u32(b) / 65536 % 256 == b[2],
        le_u32(b) / 16777216 == b[3],
        le_u64(b) % 4294967296 == le_u32(b),
        le_u64(b) / 4294967296 == le_u32(b.skip(4)),
{
    let v = le_u32(b) as int;
    assert(v == b[0] + 256 * b[1] + 65536 * b[2] + 16777216 * b[3]);
    assert(v / 256 == b[1] + 256 * b[2] + 65536 * b[3]);
    assert(v / 65536 == b[2] + 256 * b[3]);
    let h = b.skip(4);
    assert(h[0] == b[4] && h[1] == b[5] && h[2] == b[6] && h[3] == b[7]);
    let w = le_u64(b) as int;
    assert(w == v + 4294967296 * le_u32(h));
}

/// A signed number is the unsigned one or, where that does not fit, as much below zero as
/// it is below the next power.
pub proof fn law_signed_numbers_wrap(n: u32, m: u64)
    ensures
        n <= i32::MAX ==> signed_32(n) == n,
        n > i32::MAX ==> signed_32(n) < 0 && signed_32(n) + 4294967296 == n,
        m <= i64::MAX ==> signed_64(m) == m,
        m > i64::MAX ==> signed_64(m) < 0 && signed_64(m) + 18446744073709551616 == m,
{
}

/// What is read of an entry, by its type.
pub proof fn law_entries_by_type(kv: &GgufKv)
    requires
        kv.holds_integer(),
        kv.holds_float(),
    ensures
        ({
            let n = le_u32(kv.data@);
            let w = le_u64(kv.data@);
            match kv.type_ {
                GgufType::Uint32 => kv.i64_spec() is Some && kv.i64_spec()->0 == n && kv.u32_spec()
                    == Some(n) && kv.float_spec() is None,
                GgufType::Int32 => kv.i64_spec() is Some && kv.i64_spec()->0 == signed_32(n)
                    && kv.u32_spec() == Some(n) && kv.float_spec() is None,
                GgufType::Uint64 | GgufType::Int64 => kv.i64_spec() == Some(signed_64(w))
                    && kv.u32_spec() is Some && kv.u32_spec()->0 == w % 4294967296
                    && kv.float_spec() is None,
                GgufType::Float32 => kv.i64_spec() is None && kv.u32_spec() is None
                    && kv.float_spec() == Some(Real::Single(n)),
                GgufType::Float64 => kv.i64_spec() is None && kv.u32_spec() is None
                    && kv.float_spec() == Some(Real::Double(w)),
                _ => kv.i64_spec() is None && kv.u32_spec() is None && kv.float_spec() is None,
            }
        }),
        kv.string_spec() is Some <==> kv.type_ is String && kv.data_string@.len() > 0,
        kv.string_spec() is Some ==> kv.string_spec()->0 == kv.data_string@[0]@,
{
}

/// The elements of an entry fill its bytes: one byte each, or two, four or eight.
pub proof fn law_elements_fill_an_entry(kv: &GgufKv)
    ensures
        kv.type_ is String ==> kv.ne_spec() == kv.data_string@.len(),
        kv.type_ is Array ==> kv.ne_spec() == 0,
        kv.type_ is Uint8 || kv.type_ is Int8 || kv.type_ is Bool ==> kv.ne_spec()
            == kv.data@.len(),
        kv.type_ is Uint16 || kv.type_ is Int16 ==> 2 * kv.ne_spec() <= kv.data@.len() < 2 * (
        kv.ne_spec() + 1),
        kv.type_ is Uint32 || kv.type_ is Int32 || kv.type_ is Float32 ==> 4 * kv.ne_spec()
            <= kv.data@.len() < 4 * (kv.ne_spec() + 1),
        kv.type_ is Uint64 || kv.type_ is Int64 || kv.type_ is Float64 ==> 8 * kv.ne_spec()
            <= kv.data@.len() < 8 * (kv.ne_spec() + 1),
{
}

/// A key is found where it stands first, and only if it stands somewhere.
pub proof fn law_first_key_counts(kv: Seq<GgufKv>, key: Seq<char>)
    ensures
        match key_at(kv, key) {
            Some(i) => 0 <= i < kv.len() && kv[i].key@ == key && forall|k: int|
                0 <= k < i ==> (#[trigger] kv[k]).key@ != key,
            None => forall|k: int| 0 <= k < kv.len() ==> (#[trigger] kv[k]).key@ != key,
        },
    decreases kv.len(),
{
    if kv.len() > 0 {
        law_first_key_counts(kv.drop_last(), key);
        assert forall|k: int| 0 <= k < kv.len() - 1 implies kv[k] == kv.drop_last()[k] by {}
    }
}

/// The stored types: single numbers, blocks of 32 and blocks of 256. A block of 32 is its
/// codes, a scale of two bytes and, in the types with a second number, two more.
pub proof fn law_stored_types(t: GgmlType)
    ensures
        ({
            let n = t.blck_size_spec() as int;
            let b = t.type_size_spec() as int;
            match t {
                GgmlType::I8 => n == 1 && 8 * b == 8,
                GgmlType::F16 | GgmlType::BF16 | GgmlType::I16 => n == 1 && 8 * b == 16,
                GgmlType::F32 | GgmlType::I32 => n == 1 && 8 * b == 32,
                GgmlType::F64 | GgmlType::I64 => n == 1 && 8 * b == 64,
                GgmlType::Q4_0 => n == 32 && 8 * b == 4 * n + 16,
                GgmlType::Q4_1 => n == 32 && 8 * b == 4 * n + 32,
                GgmlType::Q5_0 => n == 32 && 8 * b == 5 * n + 16,
                GgmlType::Q5_1 => n == 32 && 8 * b == 5 * n + 32,
                GgmlType::Q8_0 => n == 32 && 8 * b == 8 * n + 16,
                GgmlType::Q8_1 => n == 32 && 8 * b == 8 * n + 32,
                GgmlType::Q2_K => n == 256 && 8 * b == 2 * n + 16 * 8 + 32,
                GgmlType::Q3_K => n == 256 && 8 * b == 3 * n + 12 * 8 + 16,
                GgmlType::Q4_K => n == 256 && 8 * b == 4 * n + 12 * 8 + 32,
                GgmlType::Q5_K => n == 256 && 8 * b == 5 * n + 12 * 8 + 32,
                GgmlType::Q6_K => n == 256 && 8 * b == 6 * n + 16 * 8 + 16,
                GgmlType::Q8_K => n == 256 && 8 * b == 8 * n + 16 * 16 + 32,
            }
        }),
{
}

/// A tensor takes the bytes of a block for each whole block of its elements.
pub proof fn law_tensor_bytes(ti: &GgufTensorInfo, blocks: int)
    requires
        elements(ti.ne) == blocks * ti.type_.blck_size_spec(),
    ensures
        ti.nbytes_spec() == blocks * ti.type_.type_size_spec(),
{
    let bs = ti.type_.blck_size_spec() as int;
    assert((blocks * bs) / bs == blocks) by (nonlinear_arith)
        requires
            bs > 0,
    ;
}

/// The elements of a tensor are the product of its sides, in any order.
pub proof fn law_elements_multiply_sides(ne: [i64; 4])
    ensures
        ne@[2] == 1 && ne@[3] == 1 ==> elements(ne) == ne@[0] * ne@[1],
        ne@[0] == 0 || ne@[1] == 0 || ne@[2] == 0 || ne@[3] == 0 ==> elements(ne) == 0,
        elements(ne) == (ne@[3] * ne@[2]) * (ne@[1] * ne@[0]),
{
    let a = ne@[0] as int;
    let b = ne@[1] as int;
    let c = ne@[2] as int;
    let d = ne@[3] as int;
    assert(a * b * c * d == (d * c) * (b * a)) by (nonlinear_arith);
    assert(c == 1 && d == 1 ==> a * b * c * d == a * b) by (nonlinear_arith);
    assert(a == 0 || b == 0 || c == 0 || d == 0 ==> a * b * c * d == 0) by (nonlinear_arith);
}

} // verus!
