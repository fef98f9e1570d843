//! The description of a model file: its metadata and its key tensors.
use crate::gguf::{GgufContext, GgufKv, GgufTensorInfo, GgufType};
use crate::text::{decimal, push_decimal, same, to_chars};
use vstd::prelude::*;

verus! {

/// How many elements of a long array are shown from its beginning.
pub const SHOW_PREFIX: usize = 5;

/// How many elements of a long array are shown from its end.
pub const SHOW_SUFFIX: usize = 3;

/// Elements `[a, b)`, separated by commas.
pub open spec fn listed(items: Seq<String>, a: int, b: int) -> Seq<char>
    decreases b - a,
{
    if b <= a {
        Seq::empty()
    } else if b == a + 1 {
        items[a]@
    } else {
        listed(items, a, b - 1) + ", "@ + items[b - 1]@
    }
}

/// The line on an array: all of a short one, the ends of a long one.
pub open spec fn array_text(key: Seq<char>, label: Seq<char>, items: Seq<String>) -> Seq<char> {
    let n = items.len() as int;
    let head = "  "@ + key + " (arr:"@ + label + ") = ["@;
    if n <= SHOW_PREFIX + SHOW_SUFFIX {
        head + listed(items, 0, n) + "]"@
    } else {
        head + listed(items, 0, SHOW_PREFIX as int) + ", ..., "@ + listed(
            items,
            n - SHOW_SUFFIX,
            n,
        ) + "]"@
    }
}

fn push_listed(out: &mut String, items: &Vec<String>, a: usize, b: usize)
    requires
        a <= b <= items@.len(),
    ensures
        final(out)@ == old(out)@ + listed(items@, a as int, b as int),
{
    let ghost before = out@;
    let mut i: usize = a;
    assert(before + listed(items@, a as int, a as int) =~= before);
    while i < b
        invariant
            a <= i <= b <= items@.len(),
            out@ == before + listed(items@, a as int, i as int),
        decreases b - i,
    {
        if i > a {
            out.append(", ");
        }
        out.append(items[i].as_str());
        assert(out@ =~= before + listed(items@, a as int, i + 1));
        i = i + 1;
    }
}

/// The line on an array of the given elements.
pub fn dump_array(key: &str, label: &str, items: &Vec<String>) -> (r: String)
    ensures
        r@ == array_text(key@, label@, items@),
{
    let n: usize = items.len();
    let mut r: String = "  ".to_owned();
    r.append(key);
    r.append(" (arr:");
    r.append(label);
    r.append(") = [");
    if n <= SHOW_PREFIX + SHOW_SUFFIX {
        push_listed(&mut r, items, 0, n);
    } else {
        push_listed(&mut r, items, 0, SHOW_PREFIX);
        r.append(", ..., ");
        push_listed(&mut r, items, n - SHOW_SUFFIX, n);
    }
    r.append("]");
    r
}

/// What an array's elements are called; `None` for those that are only counted.
pub open spec fn label_spec(t: GgufType) -> Option<Seq<char>> {
    match t {
        GgufType::String => Some("str"@),
        GgufType::Int32 => Some("i32"@),
        GgufType::Uint32 => Some("u32"@),
        GgufType::Float32 => Some("f32"@),
        GgufType::Int64 => Some("i64"@),
        GgufType::Uint64 => Some("u64"@),
        GgufType::Float64 => Some("f64"@),
        _ => None,
    }
}

/// What an array's elements are called; `None` for those that are only counted.
pub fn array_label(t: GgufType) -> (r: Option<&'static str>)
    ensures
        match label_spec(t) {
            Some(s) => r matches Some(x) && x@ == s,
            None => r is None,
        },
{
    match t {
        GgufType::String => Some("str"),
        GgufType::Int32 => Some("i32"),
        GgufType::Uint32 => Some("u32"),
        GgufType::Float32 => Some("f32"),
        GgufType::Int64 => Some("i64"),
        GgufType::Uint64 => Some("u64"),
        GgufType::Float64 => Some("f64"),
        _ => None,
    }
}

/// Whether a single value is shown with what it is; the others only with their
/// type.
pub fn shows_value(t: GgufType) -> (r: bool)
    ensures
        r == (label_spec(t) is Some || t is Bool),
{
    matches!(
        t,
        GgufType::String | GgufType::Int32 | GgufType::Uint32 | GgufType::Float32 | GgufType::Int64
            | GgufType::Uint64 | GgufType::Float64 | GgufType::Bool
    )
}

/// Whether the texts of a key's values are there, where its line shows them.
pub open spec fn texts_there(kv: &GgufKv, items: Seq<String>) -> bool {
    !kv.is_array && (label_spec(kv.type_) is Some || kv.type_ is Bool) ==> items.len() >= 1
}

/// The line on a key whose values have the texts `items`: an array by its elements,
/// or by their number if they have no label; a single value by its text, in quotes
/// if it is a string; else the type alone.
pub open spec fn kv_text(kv: &GgufKv, kind: Seq<char>, items: Seq<String>) -> Seq<char> {
    let key = kv.key@;
    if kv.is_array {
        match label_spec(kv.type_) {
            Some(label) => array_text(key, label, items),
            None => "  "@ + key + " (arr:"@ + kind + ") = <"@ + decimal(kv.ne_spec() as nat)
                + " elements>"@,
        }
    } else if kv.type_ is String {
        "  "@ + key + " = \""@ + items[0]@ + "\""@
    } else if label_spec(kv.type_) is Some || kv.type_ is Bool {
        "  "@ + key + " = "@ + items[0]@
    } else {
        "  "@ + key + " ("@ + kind + ")"@
    }
}

/// The line on a key. `kind` is what its type is called, `items` are the texts
/// of its values.
pub fn kv_line(kv: &GgufKv, kind: &str, items: &Vec<String>) -> (r: String)
    requires
        texts_there(kv, items@),
    ensures
        r@ == kv_text(kv, kind@, items@),
{
    let key: &str = kv.key.as_str();
    let mut r: String = "  ".to_owned();
    if kv.is_array {
        if let Some(label) = array_label(kv.type_) {
            return dump_array(key, label, items);
        }
        r.append(key);
        r.append(" (arr:");
        r.append(kind);
        r.append(") = <");
        push_decimal(&mut r, kv.get_ne() as u64);
        r.append(" elements>");
    } else if kv.type_ == GgufType::String {
        r.append(key);
        r.append(" = \"");
        r.append(items[0].as_str());
        r.append("\"");
    } else if shows_value(kv.type_) {
        r.append(key);
        r.append(" = ");
        r.append(items[0].as_str());
    } else {
        r.append(key);
        r.append(" (");
        r.append(kind);
        r.append(")");
    }
    r
}

/// The tensors that a description names.
pub const KEY_TENSORS: [&'static str; 15] = [
    "token_embd.weight",
    "output_norm.weight",
    "output.weight",
    "blk.0.attn_norm.weight",
    "blk.0.attn_q.weight",
    "blk.0.attn_q.bias",
    "blk.0.attn_k.weight",
    "blk.0.attn_k.bias",
    "blk.0.attn_v.weight",
    "blk.0.attn_v.bias",
    "blk.0.attn_output.weight",
    "blk.0.ffn_gate.weight",
    "blk.0.ffn_down.weight",
    "blk.0.ffn_up.weight",
    "blk.0.ffn_norm.weight",
];

/// The tensors that a description names.
pub open spec fn key_names() -> Seq<Seq<char>> {
    seq![
        "token_embd.weight"@,
        "output_norm.weight"@,
        "output.weight"@,
        "blk.0.attn_norm.weight"@,
        "blk.0.attn_q.weight"@,
        "blk.0.attn_q.bias"@,
        "blk.0.attn_k.weight"@,
        "blk.0.attn_k.bias"@,
        "blk.0.attn_v.weight"@,
        "blk.0.attn_v.bias"@,
        "blk.0.attn_output.weight"@,
        "blk.0.ffn_gate.weight"@,
        "blk.0.ffn_down.weight"@,
        "blk.0.ffn_up.weight"@,
        "blk.0.ffn_norm.weight"@,
    ]
}

/// The first tensor of a name.
pub open spec fn first_named(info: Seq<GgufTensorInfo>, name: Seq<char>, from: int) -> Option<int>
    decreases info.len() - from,
{
    if from < 0 || from >= info.len() {
        None
    } else if info[from].name@ == name {
        Some(from)
    } else {
        first_named(info, name, from + 1)
    }
}

/// The places of the key tensors among the first `n` that the file has.
pub open spec fn key_places(info: Seq<GgufTensorInfo>, n: int) -> Seq<usize>
    decreases n,
{
    if n <= 0 {
        Seq::empty()
    } else {
        match first_named(info, key_names()[n - 1], 0) {
            Some(i) => key_places(info, n - 1).push(i as usize),
            None => key_places(info, n - 1),
        }
    }
}

fn find_named(info: &Vec<GgufTensorInfo>, name: &str) -> (r: Option<usize>)
    ensures
        match r {
            Some(i) => i < info@.len() && first_named(info@, name@, 0) == Some(i as int),
            None => first_named(info@, name@, 0) is None,
        },
{
    let mut i: usize = 0;
    while i < info.len()
        invariant
            i <= info@.len(),
            first_named(info@, name@, 0) == first_named(info@, name@, i as int),
        decreases info@.len() - i,
    {
        if same(info[i].name.as_str(), name) {
            return Some(i);
        }
        i = i + 1;
    }
    None
}

/// The places of the key tensors in a file's index, in the order in which they are
/// described; those that it lacks are left out.
pub fn key_tensors(ctx: &GgufContext) -> (r: Vec<usize>)
    ensures
        r@ == key_places(ctx.info@, 15),
{
    let mut r: Vec<usize> = Vec::new();
    let mut k: usize = 0;
    while k < 15
        invariant
            k <= 15,
            r@ == key_places(ctx.info@, k as int),
        decreases 15 - k,
    {
        let name: &'static str = KEY_TENSORS[k];
        assert(name@ == key_names()[k as int]);
        if let Some(i) = find_named(&ctx.info, name) {
            r.push(i);
        }
        k = k + 1;
    }
    r
}

/// The positive ones among the first `n` dimensions, in decimal, separated by
/// commas.
pub open spec fn dims_prefix(ne: Seq<i64>, n: int) -> Seq<char>
    decreases n,
{
    if n <= 0 {
        Seq::empty()
    } else {
        let before = dims_prefix(ne, n - 1);
        if ne[n - 1] > 0 {
            before + (if before.len() == 0 {
                Seq::empty()
            } else {
                ","@
            }) + decimal(ne[n - 1] as nat)
        } else {
            before
        }
    }
}

/// The dimensions of a tensor as a text.
pub open spec fn dims_spec(ne: Seq<i64>) -> Seq<char> {
    let d = dims_prefix(ne, 4);
    if d.len() == 0 {
        "1"@
    } else {
        d
    }
}

/// The dimensions of a tensor as a text.
pub fn dims_text(ne: &[i64; 4]) -> (r: String)
    ensures
        r@ == dims_spec(ne@),
{
    let mut r: String = String::new();
    let mut some: bool = false;
    let mut i: usize = 0;
    while i < 4
        invariant
            i <= 4,
            r@ == dims_prefix(ne@, i as int),
            some == (r@.len() > 0),
        decreases 4 - i,
    {
        if ne[i] > 0 {
            let ghost before = r@;
            if some {
                r.append(",");
            }
            push_decimal(&mut r, ne[i] as u64);
            proof {
                crate::text::lemma_decimal_digits(ne@[i as int] as nat);
                reveal_strlit(",");
            }
            assert(r@ =~= dims_prefix(ne@, i + 1));
            some = true;
        }
        i = i + 1;
    }
    if !some {
        return "1".to_owned();
    }
    r
}

/// The column in which the types of the tensors stand, counted from the names.
pub const NAME_WIDTH: usize = 50;

/// A text, filled up with blanks to a width.
pub open spec fn padded(s: Seq<char>, width: nat) -> Seq<char> {
    if s.len() < width {
        s + Seq::new((width - s.len()) as nat, |i: int| ' ')
    } else {
        s
    }
}

/// The line on a tensor: its name, its type and its dimensions.
pub open spec fn tensor_text(t: &GgufTensorInfo, kind: Seq<char>) -> Seq<char> {
    "  "@ + padded(t.name@, NAME_WIDTH as nat) + " "@ + kind + "  ["@ + dims_spec(t.ne@) + "]"@
}

/// The line on a tensor whose type is called `kind`.
pub fn tensor_line(t: &GgufTensorInfo, kind: &str) -> (r: String)
    ensures
        r@ == tensor_text(t, kind@),
{
    let n: usize = to_chars(t.name.as_str()).len();
    let mut name: String = t.name.clone();
    let mut k: usize = n;
    proof {
        reveal_strlit(" ");
    }
    assert(padded(t.name@, n as nat) =~= t.name@);
    while k < NAME_WIDTH
        invariant
            n == t.name@.len(),
            n <= k,
            k <= n || k <= NAME_WIDTH,
            name@ == padded(t.name@, k as nat),
            " "@ == seq![' '],
        decreases NAME_WIDTH - k,
    {
        name.append(" ");
        k = k + 1;
        assert(name@ =~= padded(t.name@, k as nat));
    }
    assert(name@ =~= padded(t.name@, NAME_WIDTH as nat));
    let dims: String = dims_text(&t.ne);
    let mut r: String = "  ".to_owned();
    r.append(name.as_str());
    r.append(" ");
    r.append(kind);
    r.append("  [");
    r.append(dims.as_str());
    r.append("]");
    r
}

/// A list in two parts is shown as both with a comma between.
pub proof fn law_lists_join(items: Seq<String>, a: int, b: int, c: int)
    requires
        0 <= a < b < c <= items.len(),
    ensures
        listed(items, a, c) == listed(items, a, b) + ", "@ + listed(items, b, c),
        listed(items, a, a + 1) == items[a]@,
    decreases c - b,
{
    if c > b + 1 {
        law_lists_join(items, a, b, c - 1);
        assert(listed(items, a, c) =~= listed(items, a, b) + ", "@ + listed(items, b, c));
    }
}

/// Of a long list the first five and the last three are shown.
pub proof fn law_long_lists_are_cut(key: Seq<char>, label: Seq<char>, items: Seq<String>)
    ensures
        ({
            let n = items.len() as int;
            let head = "  "@ + key + " (arr:"@ + label + ") = ["@;
            &&& n <= 8 ==> array_text(key, label, items) == head + listed(items, 0, n) + "]"@
            &&& n > 8 ==> array_text(key, label, items) == head + listed(items, 0, 5) + ", ..., "@
                + listed(items, n - 3, n) + "]"@
        }),
{
}

/// A name is filled up with blanks to its width and never cut.
pub proof fn law_names_are_filled_up(s: Seq<char>, width: nat, i: int)
    requires
        0 <= i < padded(s, width).len(),
    ensures
        padded(s, width).len() >= width,
        padded(s, width).len() == width || padded(s, width) == s,
        i < s.len() ==> padded(s, width)[i] == s[i],
        i >= s.len() ==> padded(s, width)[i] == ' ',
        NAME_WIDTH == 50,
{
}

/// The sides of a tensor are shown with commas between; a matrix by its two, and what has
/// none as one.
pub proof fn law_sides_are_listed(ne: Seq<i64>)
    requires
        ne.len() == 4,
    ensures
        ne[0] > 0 && ne[1] > 0 && ne[2] > 0 && ne[3] > 0 ==> dims_spec(ne) == decimal(ne[0] as nat)
            + ","@ + decimal(ne[1] as nat) + ","@ + decimal(ne[2] as nat) + ","@ + decimal(
            ne[3] as nat,
        ),
        ne[0] <= 0 && ne[1] <= 0 && ne[2] <= 0 && ne[3] <= 0 ==> dims_spec(ne) == "1"@,
{
    reveal_with_fuel(dims_prefix, 5);
    crate::text::lemma_decimal_digits(ne[0] as nat);
    let a = decimal(ne[0] as nat);
    assert(Seq::<char>::empty() + Seq::<char>::empty() + a =~= a);
}

/// A name is found where it stands first.
pub proof fn law_first_tensor_of_a_name(
    info: Seq<GgufTensorInfo>,
    name: Seq<char>,
    from: int,
    i: int,
)
    requires
        0 <= from <= i <= info.len(),
        forall|k: int| from <= k < i ==> (#[trigger] info[k]).name@ != name,
        i < info.len() ==> info[i].name@ == name,
    ensures
        i < info.len() ==> first_named(info, name, from) == Some(i),
        i == info.len() ==> first_named(info, name, from) is None,
    decreases i - from,
{
    if from < i {
        law_first_tensor_of_a_name(info, name, from + 1, i);
    }
}

/// What is shown of an entry: a text in quotes, a number as it is, a list in brackets, of
/// other lists how long they are and of other values their type.
pub proof fn law_what_is_shown_of_an_entry(kv: &GgufKv, kind: Seq<char>, items: Seq<String>)
    requires
        texts_there(kv, items),
    ensures
        ({
            let t = kv_text(kv, kind, items);
            let named = kv.type_ is String || kv.type_ is Int32 || kv.type_ is Uint32
                || kv.type_ is Float32 || kv.type_ is Int64 || kv.type_ is Uint64
                || kv.type_ is Float64;
            &&& !kv.is_array && kv.type_ is String ==> t == "  "@ + kv.key@ + " = \""@ + items[0]@
                + "\""@
            &&& !kv.is_array && !(kv.type_ is String) && (named || kv.type_ is Bool) ==> t == "  "@
                + kv.key@ + " = "@ + items[0]@
            &&& !kv.is_array && !named && !(kv.type_ is Bool) ==> t == "  "@ + kv.key@ + " ("@ + kind
                + ")"@
            &&& kv.is_array && !named ==> t == "  "@ + kv.key@ + " (arr:"@ + kind + ") = <"@
                + decimal(kv.ne_spec() as nat) + " elements>"@
            &&& kv.is_array && kv.type_ is String ==> t == array_text(kv.key@, "str"@, items)
            &&& kv.is_array && kv.type_ is Int32 ==> t == array_text(kv.key@, "i32"@, items)
            &&& kv.is_array && kv.type_ is Uint32 ==> t == array_text(kv.key@, "u32"@, items)
            &&& kv.is_array && kv.type_ is Float32 ==> t == array_text(kv.key@, "f32"@, items)
            &&& kv.is_array && kv.type_ is Int64 ==> t == array_text(kv.key@, "i64"@, items)
            &&& kv.is_array && kv.type_ is Uint64 ==> t == array_text(kv.key@, "u64"@, items)
            &&& kv.is_array && kv.type_ is Float64 ==> t == array_text(kv.key@, "f64"@, items)
        }),
{
}

/// A line of a tensor: its name filled up, its type, its sides.
pub proof fn law_line_of_a_tensor(t: &GgufTensorInfo, kind: Seq<char>)
    ensures
        tensor_text(t, kind) == "  "@ + padded(t.name@, 50) + " "@ + kind + "  ["@ + dims_spec(t.ne@)
            + "]"@,
{
}

} // verus!
