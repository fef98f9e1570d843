//! String building blocks: comparison, decimal rendering, character access.
use vstd::prelude::*;

verus! {

/// The decimal digit of value `d`.
pub open spec fn digit(d: nat) -> char {
    (48 + d) as u8 as char
}

/// `n` written in decimal, without leading zeros.
pub open spec fn decimal(n: nat) -> Seq<char>
    decreases n,
{
    if n < 10 {
        seq![digit(n)]
    } else {
        decimal(n / 10).push(digit(n % 10))
    }
}

/// `String::push`: appends one character at the end of the string.
#[verifier::external_body]
pub(crate) fn push_char(s: &mut String, c: char)
    ensures
        final(s)@ == old(s)@.push(c),
{
    s.push(c)
}

/// Whether two strings hold the same characters.
pub fn same(a: &str, b: &str) -> (r: bool)
    ensures
        r == (a@ == b@),
{
    let x: String = a.to_owned();
    let y: String = b.to_owned();
    x == y
}

/// Appends `n` in decimal.
pub fn push_decimal(s: &mut String, n: u64)
    ensures
        final(s)@ == old(s)@ + decimal(n as nat),
    decreases n,
{
    let ghost before = s@;
    if n >= 10 {
        push_decimal(s, n / 10);
    }
    let d: u8 = (n % 10) as u8;
    push_char(s, (48u8 + d) as char);
    assert(s@ =~= before + decimal(n as nat));
}

/// `n` in decimal.
pub fn decimal_string(n: usize) -> (s: String)
    ensures
        s@ == decimal(n as nat),
{
    let mut s: String = String::new();
    push_decimal(&mut s, n as u64);
    s
}

/// The characters of a string.
pub fn to_chars(s: &str) -> (v: Vec<char>)
    ensures
        v@ == s@,
{
    let mut v: Vec<char> = Vec::new();
    for c in it: s.chars()
        invariant
            it.seq() == s@,
            v@ == s@.take(it.index() as int),
    {
        v.push(c);
        assert(s@.take(it.index() + 1) =~= s@.take(it.index() as int).push(c));
    }
    assert(s@.take(s@.len() as int) =~= s@);
    v
}

/// The string of some characters.
pub fn from_chars(v: &Vec<char>) -> (s: String)
    ensures
        s@ == v@,
{
    let mut s: String = String::new();
    let mut i: usize = 0;
    while i < v.len()
        invariant
            i <= v@.len(),
            s@ == v@.take(i as int),
        decreases v@.len() - i,
    {
        push_char(&mut s, v[i]);
        assert(v@.take(i + 1) =~= v@.take(i as int).push(v@[i as int]));
        i = i + 1;
    }
    assert(v@.take(v@.len() as int) =~= v@);
    s
}

/// An ASCII capital as a small letter, any other character as it is.
pub open spec fn lower_char(c: char) -> char {
    if 'A' <= c <= 'Z' {
        ((c as u8) + 32) as u8 as char
    } else {
        c
    }
}

/// A text with its ASCII capitals made small.
pub open spec fn lower(s: Seq<char>) -> Seq<char> {
    s.map_values(|c: char| lower_char(c))
}

/// A string with its ASCII capitals made small.
pub fn to_lower(s: &str) -> (r: String)
    ensures
        r@ == lower(s@),
{
    let v: Vec<char> = to_chars(s);
    let mut r: String = String::new();
    let mut i: usize = 0;
    while i < v.len()
        invariant
            i <= v@.len(),
            v@ == s@,
            r@ == lower(s@).take(i as int),
        decreases v@.len() - i,
    {
        let c: char = v[i];
        let d: char = if 'A' <= c && c <= 'Z' {
            ((c as u8) + 32) as char
        } else {
            c
        };
        push_char(&mut r, d);
        assert(lower(s@).take(i + 1) =~= lower(s@).take(i as int).push(d));
        i = i + 1;
    }
    assert(lower(s@).take(s@.len() as int) =~= lower(s@));
    r
}

/// Whether a character is a decimal digit.
pub open spec fn is_digit(c: char) -> bool {
    '0' <= c <= '9'
}

/// Decimal text is made of digits.
pub proof fn lemma_decimal_digits(n: nat)
    ensures
        decimal(n).len() >= 1,
        forall|i: int| 0 <= i < decimal(n).len() ==> is_digit(#[trigger] decimal(n)[i]),
    decreases n,
{
    if n >= 10 {
        lemma_decimal_digits(n / 10);
    }
}

/// Different numbers have different decimal texts.
pub proof fn lemma_decimal_injective(a: nat, b: nat)
    requires
        decimal(a) == decimal(b),
    ensures
        a == b,
    decreases a,
{
    lemma_decimal_digits(a / 10);
    lemma_decimal_digits(b / 10);
    assert(decimal(a).last() == digit(a % 10));
    assert(decimal(b).last() == digit(b % 10));
    assert(a % 10 == b % 10);
    if a >= 10 {
        assert(decimal(a).drop_last() =~= decimal(a / 10));
        if b >= 10 {
            assert(decimal(b).drop_last() =~= decimal(b / 10));
            lemma_decimal_injective(a / 10, b / 10);
        } else {
            assert(decimal(b).len() == 1);
            assert(decimal(a).len() >= 2);
        }
    } else {
        assert(decimal(a).len() == 1);
        if b >= 10 {
            assert(decimal(b).len() >= 2);
        }
    }
}

/// The name of a tensor of a block: `blk.{i}.{suffix}`.
pub open spec fn block_name(i: nat, suffix: Seq<char>) -> Seq<char> {
    "blk."@ + decimal(i) + "."@ + suffix
}

/// The name of a tensor of a block.
pub fn block_tensor(i: usize, suffix: &str) -> (s: String)
    ensures
        s@ == block_name(i as nat, suffix@),
{
    let mut s: String = "blk.".to_owned();
    push_decimal(&mut s, i as u64);
    s.append(".");
    s.append(suffix);
    s
}

/// No two tensors of a model share a name: the block and the part of the name
/// behind it can be read back.
pub proof fn law_block_names_distinct(i: nat, a: Seq<char>, j: nat, b: Seq<char>)
    requires
        block_name(i, a) == block_name(j, b),
    ensures
        i == j,
        a == b,
{
    reveal_strlit("blk.");
    reveal_strlit(".");
    let x = block_name(i, a);
    let y = block_name(j, b);
    let di = decimal(i);
    let ni = di.len() as int;
    let dj = decimal(j);
    let nj = dj.len() as int;
    lemma_decimal_digits(i);
    lemma_decimal_digits(j);
    assert(x[4 + ni] == '.');
    assert(y[4 + nj] == '.');
    if ni < nj {
        assert(y[4 + ni] == dj[ni]);
        assert(is_digit(dj[ni]));
    }
    if nj < ni {
        assert(x[4 + nj] == di[nj]);
        assert(is_digit(di[nj]));
    }
    assert(di =~= x.subrange(4, 4 + ni));
    assert(dj =~= y.subrange(4, 4 + nj));
    lemma_decimal_injective(i, j);
    assert(a =~= x.subrange(5 + ni, x.len() as int));
    assert(b =~= y.subrange(5 + nj, y.len() as int));
}

/// The name of a tensor of a block: its mark, the number in decimal digits, and behind
/// the dot what the tensor is.
pub proof fn law_block_name_parts(i: nat, suffix: Seq<char>)
    ensures
        ({
            let s = block_name(i, suffix);
            let d = decimal(i).len() as int;
            &&& s.len() == d + 5 + suffix.len()
            &&& s[0] == 'b' && s[1] == 'l' && s[2] == 'k' && s[3] == '.' && s[d + 4] == '.'
            &&& s.subrange(4, d + 4) == decimal(i)
            &&& s.skip(d + 5) == suffix
        }),
{
    reveal_strlit("blk.");
    reveal_strlit(".");
    let s = block_name(i, suffix);
    let d = decimal(i).len() as int;
    assert(s.subrange(4, d + 4) =~= decimal(i));
    assert(s.skip(d + 5) =~= suffix);
}

/// Lowering a text leaves everything but capital letters, and what comes out has none.
pub proof fn law_lower_has_no_capitals(s: Seq<char>, i: int)
    requires
        0 <= i < s.len(),
    ensures
        lower(s).len() == s.len(),
        !('A' <= lower(s)[i] <= 'Z'),
        !('A' <= s[i] <= 'Z') ==> lower(s)[i] == s[i],
        'A' <= s[i] <= 'Z' ==> 'a' <= lower(s)[i] <= 'z' && lower(s)[i] as int - 'a' as int
            == s[i] as int - 'A' as int,
{
}

} // verus!
