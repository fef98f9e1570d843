//! Lines and words.
use crate::text::{push_char, to_chars};
use vstd::prelude::*;

verus! {

/// Whether a character is white space, as Unicode has it.
pub open spec fn is_space(c: char) -> bool {
    ||| '\u{9}' <= c <= '\u{d}'
    ||| c == ' '
    ||| c == '\u{85}'
    ||| c == '\u{a0}'
    ||| c == '\u{1680}'
    ||| '\u{2000}' <= c <= '\u{200a}'
    ||| c == '\u{2028}'
    ||| c == '\u{2029}'
    ||| c == '\u{202f}'
    ||| c == '\u{205f}'
    ||| c == '\u{3000}'
}

fn space(c: char) -> (r: bool)
    ensures
        r == is_space(c),
{
    ('\u{9}' <= c && c <= '\u{d}') || c == ' ' || c == '\u{85}' || c == '\u{a0}' || c == '\u{1680}'
        || ('\u{2000}' <= c && c <= '\u{200a}') || c == '\u{2028}' || c == '\u{2029}' || c
        == '\u{202f}' || c == '\u{205f}' || c == '\u{3000}'
}

/// A text without its leading white space.
pub open spec fn without_lead(s: Seq<char>) -> Seq<char>
    decreases s.len(),
{
    if s.len() > 0 && is_space(s[0]) {
        without_lead(s.drop_first())
    } else {
        s
    }
}

/// A text without its trailing white space.
pub open spec fn without_trail(s: Seq<char>) -> Seq<char>
    decreases s.len(),
{
    if s.len() > 0 && is_space(s.last()) {
        without_trail(s.drop_last())
    } else {
        s
    }
}

/// A text without white space at its ends.
pub open spec fn trimmed(s: Seq<char>) -> Seq<char> {
    without_trail(without_lead(s))
}

/// The part of a text before its first white space.
pub open spec fn until_space(s: Seq<char>) -> Seq<char>
    decreases s.len(),
{
    if s.len() == 0 || is_space(s[0]) {
        Seq::empty()
    } else {
        seq![s[0]] + until_space(s.drop_first())
    }
}

/// The first word of a text.
pub open spec fn first_word_spec(s: Seq<char>) -> Seq<char> {
    until_space(without_lead(s))
}

/// A line without the characters that end it.
pub open spec fn without_line_end(s: Seq<char>) -> Seq<char>
    decreases s.len(),
{
    if s.len() > 0 && (s.last() == '\n' || s.last() == '\r') {
        without_line_end(s.drop_last())
    } else {
        s
    }
}

/// Texts with a separator between them.
pub open spec fn joined(parts: Seq<String>, sep: Seq<char>) -> Seq<char>
    decreases parts.len(),
{
    if parts.len() == 0 {
        Seq::empty()
    } else if parts.len() == 1 {
        parts[0]@
    } else {
        joined(parts.drop_last(), sep) + sep + parts.last()@
    }
}

/// Whether a text begins with another.
pub open spec fn begins_with(s: Seq<char>, p: Seq<char>) -> bool {
    p.len() <= s.len() && s.take(p.len() as int) == p
}

fn lead_end(v: &Vec<char>) -> (a: usize)
    ensures
        a <= v@.len(),
        v@.skip(a as int) == without_lead(v@),
{
    let mut a: usize = 0;
    assert(v@.skip(0) =~= v@);
    while a < v.len() && space(v[a])
        invariant
            a <= v@.len(),
            without_lead(v@) == without_lead(v@.skip(a as int)),
        decreases v@.len() - a,
    {
        assert(v@.skip(a as int).drop_first() =~= v@.skip(a + 1));
        a = a + 1;
    }
    a
}

fn slice_text(v: &Vec<char>, a: usize, b: usize) -> (s: String)
    requires
        a <= b <= v@.len(),
    ensures
        s@ == v@.subrange(a as int, b as int),
{
    let mut s: String = String::new();
    let mut i: usize = a;
    while i < b
        invariant
            a <= i <= b <= v@.len(),
            s@ == v@.subrange(a as int, i as int),
        decreases b - i,
    {
        push_char(&mut s, v[i]);
        assert(v@.subrange(a as int, i + 1) =~= v@.subrange(a as int, i as int).push(v@[i as int]));
        i = i + 1;
    }
    s
}

/// A text without white space at its ends.
pub fn trim(s: &str) -> (r: String)
    ensures
        r@ == trimmed(s@),
{
    let v: Vec<char> = to_chars(s);
    let a: usize = lead_end(&v);
    let mut b: usize = v.len();
    assert(v@.subrange(a as int, b as int) =~= v@.skip(a as int));
    while b > a && space(v[b - 1])
        invariant
            a <= b <= v@.len(),
            v@ == s@,
            trimmed(s@) == without_trail(v@.subrange(a as int, b as int)),
        decreases b,
    {
        assert(v@.subrange(a as int, b as int).drop_last() =~= v@.subrange(a as int, b - 1));
        b = b - 1;
    }
    slice_text(&v, a, b)
}

/// The first word of a text; empty if there is none.
pub fn first_word(s: &str) -> (r: String)
    ensures
        r@ == first_word_spec(s@),
{
    let v: Vec<char> = to_chars(s);
    let a: usize = lead_end(&v);
    let ghost rest = v@.skip(a as int);
    let mut b: usize = a;
    while b < v.len() && !space(v[b])
        invariant
            a <= b <= v@.len(),
            rest == v@.skip(a as int),
            until_space(rest) == v@.subrange(a as int, b as int) + until_space(v@.skip(b as int)),
        decreases v@.len() - b,
    {
        assert(v@.skip(b as int).drop_first() =~= v@.skip(b + 1));
        assert(v@.subrange(a as int, b + 1) =~= v@.subrange(a as int, b as int) + seq![v@[b as int]]);
        assert(until_space(rest) =~= v@.subrange(a as int, b + 1) + until_space(v@.skip(b + 1)));
        b = b + 1;
    }
    assert(until_space(v@.skip(b as int)) =~= Seq::<char>::empty());
    slice_text(&v, a, b)
}

/// A line without the characters that end it.
pub fn strip_line_end(s: &str) -> (r: String)
    ensures
        r@ == without_line_end(s@),
{
    let v: Vec<char> = to_chars(s);
    let mut b: usize = v.len();
    assert(v@.subrange(0, b as int) =~= v@);
    while b > 0 && (v[b - 1] == '\n' || v[b - 1] == '\r')
        invariant
            b <= v@.len(),
            v@ == s@,
            without_line_end(s@) == without_line_end(v@.subrange(0, b as int)),
        decreases b,
    {
        assert(v@.subrange(0, b as int).drop_last() =~= v@.subrange(0, b - 1));
        b = b - 1;
    }
    slice_text(&v, 0, b)
}

/// The texts from `from` on, with a separator between them.
pub fn join_from(parts: &Vec<String>, from: usize, sep: &str) -> (r: String)
    requires
        from <= parts@.len(),
    ensures
        r@ == joined(parts@.skip(from as int), sep@),
{
    let mut r: String = String::new();
    let mut i: usize = from;
    let ghost rest = parts@.skip(from as int);
    while i < parts.len()
        invariant
            from <= i <= parts@.len(),
            rest == parts@.skip(from as int),
            r@ == joined(rest.take(i - from), sep@),
        decreases parts@.len() - i,
    {
        let ghost before = r@;
        if i > from {
            r.append(sep);
        }
        r.append(parts[i].as_str());
        assert(rest.take(i - from + 1).drop_last() =~= rest.take(i - from));
        assert(rest.take(i - from + 1).last() == parts@[i as int]);
        assert(r@ =~= joined(rest.take(i - from + 1), sep@));
        i = i + 1;
    }
    assert(rest.take(i - from) =~= rest);
    r
}

/// Whether a text begins with another.
pub fn starts_with(s: &str, p: &str) -> (r: bool)
    ensures
        r == begins_with(s@, p@),
{
    let v: Vec<char> = to_chars(s);
    let w: Vec<char> = to_chars(p);
    if w.len() > v.len() {
        return false;
    }
    let mut i: usize = 0;
    while i < w.len()
        invariant
            i <= w@.len() <= v@.len(),
            v@ == s@,
            w@ == p@,
            s@.take(i as int) == p@.take(i as int),
        decreases w@.len() - i,
    {
        if v[i] != w[i] {
            assert(s@.take(p@.len() as int)[i as int] != p@[i as int]);
            return false;
        }
        assert(s@.take(i + 1) =~= s@.take(i as int).push(s@[i as int]));
        assert(p@.take(i + 1) =~= p@.take(i as int).push(p@[i as int]));
        i = i + 1;
    }
    assert(p@.take(i as int) =~= p@);
    true
}

/// Trimming twice is trimming once.
pub proof fn law_trim_is_idempotent(s: Seq<char>)
    ensures
        trimmed(trimmed(s)) == trimmed(s),
{
    let t = without_lead(s);
    lemma_lead(s);
    lemma_trail(t);
    let r = without_trail(t);
    if r.len() > 0 {
        assert(r[0] == t[0]);
        assert(without_lead(r) == r);
    }
    assert(without_trail(r) == r);
}

proof fn lemma_lead(s: Seq<char>)
    ensures
        without_lead(s).len() > 0 ==> !is_space(without_lead(s)[0]),
    decreases s.len(),
{
    if s.len() > 0 && is_space(s[0]) {
        lemma_lead(s.drop_first());
    }
}

proof fn lemma_trail(s: Seq<char>)
    ensures
        without_trail(s).len() > 0 ==> !is_space(without_trail(s).last()),
        without_trail(s).len() <= s.len(),
        without_trail(s) == s.take(without_trail(s).len() as int),
    decreases s.len(),
{
    if s.len() > 0 && is_space(s.last()) {
        lemma_trail(s.drop_last());
        assert(s.drop_last().take(without_trail(s).len() as int) =~= s.take(
            without_trail(s).len() as int,
        ));
    } else {
        assert(s.take(s.len() as int) =~= s);
    }
}

proof fn lemma_lead_is_space(s: Seq<char>) -> (a: int)
    ensures
        0 <= a <= s.len(),
        without_lead(s) == s.skip(a),
        forall|i: int| 0 <= i < a ==> is_space(#[trigger] s[i]),
        a < s.len() ==> !is_space(s[a]),
    decreases s.len(),
{
    if s.len() > 0 && is_space(s[0]) {
        let rest = s.drop_first();
        let a = lemma_lead_is_space(rest);
        assert(rest.skip(a) =~= s.skip(a + 1));
        assert forall|i: int| 0 <= i < a + 1 implies is_space(#[trigger] s[i]) by {
            if i > 0 {
                assert(rest[i - 1] == s[i]);
            }
        }
        a + 1
    } else {
        assert(s.skip(0) =~= s);
        0
    }
}

proof fn lemma_trail_is_space(s: Seq<char>)
    ensures
        forall|i: int| without_trail(s).len() <= i < s.len() ==> is_space(#[trigger] s[i]),
    decreases s.len(),
{
    if s.len() > 0 && is_space(s.last()) {
        lemma_trail_is_space(s.drop_last());
        assert forall|i: int| without_trail(s).len() <= i < s.len() implies is_space(
            #[trigger] s[i],
        ) by {
            if i < s.len() - 1 {
                assert(s.drop_last()[i] == s[i]);
            }
        }
    }
}

/// Trimming cuts off blanks at both ends, all of them and nothing else.
pub proof fn law_trim_cuts_blanks_at_the_ends(s: Seq<char>) -> (r: (int, int))
    ensures
        0 <= r.0 <= r.1 <= s.len(),
        trimmed(s) == s.subrange(r.0, r.1),
        forall|i: int| 0 <= i < r.0 ==> is_space(#[trigger] s[i]),
        forall|i: int| r.1 <= i < s.len() ==> is_space(#[trigger] s[i]),
        r.0 < r.1 ==> !is_space(s[r.0]) && !is_space(s[r.1 - 1]),
{
    let a = lemma_lead_is_space(s);
    let t = s.skip(a);
    lemma_trail(t);
    lemma_trail_is_space(t);
    let b = a + without_trail(t).len();
    assert(trimmed(s) =~= s.subrange(a, b));
    assert forall|i: int| b <= i < s.len() implies is_space(#[trigger] s[i]) by {
        assert(t[i - a] == s[i]);
    }
    if a < b {
        assert(without_trail(t).last() == s[b - 1]);
    }
    (a, b)
}

/// Blanks are the white space of the usual kinds.
pub proof fn law_what_blanks_are(c: char)
    ensures
        c == ' ' || c == '\t' || c == '\n' || c == '\r' ==> is_space(c),
        c as u32 == 0x0b || c as u32 == 0x0c || c as u32 == 0x85 || c as u32 == 0xa0 ==> is_space(c),
        '!' <= c <= '~' ==> !is_space(c),
        (c as u32) < 9 || 14 <= c as u32 <= 31 ==> !is_space(c),
{
}

proof fn lemma_until_space(s: Seq<char>)
    ensures
        until_space(s).len() <= s.len(),
        until_space(s) == s.take(until_space(s).len() as int),
        forall|i: int| 0 <= i < until_space(s).len() ==> !is_space(#[trigger] s[i]),
        until_space(s).len() < s.len() ==> is_space(s[until_space(s).len() as int]),
    decreases s.len(),
{
    if s.len() > 0 && !is_space(s[0]) {
        let rest = s.drop_first();
        lemma_until_space(rest);
        let n = until_space(s).len() as int;
        assert(until_space(s) =~= s.take(n));
        assert forall|i: int| 0 <= i < n implies !is_space(#[trigger] s[i]) by {
            if i > 0 {
                assert(rest[i - 1] == s[i]);
            }
        }
    }
}

/// The first word of a text is what stands behind its first blanks and before the next.
pub proof fn law_first_word_ends_at_a_blank(s: Seq<char>) -> (r: (int, int))
    ensures
        0 <= r.0 <= r.1 <= s.len(),
        first_word_spec(s) == s.subrange(r.0, r.1),
        forall|i: int| 0 <= i < r.0 ==> is_space(#[trigger] s[i]),
        forall|i: int| r.0 <= i < r.1 ==> !is_space(#[trigger] s[i]),
        r.1 < s.len() ==> is_space(s[r.1]),
{
    let a = lemma_lead_is_space(s);
    let t = s.skip(a);
    lemma_until_space(t);
    let b = a + until_space(t).len();
    assert(first_word_spec(s) =~= s.subrange(a, b));
    assert forall|i: int| a <= i < b implies !is_space(#[trigger] s[i]) by {
        assert(t[i - a] == s[i]);
    }
    if b < s.len() {
        assert(t[b - a] == s[b]);
    }
    (a, b)
}

/// A line loses the line ends at its end, all of them and nothing else.
pub proof fn law_line_ends_are_cut_off(s: Seq<char>)
    ensures
        ({
            let l = without_line_end(s);
            &&& l.len() <= s.len()
            &&& l == s.take(l.len() as int)
            &&& forall|i: int| l.len() <= i < s.len() ==> #[trigger] s[i] == '\n' || s[i] == '\r'
            &&& l.len() > 0 ==> l.last() != '\n' && l.last() != '\r'
        }),
    decreases s.len(),
{
    if s.len() > 0 && (s.last() == '\n' || s.last() == '\r') {
        let less = s.drop_last();
        law_line_ends_are_cut_off(less);
        let l = without_line_end(s);
        assert(less.take(l.len() as int) =~= s.take(l.len() as int));
        assert forall|i: int| l.len() <= i < s.len() implies #[trigger] s[i] == '\n' || s[i]
            == '\r' by {
            if i < s.len() - 1 {
                assert(less[i] == s[i]);
            }
        }
    } else {
        assert(s.take(s.len() as int) =~= s);
    }
}

/// Words are joined with the separator between any two and nowhere else.
pub proof fn law_joining_joined_words(a: Seq<String>, b: Seq<String>, sep: Seq<char>)
    requires
        a.len() > 0,
        b.len() > 0,
    ensures
        joined(a + b, sep) == joined(a, sep) + sep + joined(b, sep),
    decreases b.len(),
{
    let all = a + b;
    assert(all.last() == b.last());
    if b.len() == 1 {
        assert(all.drop_last() =~= a);
        assert(b[0] == b.last());
    } else {
        law_joining_joined_words(a, b.drop_last(), sep);
        assert(all.drop_last() =~= a + b.drop_last());
        assert(joined(all, sep) =~= joined(a, sep) + sep + joined(b, sep));
    }
}

/// A text begins with another if its first characters are that one's.
pub proof fn law_what_a_text_begins_with(s: Seq<char>, p: Seq<char>)
    ensures
        begins_with(s, p) <==> p.len() <= s.len() && forall|i: int|
            0 <= i < p.len() ==> s[i] == #[trigger] p[i],
{
    if p.len() <= s.len() {
        let t = s.take(p.len() as int);
        if forall|i: int| 0 <= i < p.len() ==> s[i] == #[trigger] p[i] {
            assert(t =~= p);
        }
        if t == p {
            assert forall|i: int| 0 <= i < p.len() implies s[i] == #[trigger] p[i] by {
                assert(t[i] == s[i]);
            }
        }
    }
}

} // verus!
