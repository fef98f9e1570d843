//! Which transformer blocks run on the device.
use crate::text::{block_name, decimal, is_digit, push_decimal, same, to_chars};
use vstd::prelude::*;

verus! {

/// The first `gpu_layers` of `n_layers` blocks run on the device.
#[derive(Debug, Clone, Copy, PartialEq, Eq, Structural)]
pub struct OffloadPlan {
    pub gpu_layers: usize,
    pub n_layers: usize,
}

/// How many blocks were asked onto the device.
#[derive(Debug, Clone, Copy, PartialEq, Eq, Structural)]
pub enum OffloadRequest {
    /// Nothing was asked: every block, if there is a device.
    Default,
    /// As many as its memory holds.
    Auto,
    /// This many.
    Layers(usize),
}

/// The number that a run of digits spells.
pub open spec fn digits_value(s: Seq<char>) -> nat
    decreases s.len(),
{
    if s.len() == 0 {
        0
    } else {
        digits_value(s.drop_last()) * 10 + (s.last() as u32 - 48) as nat
    }
}

/// Whether a text is a non-empty run of digits.
pub open spec fn all_digits(s: Seq<char>) -> bool {
    s.len() > 0 && forall|i: int| 0 <= i < s.len() ==> is_digit(#[trigger] s[i])
}

/// The number that a text spells, if it is all digits and a machine word holds
/// it.
pub open spec fn parse_usize_spec(s: Seq<char>) -> Option<usize> {
    if all_digits(s) && digits_value(s) <= usize::MAX {
        Some(digits_value(s) as usize)
    } else {
        None
    }
}

proof fn lemma_digits_grow(s: Seq<char>, k: int)
    requires
        0 <= k <= s.len(),
    ensures
        digits_value(s.take(k)) <= digits_value(s),
    decreases s.len() - k,
{
    if k < s.len() {
        lemma_digits_grow(s, k + 1);
        assert(s.take(k + 1).drop_last() =~= s.take(k));
    } else {
        assert(s.take(k) =~= s);
    }
}

/// Reads a number from the characters `[a, b)`.
pub fn parse_range(v: &Vec<char>, a: usize, b: usize) -> (r: Option<usize>)
    requires
        a <= b <= v@.len(),
    ensures
        r == parse_usize_spec(v@.subrange(a as int, b as int)),
{
    let ghost s = v@.subrange(a as int, b as int);
    if a == b {
        return None;
    }
    let mut n: usize = 0;
    let mut i: usize = a;
    while i < b
        invariant
            a <= i <= b <= v@.len(),
            a < b,
            s == v@.subrange(a as int, b as int),
            n == digits_value(s.take(i - a)),
            forall|k: int| 0 <= k < i - a ==> is_digit(#[trigger] s[k]),
        decreases b - i,
    {
        let c: char = v[i];
        assert(s[i - a] == c);
        if !('0' <= c && c <= '9') {
            return None;
        }
        let d: usize = (c as u32 - 48) as usize;
        assert(s.take(i - a + 1).drop_last() =~= s.take(i - a));
        assert(s.take(i - a + 1).last() == c);
        match n.checked_mul(10) {
            None => {
                proof {
                    lemma_digits_grow(s, i - a + 1);
                }
                return None;
            },
            Some(m) => match m.checked_add(d) {
                None => {
                    proof {
                        lemma_digits_grow(s, i - a + 1);
                    }
                    return None;
                },
                Some(x) => {
                    n = x;
                },
            },
        }
        i = i + 1;
    }
    assert(s.take(b - a) =~= s);
    Some(n)
}

/// Reads a number.
pub fn parse_usize(s: &str) -> (r: Option<usize>)
    ensures
        r == parse_usize_spec(s@),
{
    let v: Vec<char> = to_chars(s);
    assert(v@.subrange(0, v@.len() as int) =~= s@);
    parse_range(&v, 0, v.len())
}

/// Writing a number in decimal and reading it back gives the number.
pub proof fn lemma_digits_of_decimal(n: nat)
    ensures
        digits_value(decimal(n)) == n,
        all_digits(decimal(n)),
    decreases n,
{
    crate::text::lemma_decimal_digits(n);
    if n < 10 {
        let s = decimal(n);
        assert(s.drop_last() =~= Seq::<char>::empty());
        assert(digits_value(s.drop_last()) == 0);
    } else {
        lemma_digits_of_decimal(n / 10);
        assert(decimal(n).drop_last() =~= decimal(n / 10));
    }
}

/// Where the first `blk.` begins.
pub open spec fn block_mark(s: Seq<char>, from: int) -> Option<int>
    decreases s.len() - from,
{
    if from + 4 > s.len() || from < 0 {
        None
    } else if s[from] == 'b' && s[from + 1] == 'l' && s[from + 2] == 'k' && s[from + 3] == '.' {
        Some(from)
    } else {
        block_mark(s, from + 1)
    }
}

/// Where the run of digits that begins at `from` ends.
pub open spec fn digits_end(s: Seq<char>, from: int) -> int
    decreases s.len() - from,
{
    if 0 <= from < s.len() && is_digit(s[from]) {
        digits_end(s, from + 1)
    } else {
        from
    }
}

/// The block in a tensor name: the number between the first `blk.` and the dot
/// behind it.
pub open spec fn block_of_spec(s: Seq<char>) -> Option<usize> {
    match block_mark(s, 0) {
        None => None,
        Some(p) => {
            let e = digits_end(s, p + 4);
            if e < s.len() && s[e] == '.' {
                parse_usize_spec(s.subrange(p + 4, e))
            } else {
                None
            }
        },
    }
}

/// The block that a tensor name speaks of.
pub fn block_of(name: &str) -> (r: Option<usize>)
    ensures
        r == block_of_spec(name@),
{
    let v: Vec<char> = to_chars(name);
    let n: usize = v.len();
    let mut p: usize = 0;
    while n - p >= 4 && !(v[p] == 'b' && v[p + 1] == 'l' && v[p + 2] == 'k' && v[p + 3] == '.')
        invariant
            p <= n,
            n == v@.len(),
            v@ == name@,
            block_mark(name@, 0) == block_mark(name@, p as int),
        decreases n - p,
    {
        p = p + 1;
    }
    if n - p < 4 {
        return None;
    }
    let start: usize = p + 4;
    let mut e: usize = start;
    while e < n && '0' <= v[e] && v[e] <= '9'
        invariant
            start <= e <= n,
            n == v@.len(),
            v@ == name@,
            digits_end(name@, start as int) == digits_end(name@, e as int),
        decreases n - e,
    {
        e = e + 1;
    }
    if e < n && v[e] == '.' {
        parse_range(&v, start, e)
    } else {
        None
    }
}

proof fn lemma_digits_end_run(s: Seq<char>, a: int, b: int)
    requires
        0 <= a <= b < s.len(),
        forall|i: int| a <= i < b ==> is_digit(#[trigger] s[i]),
        !is_digit(s[b]),
    ensures
        digits_end(s, a) == b,
    decreases b - a,
{
    if a < b {
        lemma_digits_end_run(s, a + 1, b);
    }
}

/// A block's tensor names speak of that block.
pub proof fn law_block_of_block_name(i: usize, suffix: Seq<char>)
    ensures
        block_of_spec(block_name(i as nat, suffix)) == Some(i),
{
    reveal_strlit("blk.");
    reveal_strlit(".");
    let d = decimal(i as nat);
    let s = block_name(i as nat, suffix);
    let e = 4 + d.len() as int;
    lemma_digits_of_decimal(i as nat);
    assert(block_mark(s, 0) == Some(0int));
    assert forall|k: int| 4 <= k < e implies is_digit(#[trigger] s[k]) by {
        assert(s[k] == d[k - 4]);
    }
    assert(s[e] == '.');
    lemma_digits_end_run(s, 4, e);
    assert(s.subrange(4, e) =~= d);
}

impl OffloadPlan {
    /// Every block on the host.
    pub fn all_on_cpu(n_layers: usize) -> (p: OffloadPlan)
        ensures
            p == (OffloadPlan { gpu_layers: 0, n_layers }),
    {
        OffloadPlan { gpu_layers: 0, n_layers }
    }

    /// Whether no block is on the device.
    pub fn is_cpu_only(self) -> (r: bool)
        ensures
            r == (self.gpu_layers == 0),
    {
        self.gpu_layers == 0
    }

    /// Whether a block is on the device.
    pub fn on_device(self, block: usize) -> (r: bool)
        ensures
            r == (block < self.gpu_layers),
    {
        block < self.gpu_layers
    }

    /// Whether a weight goes onto the device: with its block, or, if it belongs
    /// to none, with any block at all.
    pub open spec fn allows(self, name: Seq<char>) -> bool {
        match block_of_spec(name) {
            Some(b) => b < self.gpu_layers,
            None => self.gpu_layers != 0,
        }
    }

    /// Whether a weight goes onto the device.
    pub fn allows_weight(self, name: &str) -> (r: bool)
        ensures
            r == self.allows(name@),
    {
        match block_of(name) {
            Some(b) => self.on_device(b),
            None => !self.is_cpu_only(),
        }
    }
}

impl OffloadRequest {
    /// What a setting asks for; `None` if it is neither a number nor `auto`.
    pub open spec fn parse_spec(value: Option<Seq<char>>) -> Option<OffloadRequest> {
        match value {
            None => Some(OffloadRequest::Default),
            Some(s) => if s == "auto"@ {
                Some(OffloadRequest::Auto)
            } else {
                match parse_usize_spec(s) {
                    Some(n) => Some(OffloadRequest::Layers(n)),
                    None => None,
                }
            },
        }
    }

    /// What a setting asks for.
    pub fn parse(value: Option<&str>) -> (r: Option<OffloadRequest>)
        ensures
            r == OffloadRequest::parse_spec(
                match value {
                    Some(s) => Some(s@),
                    None => None,
                },
            ),
    {
        match value {
            None => Some(OffloadRequest::Default),
            Some(s) => {
                if same(s, "auto") {
                    return Some(OffloadRequest::Auto);
                }
                match parse_usize(s) {
                    Some(n) => Some(OffloadRequest::Layers(n)),
                    None => None,
                }
            },
        }
    }

    /// The plan of a request for `n_layers` blocks; `fitting` is how many of
    /// them the memory of the device holds.
    pub open spec fn plan_spec(self, n_layers: usize, device: bool, fitting: usize) -> OffloadPlan {
        OffloadPlan {
            gpu_layers: if !device {
                0
            } else {
                match self {
                    OffloadRequest::Default => n_layers,
                    OffloadRequest::Auto => if fitting <= n_layers {
                        fitting
                    } else {
                        n_layers
                    },
                    OffloadRequest::Layers(k) => if k <= n_layers {
                        k
                    } else {
                        n_layers
                    },
                }
            },
            n_layers,
        }
    }

    /// The plan of a request.
    pub fn plan(self, n_layers: usize, device: bool, fitting: usize) -> (p: OffloadPlan)
        ensures
            p == self.plan_spec(n_layers, device, fitting),
    {
        let gpu_layers: usize = if !device {
            0
        } else {
            match self {
                OffloadRequest::Default => n_layers,
                OffloadRequest::Auto => if fitting <= n_layers {
                    fitting
                } else {
                    n_layers
                },
                OffloadRequest::Layers(k) => if k <= n_layers {
                    k
                } else {
                    n_layers
                },
            }
        };
        OffloadPlan { gpu_layers, n_layers }
    }
}

/// Bytes of the first `k` blocks.
pub open spec fn prefix_bytes(per_block: Seq<usize>, k: int) -> int
    decreases k,
{
    if k <= 0 {
        0
    } else {
        prefix_bytes(per_block, k - 1) + per_block[k - 1]
    }
}

/// How many blocks fit into `budget` bytes with `reserve` held back: the longest
/// prefix that does.
pub fn fit_blocks(budget: usize, per_block: &Vec<usize>, reserve: usize) -> (k: usize)
    ensures
        k <= per_block@.len(),
        k > 0 ==> prefix_bytes(per_block@, k as int) + reserve <= budget,
        k < per_block@.len() ==> prefix_bytes(per_block@, k + 1) + reserve > budget,
{
    if budget < reserve {
        if per_block.len() > 0 {
            proof {
                assert(prefix_bytes(per_block@, 0) == 0);
            }
        }
        return 0;
    }
    let mut left: usize = budget - reserve;
    let mut k: usize = 0;
    while k < per_block.len() && per_block[k] <= left
        invariant
            k <= per_block@.len(),
            left + prefix_bytes(per_block@, k as int) + reserve == budget,
        decreases per_block@.len() - k,
    {
        left = left - per_block[k];
        k = k + 1;
    }
    k
}

/// The start-up line on where the blocks went.
pub open spec fn report_text(
    plan: OffloadPlan,
    device: Seq<char>,
    device_bytes: usize,
    source: Seq<char>,
) -> Seq<char> {
    "offload: "@ + decimal(plan.gpu_layers as nat) + " of "@ + decimal(plan.n_layers as nat)
        + " blocks on "@ + device + ", "@ + decimal(device_bytes as nat) + " bytes of weights ("@
        + source + ")"@
}

/// The start-up line on where the blocks went.
pub fn report(plan: OffloadPlan, device: &str, device_bytes: usize, source: &str) -> (s: String)
    ensures
        s@ == report_text(plan, device@, device_bytes, source@),
{
    let mut s: String = "offload: ".to_owned();
    push_decimal(&mut s, plan.gpu_layers as u64);
    s.append(" of ");
    push_decimal(&mut s, plan.n_layers as u64);
    s.append(" blocks on ");
    s.append(device);
    s.append(", ");
    push_decimal(&mut s, device_bytes as u64);
    s.append(" bytes of weights (");
    s.append(source);
    s.append(")");
    s
}

/// A number is read from its decimal digits; a text with anything else in it, or with
/// nothing at all, is none.
pub proof fn law_numbers_are_read_back(n: usize, s: Seq<char>)
    ensures
        parse_usize_spec(decimal(n as nat)) == Some(n),
        s.len() == 0 ==> parse_usize_spec(s) is None,
        forall|i: int|
            0 <= i < s.len() && !('0' <= #[trigger] s[i] <= '9') ==> parse_usize_spec(s) is None,
{
    lemma_digits_of_decimal(n as nat);
}

/// No plan puts more blocks on the device than there are, and none without a device. With
/// one, all blocks are put there by default, and otherwise as many as are asked for or fit.
pub proof fn law_plan_stays_within_the_blocks(
    r: OffloadRequest,
    n_layers: usize,
    device: bool,
    fitting: usize,
)
    ensures
        ({
            let p = r.plan_spec(n_layers, device, fitting);
            let least = |k: usize| p.gpu_layers <= k && (p.gpu_layers == k || p.gpu_layers
                == n_layers);
            &&& p.n_layers == n_layers
            &&& p.gpu_layers <= n_layers
            &&& !device ==> p.gpu_layers == 0
            &&& device && r is Default ==> p.gpu_layers == n_layers
            &&& device && r is Auto ==> least(fitting)
            &&& device && r is Layers ==> least(r->Layers_0)
        }),
{
}

/// The weights of a block are on the device if the block is; those of no block if any
/// block is.
pub proof fn law_weights_follow_their_block(p: OffloadPlan, i: usize, suffix: Seq<char>)
    ensures
        p.allows(block_name(i as nat, suffix)) <==> i < p.gpu_layers,
        forall|name: Seq<char>|
            (forall|k: int| 0 <= k < name.len() ==> #[trigger] name[k] != 'b') ==> (
            #[trigger] p.allows(name) <==> p.gpu_layers > 0),
{
    law_block_of_block_name(i, suffix);
    assert forall|name: Seq<char>|
        (forall|k: int| 0 <= k < name.len() ==> #[trigger] name[k] != 'b') implies (
    #[trigger] p.allows(name) <==> p.gpu_layers > 0) by {
        lemma_no_mark(name, 0);
    }
}

proof fn lemma_no_mark(s: Seq<char>, from: int)
    requires
        0 <= from,
        forall|k: int| 0 <= k < s.len() ==> #[trigger] s[k] != 'b',
    ensures
        block_mark(s, from) is None,
    decreases s.len() - from,
{
    if from + 4 <= s.len() {
        assert(s[from] != 'b');
        lemma_no_mark(s, from + 1);
    }
}

/// Blocks of equal size take that size times their number.
pub proof fn law_equal_blocks_add_up(per_block: Seq<usize>, b: usize, k: int)
    requires
        0 <= k <= per_block.len(),
        forall|i: int| 0 <= i < per_block.len() ==> #[trigger] per_block[i] == b,
    ensures
        prefix_bytes(per_block, k) == k * b,
    decreases k,
{
    if k > 0 {
        law_equal_blocks_add_up(per_block, b, k - 1);
        assert(per_block[k - 1] == b);
        assert((k - 1) * b + b == k * b) by (nonlinear_arith);
    } else {
        assert(k * b == 0) by (nonlinear_arith)
            requires
                k == 0,
        ;
    }
}

/// The bytes of some blocks do not depend on the blocks behind them.
pub proof fn law_prefix_ignores_later_blocks(a: Seq<usize>, b: Seq<usize>, k: int)
    requires
        0 <= k <= a.len(),
        k <= b.len(),
        forall|i: int| 0 <= i < k ==> #[trigger] a[i] == b[i],
    ensures
        prefix_bytes(a, k) == prefix_bytes(b, k),
    decreases k,
{
    if k > 0 {
        law_prefix_ignores_later_blocks(a, b, k - 1);
        assert(a[k - 1] == b[k - 1]);
    }
}

/// What is said of a plan: the blocks on the device first, then all blocks, the device, the
/// bytes there and where the plan comes from.
pub proof fn law_what_is_said_of_a_plan(
    plan: OffloadPlan,
    device: Seq<char>,
    bytes: usize,
    source: Seq<char>,
)
    ensures
        report_text(plan, device, bytes, source) == "offload: "@ + decimal(plan.gpu_layers as nat)
            + " of "@ + decimal(plan.n_layers as nat) + " blocks on "@ + device + ", "@ + decimal(
            bytes as nat,
        ) + " bytes of weights ("@ + source + ")"@,
{
}

/// What is asked for: all by default, what fits, or so many blocks; nothing else.
pub proof fn law_what_can_be_asked_for(n: usize, s: Seq<char>)
    ensures
        OffloadRequest::parse_spec(None) == Some(OffloadRequest::Default),
        OffloadRequest::parse_spec(Some("auto"@)) == Some(OffloadRequest::Auto),
        OffloadRequest::parse_spec(Some(decimal(n as nat))) == Some(OffloadRequest::Layers(n)),
        s != "auto"@ && parse_usize_spec(s) is None ==> OffloadRequest::parse_spec(Some(s)) is None,
{
    reveal_strlit("auto");
    lemma_digits_of_decimal(n as nat);
    let d = decimal(n as nat);
    assert(is_digit(d[0]));
    assert("auto"@[0] == 'a');
}

} // verus!
