//! The generation loop: which tokens count as recent, which bytes are shown, and
//! when it stops. Sampling and the forward pass are the caller's.
use crate::cli::repl::is_stop_token;
use crate::models::SpecialTokens;
use vstd::prelude::*;

verus! {

/// How many recent tokens are penalised.
pub const REPEAT_LAST_N: usize = 64;

/// The last `n` of some tokens.
pub open spec fn last_n(s: Seq<u32>, n: int) -> Seq<u32> {
    if s.len() <= n {
        s
    } else {
        s.skip(s.len() - n)
    }
}

/// The last `n` of some tokens.
pub fn recent_window(ids: &Vec<u32>, n: usize) -> (r: Vec<u32>)
    ensures
        r@ == last_n(ids@, n as int),
{
    let start: usize = if ids.len() <= n {
        0
    } else {
        ids.len() - n
    };
    let mut r: Vec<u32> = Vec::new();
    let mut i: usize = start;
    while i < ids.len()
        invariant
            start <= i <= ids@.len(),
            r@ == ids@.subrange(start as int, i as int),
        decreases ids@.len() - i,
    {
        r.push(ids[i]);
        assert(ids@.subrange(start as int, i + 1) =~= ids@.subrange(start as int, i as int).push(
            ids@[i as int],
        ));
        i = i + 1;
    }
    assert(r@ =~= last_n(ids@, n as int));
    r
}

/// Whether some bytes end with others.
pub open spec fn ends_with(s: Seq<u8>, t: Seq<u8>) -> bool {
    t.len() <= s.len() && s.skip(s.len() - t.len()) == t
}

/// Where the first stop string that ends the text begins; empty ones do not count.
pub open spec fn stop_at(full: Seq<u8>, stops: Seq<Vec<u8>>) -> Option<int>
    decreases stops.len(),
{
    if stops.len() == 0 {
        None
    } else if stops[0]@.len() > 0 && ends_with(full, stops[0]@) {
        Some(full.len() - stops[0]@.len())
    } else {
        stop_at(full, stops.drop_first())
    }
}

fn is_suffix(full: &Vec<u8>, t: &Vec<u8>) -> (r: bool)
    ensures
        r == ends_with(full@, t@),
{
    if t.len() > full.len() {
        return false;
    }
    let n: usize = full.len();
    let start: usize = n - t.len();
    let ghost tail = full@.skip(start as int);
    let mut i: usize = 0;
    while i < t.len()
        invariant
            i <= t@.len(),
            n == full@.len(),
            start + t@.len() == n,
            tail == full@.skip(start as int),
            tail.take(i as int) == t@.take(i as int),
        decreases t@.len() - i,
    {
        if full[start + i] != t[i] {
            assert(tail[i as int] != t@[i as int]);
            return false;
        }
        assert(tail.take(i + 1) =~= tail.take(i as int).push(tail[i as int]));
        assert(t@.take(i + 1) =~= t@.take(i as int).push(t@[i as int]));
        i = i + 1;
    }
    assert(tail.take(i as int) =~= tail);
    assert(t@.take(i as int) =~= t@);
    true
}

/// Where the text is cut if a stop string ends it.
pub fn match_stop_suffix(full: &Vec<u8>, stops: &Vec<Vec<u8>>) -> (r: Option<usize>)
    ensures
        match r {
            Some(cut) => stop_at(full@, stops@) == Some(cut as int),
            None => stop_at(full@, stops@) is None,
        },
{
    let mut i: usize = 0;
    assert(stops@.skip(0) =~= stops@);
    while i < stops.len()
        invariant
            i <= stops@.len(),
            stop_at(full@, stops@) == stop_at(full@, stops@.skip(i as int)),
        decreases stops@.len() - i,
    {
        assert(stops@.skip(i as int)[0] == stops@[i as int]);
        assert(stops@.skip(i as int).drop_first() =~= stops@.skip(i + 1));
        if stops[i].len() > 0 && is_suffix(full, &stops[i]) {
            return Some(full.len() - stops[i].len());
        }
        i = i + 1;
    }
    None
}

/// A generation under way.
pub struct Generation {
    pub generated: Vec<u32>,
    /// The recent tokens, of the prompt and generated.
    pub window: Vec<u32>,
    /// The bytes of all generated tokens.
    pub full: Vec<u8>,
    /// How many of them were shown.
    pub emitted: usize,
    /// The position of the next token.
    pub pos: usize,
}

/// What a sampled token leads to.
pub enum Reply {
    /// It ends the generation and is not part of it.
    Ended,
    /// It completes a stop string: show these bytes and end.
    Cut(Vec<u8>),
    /// Show these bytes and go on with this position.
    Go { show: Vec<u8>, pos: usize },
}

/// Whether a token ends a generation.
pub open spec fn ends(id: u32, special: SpecialTokens) -> bool {
    id == special.eos || special.im_end == Some(id)
}

impl Generation {
    /// What was shown is part of what was generated.
    pub open spec fn wf(&self) -> bool {
        self.emitted <= self.full@.len()
    }

    /// A generation behind a prompt.
    pub fn new(prompt: &Vec<u32>) -> (g: Generation)
        ensures
            g.wf(),
            g.generated@ == Seq::<u32>::empty(),
            g.window@ == last_n(prompt@, REPEAT_LAST_N as int),
            g.full@ == Seq::<u8>::empty(),
            g.emitted == 0,
            g.pos == prompt@.len(),
    {
        Generation {
            generated: Vec::new(),
            window: recent_window(prompt, REPEAT_LAST_N),
            full: Vec::new(),
            emitted: 0,
            pos: prompt.len(),
        }
    }

    /// Whether another token is wanted.
    pub fn wants_more(&self, n_predict: usize) -> (r: bool)
        ensures
            r == (self.generated@.len() < n_predict),
    {
        self.generated.len() < n_predict
    }

    fn unshown(&self, end: usize) -> (r: Vec<u8>)
        requires
            end <= self.full@.len(),
        ensures
            r@ == (if self.emitted < end {
                self.full@.subrange(self.emitted as int, end as int)
            } else {
                Seq::empty()
            }),
    {
        let mut r: Vec<u8> = Vec::new();
        let mut i: usize = self.emitted;
        let start: usize = self.emitted;
        while i < end
            invariant
                start <= i,
                start == self.emitted,
                i <= end || end <= start,
                end <= self.full@.len(),
                i <= end ==> r@ == self.full@.subrange(start as int, i as int),
                end <= start ==> r@ == Seq::<u8>::empty(),
            decreases end - i,
        {
            r.push(self.full[i]);
            assert(self.full@.subrange(start as int, i + 1) =~= self.full@.subrange(
                start as int,
                i as int,
            ).push(self.full@[i as int]));
            i = i + 1;
        }
        r
    }

    /// Takes a sampled token and the bytes that it stands for. The recent tokens
    /// move on, the bytes join the text, and what was not shown of it is to be
    /// shown; a stop string is cut off, though parts of it may have been shown
    /// already.
    pub fn accept(
        &mut self,
        token: u32,
        bytes: &Vec<u8>,
        special: &SpecialTokens,
        stops: &Vec<Vec<u8>>,
    ) -> (r: Reply)
        requires
            old(self).wf(),
            old(self).pos < usize::MAX,
        ensures
            final(self).wf() || r is Cut,
            ends(token, *special) ==> r is Ended && *final(self) == *old(self),
            !ends(token, *special) ==> {
                let text = old(self).full@ + bytes@;
                &&& final(self).generated@ == old(self).generated@.push(token)
                &&& final(self).window@ == last_n(
                    old(self).window@.push(token),
                    REPEAT_LAST_N as int,
                )
                &&& match stop_at(text, stops@) {
                    Some(cut) => {
                        &&& r matches Reply::Cut(show)
                        &&& show@ == (if cut > old(self).emitted {
                            text.subrange(old(self).emitted as int, cut)
                        } else {
                            Seq::empty()
                        })
                        &&& final(self).full@ == text.take(cut)
                        &&& final(self).emitted == (if cut > old(self).emitted {
                            cut
                        } else {
                            old(self).emitted as int
                        })
                        &&& final(self).pos == old(self).pos
                    },
                    None => {
                        &&& r matches Reply::Go { show, pos }
                        &&& show@ == text.skip(old(self).emitted as int)
                        &&& pos == old(self).pos
                        &&& final(self).full@ == text
                        &&& final(self).emitted == text.len()
                        &&& final(self).pos == old(self).pos + 1
                    },
                }
            },
    {
        if is_stop_token(token, special) {
            return Reply::Ended;
        }
        let ghost text = self.full@ + bytes@;
        self.generated.push(token);
        let mut longer: Vec<u32> = self.window.clone();
        longer.push(token);
        self.window = recent_window(&longer, REPEAT_LAST_N);
        let mut i: usize = 0;
        let ghost before = self.full@;
        while i < bytes.len()
            invariant
                i <= bytes@.len(),
                self.full@ == before + bytes@.take(i as int),
                self.generated@ == old(self).generated@.push(token),
                self.window@ == last_n(old(self).window@.push(token), REPEAT_LAST_N as int),
                self.emitted == old(self).emitted,
                self.pos == old(self).pos,
            decreases bytes@.len() - i,
        {
            self.full.push(bytes[i]);
            assert(bytes@.take(i + 1) =~= bytes@.take(i as int).push(bytes@[i as int]));
            assert(self.full@ =~= before + bytes@.take(i + 1));
            i = i + 1;
        }
        assert(bytes@.take(i as int) =~= bytes@);
        assert(self.full@ == text);
        match match_stop_suffix(&self.full, stops) {
            Some(cut) => {
                proof {
                    lemma_cut_inside(text, stops@);
                }
                let show: Vec<u8> = self.unshown(cut);
                self.full.truncate(cut);
                assert(self.full@ =~= text.take(cut as int));
                if cut > self.emitted {
                    self.emitted = cut;
                }
                Reply::Cut(show)
            },
            None => {
                let end: usize = self.full.len();
                let show: Vec<u8> = self.unshown(end);
                assert(show@ =~= text.skip(old(self).emitted as int));
                self.emitted = end;
                let pos: usize = self.pos;
                self.pos = pos + 1;
                Reply::Go { show, pos }
            },
        }
    }
}

proof fn lemma_cut_inside(full: Seq<u8>, stops: Seq<Vec<u8>>)
    ensures
        stop_at(full, stops) matches Some(cut) ==> 0 <= cut <= full.len(),
    decreases stops.len(),
{
    if stops.len() > 0 {
        lemma_cut_inside(full, stops.drop_first());
    }
}

/// The recent tokens are the last ones of the prompt and everything generated,
/// however many tokens have come: taking them from the recent ones alone loses
/// nothing.
pub proof fn law_window_is_recent(all: Seq<u32>, token: u32)
    ensures
        last_n(last_n(all, REPEAT_LAST_N as int).push(token), REPEAT_LAST_N as int) == last_n(
            all.push(token),
            REPEAT_LAST_N as int,
        ),
        last_n(all.push(token), REPEAT_LAST_N as int).len() <= REPEAT_LAST_N,
{
    assert(last_n(last_n(all, REPEAT_LAST_N as int).push(token), REPEAT_LAST_N as int) =~= last_n(
        all.push(token),
        REPEAT_LAST_N as int,
    ));
}

/// No byte is shown twice and none is left out: what was shown of the text before
/// a token and what is shown with it make up the text behind it.
pub proof fn law_shown_bytes_join(full: Seq<u8>, emitted: int, bytes: Seq<u8>)
    requires
        0 <= emitted <= full.len(),
    ensures
        full.take(emitted) + (full + bytes).skip(emitted) == full + bytes,
{
    assert(full.take(emitted) + (full + bytes).skip(emitted) =~= full + bytes);
}

/// The last `n` of a sequence: no more than `n`, none left out, in their order.
pub proof fn law_last_ones_in_order(s: Seq<u32>, n: int, i: int)
    requires
        0 <= n,
        0 <= i < last_n(s, n).len(),
    ensures
        last_n(s, n).len() <= n,
        last_n(s, n).len() == n || last_n(s, n).len() == s.len(),
        last_n(s, n)[i] == s[s.len() - last_n(s, n).len() + i],
        REPEAT_LAST_N == 64,
{
}

/// A text is cut at a stop word that it ends with, the first of the list: what is cut off
/// is that word. Empty words stop nothing.
pub proof fn law_text_is_cut_at_its_stop_word(full: Seq<u8>, stops: Seq<Vec<u8>>, i: int)
    requires
        0 <= i <= stops.len(),
        forall|k: int|
            0 <= k < i ==> (#[trigger] stops[k])@.len() == 0 || !ends_with(full, stops[k]@),
    ensures
        i == stops.len() ==> stop_at(full, stops) is None,
        i < stops.len() && stops[i]@.len() > 0 && stops[i]@.len() <= full.len() && (forall|k: int|
            0 <= k < stops[i]@.len() ==> full[full.len() - stops[i]@.len() + k]
                == #[trigger] stops[i]@[k]) ==> stop_at(full, stops) == Some(
            full.len() - stops[i]@.len(),
        ),
    decreases stops.len(),
{
    if i > 0 {
        let rest = stops.drop_first();
        assert(stops[0]@.len() == 0 || !ends_with(full, stops[0]@));
        assert forall|k: int| 0 <= k < i - 1 implies (#[trigger] rest[k])@.len() == 0 || !ends_with(
            full,
            rest[k]@,
        ) by {
            assert(rest[k] == stops[k + 1]);
        }
        law_text_is_cut_at_its_stop_word(full, rest, i - 1);
    } else if stops.len() > 0 {
        let t = stops[0]@;
        if t.len() > 0 && t.len() <= full.len() && (forall|k: int|
            0 <= k < t.len() ==> full[full.len() - t.len() + k] == #[trigger] t[k]) {
            assert(full.skip(full.len() - t.len()) =~= t);
        }
    }
}

/// A text ends with a word if its last bytes are the word's.
pub proof fn law_what_a_text_ends_with(s: Seq<u8>, t: Seq<u8>)
    ensures
        ends_with(s, t) <==> t.len() <= s.len() && forall|k: int|
            0 <= k < t.len() ==> s[s.len() - t.len() + k] == #[trigger] t[k],
{
    if t.len() <= s.len() {
        let tail = s.skip(s.len() - t.len());
        if forall|k: int| 0 <= k < t.len() ==> s[s.len() - t.len() + k] == #[trigger] t[k] {
            assert(tail =~= t);
        }
        if tail == t {
            assert forall|k: int| 0 <= k < t.len() implies s[s.len() - t.len() + k]
                == #[trigger] t[k] by {
                assert(tail[k] == s[s.len() - t.len() + k]);
            }
        }
    }
}

} // verus!
