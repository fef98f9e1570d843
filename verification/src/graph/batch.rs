//! A batch of tokens of one or several sequences.
use vstd::prelude::*;

verus! {

/// Tokens with their positions and the sequences that they belong to. The
/// tokens of a sequence stand together.
pub struct Batch {
    pub tokens: Vec<u32>,
    pub positions: Vec<usize>,
    pub seq_ids: Vec<u32>,
}

/// A run of tokens of one sequence: `[start, end)`.
#[derive(Debug, Clone, Copy, PartialEq, Eq, Structural)]
pub struct Group {
    pub seq: u32,
    pub start: usize,
    pub end: usize,
}

/// The runs of equal ids among the first `n`.
pub open spec fn runs(ids: Seq<u32>, n: int) -> Seq<Group>
    decreases n,
{
    if n <= 0 {
        Seq::empty()
    } else {
        let before = runs(ids, n - 1);
        if n >= 2 && ids[n - 2] == ids[n - 1] {
            before.update(before.len() - 1, Group { end: n as usize, ..before.last() })
        } else {
            before.push(Group { seq: ids[n - 1], start: (n - 1) as usize, end: n as usize })
        }
    }
}

/// Why a batch is malformed.
#[derive(Debug, Clone, Copy, PartialEq, Eq, Structural)]
pub enum BatchError {
    /// It has no tokens.
    Empty,
    /// Tokens, positions and sequences differ in number.
    Lengths,
    /// The tokens of a sequence do not stand together.
    Scattered,
}

proof fn lemma_runs(ids: Seq<u32>, n: int)
    requires
        0 <= n <= ids.len(),
        n <= usize::MAX,
    ensures
        n > 0 ==> runs(ids, n).len() > 0 && runs(ids, n).last().seq == ids[n - 1] && runs(
            ids,
            n,
        ).last().end == n,
        runs(ids, n).len() <= n,
        forall|g: int|
            0 <= g < runs(ids, n).len() ==> (#[trigger] runs(ids, n)[g]).start < runs(ids, n)[g].end
                <= n,
    decreases n,
{
    if n > 0 {
        lemma_runs(ids, n - 1);
    }
}

/// Whether two runs belong to different sequences.
pub open spec fn runs_distinct(gs: Seq<Group>) -> bool {
    forall|i: int, j: int| 0 <= i < j < gs.len() ==> (#[trigger] gs[i]).seq != (#[trigger] gs[j]).seq
}

impl Batch {
    /// Number of tokens.
    pub open spec fn size(&self) -> nat {
        self.tokens@.len()
    }

    /// The runs of the batch.
    pub open spec fn groups_spec(&self) -> Seq<Group> {
        runs(self.seq_ids@, self.seq_ids@.len() as int)
    }

    /// What is wrong with the batch, if anything.
    pub open spec fn check_spec(&self) -> Result<(), BatchError> {
        if self.tokens@.len() == 0 {
            Err(BatchError::Empty)
        } else if self.positions@.len() != self.tokens@.len() || self.seq_ids@.len()
            != self.tokens@.len() {
            Err(BatchError::Lengths)
        } else if !runs_distinct(self.groups_spec()) {
            Err(BatchError::Scattered)
        } else {
            Ok(())
        }
    }

    /// A batch of the given tokens.
    pub fn new(tokens: Vec<u32>, positions: Vec<usize>, seq_ids: Vec<u32>) -> (b: Batch)
        ensures
            b.tokens == tokens,
            b.positions == positions,
            b.seq_ids == seq_ids,
    {
        Batch { tokens, positions, seq_ids }
    }

    /// A batch of one sequence.
    pub fn single(tokens: &Vec<u32>, positions: &Vec<usize>) -> (b: Batch)
        ensures
            b.tokens@ == tokens@,
            b.positions@ == positions@,
            b.seq_ids@ == Seq::new(tokens@.len(), |i: int| 0u32),
    {
        let mut seq_ids: Vec<u32> = Vec::new();
        let mut i: usize = 0;
        while i < tokens.len()
            invariant
                i <= tokens@.len(),
                seq_ids@ == Seq::new(i as nat, |k: int| 0u32),
            decreases tokens@.len() - i,
        {
            seq_ids.push(0);
            assert(seq_ids@ =~= Seq::new((i + 1) as nat, |k: int| 0u32));
            i = i + 1;
        }
        Batch { tokens: tokens.clone(), positions: positions.clone(), seq_ids }
    }

    /// Number of tokens.
    pub fn len(&self) -> (n: usize)
        ensures
            n == self.size(),
    {
        self.tokens.len()
    }

    /// The runs of tokens, in batch order.
    pub fn groups(&self) -> (gs: Vec<Group>)
        ensures
            gs@ == self.groups_spec(),
    {
        let n: usize = self.seq_ids.len();
        let mut gs: Vec<Group> = Vec::new();
        let mut i: usize = 0;
        while i < n
            invariant
                i <= n,
                n == self.seq_ids@.len(),
                gs@ == runs(self.seq_ids@, i as int),
            decreases n - i,
        {
            proof {
                lemma_runs(self.seq_ids@, i as int);
            }
            if i >= 1 && self.seq_ids[i - 1] == self.seq_ids[i] {
                let last: usize = gs.len() - 1;
                let g: Group = gs[last];
                gs.set(last, Group { seq: g.seq, start: g.start, end: i + 1 });
            } else {
                gs.push(Group { seq: self.seq_ids[i], start: i, end: i + 1 });
            }
            i = i + 1;
        }
        gs
    }

    /// Number of sequences.
    pub fn n_seqs(&self) -> (n: usize)
        ensures
            n == self.groups_spec().len(),
    {
        self.groups().len()
    }

    /// Whether the batch is well formed.
    pub fn check(&self) -> (r: Result<(), BatchError>)
        ensures
            r == self.check_spec(),
    {
        if self.tokens.len() == 0 {
            return Err(BatchError::Empty);
        }
        if self.positions.len() != self.tokens.len() || self.seq_ids.len() != self.tokens.len() {
            return Err(BatchError::Lengths);
        }
        let gs: Vec<Group> = self.groups();
        let mut i: usize = 0;
        while i < gs.len()
            invariant
                i <= gs@.len(),
                gs@ == self.groups_spec(),
                self.tokens@.len() != 0,
                self.positions@.len() == self.tokens@.len(),
                self.seq_ids@.len() == self.tokens@.len(),
                forall|a: int, b: int|
                    0 <= a < i && a < b < gs@.len() ==> (#[trigger] gs@[a]).seq != (
                    #[trigger] gs@[b]).seq,
            decreases gs@.len() - i,
        {
            let mut j: usize = i + 1;
            while j < gs.len()
                invariant
                    i < j <= gs@.len(),
                    gs@ == self.groups_spec(),
                    self.tokens@.len() != 0,
                    self.positions@.len() == self.tokens@.len(),
                    self.seq_ids@.len() == self.tokens@.len(),
                    forall|b: int| i < b < j ==> gs@[i as int].seq != (#[trigger] gs@[b]).seq,
                decreases gs@.len() - j,
            {
                if gs[i].seq == gs[j].seq {
                    return Err(BatchError::Scattered);
                }
                j = j + 1;
            }
            i = i + 1;
        }
        Ok(())
    }

    /// The rows whose logits are wanted: of one sequence the last `n_out`, of
    /// several the last of each.
    pub open spec fn out_rows_spec(&self, n_out: int) -> Seq<u32> {
        let gs = self.groups_spec();
        if gs.len() > 1 {
            gs.map_values(|g: Group| (g.end - 1) as u32)
        } else {
            Seq::new(n_out as nat, |i: int| (self.size() - n_out + i) as u32)
        }
    }

    /// The rows whose logits are wanted.
    pub fn out_rows(&self, n_out: usize) -> (rows: Vec<u32>)
        requires
            self.groups_spec().len() <= 1 ==> n_out <= self.size(),
        ensures
            rows@ == self.out_rows_spec(n_out as int),
    {
        let gs: Vec<Group> = self.groups();
        let mut rows: Vec<u32> = Vec::new();
        if gs.len() > 1 {
            let mut i: usize = 0;
            let ghost want = self.out_rows_spec(n_out as int);
            let n_ids: usize = self.seq_ids.len();
            proof {
                lemma_runs(self.seq_ids@, n_ids as int);
            }
            while i < gs.len()
                invariant
                    i <= gs@.len(),
                    gs@ == self.groups_spec(),
                    want == gs@.map_values(|g: Group| (g.end - 1) as u32),
                    forall|g: int| 0 <= g < gs@.len() ==> (#[trigger] gs@[g]).end > 0,
                    rows@ == want.take(i as int),
                decreases gs@.len() - i,
            {
                assert(gs@[i as int].end > 0);
                rows.push((gs[i].end - 1) as u32);
                assert(want.take(i + 1) =~= want.take(i as int).push(want[i as int]));
                i = i + 1;
            }
            assert(want.take(i as int) =~= want);
        } else {
            let nt: usize = self.tokens.len();
            let mut i: usize = 0;
            let ghost want = self.out_rows_spec(n_out as int);
            while i < n_out
                invariant
                    i <= n_out <= nt,
                    nt == self.size(),
                    want == Seq::new(
                        n_out as nat,
                        |i: int| (self.size() - n_out + i) as u32,
                    ),
                    rows@ == want.take(i as int),
                decreases n_out - i,
            {
                rows.push((nt - n_out + i) as u32);
                assert(want.take(i + 1) =~= want.take(i as int).push(want[i as int]));
                i = i + 1;
            }
            assert(want.take(i as int) =~= want);
        }
        rows
    }
}

proof fn lemma_constant_run(ids: Seq<u32>, n: int, v: u32)
    requires
        0 < n <= ids.len(),
        n <= usize::MAX,
        forall|i: int| 0 <= i < ids.len() ==> #[trigger] ids[i] == v,
    ensures
        runs(ids, n) == seq![Group { seq: v, start: 0, end: n as usize }],
    decreases n,
{
    if n > 1 {
        lemma_constant_run(ids, n - 1, v);
        assert(ids[n - 2] == v && ids[n - 1] == v);
        assert(runs(ids, n) =~= seq![Group { seq: v, start: 0, end: n as usize }]);
    } else {
        assert(runs(ids, 0) =~= Seq::<Group>::empty());
        assert(ids[0] == v);
        assert(runs(ids, 1) =~= seq![Group { seq: v, start: 0, end: 1 }]);
    }
}

/// The runs of a batch are its tokens cut where the sequence changes: they lie side by
/// side from the first token to the last, all tokens of a run are of its sequence, and
/// the sequence changes from one run to the next.
pub proof fn law_runs_cut_where_the_sequence_changes(ids: Seq<u32>, n: int)
    requires
        0 < n <= ids.len(),
        n <= usize::MAX,
    ensures
        ({
            let gs = runs(ids, n);
            &&& gs.len() > 0
            &&& gs[0].start == 0
            &&& gs.last().end == n
            &&& forall|g: int| 0 <= g < gs.len() ==> (#[trigger] gs[g]).start < gs[g].end <= n
            &&& forall|g: int, h: int|
                0 <= g < h < gs.len() ==> (#[trigger] gs[g]).end <= (#[trigger] gs[h]).start
            &&& forall|g: int, h: int|
                0 <= g && h == g + 1 && h < gs.len() ==> (#[trigger] gs[g]).end == (
                #[trigger] gs[h]).start && gs[g].seq != gs[h].seq
            &&& forall|g: int, i: int|
                0 <= g < gs.len() && gs[g].start <= i < gs[g].end ==> #[trigger] ids[i] == (
                #[trigger] gs[g]).seq
        }),
    decreases n,
{
    lemma_runs(ids, n);
    if n > 1 {
        law_runs_cut_where_the_sequence_changes(ids, n - 1);
        let before = runs(ids, n - 1);
        let gs = runs(ids, n);
        lemma_runs(ids, n - 1);
        if ids[n - 2] == ids[n - 1] {
            assert(gs.last().start == before.last().start);
            assert forall|g: int| 0 <= g < before.len() - 1 implies gs[g] == before[g] by {}
        } else {
            assert forall|g: int| 0 <= g < before.len() implies gs[g] == before[g] by {}
            assert(before[before.len() - 1] == before.last());
        }
    } else {
        assert(runs(ids, 0) =~= Seq::<Group>::empty());
    }
}

proof fn lemma_run_of(ids: Seq<u32>, n: int, i: int) -> (g: int)
    requires
        0 <= i < n <= ids.len(),
        n <= usize::MAX,
    ensures
        0 <= g < runs(ids, n).len(),
        runs(ids, n)[g].start <= i < runs(ids, n)[g].end,
    decreases n,
{
    law_runs_cut_where_the_sequence_changes(ids, n);
    if i == n - 1 {
        runs(ids, n).len() - 1
    } else {
        let g = lemma_run_of(ids, n - 1, i);
        law_runs_cut_where_the_sequence_changes(ids, n - 1);
        g
    }
}

/// A batch is well formed if it has tokens, each with a position and a sequence, and
/// between two tokens of a sequence there is none of another.
pub proof fn law_sequences_stand_together(b: &Batch)
    requires
        b.seq_ids@.len() <= usize::MAX,
    ensures
        b.check_spec() is Ok <==> {
            &&& b.tokens@.len() > 0
            &&& b.positions@.len() == b.tokens@.len()
            &&& b.seq_ids@.len() == b.tokens@.len()
            &&& forall|i: int, j: int, k: int|
                0 <= i < j < k < b.seq_ids@.len() && b.seq_ids@[i] == b.seq_ids@[k]
                    ==> #[trigger] b.seq_ids@[j] == #[trigger] b.seq_ids@[i]
                    && #[trigger] b.seq_ids@[k] == b.seq_ids@[i]
        },
        b.check_spec() == Err::<(), BatchError>(BatchError::Empty) <==> b.tokens@.len() == 0,
        b.check_spec() == Err::<(), BatchError>(BatchError::Lengths) <==> b.tokens@.len() > 0 && (
        b.positions@.len() != b.tokens@.len() || b.seq_ids@.len() != b.tokens@.len()),
{
    let ids = b.seq_ids@;
    let n = ids.len() as int;
    let gs = runs(ids, n);
    if n > 0 {
        law_runs_cut_where_the_sequence_changes(ids, n);
        if runs_distinct(gs) {
            assert forall|i: int, j: int, k: int|
                0 <= i < j < k < n && ids[i] == ids[k] implies #[trigger] ids[j]
                == #[trigger] ids[i] && #[trigger] ids[k] == ids[i] by {
                let a = lemma_run_of(ids, n, i);
                let c = lemma_run_of(ids, n, k);
                assert(ids[i] == gs[a].seq);
                assert(ids[k] == gs[c].seq);
                assert(a == c);
                assert(ids[j] == gs[a].seq);
            }
        } else {
            let (a, c) = choose|a: int, c: int|
                0 <= a < c < gs.len() && (#[trigger] gs[a]).seq == (#[trigger] gs[c]).seq;
            let i = gs[a].start as int;
            let j = gs[a + 1].start as int;
            let k = gs[c].start as int;
            assert(gs[a].seq != gs[a + 1].seq);
            assert(a + 1 < c);
            assert(ids[i] == gs[a].seq);
            assert(ids[j] == gs[a + 1].seq);
            assert(ids[k] == gs[c].seq);
            assert(0 <= i < j < k < n && ids[i] == ids[k] && ids[j] != ids[i]);
        }
    }
}

/// The wanted rows. Of one sequence they are its last ones, in order. Of several each
/// is the last of its sequence: the token behind it, if there is one, is of another.
pub proof fn law_wanted_rows_are_the_last_ones(b: &Batch, n_out: int, i: int)
    requires
        b.check_spec() is Ok,
        b.size() <= u32::MAX,
        b.size() <= usize::MAX,
        b.groups_spec().len() <= 1 ==> 0 <= n_out <= b.size(),
        0 <= i < b.out_rows_spec(n_out).len(),
    ensures
        ({
            let ids = b.seq_ids@;
            let rows = b.out_rows_spec(n_out);
            let one = forall|j: int| 0 <= j < ids.len() ==> #[trigger] ids[j] == b.seq_ids@.first();
            let last = rows.len() - 1;
            &&& rows[i] < b.size()
            &&& rows[last] == b.size() - 1
            &&& i < last ==> rows[i] < rows[i + 1]
            &&& one ==> rows.len() == n_out && rows[i] + (last - i) == b.size() - 1
            &&& !one ==> rows.len() == b.groups_spec().len() && ids[rows[i] as int]
                == b.groups_spec()[i].seq && (rows[i] + 1 < ids.len() ==> ids[rows[i] + 1]
                != ids[rows[i] as int])
        }),
{
    let ids = b.seq_ids@;
    let n = ids.len() as int;
    let gs = b.groups_spec();
    law_runs_cut_where_the_sequence_changes(ids, n);
    let one = forall|j: int| 0 <= j < ids.len() ==> #[trigger] ids[j] == b.seq_ids@.first();
    if one {
        lemma_constant_run(ids, n, ids.first());
    } else if gs.len() == 1 {
        assert forall|j: int| 0 <= j < ids.len() implies #[trigger] ids[j] == b.seq_ids@.first() by {
            assert(ids[j] == gs[0].seq);
            assert(ids[0] == gs[0].seq);
        }
    } else {
        let rows = b.out_rows_spec(n_out);
        assert(rows[i] == gs[i].end - 1);
        assert(rows[rows.len() - 1] == gs[gs.len() - 1].end - 1);
        assert(ids[gs[i].end - 1] == gs[i].seq);
        if i + 1 < gs.len() {
            assert(gs[i].end == gs[i + 1].start);
            assert(ids[gs[i + 1].start as int] == gs[i + 1].seq);
        }
    }
}

/// A batch of one sequence is well formed and one group.
pub proof fn law_single_is_one_sequence(b: &Batch)
    requires
        b.tokens@.len() > 0,
        b.tokens@.len() <= usize::MAX,
        b.positions@.len() == b.tokens@.len(),
        b.seq_ids@ == Seq::new(b.tokens@.len(), |i: int| 0u32),
    ensures
        b.groups_spec().len() == 1,
        b.check_spec() is Ok,
{
    lemma_constant_run(b.seq_ids@, b.tokens@.len() as int, 0);
}

/// A well-formed batch has a run.
pub proof fn lemma_some_run(b: &Batch)
    requires
        b.check_spec() is Ok,
        b.size() <= usize::MAX,
    ensures
        b.groups_spec().len() > 0,
{
    lemma_runs(b.seq_ids@, b.seq_ids@.len() as int);
}

/// Whether two runs hold the same tokens at the same positions of the same sequence.
pub open spec fn same_run(a: &Batch, b: &Batch, ga: Group, gb: Group) -> bool {
    &&& ga.seq == gb.seq
    &&& ga.end - ga.start == gb.end - gb.start
    &&& forall|k: int|
        0 <= k < gb.end - gb.start ==> a.tokens@[ga.start + k] == #[trigger] b.tokens@[gb.start + k]
    &&& forall|k: int|
        0 <= k < gb.end - gb.start ==> a.positions@[ga.start + k]
            == #[trigger] b.positions@[gb.start + k]
}

/// Whether `b` is `a` with its sequences in another order: sequence `j` of `b` is
/// sequence `order[j]` of `a`.
pub open spec fn reordered(a: &Batch, b: &Batch, order: Seq<int>) -> bool {
    let ga = a.groups_spec();
    let gb = b.groups_spec();
    &&& a.check_spec() is Ok
    &&& b.check_spec() is Ok
    &&& a.size() == b.size()
    &&& order.len() == gb.len()
    &&& ga.len() == gb.len()
    &&& order.no_duplicates()
    &&& forall|j: int|
        0 <= j < order.len() ==> 0 <= #[trigger] order[j] < ga.len() && same_run(
            a,
            b,
            ga[order[j]],
            gb[j],
        )
}

/// Reordering the sequences of a batch reorders its rows: as many are wanted, and the
/// row of each sequence holds the same token at the same position. Of several sequences
/// the wanted rows stand in the order of the sequences.
pub proof fn law_order_moves_rows(a: &Batch, b: &Batch, order: Seq<int>, n_out: int, j: int)
    requires
        reordered(a, b, order),
        a.size() <= usize::MAX,
        0 <= j < order.len(),
    ensures
        ({
            let ga = a.groups_spec()[order[j]];
            let gb = b.groups_spec()[j];
            &&& a.out_rows_spec(n_out).len() == b.out_rows_spec(n_out).len()
            &&& ga.start < ga.end <= a.size()
            &&& gb.start < gb.end <= b.size()
            &&& a.tokens@[ga.end - 1] == b.tokens@[gb.end - 1]
            &&& a.positions@[ga.end - 1] == b.positions@[gb.end - 1]
            &&& order.len() > 1 ==> a.out_rows_spec(n_out)[order[j]] == (ga.end - 1) as u32
                && b.out_rows_spec(n_out)[j] == (gb.end - 1) as u32
            &&& order.len() <= 1 ==> a.out_rows_spec(n_out) == b.out_rows_spec(n_out)
        }),
{
    lemma_runs(a.seq_ids@, a.seq_ids@.len() as int);
    lemma_runs(b.seq_ids@, b.seq_ids@.len() as int);
    let ga = a.groups_spec()[order[j]];
    let gb = b.groups_spec()[j];
    assert(same_run(a, b, ga, gb));
    let k = gb.end - gb.start - 1;
    assert(a.tokens@[ga.start + k] == b.tokens@[gb.start + k]);
    assert(a.positions@[ga.start + k] == b.positions@[gb.start + k]);
}

} // verus!
