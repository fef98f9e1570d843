//! Where the values of a graph's nodes live while it runs.
//!
//! A node has at most one canonical buffer. A value that crosses from one
//! backend to another is copied into a staging buffer first: the copy is
//! enqueued, later waited for, and only then readable.
use crate::graph::{Backend, NodeId};
use vstd::prelude::*;

verus! {

/// A window of a pooled buffer: `len` elements from `offset` on.
#[derive(Debug, Clone, Copy, PartialEq, Eq, Structural)]
pub struct BufRef {
    pub backend: Backend,
    pub id: usize,
    pub offset: usize,
    pub len: usize,
}

/// The persistent key and value regions of one layer.
#[derive(Debug, Clone, Copy, PartialEq, Eq, Structural)]
pub struct KvPair {
    pub k: BufRef,
    pub v: BufRef,
}

/// A copy of a node's value for consumers on another backend.
#[derive(Debug, Clone, Copy, PartialEq, Eq, Structural)]
pub struct CrossEntry {
    pub uid: u64,
    pub node: NodeId,
    pub to: Backend,
    pub buf: BufRef,
    /// The copy was enqueued and not yet waited for.
    pub pending: bool,
}

/// The buffers of one graph.
pub struct GraphAllocator {
    pub node_bufs: Vec<Option<BufRef>>,
    pub cross: Vec<CrossEntry>,
    pub kv: Vec<Option<KvPair>>,
    /// Every token's row is its position.
    pub kv_identity: bool,
    pub metal_enabled: bool,
    pub cuda_enabled: bool,
}

/// Why a value cannot be read.
#[derive(Debug, Clone, Copy, PartialEq, Eq, Structural)]
pub enum ReadError {
    /// The node was given no buffer.
    NoBuffer { node: NodeId },
    /// The staged copy was not waited for.
    CrossPending { node: NodeId, to: Backend },
}

/// Whether an entry is the copy of `node` of graph `uid` for backend `to`.
pub open spec fn keyed(e: CrossEntry, uid: u64, node: usize, to: Backend) -> bool {
    e.uid == uid && e.node == node && e.to == to
}

/// The first entry for a key.
pub open spec fn cross_lookup(
    entries: Seq<CrossEntry>,
    uid: u64,
    node: usize,
    to: Backend,
) -> Option<CrossEntry>
    decreases entries.len(),
{
    if entries.len() == 0 {
        None
    } else {
        match cross_lookup(entries.drop_last(), uid, node, to) {
            Some(e) => Some(e),
            None => if keyed(entries.last(), uid, node, to) {
                Some(entries.last())
            } else {
                None
            },
        }
    }
}

/// The buffer of a node, if it was given one.
pub open spec fn buffer_of(bufs: Seq<Option<BufRef>>, id: int) -> Option<BufRef> {
    if 0 <= id < bufs.len() {
        bufs[id]
    } else {
        None
    }
}

/// The regions of a layer, if they exist.
pub open spec fn kv_of(kv: Seq<Option<KvPair>>, layer: int) -> Option<KvPair> {
    if 0 <= layer < kv.len() {
        kv[layer]
    } else {
        None
    }
}

/// What a consumer on backend `to` reads: a staged copy made for that backend
/// wins over the canonical buffer, and must have been waited for.
pub open spec fn source_of(
    a: &GraphAllocator,
    uid: u64,
    node: usize,
    to: Backend,
) -> Result<BufRef, ReadError> {
    match cross_lookup(a.cross@, uid, node, to) {
        Some(e) => if e.pending {
            Err(ReadError::CrossPending { node, to })
        } else {
            Ok(e.buf)
        },
        None => match buffer_of(a.node_bufs@, node as int) {
            Some(b) => Ok(b),
            None => Err(ReadError::NoBuffer { node }),
        },
    }
}

proof fn lemma_lookup_at(entries: Seq<CrossEntry>, i: int, uid: u64, node: usize, to: Backend)
    requires
        0 <= i < entries.len(),
        keyed(entries[i], uid, node, to),
        forall|k: int| 0 <= k < i ==> !keyed(#[trigger] entries[k], uid, node, to),
    ensures
        cross_lookup(entries, uid, node, to) == Some(entries[i]),
    decreases entries.len(),
{
    if i == entries.len() - 1 {
        lemma_lookup_none(entries.drop_last(), uid, node, to);
    } else {
        lemma_lookup_at(entries.drop_last(), i, uid, node, to);
    }
}

proof fn lemma_lookup_none(entries: Seq<CrossEntry>, uid: u64, node: usize, to: Backend)
    requires
        forall|k: int| 0 <= k < entries.len() ==> !keyed(#[trigger] entries[k], uid, node, to),
    ensures
        cross_lookup(entries, uid, node, to) is None,
    decreases entries.len(),
{
    if entries.len() > 0 {
        lemma_lookup_none(entries.drop_last(), uid, node, to);
    }
}

/// Replacing an entry by one with the same key changes no other key.
proof fn lemma_lookup_other(
    a: Seq<CrossEntry>,
    i: int,
    e: CrossEntry,
    uid: u64,
    node: usize,
    to: Backend,
)
    requires
        0 <= i < a.len(),
        !keyed(a[i], uid, node, to),
        !keyed(e, uid, node, to),
    ensures
        cross_lookup(a.update(i, e), uid, node, to) == cross_lookup(a, uid, node, to),
    decreases a.len(),
{
    let b = a.update(i, e);
    if i == a.len() - 1 {
        assert(b.drop_last() =~= a.drop_last());
    } else {
        assert(b.drop_last() =~= a.drop_last().update(i, e));
        lemma_lookup_other(a.drop_last(), i, e, uid, node, to);
    }
}

impl GraphAllocator {
    /// No buffers, no regions, the host backend alone.
    pub fn new() -> (a: GraphAllocator)
        ensures
            a.node_bufs@.len() == 0,
            a.cross@.len() == 0,
            a.kv@.len() == 0,
            a.kv_identity,
            !a.metal_enabled,
            !a.cuda_enabled,
    {
        GraphAllocator {
            node_bufs: Vec::new(),
            cross: Vec::new(),
            kv: Vec::new(),
            kv_identity: true,
            metal_enabled: false,
            cuda_enabled: false,
        }
    }

    /// Whether every token's row is its position.
    pub fn kv_is_identity(&self) -> (r: bool)
        ensures
            r == self.kv_identity,
    {
        self.kv_identity
    }

    /// From now on rows are resolved, no longer taken from positions.
    pub fn kv_clear_identity(&mut self)
        ensures
            *final(self) == (GraphAllocator { kv_identity: false, ..*old(self) }),
    {
        self.kv_identity = false;
    }

    /// Whether a backend can run nodes.
    pub fn backend_enabled(&self, backend: Backend) -> (r: bool)
        ensures
            r == match backend {
                Backend::CPU => true,
                Backend::METAL => self.metal_enabled,
                Backend::CUDA => self.cuda_enabled,
            },
    {
        match backend {
            Backend::CPU => true,
            Backend::METAL => self.metal_enabled,
            Backend::CUDA => self.cuda_enabled,
        }
    }

    /// The canonical buffer of a node. A node that nothing reads has none.
    pub fn node_buffer(&self, id: NodeId) -> (r: Option<BufRef>)
        ensures
            r == buffer_of(self.node_bufs@, id as int),
    {
        if id < self.node_bufs.len() {
            self.node_bufs[id]
        } else {
            None
        }
    }

    /// The key and value regions of a layer.
    pub fn kv_pair(&self, layer: usize) -> (r: Option<KvPair>)
        ensures
            r == kv_of(self.kv@, layer as int),
    {
        if layer < self.kv.len() {
            self.kv[layer]
        } else {
            None
        }
    }

    fn find_cross(&self, uid: u64, node: NodeId, to: Backend) -> (r: Option<usize>)
        ensures
            match r {
                Some(i) => {
                    &&& i < self.cross@.len()
                    &&& keyed(self.cross@[i as int], uid, node, to)
                    &&& forall|k: int| 0 <= k < i ==> !keyed(#[trigger] self.cross@[k], uid, node, to)
                    &&& cross_lookup(self.cross@, uid, node, to) == Some(self.cross@[i as int])
                },
                None => cross_lookup(self.cross@, uid, node, to) is None && (forall|k: int|
                    0 <= k < self.cross@.len() ==> !keyed(#[trigger] self.cross@[k], uid, node, to)),
            },
    {
        let mut i: usize = 0;
        while i < self.cross.len()
            invariant
                i <= self.cross@.len(),
                forall|k: int| 0 <= k < i ==> !keyed(#[trigger] self.cross@[k], uid, node, to),
            decreases self.cross@.len() - i,
        {
            let e: CrossEntry = self.cross[i];
            if e.uid == uid && e.node == node && e.to == to {
                proof {
                    lemma_lookup_at(self.cross@, i as int, uid, node, to);
                }
                return Some(i);
            }
            i = i + 1;
        }
        proof {
            lemma_lookup_none(self.cross@, uid, node, to);
        }
        None
    }

    /// Records that a copy of `node` for backend `to` was enqueued into `buf`.
    /// It is unreadable until it has been waited for.
    pub fn stage_cross(&mut self, uid: u64, node: NodeId, to: Backend, buf: BufRef)
        ensures
            cross_lookup(final(self).cross@, uid, node, to) == Some(
                CrossEntry { uid, node, to, buf, pending: true },
            ),
            forall|u: u64, n: usize, b: Backend|
                !(u == uid && n == node && b == to) ==> #[trigger] cross_lookup(
                    final(self).cross@,
                    u,
                    n,
                    b,
                ) == cross_lookup(old(self).cross@, u, n, b),
            final(self).node_bufs@ == old(self).node_bufs@,
            final(self).kv@ == old(self).kv@,
            final(self).kv_identity == old(self).kv_identity,
            final(self).metal_enabled == old(self).metal_enabled,
            final(self).cuda_enabled == old(self).cuda_enabled,
    {
        let e: CrossEntry = CrossEntry { uid, node, to, buf, pending: true };
        let ghost before = self.cross@;
        match self.find_cross(uid, node, to) {
            Some(i) => {
                self.cross.set(i, e);
                proof {
                    lemma_lookup_at(self.cross@, i as int, uid, node, to);
                    assert forall|u: u64, n: usize, b: Backend|
                        !(u == uid && n == node && b == to) implies #[trigger] cross_lookup(
                        self.cross@,
                        u,
                        n,
                        b,
                    ) == cross_lookup(before, u, n, b) by {
                        lemma_lookup_other(before, i as int, e, u, n, b);
                    }
                }
            },
            None => {
                self.cross.push(e);
                assert(self.cross@.drop_last() =~= before);
            },
        }
    }

    /// Records that the copy of `node` for backend `to` was waited for.
    pub fn await_cross(&mut self, uid: u64, node: NodeId, to: Backend)
        ensures
            cross_lookup(final(self).cross@, uid, node, to) == match cross_lookup(
                old(self).cross@,
                uid,
                node,
                to,
            ) {
                None => None,
                Some(e) => Some(CrossEntry { pending: false, ..e }),
            },
            forall|u: u64, n: usize, b: Backend|
                !(u == uid && n == node && b == to) ==> #[trigger] cross_lookup(
                    final(self).cross@,
                    u,
                    n,
                    b,
                ) == cross_lookup(old(self).cross@, u, n, b),
            final(self).node_bufs@ == old(self).node_bufs@,
            final(self).kv@ == old(self).kv@,
            final(self).kv_identity == old(self).kv_identity,
            final(self).metal_enabled == old(self).metal_enabled,
            final(self).cuda_enabled == old(self).cuda_enabled,
    {
        let ghost before = self.cross@;
        match self.find_cross(uid, node, to) {
            None => {},
            Some(i) => {
                let old_entry: CrossEntry = self.cross[i];
                let e: CrossEntry = CrossEntry {
                    uid: old_entry.uid,
                    node: old_entry.node,
                    to: old_entry.to,
                    buf: old_entry.buf,
                    pending: false,
                };
                self.cross.set(i, e);
                proof {
                    lemma_lookup_at(self.cross@, i as int, uid, node, to);
                    assert forall|u: u64, n: usize, b: Backend|
                        !(u == uid && n == node && b == to) implies #[trigger] cross_lookup(
                        self.cross@,
                        u,
                        n,
                        b,
                    ) == cross_lookup(before, u, n, b) by {
                        lemma_lookup_other(before, i as int, e, u, n, b);
                    }
                }
            },
        }
    }

    /// The staged copy of `node` for backend `to`, if there is one; an error if
    /// it was not waited for.
    pub fn cross_input(&self, uid: u64, node: NodeId, to: Backend) -> (r: Result<
        Option<BufRef>,
        ReadError,
    >)
        ensures
            r == match cross_lookup(self.cross@, uid, node, to) {
                None => Ok(None),
                Some(e) => if e.pending {
                    Err(ReadError::CrossPending { node, to })
                } else {
                    Ok(Some(e.buf))
                },
            },
    {
        match self.find_cross(uid, node, to) {
            None => Ok(None),
            Some(i) => {
                let e: CrossEntry = self.cross[i];
                if e.pending {
                    Err(ReadError::CrossPending { node, to })
                } else {
                    Ok(Some(e.buf))
                }
            },
        }
    }

    /// What a consumer of `node` on backend `to` reads.
    pub fn source(&self, uid: u64, node: NodeId, to: Backend) -> (r: Result<BufRef, ReadError>)
        ensures
            r == source_of(self, uid, node, to),
    {
        match self.cross_input(uid, node, to) {
            Err(e) => Err(e),
            Ok(Some(b)) => Ok(b),
            Ok(None) => match self.node_buffer(node) {
                Some(b) => Ok(b),
                None => Err(ReadError::NoBuffer { node }),
            },
        }
    }
}

/// Cuts a host read of a pooled buffer down to the elements that a node owns:
/// pooled buffers are rounded up, and the rest holds stale data. `None` if the
/// read is too short.
pub fn window_of<T>(br: BufRef, data: &[T]) -> (r: Option<&[T]>)
    ensures
        r is Some <==> br.offset + br.len <= data@.len(),
        r matches Some(w) ==> w@ == data@.subrange(br.offset as int, br.offset + br.len),
{
    let n: usize = data.len();
    match br.offset.checked_add(br.len) {
        None => None,
        Some(end) => {
            if end <= n {
                Some(vstd::slice::slice_subrange(data, br.offset, end))
            } else {
                None
            }
        },
    }
}

/// A staged copy cannot be read before its wait: after it was enqueued every
/// read for that backend is refused, and after the wait it gives the copy.
pub proof fn law_no_read_before_wait(
    staged: &GraphAllocator,
    awaited: &GraphAllocator,
    uid: u64,
    node: usize,
    to: Backend,
    buf: BufRef,
)
    requires
        cross_lookup(staged.cross@, uid, node, to) == Some(
            CrossEntry { uid, node, to, buf, pending: true },
        ),
        cross_lookup(awaited.cross@, uid, node, to) == match cross_lookup(
            staged.cross@,
            uid,
            node,
            to,
        ) {
            None => None,
            Some(e) => Some(CrossEntry { pending: false, ..e }),
        },
    ensures
        source_of(staged, uid, node, to) == Err::<BufRef, ReadError>(
            ReadError::CrossPending { node, to },
        ),
        source_of(awaited, uid, node, to) == Ok::<BufRef, ReadError>(buf),
{
}

/// A copy is found by graph, node and target, the first one if there are several.
pub proof fn law_first_copy_counts(
    entries: Seq<CrossEntry>,
    uid: u64,
    node: usize,
    to: Backend,
)
    ensures
        match cross_lookup(entries, uid, node, to) {
            Some(e) => e.uid == uid && e.node == node && e.to == to && exists|i: int|
                0 <= i < entries.len() && #[trigger] entries[i] == e && forall|k: int|
                    0 <= k < i ==> !((#[trigger] entries[k]).uid == uid && entries[k].node == node
                        && entries[k].to == to),
            None => forall|k: int|
                0 <= k < entries.len() ==> !((#[trigger] entries[k]).uid == uid && entries[k].node
                    == node && entries[k].to == to),
        },
    decreases entries.len(),
{
    if entries.len() > 0 {
        let less = entries.drop_last();
        law_first_copy_counts(less, uid, node, to);
        assert forall|k: int| 0 <= k < less.len() implies entries[k] == less[k] by {}
        if cross_lookup(less, uid, node, to) is Some {
            let e = cross_lookup(less, uid, node, to)->0;
            let i = choose|i: int|
                0 <= i < less.len() && #[trigger] less[i] == e && forall|k: int|
                    0 <= k < i ==> !((#[trigger] less[k]).uid == uid && less[k].node == node
                        && less[k].to == to);
            assert(entries[i] == e);
        } else if keyed(entries.last(), uid, node, to) {
            assert(entries[entries.len() - 1] == entries.last());
        }
    }
}

/// A source is read from its copy where there is one, and only once that has been waited
/// for; else from the node's own buffer, if it has one.
pub proof fn law_where_a_source_is_read(a: &GraphAllocator, uid: u64, node: usize, to: Backend)
    ensures
        ({
            let copy = cross_lookup(a.cross@, uid, node, to);
            let r = source_of(a, uid, node, to);
            let own = node < a.node_bufs@.len() && a.node_bufs@[node as int] is Some;
            &&& copy is Some && !copy->0.pending ==> r == Ok::<BufRef, ReadError>(copy->0.buf)
            &&& copy is Some && copy->0.pending ==> r == Err::<BufRef, ReadError>(
                ReadError::CrossPending { node, to },
            )
            &&& copy is None && own ==> r == Ok::<BufRef, ReadError>(
                a.node_bufs@[node as int]->0,
            )
            &&& copy is None && !own ==> r == Err::<BufRef, ReadError>(
                ReadError::NoBuffer { node },
            )
        }),
{
}

} // verus!
