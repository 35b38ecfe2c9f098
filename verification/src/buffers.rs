//! Imported client buffers and fence-based release tracking.
//!
//! An imported buffer is logically owned by the client that produced it until
//! the core signals release. The core tracks, per buffer, the set of
//! outstanding frame fences that reference it, and the release notification
//! fires only once every one of those fences has completed — and it fires
//! exactly once, since a fired buffer leaves the tracker and later imports
//! take identifiers never used before.

use vstd::prelude::*;

use crate::surface::PixelFormat;

verus! {

/// Identifier of an imported buffer; assigned by the tracker, never reused.
#[derive(Clone, Copy, Debug, PartialEq, Eq, Hash, Structural)]
pub struct BufferId(pub u64);

/// Description of a DMA-transferable buffer handed in for import.
#[derive(Clone, Copy, Debug, PartialEq, Eq, Structural)]
pub struct DmaBufImportInfo {
    /// The DMA-transferable handle, as the platform hands it over.
    pub fd: i32,
    pub width: u32,
    pub height: u32,
    pub format: PixelFormat,
    /// The layout modifier of the buffer's memory.
    pub modifier: u64,
}

/// One imported buffer the core still tracks.
#[derive(Debug)]
pub struct ImportedBuffer {
    pub id: BufferId,
    pub info: DmaBufImportInfo,
    /// The outstanding frame fences that reference this buffer.
    pub fences: Vec<u64>,
    /// Whether the client has asked for release once the fences complete.
    pub release_scheduled: bool,
}

/// The release tracker over every imported buffer.
#[derive(Debug)]
pub struct BufferTracker {
    pub buffers: Vec<ImportedBuffer>,
    /// The identifier the next import takes; all live identifiers lie
    /// below it.
    pub next_buffer_id: u64,
}

/// Every element of `s` equals `f`.
pub open spec fn only_fence(s: Seq<u64>, f: u64) -> bool {
    forall|k: int| 0 <= k < s.len() ==> s[k] == f
}

impl BufferTracker {
    /// Identifiers are unique and below the next identifier.
    pub open spec fn wf(self) -> bool {
        &&& forall|i: int, j: int|
            0 <= i < j < self.buffers@.len() ==> self.buffers@[i].id != self.buffers@[j].id
        &&& forall|i: int|
            0 <= i < self.buffers@.len() ==> (self.buffers@[i].id.0 as int)
                < self.next_buffer_id as int
    }

    /// Whether the tracker still tracks `id`.
    pub open spec fn live(self, id: BufferId) -> bool {
        exists|i: int| 0 <= i < self.buffers@.len() && self.buffers@[i].id == id
    }

    /// The index of `id`'s entry (meaningful only while live).
    pub open spec fn idx_of(self, id: BufferId) -> int {
        choose|i: int| 0 <= i < self.buffers@.len() && self.buffers@[i].id == id
    }

    /// The entry of `id` (meaningful only while live).
    pub open spec fn entry(self, id: BufferId) -> ImportedBuffer {
        self.buffers@[self.idx_of(id)]
    }

    /// Whether the outstanding fence `f` references the live buffer `id`.
    pub open spec fn references(self, id: BufferId, f: u64) -> bool {
        self.live(id) && self.entry(id).fences@.contains(f)
    }

    /// An empty tracker.
    pub fn new() -> (r: BufferTracker)
        ensures
            r.wf(),
            r.buffers@.len() == 0,
            r.next_buffer_id == 0,
            forall|b: BufferId| !r.live(b),
    {
        BufferTracker { buffers: Vec::new(), next_buffer_id: 0 }
    }
}

/// The entry at index `k` is the one `entry` names for its identifier.
proof fn lemma_entry_at(t: BufferTracker, k: int)
    requires
        t.wf(),
        0 <= k < t.buffers@.len(),
    ensures
        t.live(t.buffers@[k].id),
        t.idx_of(t.buffers@[k].id) == k,
        t.entry(t.buffers@[k].id) == t.buffers@[k],
{
    let id = t.buffers@[k].id;
    assert(t.live(id));
    let j = t.idx_of(id);
    assert(0 <= j < t.buffers@.len() && t.buffers@[j].id == id);
    if j < k {
        assert(t.buffers@[j].id != t.buffers@[k].id);
    } else if j > k {
        assert(t.buffers@[k].id != t.buffers@[j].id);
    }
}

/// A live identifier lies below the next identifier.
pub proof fn lemma_live_below_next(t: BufferTracker, id: BufferId)
    requires
        t.wf(),
        t.live(id),
    ensures
        (id.0 as int) < t.next_buffer_id as int,
{
    let j = t.idx_of(id);
    assert(0 <= j < t.buffers@.len() && t.buffers@[j].id == id);
}

/// Find the entry of `id`.
fn find_buffer(buffers: &Vec<ImportedBuffer>, id: BufferId) -> (r: Option<usize>)
    ensures
        match r {
            Some(i) => (i as int) < buffers@.len() && buffers@[i as int].id == id,
            None => forall|j: int| 0 <= j < buffers@.len() ==> buffers@[j].id != id,
        },
{
    let mut i: usize = 0;
    while i < buffers.len()
        invariant
            0 <= i <= buffers@.len(),
            forall|j: int| 0 <= j < i ==> buffers@[j].id != id,
        decreases buffers@.len() - i,
    {
        if buffers[i].id.0 == id.0 {
            return Some(i);
        }
        i += 1;
    }
    None
}

/// Whether `v` holds `f`.
fn contains_u64(v: &Vec<u64>, f: u64) -> (r: bool)
    ensures
        r == v@.contains(f),
{
    let mut i: usize = 0;
    while i < v.len()
        invariant
            0 <= i <= v@.len(),
            forall|j: int| 0 <= j < i ==> v@[j] != f,
        decreases v@.len() - i,
    {
        if v[i] == f {
            proof {
                assert(v@[i as int] == f);
            }
            return true;
        }
        i += 1;
    }
    proof {
        assert(!v@.contains(f));
    }
    false
}

/// An entry after one fence completion: same identity, same release request,
/// the completed fence gone from its fence set.
#[verifier::opaque]
pub open spec fn entry_after_completion(post_e: ImportedBuffer, pre_e: ImportedBuffer, fence: u64) -> bool {
    &&& post_e.id == pre_e.id
    &&& post_e.info == pre_e.info
    &&& post_e.release_scheduled == pre_e.release_scheduled
    &&& forall|f2: u64| #[trigger] post_e.fences@.contains(f2) <==> (pre_e.fences@.contains(f2)
        && f2 != fence)
}

/// The release of an entry fires on this completion: it was scheduled, and
/// every fence still referencing the buffer is the one completing.
#[verifier::opaque]
pub open spec fn release_fires(e: ImportedBuffer, fence: u64) -> bool {
    e.release_scheduled && only_fence(e.fences@, fence)
}

/// How one fence completion transforms the tracker: the fence leaves every
/// fence set; the buffers whose release was scheduled and whose last
/// referencing fence this was leave the tracker and are listed in `fired`.
pub open spec fn complete_fence_rel(
    pre: BufferTracker,
    post: BufferTracker,
    fired: Seq<BufferId>,
    fence: u64,
) -> bool {
    &&& post.next_buffer_id == pre.next_buffer_id
    &&& forall|b: BufferId| #[trigger] fired.contains(b) <==> (pre.live(b) && release_fires(
        pre.entry(b),
        fence,
    ))
    &&& forall|b: BufferId| #[trigger] post.live(b) <==> (pre.live(b) && !release_fires(
        pre.entry(b),
        fence,
    ))
    &&& forall|b: BufferId| #[trigger] post.live(b) ==> entry_after_completion(
        post.entry(b),
        pre.entry(b),
        fence,
    )
}

/// The fences of `v` other than `fence`.
fn remove_fence_value(v: &Vec<u64>, fence: u64) -> (r: Vec<u64>)
    ensures
        forall|f2: u64| #[trigger] r@.contains(f2) <==> (v@.contains(f2) && f2 != fence),
        (r@.len() == 0) == only_fence(v@, fence),
{
    broadcast use vstd::seq_lib::lemma_seq_contains_after_push;

    let mut r: Vec<u64> = Vec::new();
    let mut i: usize = 0;
    while i < v.len()
        invariant
            0 <= i <= v@.len(),
            forall|f2: u64| #[trigger] r@.contains(f2) ==> (v@.contains(f2) && f2 != fence),
            forall|j: int| 0 <= j < i && v@[j] != fence ==> r@.contains(v@[j]),
            (r@.len() == 0) ==> (forall|j: int| 0 <= j < i ==> v@[j] == fence),
        decreases v@.len() - i,
    {
        let ghost prev = r@;
        let x = v[i];
        if x != fence {
            proof {
                assert(v@.contains(v@[i as int])) by {
                    assert(v@[i as int] == v@[i as int]);
                }
            }
            r.push(x);
            proof {
                assert forall|f2: u64| #[trigger] r@.contains(f2) implies (v@.contains(f2) && f2
                    != fence) by {
                    vstd::seq_lib::lemma_seq_contains_after_push(prev, x, f2);
                }
                assert forall|j: int| 0 <= j < i + 1 && v@[j] != fence implies r@.contains(
                    v@[j],
                ) by {
                    vstd::seq_lib::lemma_seq_contains_after_push(prev, x, v@[j]);
                }
            }
        }
        i += 1;
    }
    proof {
        assert forall|f2: u64| (v@.contains(f2) && f2 != fence) implies #[trigger] r@.contains(
            f2,
        ) by {
            let k = choose|k: int| 0 <= k < v@.len() && v@[k] == f2;
            assert(r@.contains(v@[k]));
        }
        if r@.len() == 0 {
            assert(only_fence(v@, fence));
        } else {
            assert(r@.contains(r@[0]));
            assert(v@.contains(r@[0]) && r@[0] != fence);
            let k = choose|k: int| 0 <= k < v@.len() && v@[k] == r@[0];
            assert(!only_fence(v@, fence));
        }
    }
    r
}

impl BufferTracker {
    /// Whether the tracker still tracks `id`.
    pub fn contains_buffer(&self, id: BufferId) -> (r: bool)
        ensures
            r == self.live(id),
    {
        match find_buffer(&self.buffers, id) {
            Some(i) => {
                proof {
                    assert(self.buffers@[i as int].id == id);
                }
                true
            },
            None => {
                proof {
                    if self.live(id) {
                        let k = choose|k: int|
                            0 <= k < self.buffers@.len() && self.buffers@[k].id == id;
                        assert(self.buffers@[k].id != id);
                    }
                }
                false
            },
        }
    }

    /// Track a newly imported buffer under a fresh identifier.
    pub fn import(&mut self, info: DmaBufImportInfo) -> (r: BufferId)
        requires
            old(self).wf(),
            old(self).next_buffer_id < u64::MAX,
        ensures
            final(self).wf(),
            r == (BufferId(old(self).next_buffer_id)),
            !old(self).live(r),
            final(self).next_buffer_id == old(self).next_buffer_id + 1,
            forall|b: BufferId| #[trigger] final(self).live(b) <==> (old(self).live(b) || b == r),
            final(self).entry(r).id == r,
            final(self).entry(r).info == info,
            final(self).entry(r).fences@.len() == 0,
            final(self).entry(r).release_scheduled == false,
            forall|b: BufferId|
                old(self).live(b) ==> final(self).entry(b) == old(self).entry(b),
            final(self).buffers@.len() == old(self).buffers@.len() + 1,
            forall|i: int|
                0 <= i < old(self).buffers@.len() ==> final(self).buffers@[i] == old(
                    self,
                ).buffers@[i],
            final(self).buffers@[old(self).buffers@.len() as int].fences@.len() == 0,
    {
        let ghost pre = *old(self);
        let id = BufferId(self.next_buffer_id);
        self.next_buffer_id = self.next_buffer_id + 1;
        let new_entry = ImportedBuffer { id, info, fences: Vec::new(), release_scheduled: false };
        self.buffers.push(new_entry);
        proof {
            let post = *self;
            assert(!pre.live(id)) by {
                if pre.live(id) {
                    lemma_live_below_next(pre, id);
                }
            }
            assert(post.wf()) by {
                assert forall|i: int, j: int|
                    0 <= i < j < post.buffers@.len() implies post.buffers@[i].id
                    != post.buffers@[j].id by {
                    if j == pre.buffers@.len() {
                        assert(post.buffers@[i] == pre.buffers@[i]);
                        assert((pre.buffers@[i].id.0 as int) < pre.next_buffer_id as int);
                    }
                }
            }
            assert forall|b: BufferId| #[trigger] post.live(b) implies (pre.live(b) || b
                == id) by {
                let k = choose|k: int| 0 <= k < post.buffers@.len() && post.buffers@[k].id == b;
                if k < pre.buffers@.len() {
                    assert(pre.buffers@[k].id == b);
                }
            }
            assert forall|b: BufferId| pre.live(b) implies #[trigger] post.live(b) by {
                let k = choose|k: int| 0 <= k < pre.buffers@.len() && pre.buffers@[k].id == b;
                assert(post.buffers@[k].id == b);
            }
            assert(post.buffers@[pre.buffers@.len() as int].id == id);
            assert(post.live(id));
            lemma_entry_at(post, pre.buffers@.len() as int);
            assert forall|b: BufferId| pre.live(b) implies post.entry(b) == pre.entry(b) by {
                let k = pre.idx_of(b);
                assert(0 <= k < pre.buffers@.len() && pre.buffers@[k].id == b);
                lemma_entry_at(pre, k);
                lemma_entry_at(post, k);
            }
        }
        id
    }

    /// Record that the frame fence `fence` references the live buffer `id`.
    pub fn add_fence(&mut self, id: BufferId, fence: u64)
        requires
            old(self).wf(),
            old(self).live(id),
        ensures
            final(self).wf(),
            final(self).next_buffer_id == old(self).next_buffer_id,
            forall|b: BufferId| #[trigger] final(self).live(b) <==> old(self).live(b),
            final(self).entry(id).id == id,
            final(self).entry(id).info == old(self).entry(id).info,
            final(self).entry(id).release_scheduled == old(self).entry(id).release_scheduled,
            forall|f2: u64| #[trigger]
                final(self).entry(id).fences@.contains(f2) <==> (old(self).entry(
                    id,
                ).fences@.contains(f2) || f2 == fence),
            forall|b: BufferId|
                old(self).live(b) && b != id ==> final(self).entry(b) == old(self).entry(b),
            final(self).buffers@.len() == old(self).buffers@.len(),
            forall|i: int, f2: u64|
                0 <= i < final(self).buffers@.len() && #[trigger] final(self).buffers@[i].fences@.contains(
                    f2,
                ) ==> (old(self).buffers@[i].fences@.contains(f2) || f2 == fence),
    {
        let ghost pre = *old(self);
        let idx = match find_buffer(&self.buffers, id) {
            Some(i) => i,
            None => {
                proof {
                    let k = choose|k: int| 0 <= k < pre.buffers@.len() && pre.buffers@[k].id == id;
                    assert(pre.buffers@[k].id != id);
                }
                return ;
            },
        };
        proof {
            lemma_entry_at(pre, idx as int);
        }
        let mut e = self.buffers.remove(idx);
        let already = contains_u64(&e.fences, fence);
        let ghost old_fences = e.fences@;
        if !already {
            e.fences.push(fence);
        }
        let ghost e2 = e;
        self.buffers.insert(idx, e);
        proof {
            let post = *self;
            assert(post.buffers@ =~= pre.buffers@.update(idx as int, e2));
            assert forall|f2: u64| #[trigger] e2.fences@.contains(f2) implies (old_fences.contains(
                f2,
            ) || f2 == fence) by {
                if !already {
                    vstd::seq_lib::lemma_seq_contains_after_push(old_fences, fence, f2);
                }
            }
            assert forall|f2: u64| (old_fences.contains(f2) || f2 == fence) implies #[trigger] e2.fences@.contains(
                f2,
            ) by {
                if !already {
                    vstd::seq_lib::lemma_seq_contains_after_push(old_fences, fence, f2);
                }
            }
            assert(post.wf()) by {
                assert forall|i: int, j: int|
                    0 <= i < j < post.buffers@.len() implies post.buffers@[i].id
                    != post.buffers@[j].id by {
                    assert(pre.buffers@[i].id != pre.buffers@[j].id);
                }
            }
            assert forall|b: BufferId| #[trigger] post.live(b) implies pre.live(b) by {
                let k = choose|k: int| 0 <= k < post.buffers@.len() && post.buffers@[k].id == b;
                assert(pre.buffers@[k].id == b);
            }
            assert forall|b: BufferId| pre.live(b) implies #[trigger] post.live(b) by {
                let k = choose|k: int| 0 <= k < pre.buffers@.len() && pre.buffers@[k].id == b;
                assert(post.buffers@[k].id == b);
            }
            lemma_entry_at(post, idx as int);
            assert forall|b: BufferId| pre.live(b) && b != id implies post.entry(b) == pre.entry(
                b,
            ) by {
                let k = pre.idx_of(b);
                assert(0 <= k < pre.buffers@.len() && pre.buffers@[k].id == b);
                lemma_entry_at(pre, k);
                lemma_entry_at(post, k);
            }
        }
    }

    /// Ask for release of the live buffer `id`.
    ///
    /// When no outstanding fence references the buffer, the release fires
    /// now: the buffer leaves the tracker and the result is true. Otherwise
    /// the request is recorded, and the release fires when the last
    /// referencing fence completes.
    pub fn schedule_release(&mut self, id: BufferId) -> (fired: bool)
        requires
            old(self).wf(),
            old(self).live(id),
        ensures
            final(self).wf(),
            final(self).next_buffer_id == old(self).next_buffer_id,
            fired == (old(self).entry(id).fences@.len() == 0),
            fired ==> forall|b: BufferId| #[trigger]
                final(self).live(b) <==> (old(self).live(b) && b != id),
            !fired ==> forall|b: BufferId| #[trigger] final(self).live(b) <==> old(self).live(b),
            !fired ==> {
                &&& final(self).entry(id).id == id
                &&& final(self).entry(id).release_scheduled == true
                &&& final(self).entry(id).fences@ == old(self).entry(id).fences@
                &&& final(self).entry(id).info == old(self).entry(id).info
            },
            forall|b: BufferId|
                old(self).live(b) && b != id ==> final(self).entry(b) == old(self).entry(b),
            forall|i: int, f2: u64|
                0 <= i < final(self).buffers@.len() && #[trigger] final(self).buffers@[i].fences@.contains(
                    f2,
                ) ==> exists|i0: int|
                    0 <= i0 < old(self).buffers@.len() && #[trigger] old(
                        self,
                    ).buffers@[i0].fences@.contains(f2),
    {
        let ghost pre = *old(self);
        let idx = match find_buffer(&self.buffers, id) {
            Some(i) => i,
            None => {
                proof {
                    let k = choose|k: int| 0 <= k < pre.buffers@.len() && pre.buffers@[k].id == id;
                    assert(pre.buffers@[k].id != id);
                }
                return false;
            },
        };
        proof {
            lemma_entry_at(pre, idx as int);
        }
        if self.buffers[idx].fences.len() == 0 {
            self.buffers.remove(idx);
            proof {
                let post = *self;
                assert(post.buffers@ =~= pre.buffers@.remove(idx as int));
                assert(post.wf()) by {
                    assert forall|i: int, j: int|
                        0 <= i < j < post.buffers@.len() implies post.buffers@[i].id
                        != post.buffers@[j].id by {
                        let i0: int = if i < idx {
                            i
                        } else {
                            i + 1
                        };
                        let j0: int = if j < idx {
                            j
                        } else {
                            j + 1
                        };
                        assert(pre.buffers@[i0].id != pre.buffers@[j0].id);
                    }
                    assert forall|i: int|
                        0 <= i < post.buffers@.len() implies (post.buffers@[i].id.0 as int)
                        < post.next_buffer_id as int by {
                        let i0: int = if i < idx {
                            i
                        } else {
                            i + 1
                        };
                        assert(post.buffers@[i] == pre.buffers@[i0]);
                    }
                }
                assert forall|b: BufferId| #[trigger] post.live(b) implies (pre.live(b) && b
                    != id) by {
                    let k = choose|k: int| 0 <= k < post.buffers@.len() && post.buffers@[k].id == b;
                    let k0: int = if k < idx {
                        k
                    } else {
                        k + 1
                    };
                    assert(pre.buffers@[k0].id == b);
                    assert(k0 != idx);
                }
                assert forall|b: BufferId| pre.live(b) && b != id implies #[trigger] post.live(
                    b,
                ) by {
                    let k = pre.idx_of(b);
                    assert(0 <= k < pre.buffers@.len() && pre.buffers@[k].id == b);
                    lemma_entry_at(pre, k);
                    let k1: int = if k < idx {
                        k
                    } else {
                        k - 1
                    };
                    assert(post.buffers@[k1].id == b);
                }
                assert forall|b: BufferId| pre.live(b) && b != id implies post.entry(b)
                    == pre.entry(b) by {
                    let k = pre.idx_of(b);
                    assert(0 <= k < pre.buffers@.len() && pre.buffers@[k].id == b);
                    lemma_entry_at(pre, k);
                    let k1: int = if k < idx {
                        k
                    } else {
                        k - 1
                    };
                    assert(post.buffers@[k1].id == b);
                    lemma_entry_at(post, k1);
                }
                assert forall|i: int, f2: u64|
                    0 <= i < post.buffers@.len() && #[trigger] post.buffers@[i].fences@.contains(
                        f2,
                    ) implies exists|i0: int|
                    0 <= i0 < pre.buffers@.len() && #[trigger] pre.buffers@[i0].fences@.contains(
                        f2,
                    ) by {
                    let i0: int = if i < idx {
                        i
                    } else {
                        i + 1
                    };
                    assert(pre.buffers@[i0].fences@.contains(f2));
                }
            }
            true
        } else {
            let mut e = self.buffers.remove(idx);
            e.release_scheduled = true;
            let ghost e2 = e;
            self.buffers.insert(idx, e);
            proof {
                let post = *self;
                assert(post.buffers@ =~= pre.buffers@.update(idx as int, e2));
                assert(post.wf()) by {
                    assert forall|i: int, j: int|
                        0 <= i < j < post.buffers@.len() implies post.buffers@[i].id
                        != post.buffers@[j].id by {
                        assert(pre.buffers@[i].id != pre.buffers@[j].id);
                    }
                }
                assert forall|b: BufferId| #[trigger] post.live(b) implies pre.live(b) by {
                    let k = choose|k: int| 0 <= k < post.buffers@.len() && post.buffers@[k].id == b;
                    assert(pre.buffers@[k].id == b);
                }
                assert forall|b: BufferId| pre.live(b) implies #[trigger] post.live(b) by {
                    let k = choose|k: int| 0 <= k < pre.buffers@.len() && pre.buffers@[k].id == b;
                    assert(post.buffers@[k].id == b);
                }
                lemma_entry_at(post, idx as int);
                assert forall|b: BufferId| pre.live(b) && b != id implies post.entry(b)
                    == pre.entry(b) by {
                    let k = pre.idx_of(b);
                    assert(0 <= k < pre.buffers@.len() && pre.buffers@[k].id == b);
                    lemma_entry_at(pre, k);
                    lemma_entry_at(post, k);
                }
                assert forall|i: int, f2: u64|
                    0 <= i < post.buffers@.len() && #[trigger] post.buffers@[i].fences@.contains(
                        f2,
                    ) implies exists|i0: int|
                    0 <= i0 < pre.buffers@.len() && #[trigger] pre.buffers@[i0].fences@.contains(
                        f2,
                    ) by {
                    assert(pre.buffers@[i].fences@.contains(f2));
                }
            }
            false
        }
    }

    /// Complete one frame fence: the fence leaves every buffer's fence set,
    /// and the releases this completion unblocks fire, in tracker order. A
    /// fired buffer leaves the tracker, so its release cannot fire twice.
    #[verifier::rlimit(80)]
    #[verifier::spinoff_prover]
    pub fn complete_fence(&mut self, fence: u64) -> (fired: Vec<BufferId>)
        requires
            old(self).wf(),
        ensures
            final(self).wf(),
            complete_fence_rel(*old(self), *final(self), fired@, fence),
            fired@.no_duplicates(),
            forall|i: int, f2: u64|
                0 <= i < final(self).buffers@.len() && #[trigger] final(self).buffers@[i].fences@.contains(
                    f2,
                ) ==> exists|i0: int|
                    0 <= i0 < old(self).buffers@.len() && #[trigger] old(
                        self,
                    ).buffers@[i0].fences@.contains(f2),
    {
        let ghost pre = *old(self);
        let mut kept: Vec<ImportedBuffer> = Vec::new();
        let mut fired: Vec<BufferId> = Vec::new();
        // Ghost bookkeeping: the source index of each kept entry (`src`), of
        // each fired identifier (`fsrc`), and the destination of each source
        // entry (`dest`).
        let ghost mut src: Seq<int> = Seq::empty();
        let ghost mut fsrc: Seq<int> = Seq::empty();
        let ghost mut dest: Seq<int> = Seq::empty();
        let n = self.buffers.len();
        let mut i: usize = 0;
        while i < n
            invariant
                self.buffers@ == pre.buffers@,
                self.next_buffer_id == pre.next_buffer_id,
                pre.wf(),
                n == pre.buffers@.len(),
                0 <= i <= n,
                src.len() == kept@.len(),
                fsrc.len() == fired@.len(),
                dest.len() == i,
                forall|m: int| #![trigger src[m]]
                    0 <= m < kept@.len() ==> {
                        &&& 0 <= src[m] < i
                        &&& kept@[m].id == pre.buffers@[src[m]].id
                        &&& entry_after_completion(kept@[m], pre.buffers@[src[m]], fence)
                        &&& !release_fires(pre.buffers@[src[m]], fence)
                    },
                forall|m1: int, m2: int| #![trigger src[m1], src[m2]]
                    0 <= m1 < m2 < kept@.len() ==> src[m1] < src[m2],
                forall|m: int| #![trigger fsrc[m]]
                    0 <= m < fired@.len() ==> {
                        &&& 0 <= fsrc[m] < i
                        &&& fired@[m] == pre.buffers@[fsrc[m]].id
                        &&& release_fires(pre.buffers@[fsrc[m]], fence)
                    },
                forall|m1: int, m2: int| #![trigger fsrc[m1], fsrc[m2]]
                    0 <= m1 < m2 < fired@.len() ==> fsrc[m1] < fsrc[m2],
                forall|k: int| #![trigger dest[k]]
                    0 <= k < i ==> {
                        &&& release_fires(pre.buffers@[k], fence) ==> 0 <= dest[k] < fired@.len()
                            && fired@[dest[k]] == pre.buffers@[k].id
                        &&& !release_fires(pre.buffers@[k], fence) ==> 0 <= dest[k] < kept@.len()
                            && kept@[dest[k]].id == pre.buffers@[k].id && entry_after_completion(
                            kept@[dest[k]],
                            pre.buffers@[k],
                            fence,
                        )
                    },
            decreases n - i,
        {
            let e = &self.buffers[i];
            let new_fences = remove_fence_value(&e.fences, fence);
            let fires = e.release_scheduled && new_fences.len() == 0;
            proof {
                assert(fires == release_fires(pre.buffers@[i as int], fence)) by {
                    reveal(release_fires);
                }
            }
            if fires {
                proof {
                    dest = dest.push(fired@.len() as int);
                    fsrc = fsrc.push(i as int);
                }
                fired.push(e.id);
            } else {
                let kept_entry = ImportedBuffer {
                    id: e.id,
                    info: e.info,
                    fences: new_fences,
                    release_scheduled: e.release_scheduled,
                };
                proof {
                    assert(entry_after_completion(kept_entry, pre.buffers@[i as int], fence)) by {
                        reveal(entry_after_completion);
                    }
                    dest = dest.push(kept@.len() as int);
                    src = src.push(i as int);
                }
                kept.push(kept_entry);
            }
            i += 1;
        }
        self.buffers = kept;
        let ghost post = *self;
        proof {
            assert(post.wf()) by {
                assert forall|m1: int, m2: int|
                    0 <= m1 < m2 < post.buffers@.len() implies post.buffers@[m1].id
                    != post.buffers@[m2].id by {
                    assert(src[m1] < src[m2]);
                    assert(pre.buffers@[src[m1]].id != pre.buffers@[src[m2]].id);
                }
                assert forall|m: int|
                    0 <= m < post.buffers@.len() implies (post.buffers@[m].id.0 as int)
                    < post.next_buffer_id as int by {
                    let k = src[m];
                    assert(pre.buffers@[k].id == post.buffers@[m].id);
                }
            }
            assert forall|b: BufferId| #[trigger] fired@.contains(b) implies (pre.live(b)
                && release_fires(pre.entry(b), fence)) by {
                let m = choose|m: int| 0 <= m < fired@.len() && fired@[m] == b;
                let k = fsrc[m];
                lemma_entry_at(pre, k);
            }
            assert forall|b: BufferId| (pre.live(b) && release_fires(
                pre.entry(b),
                fence,
            )) implies #[trigger] fired@.contains(b) by {
                let k = pre.idx_of(b);
                assert(0 <= k < pre.buffers@.len() && pre.buffers@[k].id == b);
                lemma_entry_at(pre, k);
                let m = dest[k];
                assert(fired@[m] == b);
            }
            assert forall|b: BufferId| #[trigger] post.live(b) implies (pre.live(b)
                && !release_fires(pre.entry(b), fence)) by {
                let m = choose|m: int| 0 <= m < post.buffers@.len() && post.buffers@[m].id == b;
                let k = src[m];
                lemma_entry_at(pre, k);
            }
            assert forall|b: BufferId| (pre.live(b) && !release_fires(
                pre.entry(b),
                fence,
            )) implies #[trigger] post.live(b) by {
                let k = pre.idx_of(b);
                assert(0 <= k < pre.buffers@.len() && pre.buffers@[k].id == b);
                lemma_entry_at(pre, k);
                let m = dest[k];
                assert(post.buffers@[m].id == b);
            }
            assert forall|b: BufferId| #[trigger] post.live(b) implies entry_after_completion(
                post.entry(b),
                pre.entry(b),
                fence,
            ) by {
                let m = post.idx_of(b);
                assert(0 <= m < post.buffers@.len() && post.buffers@[m].id == b);
                lemma_entry_at(post, m);
                let k = src[m];
                lemma_entry_at(pre, k);
            }
            assert forall|i: int, f2: u64|
                0 <= i < post.buffers@.len() && #[trigger] post.buffers@[i].fences@.contains(
                    f2,
                ) implies exists|i0: int|
                0 <= i0 < pre.buffers@.len() && #[trigger] pre.buffers@[i0].fences@.contains(
                    f2,
                ) by {
                reveal(entry_after_completion);
                let k = src[i];
                assert(entry_after_completion(post.buffers@[i], pre.buffers@[k], fence));
                assert(pre.buffers@[k].fences@.contains(f2));
            }
            assert(fired@.no_duplicates()) by {
                assert forall|m1: int, m2: int|
                    0 <= m1 < fired@.len() && 0 <= m2 < fired@.len() && m1 != m2 implies fired@[m1]
                    != fired@[m2] by {
                    if m1 < m2 {
                        assert(pre.buffers@[fsrc[m1]].id != pre.buffers@[fsrc[m2]].id);
                    } else {
                        assert(pre.buffers@[fsrc[m2]].id != pre.buffers@[fsrc[m1]].id);
                    }
                }
            }
        }
        fired
    }
}

/// A release fires only once every fence that referenced the buffer has
/// completed: a buffer fired by completing `fence` had no outstanding
/// referencing fence other than `fence` itself, and it leaves the tracker.
pub proof fn lemma_release_only_after_all_fences(
    pre: BufferTracker,
    post: BufferTracker,
    fired: Seq<BufferId>,
    fence: u64,
    b: BufferId,
    other: u64,
)
    requires
        complete_fence_rel(pre, post, fired, fence),
        fired.contains(b),
        pre.references(b, other),
    ensures
        other == fence,
        !post.live(b),
{
    reveal(release_fires);
    let k = choose|k: int|
        0 <= k < pre.entry(b).fences@.len() && pre.entry(b).fences@[k] == other;
}

/// A release fires at most once: a buffer fired by one fence completion is
/// no longer in the tracker, so no later completion can fire it again.
pub proof fn lemma_release_fires_at_most_once(
    pre: BufferTracker,
    mid: BufferTracker,
    post: BufferTracker,
    fired1: Seq<BufferId>,
    fired2: Seq<BufferId>,
    f1: u64,
    f2: u64,
    b: BufferId,
)
    requires
        complete_fence_rel(pre, mid, fired1, f1),
        complete_fence_rel(mid, post, fired2, f2),
        fired1.contains(b),
    ensures
        !mid.live(b),
        !fired2.contains(b),
        !post.live(b),
{
}

} // verus!
