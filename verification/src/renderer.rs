//! The boundary API of the render core: a registry of per-output swapchains
//! over one GPU context, the imported-buffer release tracker, and frame
//! orchestration.
//!
//! The registry maps each output identity to its swapchain; registering a
//! duplicate identity replaces the prior entry only after handing back the
//! prior swapchain's outstanding fences, which the caller waits on before the
//! replaced resources are destroyed — never a silent overwrite while still
//! in flight. Frame fences are drawn from one counter, so every fence
//! identifier is used at most once.

use vstd::prelude::*;

use crate::buffers::BufferId;
use crate::buffers::BufferTracker;
use crate::buffers::DmaBufImportInfo;
use crate::buffers::complete_fence_rel;
use crate::color::ColorRgba;
use crate::device::GpuContext;
use crate::error::RenderError;
use crate::frame::DrawCommand;
use crate::frame::RenderElement;
use crate::frame::compose_frame;
use crate::frame::element_buffer;
use crate::frame::frame_compiles_to;
use crate::frame::references_buffer;
use crate::surface::PixelFormat;
use crate::surface::SurfaceCreateInfo;
use crate::swapchain::OutputId;
use crate::swapchain::OutputSwapchain;
use crate::swapchain::SwapchainConfig;
use crate::swapchain::spec_advance_slots;
use crate::swapchain::spec_outstanding_fences;
use crate::swapchain::spec_slot_index;

verus! {

/// One registry entry: an output identity and its swapchain.
#[derive(Debug)]
pub struct OutputEntry {
    pub id: OutputId,
    pub swapchain: OutputSwapchain,
}

/// What the platform's image acquisition returned for one frame.
#[derive(Clone, Copy, Debug, PartialEq, Eq, Structural)]
pub enum AcquireOutcome {
    /// A presentable image was acquired.
    Acquired { image_index: usize },
    /// The surface no longer matches the swapchain; reconfigure and retry.
    OutOfDate,
    /// The surface is gone; reconfigure and retry.
    SurfaceLost,
    /// Acquisition timed out.
    TimedOut,
}

/// Everything one successful frame settles: the in-flight slot, the image,
/// the fence owed a wait before the slot's resources are reused, the fence
/// the submission signals, and the drawing work, in compositing order.
#[derive(Debug)]
pub struct FrameSubmission {
    pub slot: usize,
    pub image_index: usize,
    pub waited_fence: Option<u64>,
    pub signal_fence: u64,
    pub commands: Vec<DrawCommand>,
}

/// Every outstanding slot fence lies below `bound`.
pub open spec fn slot_fences_below(slots: Seq<Option<u64>>, bound: u64) -> bool {
    forall|j: int|
        0 <= j < slots.len() ==> match #[trigger] slots[j] {
            Some(f) => (f as int) < bound as int,
            None => true,
        }
}

/// The core renderer: the GPU context, the per-output registry, and the
/// buffer release tracker.
#[derive(Debug)]
pub struct StarforgeRenderer {
    /// The GPU context everything else borrows.
    pub context: GpuContext,
    /// The registry: one entry per registered output, identities unique.
    pub outputs: Vec<OutputEntry>,
    /// Release tracking for imported client buffers.
    pub buffers: BufferTracker,
    /// The fence identifier the next submission signals; every fence ever
    /// handed out lies below it.
    pub next_fence: u64,
    /// The pixel formats importable on the selected device.
    pub import_formats: Vec<PixelFormat>,
    /// Whether the partial-update (damage-sampling) draw path is available.
    pub partial_update: bool,
    /// The background color a no-content frame clears to.
    pub background: ColorRgba,
}

impl StarforgeRenderer {
    /// Whether `id` is registered.
    pub open spec fn has_output(self, id: OutputId) -> bool {
        exists|k: int| 0 <= k < self.outputs@.len() && self.outputs@[k].id == id
    }

    /// The registry index of `id` (meaningful only while registered).
    pub open spec fn out_idx(self, id: OutputId) -> int {
        choose|k: int| 0 <= k < self.outputs@.len() && self.outputs@[k].id == id
    }

    /// The swapchain of `id` (meaningful only while registered).
    pub open spec fn swapchain_of(self, id: OutputId) -> OutputSwapchain {
        self.outputs@[self.out_idx(id)].swapchain
    }

    /// Whether `f` is an importable pixel format on this device.
    pub open spec fn format_supported(self, f: PixelFormat) -> bool {
        self.import_formats@.contains(f)
    }

    /// Well-formedness: output identities unique, every swapchain
    /// well-formed, the tracker well-formed, and every stored fence below
    /// the fence counter.
    pub open spec fn wf(self) -> bool {
        &&& self.context.wf()
        &&& self.buffers.wf()
        &&& forall|i: int, j: int|
            0 <= i < j < self.outputs@.len() ==> self.outputs@[i].id != self.outputs@[j].id
        &&& forall|k: int|
            0 <= k < self.outputs@.len() ==> (#[trigger] self.outputs@[k]).swapchain.wf()
                && slot_fences_below(self.outputs@[k].swapchain.slots@, self.next_fence)
        &&& forall|i: int, f: u64|
            0 <= i < self.buffers.buffers@.len() && #[trigger] self.buffers.buffers@[i].fences@.contains(
                f,
            ) ==> (f as int) < self.next_fence as int
    }

    /// A fresh renderer over a created context: empty registry, empty
    /// tracker.
    pub fn new(
        context: GpuContext,
        import_formats: Vec<PixelFormat>,
        partial_update: bool,
        background: ColorRgba,
    ) -> (r: StarforgeRenderer)
        requires
            context.wf(),
        ensures
            r.wf(),
            r.outputs@.len() == 0,
            forall|id: OutputId| !r.has_output(id),
            forall|b: BufferId| !r.buffers.live(b),
            r.next_fence == 0,
            r.buffers.next_buffer_id == 0,
            r.context == context,
            r.import_formats == import_formats,
            r.partial_update == partial_update,
            r.background == background,
    {
        StarforgeRenderer {
            context,
            outputs: Vec::new(),
            buffers: BufferTracker::new(),
            next_fence: 0,
            import_formats,
            partial_update,
            background,
        }
    }
}

/// The entry at registry index `k` is the one `swapchain_of` names for its
/// identity.
proof fn lemma_output_at(r: StarforgeRenderer, k: int)
    requires
        forall|i: int, j: int|
            0 <= i < j < r.outputs@.len() ==> r.outputs@[i].id != r.outputs@[j].id,
        0 <= k < r.outputs@.len(),
    ensures
        r.has_output(r.outputs@[k].id),
        r.out_idx(r.outputs@[k].id) == k,
        r.swapchain_of(r.outputs@[k].id) == r.outputs@[k].swapchain,
{
    let id = r.outputs@[k].id;
    assert(r.has_output(id));
    let j = r.out_idx(id);
    assert(0 <= j < r.outputs@.len() && r.outputs@[j].id == id);
    if j < k {
        assert(r.outputs@[j].id != r.outputs@[k].id);
    } else if j > k {
        assert(r.outputs@[k].id != r.outputs@[j].id);
    }
}

/// Unregistering leaves the registry without the output: in a registry with
/// unique identities, removing the entry of an identity leaves no entry
/// under it. A render_frame addressed to it afterwards is therefore refused
/// with `OutputNotFound` and mutates nothing, by render_frame's contract.
pub proof fn lemma_unregistered_output_unknown(entries: Seq<OutputEntry>, k: int, id: OutputId)
    requires
        forall|i: int, j: int| 0 <= i < j < entries.len() ==> entries[i].id != entries[j].id,
        0 <= k < entries.len(),
        entries[k].id == id,
    ensures
        forall|j: int| 0 <= j < entries.remove(k).len() ==> entries.remove(k)[j].id != id,
{
    assert forall|j: int| 0 <= j < entries.remove(k).len() implies entries.remove(k)[j].id
        != id by {
        let j0: int = if j < k {
            j
        } else {
            j + 1
        };
        assert(entries.remove(k)[j] == entries[j0]);
        if j0 < k {
            assert(entries[j0].id != entries[k].id);
        } else {
            assert(entries[k].id != entries[j0].id);
        }
    }
}

/// Find the registry entry of `id`.
fn find_output(outputs: &Vec<OutputEntry>, id: OutputId) -> (r: Option<usize>)
    ensures
        match r {
            Some(k) => (k as int) < outputs@.len() && outputs@[k as int].id == id,
            None => forall|j: int| 0 <= j < outputs@.len() ==> outputs@[j].id != id,
        },
{
    let mut i: usize = 0;
    while i < outputs.len()
        invariant
            0 <= i <= outputs@.len(),
            forall|j: int| 0 <= j < i ==> outputs@[j].id != id,
        decreases outputs@.len() - i,
    {
        if outputs[i].id.0 == id.0 {
            return Some(i);
        }
        i += 1;
    }
    None
}

impl StarforgeRenderer {
    /// Register an output, creating its swapchain from the platform's
    /// reports.
    ///
    /// On a duplicate identity the prior entry is replaced, and the result
    /// lists the prior swapchain's outstanding fences, in slot order: the
    /// caller waits on each before the replaced resources are destroyed.
    /// Fails with `NoSurfaceFormats` exactly when the platform enumerated no
    /// surface formats, mutating nothing.
    pub fn register_output(
        &mut self,
        id: OutputId,
        create_info: SurfaceCreateInfo,
        initial_config: SwapchainConfig,
    ) -> (r: Result<Vec<u64>, RenderError>)
        requires
            old(self).wf(),
            create_info.wf(),
        ensures
            final(self).wf(),
            match r {
                Ok(prior) => {
                    &&& create_info.formats@.len() > 0
                    &&& final(self).has_output(id)
                    &&& final(self).swapchain_of(id).surface == create_info
                    &&& final(self).swapchain_of(id).negotiated(initial_config)
                    &&& final(self).swapchain_of(id).all_slots_free()
                    &&& final(self).swapchain_of(id).current_frame == 0
                    &&& forall|o: OutputId|
                        o != id ==> (final(self).has_output(o) <==> old(self).has_output(o))
                    &&& forall|o: OutputId|
                        o != id && old(self).has_output(o) ==> final(self).swapchain_of(o) == old(
                            self,
                        ).swapchain_of(o)
                    &&& prior@ == if old(self).has_output(id) {
                        spec_outstanding_fences(old(self).swapchain_of(id).slots@)
                    } else {
                        Seq::<u64>::empty()
                    }
                    &&& final(self).buffers == old(self).buffers
                    &&& final(self).next_fence == old(self).next_fence
                    &&& final(self).context == old(self).context
                    &&& final(self).import_formats == old(self).import_formats
                    &&& final(self).partial_update == old(self).partial_update
                    &&& final(self).background == old(self).background
                },
                Err(e) => {
                    &&& e == RenderError::NoSurfaceFormats
                    &&& create_info.formats@.len() == 0
                    &&& *final(self) == *old(self)
                },
            },
    {
        let ghost pre = *old(self);
        let sc = match OutputSwapchain::create(create_info, &initial_config) {
            Ok(sc) => sc,
            Err(e) => {
                return Err(e);
            },
        };
        let ghost had = pre.has_output(id);
        let prior: Vec<u64> = match find_output(&self.outputs, id) {
            Some(k) => {
                proof {
                    lemma_output_at(pre, k as int);
                }
                let old_entry = self.outputs.remove(k);
                let ghost kk = k as int;
                proof {
                    assert(self.outputs@ =~= pre.outputs@.remove(kk));
                    assert forall|j: int|
                        0 <= j < self.outputs@.len() implies self.outputs@[j].id != id by {
                        let j0: int = if j < kk {
                            j
                        } else {
                            j + 1
                        };
                        assert(self.outputs@[j] == pre.outputs@[j0]);
                        if j0 != kk {
                            assert(pre.outputs@[j0].id != pre.outputs@[kk].id);
                        }
                    }
                }
                old_entry.swapchain.outstanding_fences()
            },
            None => {
                proof {
                    if pre.has_output(id) {
                        let k0 = choose|k0: int|
                            0 <= k0 < pre.outputs@.len() && pre.outputs@[k0].id == id;
                        assert(pre.outputs@[k0].id != id);
                    }
                }
                Vec::new()
            },
        };
        let ghost mid = *self;
        self.outputs.push(OutputEntry { id, swapchain: sc });
        proof {
            let post = *self;
            let newlen = mid.outputs@.len() as int;
            assert(post.outputs@[newlen].id == id);
            // Registry identities stay unique: the middle state holds no
            // entry under `id`, and every middle entry came from the old
            // registry.
            assert forall|i: int, j: int|
                0 <= i < j < post.outputs@.len() implies post.outputs@[i].id
                != post.outputs@[j].id by {
                if j < newlen {
                    if had {
                        let kk = pre.out_idx(id);
                        let i0: int = if i < kk {
                            i
                        } else {
                            i + 1
                        };
                        let j0: int = if j < kk {
                            j
                        } else {
                            j + 1
                        };
                        assert(pre.outputs@[i0].id != pre.outputs@[j0].id);
                    } else {
                        assert(pre.outputs@[i].id != pre.outputs@[j].id);
                    }
                } else {
                    assert(post.outputs@[i].id != id);
                }
            }
            assert forall|k: int|
                0 <= k < post.outputs@.len() implies (#[trigger] post.outputs@[k]).swapchain.wf()
                && slot_fences_below(post.outputs@[k].swapchain.slots@, post.next_fence) by {
                if k < newlen {
                    if had {
                        let kk = pre.out_idx(id);
                        let k0: int = if k < kk {
                            k
                        } else {
                            k + 1
                        };
                        assert(post.outputs@[k] == pre.outputs@[k0]);
                        assert(pre.outputs@[k0].swapchain.wf());
                    } else {
                        assert(post.outputs@[k] == pre.outputs@[k]);
                    }
                } else {
                    assert(post.outputs@[k].swapchain == sc);
                    assert forall|j: int|
                        0 <= j < sc.slots@.len() implies match #[trigger] sc.slots@[j] {
                        Some(f) => (f as int) < post.next_fence as int,
                        None => true,
                    } by {
                        assert(sc.slots@[j] is None);
                    }
                }
            }
            lemma_output_at(post, newlen);
            assert forall|o: OutputId| o != id && pre.has_output(o) implies post.has_output(o)
                && post.swapchain_of(o) == pre.swapchain_of(o) by {
                let k0 = pre.out_idx(o);
                assert(0 <= k0 < pre.outputs@.len() && pre.outputs@[k0].id == o);
                lemma_output_at(pre, k0);
                let k1: int = if had {
                    let kk = pre.out_idx(id);
                    if k0 < kk {
                        k0
                    } else {
                        k0 - 1
                    }
                } else {
                    k0
                };
                assert(post.outputs@[k1].id == o);
                lemma_output_at(post, k1);
            }
            assert forall|o: OutputId| o != id && post.has_output(o) implies pre.has_output(
                o,
            ) by {
                let k1 = post.out_idx(o);
                assert(0 <= k1 < post.outputs@.len() && post.outputs@[k1].id == o);
                let k0: int = if had {
                    let kk = pre.out_idx(id);
                    if k1 < kk {
                        k1
                    } else {
                        k1 + 1
                    }
                } else {
                    k1
                };
                assert(pre.outputs@[k0].id == o);
            }
        }
        Ok(prior)
    }

    /// Reconfigure a registered output in place: renegotiate against the
    /// stored platform reports for the new configuration and reset the slot
    /// ring. The result lists the outstanding fences the caller waits on
    /// before the replaced ring's resources are destroyed.
    ///
    /// Fails with `OutputNotFound`, mutating nothing, exactly when `id` is
    /// not registered.
    pub fn configure_output(&mut self, id: OutputId, config: SwapchainConfig) -> (r: Result<
        Vec<u64>,
        RenderError,
    >)
        requires
            old(self).wf(),
        ensures
            final(self).wf(),
            match r {
                Ok(prior) => {
                    &&& old(self).has_output(id)
                    &&& final(self).has_output(id)
                    &&& final(self).swapchain_of(id).surface == old(self).swapchain_of(id).surface
                    &&& final(self).swapchain_of(id).negotiated(config)
                    &&& final(self).swapchain_of(id).all_slots_free()
                    &&& final(self).swapchain_of(id).current_frame == old(self).swapchain_of(
                        id,
                    ).current_frame
                    &&& forall|o: OutputId|
                        final(self).has_output(o) <==> old(self).has_output(o)
                    &&& forall|o: OutputId|
                        o != id && old(self).has_output(o) ==> final(self).swapchain_of(o) == old(
                            self,
                        ).swapchain_of(o)
                    &&& prior@ == spec_outstanding_fences(old(self).swapchain_of(id).slots@)
                    &&& final(self).buffers == old(self).buffers
                    &&& final(self).next_fence == old(self).next_fence
                    &&& final(self).context == old(self).context
                    &&& final(self).import_formats == old(self).import_formats
                    &&& final(self).partial_update == old(self).partial_update
                    &&& final(self).background == old(self).background
                },
                Err(e) => {
                    &&& e == RenderError::OutputNotFound
                    &&& !old(self).has_output(id)
                    &&& *final(self) == *old(self)
                },
            },
    {
        let ghost pre = *old(self);
        let k = match find_output(&self.outputs, id) {
            Some(k) => k,
            None => {
                proof {
                    if pre.has_output(id) {
                        let k0 = choose|k0: int|
                            0 <= k0 < pre.outputs@.len() && pre.outputs@[k0].id == id;
                        assert(pre.outputs@[k0].id != id);
                    }
                }
                return Err(RenderError::OutputNotFound);
            },
        };
        proof {
            lemma_output_at(pre, k as int);
        }
        let mut entry = self.outputs.remove(k);
        let prior = entry.swapchain.reconfigure(&config);
        let ghost e2 = entry;
        self.outputs.insert(k, entry);
        proof {
            let post = *self;
            let kk = k as int;
            assert(post.outputs@ =~= pre.outputs@.update(kk, e2));
            assert(post.wf()) by {
                assert forall|i: int, j: int|
                    0 <= i < j < post.outputs@.len() implies post.outputs@[i].id
                    != post.outputs@[j].id by {
                    assert(pre.outputs@[i].id != pre.outputs@[j].id);
                }
                assert forall|k2: int|
                    0 <= k2 < post.outputs@.len() implies (#[trigger] post.outputs@[k2]).swapchain.wf()
                    && slot_fences_below(post.outputs@[k2].swapchain.slots@, post.next_fence) by {
                    if k2 != kk {
                        assert(post.outputs@[k2] == pre.outputs@[k2]);
                    } else {
                        assert forall|j: int|
                            0 <= j < e2.swapchain.slots@.len() implies match #[trigger] e2.swapchain.slots@[j] {
                            Some(f) => (f as int) < post.next_fence as int,
                            None => true,
                        } by {
                            assert(e2.swapchain.slots@[j] is None);
                        }
                    }
                }
            }
            assert forall|o: OutputId| #[trigger] post.has_output(o) implies pre.has_output(o) by {
                let k1 = choose|k1: int| 0 <= k1 < post.outputs@.len() && post.outputs@[k1].id == o;
                assert(pre.outputs@[k1].id == o);
            }
            assert forall|o: OutputId| pre.has_output(o) implies #[trigger] post.has_output(o) by {
                let k1 = choose|k1: int| 0 <= k1 < pre.outputs@.len() && pre.outputs@[k1].id == o;
                assert(post.outputs@[k1].id == o);
            }
            lemma_output_at(post, kk);
            assert forall|o: OutputId| o != id && pre.has_output(o) implies post.swapchain_of(o)
                == pre.swapchain_of(o) by {
                let k0 = pre.out_idx(o);
                assert(0 <= k0 < pre.outputs@.len() && pre.outputs@[k0].id == o);
                lemma_output_at(pre, k0);
                lemma_output_at(post, k0);
            }
        }
        Ok(prior)
    }

    /// Unregister an output. The result lists the outstanding fences of its
    /// swapchain, in slot order: the caller waits on each before the
    /// output's resources are destroyed.
    ///
    /// Fails with `OutputNotFound`, mutating nothing, exactly when `id` is
    /// not registered.
    #[verifier::rlimit(50)]
    #[verifier::spinoff_prover]
    pub fn unregister_output(&mut self, id: OutputId) -> (r: Result<Vec<u64>, RenderError>)
        requires
            old(self).wf(),
        ensures
            final(self).wf(),
            r is Ok <==> old(self).has_output(id),
            r is Ok ==> !final(self).has_output(id),
            r is Ok ==> forall|o: OutputId|
                o != id ==> (final(self).has_output(o) <==> old(self).has_output(o)),
            r is Ok ==> forall|o: OutputId|
                o != id && old(self).has_output(o) ==> final(self).swapchain_of(o) == old(
                    self,
                ).swapchain_of(o),
            r is Ok ==> {
                &&& final(self).buffers == old(self).buffers
                &&& final(self).next_fence == old(self).next_fence
                &&& final(self).context == old(self).context
                &&& final(self).import_formats == old(self).import_formats
                &&& final(self).partial_update == old(self).partial_update
                &&& final(self).background == old(self).background
            },
            r matches Ok(prior) ==> prior@ == spec_outstanding_fences(
                old(self).swapchain_of(id).slots@,
            ),
            r is Err ==> r == Err::<Vec<u64>, RenderError>(RenderError::OutputNotFound)
                && *final(self) == *old(self),
    {
        let ghost pre = *old(self);
        let k = match find_output(&self.outputs, id) {
            Some(k) => k,
            None => {
                proof {
                    if pre.has_output(id) {
                        let k0 = choose|k0: int|
                            0 <= k0 < pre.outputs@.len() && pre.outputs@[k0].id == id;
                        assert(pre.outputs@[k0].id != id);
                    }
                }
                return Err(RenderError::OutputNotFound);
            },
        };
        proof {
            lemma_output_at(pre, k as int);
        }
        let old_entry = self.outputs.remove(k);
        let prior = old_entry.swapchain.outstanding_fences();
        proof {
            let post = *self;
            let kk = k as int;
            assert(post.outputs@ =~= pre.outputs@.remove(kk));
            assert(post.wf()) by {
                assert forall|i: int, j: int|
                    0 <= i < j < post.outputs@.len() implies post.outputs@[i].id
                    != post.outputs@[j].id by {
                    let i0: int = if i < kk {
                        i
                    } else {
                        i + 1
                    };
                    let j0: int = if j < kk {
                        j
                    } else {
                        j + 1
                    };
                    assert(pre.outputs@[i0].id != pre.outputs@[j0].id);
                }
                assert forall|k2: int|
                    0 <= k2 < post.outputs@.len() implies (#[trigger] post.outputs@[k2]).swapchain.wf()
                    && slot_fences_below(post.outputs@[k2].swapchain.slots@, post.next_fence) by {
                    let k0: int = if k2 < kk {
                        k2
                    } else {
                        k2 + 1
                    };
                    assert(post.outputs@[k2] == pre.outputs@[k0]);
                    assert(pre.outputs@[k0].swapchain.wf());
                }
            }
            assert(!post.has_output(id)) by {
                if post.has_output(id) {
                    let k1 = choose|k1: int|
                        0 <= k1 < post.outputs@.len() && post.outputs@[k1].id == id;
                    let k0: int = if k1 < kk {
                        k1
                    } else {
                        k1 + 1
                    };
                    assert(pre.outputs@[k0].id == id);
                    assert(k0 != kk);
                    assert(pre.outputs@[k0].id != pre.outputs@[kk].id);
                }
            }
            assert forall|o: OutputId| o != id && pre.has_output(o) implies #[trigger] post.has_output(
                o,
            ) by {
                let k0 = pre.out_idx(o);
                assert(0 <= k0 < pre.outputs@.len() && pre.outputs@[k0].id == o);
                lemma_output_at(pre, k0);
                let k1: int = if k0 < kk {
                    k0
                } else {
                    k0 - 1
                };
                assert(post.outputs@[k1].id == o);
            }
            assert forall|o: OutputId| #![trigger post.swapchain_of(o)]
                o != id && pre.has_output(o) implies post.swapchain_of(o) == pre.swapchain_of(
                o,
            ) by {
                let k0 = pre.out_idx(o);
                assert(0 <= k0 < pre.outputs@.len() && pre.outputs@[k0].id == o);
                lemma_output_at(pre, k0);
                let k1: int = if k0 < kk {
                    k0
                } else {
                    k0 - 1
                };
                assert(post.outputs@[k1].id == o);
                lemma_output_at(post, k1);
            }
            assert forall|o: OutputId| o != id && #[trigger] post.has_output(o) implies pre.has_output(
                o,
            ) by {
                let k1 = post.out_idx(o);
                assert(0 <= k1 < post.outputs@.len() && post.outputs@[k1].id == o);
                let k0: int = if k1 < kk {
                    k1
                } else {
                    k1 + 1
                };
                assert(pre.outputs@[k0].id == o);
            }
            assert(prior@ == spec_outstanding_fences(pre.swapchain_of(id).slots@));
        }
        Ok(prior)
    }
}

/// Whether `v` holds the pixel format `f`.
fn contains_format(v: &Vec<PixelFormat>, f: PixelFormat) -> (r: bool)
    ensures
        r == v@.contains(f),
{
    let mut i: usize = 0;
    while i < v.len()
        invariant
            0 <= i <= v@.len(),
            forall|j: int| 0 <= j < i ==> v@[j] != f,
        decreases v@.len() - i,
    {
        if v[i] == f {
            proof {
                assert(v@[i as int] == f);
            }
            return true;
        }
        i += 1;
    }
    proof {
        assert(!v@.contains(f));
    }
    false
}

impl StarforgeRenderer {
    /// Import an externally-produced frame of pixel data as a GPU-readable
    /// resource and begin tracking it for release.
    ///
    /// The GPU-side import happens outside the library; `gpu_accepted`
    /// reports its outcome. An unsupported pixel format is rejected with
    /// `UnsupportedFormat` and a rejected import with `ImportFailed`, both
    /// mutating nothing; an accepted import is tracked under a fresh
    /// identifier with no referencing fences and no release scheduled.
    pub fn import_dma_buf(&mut self, info: DmaBufImportInfo, gpu_accepted: bool) -> (r: Result<
        BufferId,
        RenderError,
    >)
        requires
            old(self).wf(),
            old(self).buffers.next_buffer_id < u64::MAX,
        ensures
            final(self).wf(),
            !old(self).format_supported(info.format) ==> r == Err::<BufferId, RenderError>(
                RenderError::UnsupportedFormat,
            ) && *final(self) == *old(self),
            old(self).format_supported(info.format) && !gpu_accepted ==> r == Err::<
                BufferId,
                RenderError,
            >(RenderError::ImportFailed) && *final(self) == *old(self),
            old(self).format_supported(info.format) && gpu_accepted ==> {
                &&& r == Ok::<BufferId, RenderError>(BufferId(old(self).buffers.next_buffer_id))
                &&& !old(self).buffers.live(BufferId(old(self).buffers.next_buffer_id))
                &&& forall|b: BufferId| #[trigger]
                    final(self).buffers.live(b) <==> (old(self).buffers.live(b) || b == BufferId(
                        old(self).buffers.next_buffer_id,
                    ))
                &&& final(self).buffers.entry(BufferId(old(self).buffers.next_buffer_id)).info
                    == info
                &&& final(self).buffers.entry(
                    BufferId(old(self).buffers.next_buffer_id),
                ).fences@.len() == 0
                &&& final(self).buffers.entry(
                    BufferId(old(self).buffers.next_buffer_id),
                ).release_scheduled == false
                &&& forall|b: BufferId|
                    old(self).buffers.live(b) ==> final(self).buffers.entry(b) == old(
                        self,
                    ).buffers.entry(b)
                &&& final(self).buffers.next_buffer_id == old(self).buffers.next_buffer_id + 1
                &&& final(self).outputs == old(self).outputs
                &&& final(self).next_fence == old(self).next_fence
                &&& final(self).context == old(self).context
            },
    {
        if !contains_format(&self.import_formats, info.format) {
            return Err(RenderError::UnsupportedFormat);
        }
        if !gpu_accepted {
            return Err(RenderError::ImportFailed);
        }
        let ghost pre = *old(self);
        let id = self.buffers.import(info);
        proof {
            let post = *self;
            assert forall|i: int, f2: u64|
                0 <= i < post.buffers.buffers@.len() && #[trigger] post.buffers.buffers@[i].fences@.contains(
                    f2,
                ) implies (f2 as int) < post.next_fence as int by {
                if i < pre.buffers.buffers@.len() {
                    assert(post.buffers.buffers@[i] == pre.buffers.buffers@[i]);
                } else {
                    assert(post.buffers.buffers@[i].fences@.len() == 0);
                }
            }
        }
        Ok(id)
    }

    /// Signal release intent for an imported buffer.
    ///
    /// Fails with `BufferNotFound`, mutating nothing, exactly when the
    /// buffer is not tracked — never imported, or already released. When no
    /// outstanding fence references the buffer the release fires now (the
    /// result is true) and the buffer leaves the tracker; otherwise the
    /// request is recorded and the release fires when the last referencing
    /// fence completes.
    pub fn release_buffer(&mut self, id: BufferId) -> (r: Result<bool, RenderError>)
        requires
            old(self).wf(),
        ensures
            final(self).wf(),
            !old(self).buffers.live(id) ==> r == Err::<bool, RenderError>(
                RenderError::BufferNotFound,
            ) && *final(self) == *old(self),
            old(self).buffers.live(id) ==> r == Ok::<bool, RenderError>(
                (old(self).buffers.entry(id).fences@.len() == 0),
            ),
            old(self).buffers.live(id) ==> {
                &&& (old(self).buffers.entry(id).fences@.len() == 0 ==> forall|b: BufferId|
                    #[trigger] final(self).buffers.live(b) <==> (old(self).buffers.live(b) && b
                        != id))
                &&& (old(self).buffers.entry(id).fences@.len() > 0 ==> (forall|b: BufferId|
                    #[trigger] final(self).buffers.live(b) <==> old(self).buffers.live(b))
                    && final(self).buffers.entry(id).release_scheduled == true
                    && final(self).buffers.entry(id).fences@ == old(self).buffers.entry(
                    id,
                ).fences@)
                &&& forall|b: BufferId|
                    old(self).buffers.live(b) && b != id ==> final(self).buffers.entry(b) == old(
                        self,
                    ).buffers.entry(b)
                &&& final(self).outputs == old(self).outputs
                &&& final(self).next_fence == old(self).next_fence
                &&& final(self).buffers.next_buffer_id == old(self).buffers.next_buffer_id
                &&& final(self).context == old(self).context
            },
    {
        if !self.buffers.contains_buffer(id) {
            return Err(RenderError::BufferNotFound);
        }
        let ghost pre = *old(self);
        let fired = self.buffers.schedule_release(id);
        proof {
            let post = *self;
            assert forall|i: int, f2: u64|
                0 <= i < post.buffers.buffers@.len() && #[trigger] post.buffers.buffers@[i].fences@.contains(
                    f2,
                ) implies (f2 as int) < post.next_fence as int by {
                let i0 = choose|i0: int|
                    0 <= i0 < pre.buffers.buffers@.len() && #[trigger] pre.buffers.buffers@[i0].fences@.contains(
                        f2,
                    );
            }
        }
        Ok(fired)
    }

    /// Record that the GPU confirmed completion of `fence`: the fence leaves
    /// every buffer's fence set, and the result lists the buffers — at most
    /// once each — whose deferred release this completion unblocks. The
    /// caller notifies the client-buffer-release collaborator for each.
    pub fn notify_fence_complete(&mut self, fence: u64) -> (fired: Vec<BufferId>)
        requires
            old(self).wf(),
        ensures
            final(self).wf(),
            complete_fence_rel(old(self).buffers, final(self).buffers, fired@, fence),
            fired@.no_duplicates(),
            final(self).outputs == old(self).outputs,
            final(self).next_fence == old(self).next_fence,
            final(self).context == old(self).context,
            final(self).import_formats == old(self).import_formats,
            final(self).partial_update == old(self).partial_update,
            final(self).background == old(self).background,
    {
        let ghost pre = *old(self);
        let fired = self.buffers.complete_fence(fence);
        proof {
            let post = *self;
            assert forall|i: int, f2: u64|
                0 <= i < post.buffers.buffers@.len() && #[trigger] post.buffers.buffers@[i].fences@.contains(
                    f2,
                ) implies (f2 as int) < post.next_fence as int by {
                let i0 = choose|i0: int|
                    0 <= i0 < pre.buffers.buffers@.len() && #[trigger] pre.buffers.buffers@[i0].fences@.contains(
                        f2,
                    );
            }
        }
        fired
    }

    /// Whether `id` is currently registered.
    pub fn contains_output(&self, id: OutputId) -> (r: bool)
        ensures
            r == self.has_output(id),
    {
        match find_output(&self.outputs, id) {
            Some(k) => {
                proof {
                    assert(self.outputs@[k as int].id == id);
                }
                true
            },
            None => {
                proof {
                    if self.has_output(id) {
                        let k0 = choose|k0: int|
                            0 <= k0 < self.outputs@.len() && self.outputs@[k0].id == id;
                        assert(self.outputs@[k0].id != id);
                    }
                }
                false
            },
        }
    }

    /// The swapchain of a registered output, for inspection.
    pub fn swapchain(&self, id: OutputId) -> (r: Option<&OutputSwapchain>)
        requires
            forall|i: int, j: int|
                0 <= i < j < self.outputs@.len() ==> self.outputs@[i].id != self.outputs@[j].id,
        ensures
            match r {
                Some(sc) => self.has_output(id) && *sc == self.swapchain_of(id),
                None => !self.has_output(id),
            },
    {
        match find_output(&self.outputs, id) {
            Some(k) => {
                proof {
                    lemma_output_at(*self, k as int);
                }
                Some(&self.outputs[k].swapchain)
            },
            None => {
                proof {
                    if self.has_output(id) {
                        let k0 = choose|k0: int|
                            0 <= k0 < self.outputs@.len() && self.outputs@[k0].id == id;
                        assert(self.outputs@[k0].id != id);
                    }
                }
                None
            },
        }
    }

    /// Whether the imported buffer `id` is still tracked for release.
    pub fn buffer_live(&self, id: BufferId) -> (r: bool)
        ensures
            r == self.buffers.live(id),
    {
        self.buffers.contains_buffer(id)
    }

    /// Orchestrate one frame on one output.
    ///
    /// The platform has already attempted to acquire a presentable image for
    /// the addressed output; `acquire` is its outcome. On success the frame's
    /// slot is the frame counter modulo the slot count; the fence of the
    /// slot's previous use is handed back as `waited_fence`, owed a wait
    /// before the slot's resources are reused (in-flight frames stay bounded
    /// by the slot count); the new submission signals a fresh fence, which is
    /// recorded against every buffer the elements sample; the compiled
    /// commands clear to the background and then draw the elements in list
    /// order — back-to-front; and the frame counter advances exactly once. A
    /// call with no elements is a valid no-content frame, not a skipped one.
    ///
    /// Fails with `OutputNotFound`, mutating nothing, exactly when `id` is
    /// not registered; an acquire failure is returned as the matching
    /// recoverable error, also mutating nothing. Every client-surface
    /// element must reference a buffer the tracker still holds: a buffer
    /// whose release has fired may no longer be sampled.
    pub fn render_frame(
        &mut self,
        id: OutputId,
        elements: &Vec<RenderElement>,
        acquire: AcquireOutcome,
    ) -> (r: Result<FrameSubmission, RenderError>)
        requires
            old(self).wf(),
            old(self).next_fence < u64::MAX,
            forall|j: int|
                0 <= j < elements@.len() ==> (match element_buffer(#[trigger] elements@[j]) {
                    Some(b) => old(self).buffers.live(b),
                    None => true,
                }),
            old(self).has_output(id) ==> old(self).swapchain_of(id).current_frame < u64::MAX,
            old(self).has_output(id) ==> (acquire matches AcquireOutcome::Acquired { image_index }
                ==> (image_index as int) < old(self).swapchain_of(id).slots@.len()),
        ensures
            final(self).wf(),
            !old(self).has_output(id) ==> r == Err::<FrameSubmission, RenderError>(
                RenderError::OutputNotFound,
            ) && *final(self) == *old(self),
            old(self).has_output(id) && acquire == AcquireOutcome::OutOfDate ==> r == Err::<
                FrameSubmission,
                RenderError,
            >(RenderError::OutOfDate) && *final(self) == *old(self),
            old(self).has_output(id) && acquire == AcquireOutcome::SurfaceLost ==> r == Err::<
                FrameSubmission,
                RenderError,
            >(RenderError::SurfaceLost) && *final(self) == *old(self),
            old(self).has_output(id) && acquire == AcquireOutcome::TimedOut ==> r == Err::<
                FrameSubmission,
                RenderError,
            >(RenderError::Timeout) && *final(self) == *old(self),
            old(self).has_output(id) && acquire is Acquired ==> r is Ok,
            r matches Ok(sub) ==> {
                &&& old(self).has_output(id)
                &&& acquire == (AcquireOutcome::Acquired { image_index: sub.image_index })
                &&& sub.signal_fence == old(self).next_fence
                &&& final(self).next_fence == old(self).next_fence + 1
                &&& sub.slot == spec_slot_index(
                    old(self).swapchain_of(id).current_frame as nat,
                    old(self).swapchain_of(id).slots@.len() as int,
                )
                &&& sub.waited_fence == old(self).swapchain_of(id).slots@[sub.slot as int]
                &&& final(self).swapchain_of(id).slots@ == spec_advance_slots(
                    old(self).swapchain_of(id).slots@,
                    old(self).swapchain_of(id).current_frame as nat,
                    sub.signal_fence,
                )
                &&& final(self).swapchain_of(id).current_frame == old(self).swapchain_of(
                    id,
                ).current_frame + 1
                &&& final(self).swapchain_of(id).surface == old(self).swapchain_of(id).surface
                &&& final(self).swapchain_of(id).surface_format == old(self).swapchain_of(
                    id,
                ).surface_format
                &&& final(self).swapchain_of(id).present_mode == old(self).swapchain_of(
                    id,
                ).present_mode
                &&& final(self).swapchain_of(id).extent == old(self).swapchain_of(id).extent
                &&& frame_compiles_to(
                    elements@,
                    old(self).background,
                    old(self).partial_update,
                    sub.commands@,
                )
            },
            r is Ok ==> forall|o: OutputId|
                (final(self).has_output(o) <==> old(self).has_output(o)),
            r is Ok ==> forall|o: OutputId| #![trigger final(self).swapchain_of(o)]
                o != id && old(self).has_output(o) ==> final(self).swapchain_of(o) == old(
                    self,
                ).swapchain_of(o),
            r is Ok ==> forall|b: BufferId|
                (#[trigger] final(self).buffers.live(b) <==> old(self).buffers.live(b)),
            r is Ok ==> forall|b: BufferId| #![trigger final(self).buffers.entry(b)]
                old(self).buffers.live(b) ==> {
                    &&& final(self).buffers.entry(b).info == old(self).buffers.entry(b).info
                    &&& final(self).buffers.entry(b).release_scheduled == old(
                        self,
                    ).buffers.entry(b).release_scheduled
                    &&& forall|f2: u64| #[trigger]
                        final(self).buffers.entry(b).fences@.contains(f2) <==> (old(
                            self,
                        ).buffers.entry(b).fences@.contains(f2) || (f2 == old(self).next_fence
                            && references_buffer(elements@, b)))
                },
            r is Ok ==> final(self).buffers.next_buffer_id == old(self).buffers.next_buffer_id
                && final(self).context == old(self).context && final(self).background == old(
                self,
            ).background && final(self).partial_update == old(self).partial_update,
    {
        let ghost pre = *old(self);
        let k = match find_output(&self.outputs, id) {
            Some(k) => k,
            None => {
                proof {
                    if pre.has_output(id) {
                        let k0 = choose|k0: int|
                            0 <= k0 < pre.outputs@.len() && pre.outputs@[k0].id == id;
                        assert(pre.outputs@[k0].id != id);
                    }
                }
                return Err(RenderError::OutputNotFound);
            },
        };
        proof {
            lemma_output_at(pre, k as int);
        }
        let image_index = match acquire {
            AcquireOutcome::Acquired { image_index } => image_index,
            AcquireOutcome::OutOfDate => {
                return Err(RenderError::OutOfDate);
            },
            AcquireOutcome::SurfaceLost => {
                return Err(RenderError::SurfaceLost);
            },
            AcquireOutcome::TimedOut => {
                return Err(RenderError::Timeout);
            },
        };
        let fence = self.next_fence;
        self.next_fence = self.next_fence + 1;
        let mut entry = self.outputs.remove(k);
        let adv = entry.swapchain.advance_frame(image_index, fence);
        let ghost e2 = entry;
        self.outputs.insert(k, entry);
        let ghost mid = *self;
        proof {
            let kk = k as int;
            assert(mid.outputs@ =~= pre.outputs@.update(kk, e2));
            assert forall|i: int, j: int|
                0 <= i < j < mid.outputs@.len() implies mid.outputs@[i].id
                != mid.outputs@[j].id by {
                assert(pre.outputs@[i].id != pre.outputs@[j].id);
            }
            assert forall|k2: int|
                0 <= k2 < mid.outputs@.len() implies (#[trigger] mid.outputs@[k2]).swapchain.wf()
                && slot_fences_below(mid.outputs@[k2].swapchain.slots@, mid.next_fence) by {
                if k2 != kk {
                    assert(mid.outputs@[k2] == pre.outputs@[k2]);
                    assert(slot_fences_below(pre.outputs@[k2].swapchain.slots@, pre.next_fence));
                    assert forall|j: int|
                        0 <= j < mid.outputs@[k2].swapchain.slots@.len() implies match #[trigger] mid.outputs@[k2].swapchain.slots@[j] {
                        Some(f) => (f as int) < mid.next_fence as int,
                        None => true,
                    } by {
                        assert(match pre.outputs@[k2].swapchain.slots@[j] {
                            Some(f) => (f as int) < pre.next_fence as int,
                            None => true,
                        });
                    }
                } else {
                    assert(e2.swapchain.slots@ == pre.outputs@[kk].swapchain.slots@.update(
                        spec_slot_index(
                            pre.outputs@[kk].swapchain.current_frame as nat,
                            pre.outputs@[kk].swapchain.slots@.len() as int,
                        ),
                        Some(fence),
                    ));
                    assert forall|j: int|
                        0 <= j < e2.swapchain.slots@.len() implies match #[trigger] e2.swapchain.slots@[j] {
                        Some(f) => (f as int) < mid.next_fence as int,
                        None => true,
                    } by {
                        assert(slot_fences_below(
                            pre.outputs@[kk].swapchain.slots@,
                            pre.next_fence,
                        ));
                        if e2.swapchain.slots@[j] != pre.outputs@[kk].swapchain.slots@[j] {
                            assert(e2.swapchain.slots@[j] == Some(fence));
                        } else {
                            assert(match pre.outputs@[kk].swapchain.slots@[j] {
                                Some(f) => (f as int) < pre.next_fence as int,
                                None => true,
                            });
                        }
                    }
                }
            }
            lemma_output_at(mid, kk);
            assert(mid.swapchain_of(id) == e2.swapchain);
            assert forall|o: OutputId| #[trigger] mid.has_output(o) implies pre.has_output(o) by {
                let k1 = choose|k1: int| 0 <= k1 < mid.outputs@.len() && mid.outputs@[k1].id == o;
                assert(pre.outputs@[k1].id == o);
            }
            assert forall|o: OutputId| pre.has_output(o) implies #[trigger] mid.has_output(o) by {
                let k1 = choose|k1: int| 0 <= k1 < pre.outputs@.len() && pre.outputs@[k1].id == o;
                assert(mid.outputs@[k1].id == o);
            }
            assert forall|o: OutputId| #![trigger mid.swapchain_of(o)]
                o != id && pre.has_output(o) implies mid.swapchain_of(o) == pre.swapchain_of(
                o,
            ) by {
                let k0 = pre.out_idx(o);
                assert(0 <= k0 < pre.outputs@.len() && pre.outputs@[k0].id == o);
                lemma_output_at(pre, k0);
                lemma_output_at(mid, k0);
            }
        }
        let commands = compose_frame(elements, self.background, self.partial_update);
        let mut i: usize = 0;
        while i < elements.len()
            invariant
                0 <= i <= elements@.len(),
                self.outputs == mid.outputs,
                self.next_fence == mid.next_fence,
                self.context == mid.context,
                self.import_formats == mid.import_formats,
                self.partial_update == mid.partial_update,
                self.background == mid.background,
                mid.next_fence == fence + 1,
                self.buffers.wf(),
                self.buffers.next_buffer_id == pre.buffers.next_buffer_id,
                pre.buffers.wf(),
                forall|j: int|
                    0 <= j < elements@.len() ==> (match element_buffer(#[trigger] elements@[j]) {
                        Some(b) => pre.buffers.live(b),
                        None => true,
                    }),
                forall|b: BufferId| (#[trigger] self.buffers.live(b) <==> pre.buffers.live(b)),
                forall|b: BufferId| #![trigger self.buffers.entry(b)]
                    pre.buffers.live(b) ==> {
                        &&& self.buffers.entry(b).info == pre.buffers.entry(b).info
                        &&& self.buffers.entry(b).release_scheduled == pre.buffers.entry(
                            b,
                        ).release_scheduled
                        &&& forall|f2: u64| #[trigger]
                            self.buffers.entry(b).fences@.contains(f2) <==> (pre.buffers.entry(
                                b,
                            ).fences@.contains(f2) || (f2 == fence && references_buffer(
                                elements@.take(i as int),
                                b,
                            )))
                    },
                forall|ii: int, f2: u64|
                    0 <= ii < self.buffers.buffers@.len()
                        && #[trigger] self.buffers.buffers@[ii].fences@.contains(f2) ==> (
                    f2 as int) < self.next_fence as int,
            decreases elements@.len() - i,
        {
            let ghost cur = *self;
            let element_ref = &elements[i];
            match element_ref {
                RenderElement::ClientSurface { buffer, .. } => {
                    let b0 = *buffer;
                    proof {
                        assert(element_buffer(elements@[i as int]) == Some(b0));
                        assert(pre.buffers.live(b0));
                        assert(cur.buffers.live(b0));
                    }
                    self.buffers.add_fence(b0, fence);
                    proof {
                        assert(elements@.take(i as int + 1) =~= elements@.take(i as int).push(
                            elements@[i as int],
                        ));
                        assert forall|b: BufferId| #![trigger self.buffers.entry(b)]
                            pre.buffers.live(b) implies {
                            &&& self.buffers.entry(b).info == pre.buffers.entry(b).info
                            &&& self.buffers.entry(b).release_scheduled == pre.buffers.entry(
                                b,
                            ).release_scheduled
                            &&& forall|f2: u64| #[trigger]
                                self.buffers.entry(b).fences@.contains(f2) <==> (pre.buffers.entry(
                                    b,
                                ).fences@.contains(f2) || (f2 == fence && references_buffer(
                                    elements@.take(i as int + 1),
                                    b,
                                )))
                        } by {
                            if b == b0 {
                                assert(references_buffer(elements@.take(i as int + 1), b)) by {
                                    assert(elements@.take(i as int + 1)[i as int] == elements@[i as int]);
                                }
                                assert forall|f2: u64| #[trigger]
                                    self.buffers.entry(b).fences@.contains(f2) <==> (
                                pre.buffers.entry(b).fences@.contains(f2) || (f2 == fence
                                    && references_buffer(elements@.take(i as int + 1), b))) by {
                                    assert(self.buffers.entry(b0).fences@.contains(f2) <==> (
                                    cur.buffers.entry(b0).fences@.contains(f2) || f2 == fence));
                                }
                            } else {
                                assert(self.buffers.entry(b) == cur.buffers.entry(b));
                                assert(references_buffer(elements@.take(i as int + 1), b)
                                    == references_buffer(elements@.take(i as int), b)) by {
                                    if references_buffer(elements@.take(i as int + 1), b) {
                                        let j = choose|j: int|
                                            0 <= j < elements@.take(i as int + 1).len()
                                                && element_buffer(
                                                #[trigger] elements@.take(i as int + 1)[j],
                                            ) == Some(b);
                                        if j < i {
                                            assert(elements@.take(i as int)[j] == elements@.take(
                                                i as int + 1,
                                            )[j]);
                                        } else {
                                            assert(elements@.take(i as int + 1)[j] == elements@[i as int]);
                                        }
                                    }
                                    if references_buffer(elements@.take(i as int), b) {
                                        let j = choose|j: int|
                                            0 <= j < elements@.take(i as int).len()
                                                && element_buffer(
                                                #[trigger] elements@.take(i as int)[j],
                                            ) == Some(b);
                                        assert(elements@.take(i as int + 1)[j] == elements@.take(
                                            i as int,
                                        )[j]);
                                    }
                                }
                            }
                        }
                    }
                },
                RenderElement::SolidColor { .. } => {
                    proof {
                        assert(elements@.take(i as int + 1) =~= elements@.take(i as int).push(
                            elements@[i as int],
                        ));
                        assert(element_buffer(elements@[i as int]) is None);
                        assert forall|b: BufferId|
                            references_buffer(elements@.take(i as int + 1), b)
                                == references_buffer(elements@.take(i as int), b) by {
                            if references_buffer(elements@.take(i as int + 1), b) {
                                let j = choose|j: int|
                                    0 <= j < elements@.take(i as int + 1).len() && element_buffer(
                                        #[trigger] elements@.take(i as int + 1)[j],
                                    ) == Some(b);
                                if j < i {
                                    assert(elements@.take(i as int)[j] == elements@.take(
                                        i as int + 1,
                                    )[j]);
                                } else {
                                    assert(elements@.take(i as int + 1)[j] == elements@[i as int]);
                                }
                            }
                            if references_buffer(elements@.take(i as int), b) {
                                let j = choose|j: int|
                                    0 <= j < elements@.take(i as int).len() && element_buffer(
                                        #[trigger] elements@.take(i as int)[j],
                                    ) == Some(b);
                                assert(elements@.take(i as int + 1)[j] == elements@.take(
                                    i as int,
                                )[j]);
                            }
                        }
                    }
                },
            }
            i += 1;
        }
        proof {
            assert(elements@.take(elements@.len() as int) =~= elements@);
            let post = *self;
            let kk = k as int;
            assert(post.outputs@ == mid.outputs@);
            assert forall|i2: int, j2: int|
                0 <= i2 < j2 < post.outputs@.len() implies post.outputs@[i2].id
                != post.outputs@[j2].id by {
                assert(post.outputs@[i2] == mid.outputs@[i2]);
                assert(post.outputs@[j2] == mid.outputs@[j2]);
                assert(mid.outputs@[i2].id != mid.outputs@[j2].id);
            }
            assert forall|k2: int|
                0 <= k2 < post.outputs@.len() implies (#[trigger] post.outputs@[k2]).swapchain.wf()
                && slot_fences_below(post.outputs@[k2].swapchain.slots@, post.next_fence) by {
                assert(post.outputs@[k2] == mid.outputs@[k2]);
                assert(mid.outputs@[k2].swapchain.wf() && slot_fences_below(
                    mid.outputs@[k2].swapchain.slots@,
                    mid.next_fence,
                ));
            }
            assert forall|o: OutputId| #[trigger] post.has_output(o) implies mid.has_output(o) by {
                let k1 = choose|k1: int| 0 <= k1 < post.outputs@.len() && post.outputs@[k1].id == o;
                assert(mid.outputs@[k1].id == o);
            }
            assert forall|o: OutputId| #[trigger] mid.has_output(o) implies post.has_output(o) by {
                let k1 = choose|k1: int| 0 <= k1 < mid.outputs@.len() && mid.outputs@[k1].id == o;
                assert(post.outputs@[k1].id == o);
            }
            assert forall|o: OutputId| #![trigger post.swapchain_of(o)]
                mid.has_output(o) implies post.swapchain_of(o) == mid.swapchain_of(o) by {
                let k0 = mid.out_idx(o);
                assert(0 <= k0 < mid.outputs@.len() && mid.outputs@[k0].id == o);
                lemma_output_at(mid, k0);
                assert(post.outputs@[k0].id == o);
                lemma_output_at(post, k0);
            }
            assert forall|o: OutputId| (#[trigger] post.has_output(o) <==> pre.has_output(o)) by {
                assert(mid.has_output(o) <==> pre.has_output(o));
                if post.has_output(o) {
                    assert(mid.has_output(o));
                }
                if mid.has_output(o) {
                    assert(post.has_output(o));
                }
            }
            assert(post.swapchain_of(id) == e2.swapchain);
        }
        Ok(
            FrameSubmission {
                slot: adv.slot,
                image_index: adv.image_index,
                waited_fence: adv.waited_fence,
                signal_fence: fence,
                commands,
            },
        )
    }
}

} // verus!
