//! Per-output swapchain state: the negotiated surface format, present mode
//! and extent, the ring of presentable images, and the per-slot frame fences.
//!
//! The number of in-flight slots equals the number of presentable images
//! negotiated with the platform, and at most that many frames may be
//! outstanding at once: the frame counter addresses slots modulo the slot
//! count, and before a slot is reused the fence of its previous use must have
//! completed.

use vstd::arithmetic::div_mod::lemma_mod_self_0;
use vstd::arithmetic::div_mod::lemma_small_mod;
use vstd::prelude::*;

use crate::error::RenderError;
use crate::surface::Extent2D;
use crate::surface::PresentMode;
use crate::surface::SurfaceCreateInfo;
use crate::surface::SurfaceFormat;
use crate::surface::choose_present_mode;
use crate::surface::choose_surface_format;
use crate::surface::choose_swap_extent;
use crate::surface::negotiate_image_count;
use crate::surface::spec_choose_extent;
use crate::surface::spec_choose_format;
use crate::surface::spec_choose_present_mode;
use crate::surface::spec_image_count;

verus! {

/// Opaque identifier of a physical output, supplied by the output-management
/// collaborator; stable for the output's lifetime.
#[derive(Clone, Copy, Debug, PartialEq, Eq, Hash, Structural)]
pub struct OutputId(pub u32);

/// Desired swapchain configuration: a value object with no identity.
#[derive(Clone, Copy, Debug, PartialEq, Eq, Structural)]
pub struct SwapchainConfig {
    pub desired_width: u32,
    pub desired_height: u32,
    pub desired_present_mode: PresentMode,
    pub enable_hdr: bool,
}

/// What one successful frame on an output settles: the in-flight slot used,
/// the presentable image addressed, the fence of the slot's previous use —
/// which must complete before the slot's resources are reused — and the fence
/// the new submission signals.
#[derive(Clone, Copy, Debug, PartialEq, Eq, Structural)]
pub struct FrameAdvance {
    pub slot: usize,
    pub image_index: usize,
    pub waited_fence: Option<u64>,
    pub signal_fence: u64,
}

/// One output's swapchain: the platform reports it was negotiated against,
/// the negotiated format, present mode and extent, and the in-flight slots.
#[derive(Clone, Debug)]
pub struct OutputSwapchain {
    /// What the platform reported for this output's surface.
    pub surface: SurfaceCreateInfo,
    /// The negotiated surface format.
    pub surface_format: SurfaceFormat,
    /// The negotiated present mode.
    pub present_mode: PresentMode,
    /// The negotiated extent.
    pub extent: Extent2D,
    /// Per in-flight slot: the completion fence of the slot's outstanding
    /// submission, or `None` while the slot is free.
    pub slots: Vec<Option<u64>>,
    /// Frames begun on this output; the slot index is this counter taken
    /// modulo the slot count.
    pub current_frame: u64,
}

/// The slot a frame counter addresses.
pub open spec fn spec_slot_index(frame: nat, count: int) -> int {
    (frame as int) % count
}

/// The slot ring after one frame at counter `frame` whose submission signals
/// `fence`.
pub open spec fn spec_advance_slots(slots: Seq<Option<u64>>, frame: nat, fence: u64) -> Seq<
    Option<u64>,
> {
    slots.update((frame as int) % (slots.len() as int), Some(fence))
}

/// The slot ring after successive frames at counters `frame`, `frame + 1`, …
/// signalling `fences[0]`, `fences[1]`, …
pub open spec fn spec_run_frames(slots: Seq<Option<u64>>, frame: nat, fences: Seq<u64>) -> Seq<
    Option<u64>,
>
    decreases fences.len(),
{
    if fences.len() == 0 {
        slots
    } else {
        spec_run_frames(spec_advance_slots(slots, frame, fences[0]), frame + 1, fences.skip(1))
    }
}

/// While the counter stays below the slot count, each frame lands in its own
/// slot and earlier slots keep their fences.
proof fn lemma_run_frames_fill(slots: Seq<Option<u64>>, frame: nat, fences: Seq<u64>)
    requires
        slots.len() > 0,
        frame + fences.len() <= slots.len(),
    ensures
        spec_run_frames(slots, frame, fences).len() == slots.len(),
        forall|i: int|
            frame <= i < frame + fences.len() ==> spec_run_frames(slots, frame, fences)[i] == Some(
                fences[i - frame],
            ),
        forall|i: int|
            0 <= i < slots.len() && !(frame <= i < frame + fences.len()) ==> spec_run_frames(
                slots,
                frame,
                fences,
            )[i] == slots[i],
    decreases fences.len(),
{
    if fences.len() == 0 {
    } else {
        lemma_small_mod(frame, slots.len());
        let slots1 = spec_advance_slots(slots, frame, fences[0]);
        assert(slots1.len() == slots.len());
        assert(slots1[frame as int] == Some(fences[0]));
        lemma_run_frames_fill(slots1, frame + 1, fences.skip(1));
        let run = spec_run_frames(slots, frame, fences);
        assert(run == spec_run_frames(slots1, frame + 1, fences.skip(1)));
        assert forall|i: int|
            frame <= i < frame + fences.len() implies run[i] == Some(fences[i - frame]) by {
            if i == frame {
                assert(run[i] == slots1[i]);
            } else {
                assert(run[i] == Some(fences.skip(1)[i - frame - 1]));
                assert(fences.skip(1)[i - frame - 1] == fences[i - frame]);
            }
        }
        assert forall|i: int|
            0 <= i < slots.len() && !(frame <= i < frame + fences.len()) implies run[i]
            == slots[i] by {
            assert(run[i] == slots1[i]);
            assert(slots1[i] == slots[i]);
        }
    }
}

/// Frame slot reuse: from a fresh swapchain with N slots, N successive frames
/// occupy the N distinct slots in order; the frame after that addresses slot
/// 0 again, finding the first frame's fence there, which must therefore be
/// waited on before the slot is reused — in-flight frames are bounded by the
/// slot count.
pub proof fn lemma_frame_slots_cycle(n: nat, fences: Seq<u64>)
    requires
        n > 0,
        fences.len() == n,
    ensures
        forall|i: int|
            0 <= i < n ==> spec_run_frames(Seq::new(n, |k: int| None::<u64>), 0, fences)[i] == Some(
                fences[i],
            ),
        spec_run_frames(Seq::new(n, |k: int| None::<u64>), 0, fences)[spec_slot_index(
            n,
            n as int,
        )] == Some(fences[0]),
{
    let fresh = Seq::new(n, |k: int| None::<u64>);
    lemma_run_frames_fill(fresh, 0, fences);
    lemma_mod_self_0(n as int);
    assert(spec_slot_index(n, n as int) == 0);
}

/// The fences of the slots that are outstanding, in slot order.
pub open spec fn spec_outstanding_fences(slots: Seq<Option<u64>>) -> Seq<u64>
    decreases slots.len(),
{
    if slots.len() == 0 {
        Seq::empty()
    } else {
        match slots[0] {
            Some(f) => seq![f] + spec_outstanding_fences(slots.skip(1)),
            None => spec_outstanding_fences(slots.skip(1)),
        }
    }
}

/// Appending one slot appends its fence, if outstanding.
proof fn lemma_outstanding_fences_push(slots: Seq<Option<u64>>, s: Option<u64>)
    ensures
        spec_outstanding_fences(slots.push(s)) == spec_outstanding_fences(slots) + (match s {
            Some(f) => seq![f],
            None => Seq::<u64>::empty(),
        }),
    decreases slots.len(),
{
    if slots.len() == 0 {
        assert(slots =~= Seq::<Option<u64>>::empty());
        assert(slots.push(s).len() == 1);
        assert(slots.push(s)[0] == s);
        let empty_slots = Seq::<Option<u64>>::empty();
        assert(slots.push(s).skip(1) =~= empty_slots);
        assert(spec_outstanding_fences(empty_slots) =~= Seq::<u64>::empty());
        match s {
            Some(f) => {
                assert(spec_outstanding_fences(slots.push(s)) == seq![f]
                    + spec_outstanding_fences(empty_slots));
                assert(seq![f] + Seq::<u64>::empty() =~= seq![f]);
                assert(spec_outstanding_fences(slots) + seq![f] =~= seq![f]);
            },
            None => {
                assert(spec_outstanding_fences(slots.push(s)) == spec_outstanding_fences(
                    empty_slots,
                ));
                assert(spec_outstanding_fences(slots) + Seq::<u64>::empty() =~= Seq::<
                    u64,
                >::empty());
            },
        }
    } else {
        assert(slots.push(s).skip(1) =~= slots.skip(1).push(s));
        lemma_outstanding_fences_push(slots.skip(1), s);
        match slots[0] {
            Some(f0) => {
                assert(spec_outstanding_fences(slots.push(s)) == seq![f0]
                    + spec_outstanding_fences(slots.skip(1).push(s)));
                assert(seq![f0] + (spec_outstanding_fences(slots.skip(1)) + (match s {
                    Some(f) => seq![f],
                    None => Seq::<u64>::empty(),
                })) =~= (seq![f0] + spec_outstanding_fences(slots.skip(1))) + (match s {
                    Some(f) => seq![f],
                    None => Seq::<u64>::empty(),
                }));
            },
            None => {},
        }
    }
}

/// A ring of `count` free slots.
fn make_slots(count: u32) -> (r: Vec<Option<u64>>)
    ensures
        r@.len() == count,
        forall|i: int| 0 <= i < r@.len() ==> r@[i] is None,
{
    let mut v: Vec<Option<u64>> = Vec::new();
    let mut i: u32 = 0;
    while i < count
        invariant
            0 <= i <= count,
            v@.len() == i,
            forall|j: int| 0 <= j < v@.len() ==> v@[j] is None,
        decreases count - i,
    {
        v.push(None);
        i += 1;
    }
    v
}

/// The outstanding fences of a slot ring, in slot order.
fn collect_outstanding_fences(slots: &Vec<Option<u64>>) -> (r: Vec<u64>)
    ensures
        r@ == spec_outstanding_fences(slots@),
{
    let mut r: Vec<u64> = Vec::new();
    let mut i: usize = 0;
    proof {
        assert(slots@.take(0) =~= Seq::<Option<u64>>::empty());
    }
    while i < slots.len()
        invariant
            0 <= i <= slots@.len(),
            r@ == spec_outstanding_fences(slots@.take(i as int)),
        decreases slots@.len() - i,
    {
        proof {
            assert(slots@.take(i as int + 1) =~= slots@.take(i as int).push(slots@[i as int]));
            lemma_outstanding_fences_push(slots@.take(i as int), slots@[i as int]);
        }
        match slots[i] {
            Some(f) => {
                r.push(f);
            },
            None => {},
        }
        i += 1;
    }
    proof {
        assert(slots@.take(slots@.len() as int) =~= slots@);
    }
    r
}

impl OutputSwapchain {
    /// Well-formedness: the stored platform reports are consistent, at least
    /// one format was enumerable, and the ring has at least one slot.
    pub open spec fn wf(self) -> bool {
        &&& self.surface.wf()
        &&& self.surface.formats@.len() > 0
        &&& self.slots@.len() >= 1
    }

    /// All slots are free.
    pub open spec fn all_slots_free(self) -> bool {
        forall|i: int| 0 <= i < self.slots@.len() ==> self.slots@[i] is None
    }

    /// The negotiated choices match the stored platform reports and the given
    /// configuration.
    pub open spec fn negotiated(self, config: SwapchainConfig) -> bool {
        &&& self.surface_format == spec_choose_format(self.surface.formats@, config.enable_hdr)
        &&& self.present_mode == spec_choose_present_mode(
            self.surface.present_modes@,
            config.desired_present_mode,
        )
        &&& self.extent == spec_choose_extent(
            self.surface.capabilities,
            config.desired_width,
            config.desired_height,
        )
        &&& self.slots@.len() == spec_image_count(self.surface.capabilities)
    }

    /// Create a swapchain for one output from the platform's reports.
    ///
    /// Fails with `NoSurfaceFormats` exactly when the platform enumerated no
    /// surface formats; otherwise the negotiated choices follow the format,
    /// extent and present-mode rules, every slot starts free, and the frame
    /// counter starts at zero.
    pub fn create(surface: SurfaceCreateInfo, initial_config: &SwapchainConfig) -> (r: Result<
        OutputSwapchain,
        RenderError,
    >)
        requires
            surface.wf(),
        ensures
            match r {
                Ok(sc) => {
                    &&& surface.formats@.len() > 0
                    &&& sc.wf()
                    &&& sc.surface == surface
                    &&& sc.negotiated(*initial_config)
                    &&& sc.all_slots_free()
                    &&& sc.current_frame == 0
                },
                Err(e) => e == RenderError::NoSurfaceFormats && surface.formats@.len() == 0,
            },
    {
        let surface_format = match choose_surface_format(
            &surface.formats,
            initial_config.enable_hdr,
        ) {
            Ok(f) => f,
            Err(e) => {
                return Err(e);
            },
        };
        let present_mode = choose_present_mode(
            &surface.present_modes,
            initial_config.desired_present_mode,
        );
        let extent = choose_swap_extent(
            &surface.capabilities,
            initial_config.desired_width,
            initial_config.desired_height,
        );
        let count = negotiate_image_count(&surface.capabilities);
        let slots = make_slots(count);
        Ok(
            OutputSwapchain {
                surface,
                surface_format,
                present_mode,
                extent,
                slots,
                current_frame: 0,
            },
        )
    }

    /// Reconfigure in place against the same surface: renegotiate format,
    /// present mode and extent for the new configuration and reset the slot
    /// ring. The result lists the fences that were still outstanding, in slot
    /// order; each must be waited on before the replaced ring's resources are
    /// destroyed. The frame counter is preserved.
    pub fn reconfigure(&mut self, config: &SwapchainConfig) -> (r: Vec<u64>)
        requires
            old(self).wf(),
        ensures
            final(self).wf(),
            final(self).surface == old(self).surface,
            final(self).negotiated(*config),
            final(self).all_slots_free(),
            final(self).current_frame == old(self).current_frame,
            r@ == spec_outstanding_fences(old(self).slots@),
    {
        let prior = collect_outstanding_fences(&self.slots);
        let surface_format = match choose_surface_format(&self.surface.formats, config.enable_hdr) {
            Ok(f) => f,
            Err(_) => {
                // wf() guarantees a non-empty format list, so the choice
                // cannot fail.
                proof {
                    assert(false);
                }
                return prior;
            },
        };
        self.surface_format = surface_format;
        self.present_mode = choose_present_mode(
            &self.surface.present_modes,
            config.desired_present_mode,
        );
        self.extent = choose_swap_extent(
            &self.surface.capabilities,
            config.desired_width,
            config.desired_height,
        );
        let count = negotiate_image_count(&self.surface.capabilities);
        self.slots = make_slots(count);
        prior
    }

    /// The fences of this swapchain's outstanding slots, in slot order: the
    /// waits owed before the swapchain's resources may be destroyed.
    pub fn outstanding_fences(&self) -> (r: Vec<u64>)
        ensures
            r@ == spec_outstanding_fences(self.slots@),
    {
        collect_outstanding_fences(&self.slots)
    }

    /// Advance this output by one frame.
    ///
    /// The platform has acquired presentable image `image_index`; `fence` is
    /// the fence the new submission signals. The frame counter addresses the
    /// slot; the slot's previous fence — which must complete before the
    /// slot's resources are reused — is handed back as `waited_fence`, and
    /// the counter advances exactly once.
    pub fn advance_frame(&mut self, image_index: usize, fence: u64) -> (r: FrameAdvance)
        requires
            old(self).wf(),
            image_index < old(self).slots@.len(),
            old(self).current_frame < u64::MAX,
        ensures
            final(self).wf(),
            r.slot == spec_slot_index(
                old(self).current_frame as nat,
                old(self).slots@.len() as int,
            ),
            r.image_index == image_index,
            r.waited_fence == old(self).slots@[r.slot as int],
            r.signal_fence == fence,
            final(self).slots@ == spec_advance_slots(
                old(self).slots@,
                old(self).current_frame as nat,
                fence,
            ),
            final(self).current_frame == old(self).current_frame + 1,
            final(self).surface == old(self).surface,
            final(self).surface_format == old(self).surface_format,
            final(self).present_mode == old(self).present_mode,
            final(self).extent == old(self).extent,
    {
        let count = self.slots.len();
        let slot = (self.current_frame % (count as u64)) as usize;
        let waited_fence = self.slots[slot];
        self.slots[slot] = Some(fence);
        self.current_frame = self.current_frame + 1;
        FrameAdvance { slot, image_index, waited_fence, signal_fence: fence }
    }
}

} // verus!
