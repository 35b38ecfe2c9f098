//! Surface negotiation: format, extent, present mode, image count.
//!
//! The platform layer queries the presentation surface and reports its
//! capabilities, the enumerable surface formats and the supported present
//! modes; the choices over those reports are verified here.

use vstd::prelude::*;

use crate::color::ColorSpace;
use crate::color::is_hdr_color_space;
use crate::error::RenderError;

verus! {

/// A two-dimensional extent in pixels.
#[derive(Clone, Copy, Debug, PartialEq, Eq, Structural)]
pub struct Extent2D {
    pub width: u32,
    pub height: u32,
}

/// What the platform reports of a presentation surface.
#[derive(Clone, Copy, Debug)]
pub struct SurfaceCapabilities {
    /// The fixed current extent, when the platform reports one; `None` when
    /// the surface extent is left variable.
    pub current_extent: Option<Extent2D>,
    /// Smallest supported extent.
    pub min_image_extent: Extent2D,
    /// Largest supported extent.
    pub max_image_extent: Extent2D,
    /// Fewest presentable images a swapchain must have.
    pub min_image_count: u32,
    /// Most presentable images a swapchain may have; `None` when unbounded.
    pub max_image_count: Option<u32>,
}

/// A pixel format a presentable image or an imported buffer can have.
#[derive(Clone, Copy, Debug, PartialEq, Eq, Structural)]
pub enum PixelFormat {
    /// 8-bit BGRA, sRGB-encoded.
    Bgra8Srgb,
    /// 8-bit RGBA, sRGB-encoded.
    Rgba8Srgb,
    /// 8-bit RGBA, linear.
    Rgba8Unorm,
    /// 16-bit extended-range RGBA.
    Rgba16Extended,
    /// 10-bit RGB with 2-bit alpha.
    Argb2101010,
}

/// A surface format: a pixel format paired with a color space.
#[derive(Clone, Copy, Debug, PartialEq, Eq, Structural)]
pub struct SurfaceFormat {
    pub format: PixelFormat,
    pub color_space: ColorSpace,
}

/// A presentation mode. Fifo is universally supported and serves as the
/// fallback when the desired mode is not.
#[derive(Clone, Copy, Debug, PartialEq, Eq, Structural)]
pub enum PresentMode {
    Immediate,
    Mailbox,
    Fifo,
    FifoRelaxed,
}

/// What the platform reports of one output's presentation surface: the
/// surface's capabilities, its enumerable formats and its present modes.
#[derive(Clone, Debug)]
pub struct SurfaceCreateInfo {
    pub capabilities: SurfaceCapabilities,
    pub formats: Vec<SurfaceFormat>,
    pub present_modes: Vec<PresentMode>,
}

impl SurfaceCapabilities {
    /// The platform's reports are consistent: bounds ordered, at least one
    /// image required, and the image counts small enough to step by one.
    pub open spec fn wf(self) -> bool {
        &&& self.min_image_extent.width <= self.max_image_extent.width
        &&& self.min_image_extent.height <= self.max_image_extent.height
        &&& 1 <= self.min_image_count < u32::MAX
        &&& match self.max_image_count {
            Some(m) => m >= self.min_image_count,
            None => true,
        }
    }
}

impl SurfaceCreateInfo {
    pub open spec fn wf(self) -> bool {
        self.capabilities.wf()
    }
}

/// A wide (more than 8 bits per channel) pixel format, as HDR presentation
/// needs.
pub open spec fn is_wide_pixel_format(p: PixelFormat) -> bool {
    p == PixelFormat::Rgba16Extended || p == PixelFormat::Argb2101010
}

/// An HDR-capable surface format: a wide pixel format in an HDR color space.
pub open spec fn is_hdr_surface_format(f: SurfaceFormat) -> bool {
    is_wide_pixel_format(f.format) && is_hdr_color_space(f.color_space)
}

/// A standard 8-bit sRGB surface format.
pub open spec fn is_standard_surface_format(f: SurfaceFormat) -> bool {
    (f.format == PixelFormat::Bgra8Srgb || f.format == PixelFormat::Rgba8Srgb) && f.color_space
        == ColorSpace::SrgbNonlinear
}

/// Whether a format matches the class the search looks for: HDR-capable when
/// `want_hdr`, standard 8-bit otherwise.
pub open spec fn format_matches(f: SurfaceFormat, want_hdr: bool) -> bool {
    if want_hdr {
        is_hdr_surface_format(f)
    } else {
        is_standard_surface_format(f)
    }
}

/// The index of the first format of the wanted class, or `s.len()` when none
/// matches.
pub open spec fn first_format_index(s: Seq<SurfaceFormat>, want_hdr: bool) -> int
    decreases s.len(),
{
    if s.len() == 0 {
        0
    } else if format_matches(s[0], want_hdr) {
        0
    } else {
        1 + first_format_index(s.skip(1), want_hdr)
    }
}

/// `first_format_index` names the least matching index.
pub proof fn lemma_first_format_index(s: Seq<SurfaceFormat>, want_hdr: bool)
    ensures
        0 <= first_format_index(s, want_hdr) <= s.len(),
        first_format_index(s, want_hdr) < s.len() ==> format_matches(
            s[first_format_index(s, want_hdr)],
            want_hdr,
        ),
        forall|j: int| 0 <= j < first_format_index(s, want_hdr) ==> !format_matches(s[j], want_hdr),
    decreases s.len(),
{
    if s.len() == 0 {
    } else if format_matches(s[0], want_hdr) {
    } else {
        lemma_first_format_index(s.skip(1), want_hdr);
        assert forall|j: int| 0 <= j < first_format_index(s, want_hdr) implies !format_matches(
            s[j],
            want_hdr,
        ) by {
            if j > 0 {
                assert(s.skip(1)[j - 1] == s[j]);
            }
        }
    }
}

/// The format the negotiation settles on, for a non-empty enumeration: the
/// first HDR-capable format when HDR is requested and one is available, else
/// the first standard 8-bit format, else the first enumerated format.
pub open spec fn spec_choose_format(s: Seq<SurfaceFormat>, prefer_hdr: bool) -> SurfaceFormat {
    if prefer_hdr && first_format_index(s, true) < s.len() {
        s[first_format_index(s, true)]
    } else if first_format_index(s, false) < s.len() {
        s[first_format_index(s, false)]
    } else {
        s[0]
    }
}

/// Find the first format of the wanted class.
fn find_first_format(formats: &Vec<SurfaceFormat>, want_hdr: bool) -> (r: Option<usize>)
    ensures
        match r {
            Some(i) => i == first_format_index(formats@, want_hdr) && (i as int) < formats@.len(),
            None => first_format_index(formats@, want_hdr) == formats@.len(),
        },
{
    proof {
        lemma_first_format_index(formats@, want_hdr);
    }
    let mut i: usize = 0;
    while i < formats.len()
        invariant
            0 <= i <= formats@.len(),
            forall|j: int| 0 <= j < i ==> !format_matches(formats@[j], want_hdr),
            0 <= first_format_index(formats@, want_hdr) <= formats@.len(),
            first_format_index(formats@, want_hdr) < formats@.len() ==> format_matches(
                formats@[first_format_index(formats@, want_hdr)],
                want_hdr,
            ),
            forall|j: int|
                0 <= j < first_format_index(formats@, want_hdr) ==> !format_matches(
                    formats@[j],
                    want_hdr,
                ),
        decreases formats@.len() - i,
    {
        let f = formats[i];
        let matched = if want_hdr {
            let wide = match f.format {
                PixelFormat::Rgba16Extended => true,
                PixelFormat::Argb2101010 => true,
                _ => false,
            };
            let hdr_space = match f.color_space {
                ColorSpace::Hdr10St2084 => true,
                ColorSpace::DisplayP3Nonlinear => true,
                ColorSpace::ExtendedSrgbLinear => true,
                _ => false,
            };
            wide && hdr_space
        } else {
            let eight_bit = match f.format {
                PixelFormat::Bgra8Srgb => true,
                PixelFormat::Rgba8Srgb => true,
                _ => false,
            };
            let srgb_space = match f.color_space {
                ColorSpace::SrgbNonlinear => true,
                _ => false,
            };
            eight_bit && srgb_space
        };
        if matched {
            return Some(i);
        }
        i += 1;
    }
    None
}

/// Choose the surface format.
///
/// If HDR is requested and an HDR-capable format is enumerable, prefer it;
/// otherwise fall back to a standard 8-bit format; if no formats are
/// enumerable at all, fail rather than guess.
pub fn choose_surface_format(available: &Vec<SurfaceFormat>, prefer_hdr: bool) -> (r: Result<
    SurfaceFormat,
    RenderError,
>)
    ensures
        available@.len() == 0 ==> r == Err::<SurfaceFormat, RenderError>(
            RenderError::NoSurfaceFormats,
        ),
        available@.len() > 0 ==> r == Ok::<SurfaceFormat, RenderError>(
            spec_choose_format(available@, prefer_hdr),
        ),
{
    if available.len() == 0 {
        return Err(RenderError::NoSurfaceFormats);
    }
    if prefer_hdr {
        match find_first_format(available, true) {
            Some(i) => {
                return Ok(available[i]);
            },
            None => {},
        }
    }
    match find_first_format(available, false) {
        Some(i) => Ok(available[i]),
        None => Ok(available[0]),
    }
}

/// The present mode the negotiation settles on: the desired mode when the
/// platform supports it, else the universally-supported Fifo mode.
pub open spec fn spec_choose_present_mode(s: Seq<PresentMode>, desired: PresentMode) -> PresentMode {
    if s.contains(desired) {
        desired
    } else {
        PresentMode::Fifo
    }
}

/// Choose the present mode, falling back to Fifo when the desired mode is
/// unsupported.
pub fn choose_present_mode(available: &Vec<PresentMode>, desired: PresentMode) -> (r: PresentMode)
    ensures
        r == spec_choose_present_mode(available@, desired),
{
    let mut i: usize = 0;
    while i < available.len()
        invariant
            0 <= i <= available@.len(),
            forall|j: int| 0 <= j < i ==> available@[j] != desired,
        decreases available@.len() - i,
    {
        if available[i] == desired {
            proof {
                assert(available@[i as int] == desired);
            }
            return desired;
        }
        i += 1;
    }
    proof {
        assert(!available@.contains(desired));
    }
    PresentMode::Fifo
}

/// Clamp `v` into `[lo, hi]`.
pub open spec fn clamp32(v: u32, lo: u32, hi: u32) -> u32 {
    if v < lo {
        lo
    } else if v > hi {
        hi
    } else {
        v
    }
}

/// The extent the negotiation settles on: the platform's fixed current extent
/// verbatim when one is reported (the desired size is advisory only), else
/// the desired size clamped per axis into the reported bounds.
pub open spec fn spec_choose_extent(caps: SurfaceCapabilities, desired_width: u32, desired_height: u32) -> Extent2D {
    match caps.current_extent {
        Some(e) => e,
        None => Extent2D {
            width: clamp32(desired_width, caps.min_image_extent.width, caps.max_image_extent.width),
            height: clamp32(
                desired_height,
                caps.min_image_extent.height,
                caps.max_image_extent.height,
            ),
        },
    }
}

fn clamp_u32(v: u32, lo: u32, hi: u32) -> (r: u32)
    requires
        lo <= hi,
    ensures
        r == clamp32(v, lo, hi),
{
    if v < lo {
        lo
    } else if v > hi {
        hi
    } else {
        v
    }
}

/// Choose the swapchain extent from the platform's reports and the desired
/// size.
pub fn choose_swap_extent(
    capabilities: &SurfaceCapabilities,
    desired_width: u32,
    desired_height: u32,
) -> (r: Extent2D)
    requires
        capabilities.wf(),
    ensures
        r == spec_choose_extent(*capabilities, desired_width, desired_height),
{
    match capabilities.current_extent {
        Some(e) => e,
        None => Extent2D {
            width: clamp_u32(
                desired_width,
                capabilities.min_image_extent.width,
                capabilities.max_image_extent.width,
            ),
            height: clamp_u32(
                desired_height,
                capabilities.min_image_extent.height,
                capabilities.max_image_extent.height,
            ),
        },
    }
}

/// For all platform-reported extent bounds and any desired size, the chosen
/// extent lies within the bounds on each axis, and equals the platform's
/// fixed extent whenever one is reported.
pub proof fn lemma_chosen_extent_in_bounds(
    caps: SurfaceCapabilities,
    desired_width: u32,
    desired_height: u32,
)
    requires
        caps.wf(),
    ensures
        caps.current_extent matches Some(e) ==> spec_choose_extent(
            caps,
            desired_width,
            desired_height,
        ) == e,
        caps.current_extent is None ==> caps.min_image_extent.width <= spec_choose_extent(
            caps,
            desired_width,
            desired_height,
        ).width <= caps.max_image_extent.width,
        caps.current_extent is None ==> caps.min_image_extent.height <= spec_choose_extent(
            caps,
            desired_width,
            desired_height,
        ).height <= caps.max_image_extent.height,
{
}

/// The number of presentable images negotiated with the platform: one more
/// than the platform's minimum, capped by its maximum when it reports one.
pub open spec fn spec_image_count(caps: SurfaceCapabilities) -> int {
    let desired = caps.min_image_count + 1;
    match caps.max_image_count {
        Some(m) => {
            if desired > m {
                m as int
            } else {
                desired
            }
        },
        None => desired,
    }
}

/// Negotiate the image count with the platform.
pub fn negotiate_image_count(capabilities: &SurfaceCapabilities) -> (r: u32)
    requires
        capabilities.wf(),
    ensures
        r as int == spec_image_count(*capabilities),
        r >= 1,
{
    let desired = capabilities.min_image_count + 1;
    match capabilities.max_image_count {
        Some(m) => {
            if desired > m {
                m
            } else {
                desired
            }
        },
        None => desired,
    }
}

} // verus!
