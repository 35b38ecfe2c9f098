//! Surface format, extent, present-mode and image-count negotiation.

use starforge::ColorSpace;
use starforge::Extent2D;
use starforge::PixelFormat;
use starforge::PresentMode;
use starforge::RenderError;
use starforge::SurfaceCapabilities;
use starforge::SurfaceFormat;
use starforge::choose_present_mode;
use starforge::choose_surface_format;
use starforge::choose_swap_extent;
use starforge::negotiate_image_count;

fn standard() -> SurfaceFormat {
    SurfaceFormat { format: PixelFormat::Bgra8Srgb, color_space: ColorSpace::SrgbNonlinear }
}

fn hdr() -> SurfaceFormat {
    SurfaceFormat { format: PixelFormat::Rgba16Extended, color_space: ColorSpace::Hdr10St2084 }
}

fn odd() -> SurfaceFormat {
    SurfaceFormat { format: PixelFormat::Rgba8Unorm, color_space: ColorSpace::SrgbNonlinear }
}

fn variable_caps() -> SurfaceCapabilities {
    SurfaceCapabilities {
        current_extent: None,
        min_image_extent: Extent2D { width: 1, height: 1 },
        max_image_extent: Extent2D { width: 4096, height: 2160 },
        min_image_count: 2,
        max_image_count: Some(4),
    }
}

#[test]
fn hdr_format_preferred_when_requested_and_available() {
    let formats = vec![standard(), hdr()];
    let chosen = choose_surface_format(&formats, true).unwrap();
    assert_eq!(chosen, hdr());
}

#[test]
fn hdr_request_falls_back_to_standard_format() {
    let formats = vec![odd(), standard()];
    let chosen = choose_surface_format(&formats, true).unwrap();
    assert_eq!(chosen, standard());
}

#[test]
fn standard_format_chosen_without_hdr_request() {
    let formats = vec![hdr(), standard()];
    let chosen = choose_surface_format(&formats, false).unwrap();
    assert_eq!(chosen, standard());
}

#[test]
fn first_format_is_last_resort() {
    let formats = vec![odd()];
    let chosen = choose_surface_format(&formats, true).unwrap();
    assert_eq!(chosen, odd());
}

#[test]
fn no_formats_fail_rather_than_guess() {
    let formats: Vec<SurfaceFormat> = Vec::new();
    assert_eq!(choose_surface_format(&formats, false).err(), Some(RenderError::NoSurfaceFormats));
    assert_eq!(choose_surface_format(&formats, true).err(), Some(RenderError::NoSurfaceFormats));
}

#[test]
fn desired_present_mode_kept_when_supported() {
    let modes = vec![PresentMode::Fifo, PresentMode::Mailbox];
    assert_eq!(choose_present_mode(&modes, PresentMode::Mailbox), PresentMode::Mailbox);
}

#[test]
fn unsupported_present_mode_falls_back_to_fifo() {
    let modes = vec![PresentMode::Fifo];
    assert_eq!(choose_present_mode(&modes, PresentMode::Immediate), PresentMode::Fifo);
}

#[test]
fn fixed_extent_is_used_verbatim() {
    let caps = SurfaceCapabilities {
        current_extent: Some(Extent2D { width: 800, height: 600 }),
        ..variable_caps()
    };
    let e = choose_swap_extent(&caps, 1280, 720);
    assert_eq!(e, Extent2D { width: 800, height: 600 });
}

#[test]
fn variable_extent_is_clamped_per_axis() {
    let caps = variable_caps();
    assert_eq!(choose_swap_extent(&caps, 1280, 720), Extent2D { width: 1280, height: 720 });
    assert_eq!(choose_swap_extent(&caps, 9000, 9000), Extent2D { width: 4096, height: 2160 });
    assert_eq!(choose_swap_extent(&caps, 0, 0), Extent2D { width: 1, height: 1 });
    let e = choose_swap_extent(&caps, 5000, 10);
    assert!(caps.min_image_extent.width <= e.width && e.width <= caps.max_image_extent.width);
    assert!(caps.min_image_extent.height <= e.height && e.height <= caps.max_image_extent.height);
}

#[test]
fn image_count_is_one_over_minimum_capped_by_maximum() {
    assert_eq!(negotiate_image_count(&variable_caps()), 3);
    let tight = SurfaceCapabilities { max_image_count: Some(2), ..variable_caps() };
    assert_eq!(negotiate_image_count(&tight), 2);
    let unbounded = SurfaceCapabilities { max_image_count: None, ..variable_caps() };
    assert_eq!(negotiate_image_count(&unbounded), 3);
}
