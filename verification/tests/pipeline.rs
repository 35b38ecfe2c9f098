//! Registry, frame-cycle and buffer-release behavior of the renderer.

use starforge::AcquireOutcome;
use starforge::BufferId;
use starforge::ColorSpace;
use starforge::DeviceCaps;
use starforge::DmaBufImportInfo;
use starforge::DrawCommand;
use starforge::Extent2D;
use starforge::GpuContext;
use starforge::OutputId;
use starforge::PixelFormat;
use starforge::PresentMode;
use starforge::QueueFamilyCaps;
use starforge::RenderElement;
use starforge::RenderError;
use starforge::StarforgeRenderer;
use starforge::SurfaceCapabilities;
use starforge::SurfaceCreateInfo;
use starforge::SurfaceFormat;
use starforge::SwapchainConfig;
use starforge::TransferFunction;
use starforge::default_background_color;
use starforge::required_device_extensions;

fn context() -> GpuContext {
    let caps = DeviceCaps {
        extensions: required_device_extensions(),
        queue_families: vec![QueueFamilyCaps { graphics: true, compute: true, transfer: true }],
        timeline_semaphore_feature: true,
    };
    GpuContext::create(&vec![caps], false).unwrap()
}

fn renderer() -> StarforgeRenderer {
    StarforgeRenderer::new(
        context(),
        vec![PixelFormat::Bgra8Srgb, PixelFormat::Rgba8Srgb],
        true,
        default_background_color(),
    )
}

/// A surface whose negotiation yields two in-flight slots.
fn two_slot_surface() -> SurfaceCreateInfo {
    SurfaceCreateInfo {
        capabilities: SurfaceCapabilities {
            current_extent: None,
            min_image_extent: Extent2D { width: 1, height: 1 },
            max_image_extent: Extent2D { width: 4096, height: 4096 },
            min_image_count: 1,
            max_image_count: Some(2),
        },
        formats: vec![SurfaceFormat {
            format: PixelFormat::Bgra8Srgb,
            color_space: ColorSpace::SrgbNonlinear,
        }],
        present_modes: vec![PresentMode::Fifo, PresentMode::Mailbox],
    }
}

fn fifo_config(width: u32, height: u32) -> SwapchainConfig {
    SwapchainConfig {
        desired_width: width,
        desired_height: height,
        desired_present_mode: PresentMode::Fifo,
        enable_hdr: false,
    }
}

fn import_info() -> DmaBufImportInfo {
    DmaBufImportInfo {
        fd: 7,
        width: 256,
        height: 256,
        format: PixelFormat::Bgra8Srgb,
        modifier: 0,
    }
}

fn surface_element(buffer: BufferId) -> RenderElement {
    RenderElement::ClientSurface {
        buffer,
        position: (0, 0),
        size: (256, 256),
        damage: vec![],
        color_space: ColorSpace::SrgbNonlinear,
        eotf: TransferFunction::Srgb,
    }
}

fn acquired(image_index: usize) -> AcquireOutcome {
    AcquireOutcome::Acquired { image_index }
}

#[test]
fn unregistered_output_is_not_found_and_registry_unchanged() {
    let mut r = renderer();
    r.register_output(OutputId(1), two_slot_surface(), fifo_config(640, 480)).unwrap();
    let err = r.render_frame(OutputId(9), &vec![], acquired(0));
    assert_eq!(err.err(), Some(RenderError::OutputNotFound));
    assert!(r.contains_output(OutputId(1)));
    assert!(!r.contains_output(OutputId(9)));
}

#[test]
fn unregister_removes_the_output_and_render_then_fails() {
    let mut r = renderer();
    r.register_output(OutputId(1), two_slot_surface(), fifo_config(640, 480)).unwrap();
    assert!(r.contains_output(OutputId(1)));
    r.unregister_output(OutputId(1)).unwrap();
    assert!(!r.contains_output(OutputId(1)));
    let err = r.render_frame(OutputId(1), &vec![], acquired(0));
    assert_eq!(err.err(), Some(RenderError::OutputNotFound));
    assert_eq!(r.unregister_output(OutputId(1)).err(), Some(RenderError::OutputNotFound));
}

#[test]
fn configure_then_render_reflects_the_new_extent() {
    let mut r = renderer();
    r.register_output(OutputId(1), two_slot_surface(), fifo_config(640, 480)).unwrap();
    assert_eq!(
        r.swapchain(OutputId(1)).unwrap().extent,
        Extent2D { width: 640, height: 480 }
    );
    r.configure_output(OutputId(1), fifo_config(1280, 720)).unwrap();
    let ok = r.render_frame(OutputId(1), &vec![], acquired(0));
    assert!(ok.is_ok());
    let sc = r.swapchain(OutputId(1)).unwrap();
    assert_eq!(sc.extent, Extent2D { width: 1280, height: 720 });
    assert_eq!(sc.present_mode, PresentMode::Fifo);
    assert_eq!(sc.current_frame, 1);
}

#[test]
fn configure_unknown_output_is_not_found() {
    let mut r = renderer();
    assert_eq!(
        r.configure_output(OutputId(3), fifo_config(100, 100)).err(),
        Some(RenderError::OutputNotFound)
    );
}

#[test]
fn registering_with_no_formats_fails() {
    let mut r = renderer();
    let mut surface = two_slot_surface();
    surface.formats = vec![];
    assert_eq!(
        r.register_output(OutputId(1), surface, fifo_config(640, 480)).err(),
        Some(RenderError::NoSurfaceFormats)
    );
    assert!(!r.contains_output(OutputId(1)));
}

#[test]
fn frame_slots_cycle_and_reuse_waits_for_the_prior_fence() {
    let mut r = renderer();
    r.register_output(OutputId(1), two_slot_surface(), fifo_config(640, 480)).unwrap();
    assert_eq!(r.swapchain(OutputId(1)).unwrap().slots.len(), 2);

    let f0 = r.render_frame(OutputId(1), &vec![], acquired(0)).unwrap();
    assert_eq!(f0.slot, 0);
    assert_eq!(f0.waited_fence, None);
    assert_eq!(f0.signal_fence, 0);

    let f1 = r.render_frame(OutputId(1), &vec![], acquired(1)).unwrap();
    assert_eq!(f1.slot, 1);
    assert_eq!(f1.waited_fence, None);
    assert_eq!(f1.signal_fence, 1);

    // Both slots are now in flight: the third frame reuses slot 0 and must
    // first wait for the first frame's fence.
    let f2 = r.render_frame(OutputId(1), &vec![], acquired(0)).unwrap();
    assert_eq!(f2.slot, 0);
    assert_eq!(f2.waited_fence, Some(0));
    assert_eq!(f2.signal_fence, 2);

    let f3 = r.render_frame(OutputId(1), &vec![], acquired(1)).unwrap();
    assert_eq!(f3.slot, 1);
    assert_eq!(f3.waited_fence, Some(1));
}

#[test]
fn acquire_failures_are_recoverable_and_mutate_nothing() {
    let mut r = renderer();
    r.register_output(OutputId(1), two_slot_surface(), fifo_config(640, 480)).unwrap();
    assert_eq!(
        r.render_frame(OutputId(1), &vec![], AcquireOutcome::OutOfDate).err(),
        Some(RenderError::OutOfDate)
    );
    assert_eq!(
        r.render_frame(OutputId(1), &vec![], AcquireOutcome::SurfaceLost).err(),
        Some(RenderError::SurfaceLost)
    );
    assert_eq!(
        r.render_frame(OutputId(1), &vec![], AcquireOutcome::TimedOut).err(),
        Some(RenderError::Timeout)
    );
    assert_eq!(r.swapchain(OutputId(1)).unwrap().current_frame, 0);
}

#[test]
fn no_content_frame_still_clears() {
    let mut r = renderer();
    r.register_output(OutputId(1), two_slot_surface(), fifo_config(640, 480)).unwrap();
    let f = r.render_frame(OutputId(1), &vec![], acquired(0)).unwrap();
    assert_eq!(f.commands.len(), 1);
    match &f.commands[0] {
        DrawCommand::Clear { color } => assert_eq!(*color, default_background_color()),
        _ => panic!("a no-content frame must clear to the background"),
    }
}

#[test]
fn commands_keep_compositing_order_and_damage() {
    let mut r = renderer();
    r.register_output(OutputId(1), two_slot_surface(), fifo_config(640, 480)).unwrap();
    let b = r.import_dma_buf(import_info(), true).unwrap();
    let mut damaged = surface_element(b);
    if let RenderElement::ClientSurface { damage, .. } = &mut damaged {
        damage.push((10, 20, 30, 40));
    }
    let solid = RenderElement::SolidColor {
        rect: (5, 5, 50, 50),
        color: default_background_color(),
    };
    let elements = vec![solid, damaged];
    let f = r.render_frame(OutputId(1), &elements, acquired(0)).unwrap();
    assert_eq!(f.commands.len(), 3);
    assert!(matches!(f.commands[0], DrawCommand::Clear { .. }));
    assert!(matches!(f.commands[1], DrawCommand::FillRect { .. }));
    match &f.commands[2] {
        DrawCommand::SampleSurface { buffer, regions, .. } => {
            assert_eq!(*buffer, b);
            assert_eq!(regions, &vec![(10, 20, 30, 40)]);
        },
        _ => panic!("the client surface must be sampled last"),
    }
}

#[test]
fn undamaged_surface_re_renders_the_full_rectangle() {
    let mut r = renderer();
    r.register_output(OutputId(1), two_slot_surface(), fifo_config(640, 480)).unwrap();
    let b = r.import_dma_buf(import_info(), true).unwrap();
    let elements = vec![surface_element(b)];
    let f = r.render_frame(OutputId(1), &elements, acquired(0)).unwrap();
    match &f.commands[1] {
        DrawCommand::SampleSurface { regions, .. } => {
            assert_eq!(regions, &vec![(0, 0, 256, 256)]);
        },
        _ => panic!("expected a sampling command"),
    }
}

#[test]
fn unsupported_import_format_is_rejected() {
    let mut r = renderer();
    let info = DmaBufImportInfo { format: PixelFormat::Argb2101010, ..import_info() };
    assert_eq!(r.import_dma_buf(info, true).err(), Some(RenderError::UnsupportedFormat));
}

#[test]
fn platform_rejected_import_fails() {
    let mut r = renderer();
    assert_eq!(r.import_dma_buf(import_info(), false).err(), Some(RenderError::ImportFailed));
}

#[test]
fn release_of_unknown_buffer_is_rejected() {
    let mut r = renderer();
    assert_eq!(r.release_buffer(BufferId(4)).err(), Some(RenderError::BufferNotFound));
}

#[test]
fn release_with_no_referencing_fences_fires_immediately() {
    let mut r = renderer();
    let b = r.import_dma_buf(import_info(), true).unwrap();
    assert!(r.buffer_live(b));
    assert_eq!(r.release_buffer(b), Ok(true));
    assert!(!r.buffer_live(b));
    assert_eq!(r.release_buffer(b).err(), Some(RenderError::BufferNotFound));
}

#[test]
fn release_fires_once_and_only_after_every_referencing_fence() {
    let mut r = renderer();
    r.register_output(OutputId(1), two_slot_surface(), fifo_config(640, 480)).unwrap();
    let b = r.import_dma_buf(import_info(), true).unwrap();

    // Frame F1 references the buffer.
    let f1 = r.render_frame(OutputId(1), &vec![surface_element(b)], acquired(0)).unwrap();
    // Release is asked for after F1 submits but before F2 submits.
    assert_eq!(r.release_buffer(b), Ok(false));
    // Frame F2 also references the buffer.
    let f2 = r.render_frame(OutputId(1), &vec![surface_element(b)], acquired(1)).unwrap();

    // F1's completion alone must not fire the release: F2 still references it.
    assert_eq!(r.notify_fence_complete(f1.signal_fence), Vec::<BufferId>::new());
    assert!(r.buffer_live(b));
    // F2's completion fires the release, exactly once.
    assert_eq!(r.notify_fence_complete(f2.signal_fence), vec![b]);
    assert!(!r.buffer_live(b));
    // A later completion can never fire it again.
    assert_eq!(r.notify_fence_complete(f2.signal_fence), Vec::<BufferId>::new());
}

#[test]
fn buffer_identifiers_are_never_reused() {
    let mut r = renderer();
    let b0 = r.import_dma_buf(import_info(), true).unwrap();
    assert_eq!(r.release_buffer(b0), Ok(true));
    let b1 = r.import_dma_buf(import_info(), true).unwrap();
    assert_ne!(b0, b1);
    assert!(!r.buffer_live(b0));
    assert!(r.buffer_live(b1));
}

#[test]
fn duplicate_registration_hands_back_the_prior_outstanding_fences() {
    let mut r = renderer();
    r.register_output(OutputId(1), two_slot_surface(), fifo_config(640, 480)).unwrap();
    let f0 = r.render_frame(OutputId(1), &vec![], acquired(0)).unwrap();
    let prior = r.register_output(OutputId(1), two_slot_surface(), fifo_config(800, 600)).unwrap();
    assert_eq!(prior, vec![f0.signal_fence]);
    let sc = r.swapchain(OutputId(1)).unwrap();
    assert_eq!(sc.extent, Extent2D { width: 800, height: 600 });
    assert_eq!(sc.current_frame, 0);
}

#[test]
fn unregister_hands_back_the_outstanding_fences() {
    let mut r = renderer();
    r.register_output(OutputId(1), two_slot_surface(), fifo_config(640, 480)).unwrap();
    let f0 = r.render_frame(OutputId(1), &vec![], acquired(0)).unwrap();
    let f1 = r.render_frame(OutputId(1), &vec![], acquired(1)).unwrap();
    let fences = r.unregister_output(OutputId(1)).unwrap();
    assert_eq!(fences, vec![f0.signal_fence, f1.signal_fence]);
}

#[test]
fn independent_outputs_do_not_disturb_each_other() {
    let mut r = renderer();
    r.register_output(OutputId(1), two_slot_surface(), fifo_config(640, 480)).unwrap();
    r.register_output(OutputId(2), two_slot_surface(), fifo_config(320, 240)).unwrap();
    r.render_frame(OutputId(1), &vec![], acquired(0)).unwrap();
    assert_eq!(r.swapchain(OutputId(1)).unwrap().current_frame, 1);
    assert_eq!(r.swapchain(OutputId(2)).unwrap().current_frame, 0);
    r.unregister_output(OutputId(1)).unwrap();
    assert!(r.contains_output(OutputId(2)));
    assert_eq!(
        r.swapchain(OutputId(2)).unwrap().extent,
        Extent2D { width: 320, height: 240 }
    );
}
