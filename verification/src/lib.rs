//! Verified core of a GPU presentation and resource pipeline for a
//! windowing display server.
//!
//! The library owns the decision logic of the pipeline: physical-device
//! selection, queue-family assignment, surface format / extent / present-mode
//! negotiation, the per-output swapchain registry, frame-slot cycling, and
//! fence-based release tracking for imported client buffers. Every function
//! here is verified; the surrounding process (Vulkan FFI, window-system
//! plumbing, file I/O) lives outside the library and feeds it plain values.

mod buffers;
mod color;
mod config;
mod device;
mod error;
mod frame;
mod renderer;
mod surface;
mod swapchain;

pub use buffers::BufferId;
pub use buffers::BufferTracker;
pub use buffers::DmaBufImportInfo;
pub use buffers::ImportedBuffer;
pub use buffers::complete_fence_rel;
pub use buffers::entry_after_completion;
pub use buffers::lemma_live_below_next;
pub use buffers::lemma_release_fires_at_most_once;
pub use buffers::lemma_release_only_after_all_fences;
pub use buffers::only_fence;
pub use buffers::release_fires;
pub use color::ColorRgba;
pub use color::ColorSpace;
pub use color::TransferFunction;
pub use color::is_hdr_color_space;
pub use config::GeneralConfig;
pub use config::RenderConfig;
pub use config::StarforgeConfig;
pub use config::default_app_name;
pub use config::default_background_color;
pub use config::default_vsync;
pub use device::DebugSeverity;
pub use device::DeviceCaps;
pub use device::DeviceExtension;
pub use device::GpuContext;
pub use device::InstanceExtension;
pub use device::LogLevel;
pub use device::QueueFamilyCaps;
pub use device::QueueInfo;
pub use device::TeardownStep;
pub use device::check_device_qualifies;
pub use device::debug_message_level;
pub use device::device_qualifies;
pub use device::instance_extension_plan;
pub use device::validation_layers_active;
pub use device::required_device_extensions;
pub use device::required_extensions_seq;
pub use device::spec_has_graphics_family;
pub use error::ErrorClass;
pub use error::RenderError;
pub use frame::DrawCommand;
pub use frame::RenderElement;
pub use frame::compile_element;
pub use frame::compose_frame;
pub use frame::element_buffer;
pub use frame::element_compiles_to;
pub use frame::frame_compiles_to;
pub use frame::references_buffer;
pub use renderer::AcquireOutcome;
pub use renderer::FrameSubmission;
pub use renderer::OutputEntry;
pub use renderer::StarforgeRenderer;
pub use surface::Extent2D;
pub use surface::PixelFormat;
pub use surface::PresentMode;
pub use surface::SurfaceCapabilities;
pub use surface::SurfaceCreateInfo;
pub use surface::SurfaceFormat;
pub use surface::choose_present_mode;
pub use surface::choose_surface_format;
pub use surface::choose_swap_extent;
pub use surface::is_hdr_surface_format;
pub use surface::is_standard_surface_format;
pub use surface::lemma_chosen_extent_in_bounds;
pub use surface::negotiate_image_count;
pub use surface::spec_choose_extent;
pub use surface::spec_choose_format;
pub use surface::spec_choose_present_mode;
pub use surface::spec_image_count;
pub use swapchain::FrameAdvance;
pub use swapchain::OutputId;
pub use swapchain::OutputSwapchain;
pub use swapchain::SwapchainConfig;
pub use renderer::lemma_unregistered_output_unknown;
pub use renderer::slot_fences_below;
pub use swapchain::lemma_frame_slots_cycle;
pub use swapchain::spec_advance_slots;
pub use swapchain::spec_outstanding_fences;
pub use swapchain::spec_run_frames;
pub use swapchain::spec_slot_index;
