//! Device selection, teardown order and configuration defaults.

use starforge::DebugSeverity;
use starforge::DeviceCaps;
use starforge::DeviceExtension;
use starforge::ErrorClass;
use starforge::GpuContext;
use starforge::InstanceExtension;
use starforge::LogLevel;
use starforge::QueueFamilyCaps;
use starforge::RenderError;
use starforge::StarforgeConfig;
use starforge::TeardownStep;
use starforge::debug_message_level;
use starforge::default_app_name;
use starforge::default_background_color;
use starforge::default_vsync;
use starforge::instance_extension_plan;
use starforge::required_device_extensions;
use starforge::validation_layers_active;

fn all_extensions() -> Vec<DeviceExtension> {
    required_device_extensions()
}

fn qualifying_caps() -> DeviceCaps {
    DeviceCaps {
        extensions: all_extensions(),
        queue_families: vec![
            QueueFamilyCaps { graphics: true, compute: true, transfer: true },
            QueueFamilyCaps { graphics: false, compute: true, transfer: true },
        ],
        timeline_semaphore_feature: true,
    }
}

fn no_timeline_caps() -> DeviceCaps {
    DeviceCaps {
        extensions: all_extensions(),
        queue_families: vec![QueueFamilyCaps { graphics: true, compute: true, transfer: true }],
        timeline_semaphore_feature: false,
    }
}

fn no_graphics_caps() -> DeviceCaps {
    DeviceCaps {
        extensions: all_extensions(),
        queue_families: vec![QueueFamilyCaps { graphics: false, compute: true, transfer: true }],
        timeline_semaphore_feature: true,
    }
}

fn missing_extension_caps() -> DeviceCaps {
    DeviceCaps {
        extensions: vec![DeviceExtension::Swapchain],
        queue_families: vec![QueueFamilyCaps { graphics: true, compute: true, transfer: true }],
        timeline_semaphore_feature: true,
    }
}

#[test]
fn first_qualifying_device_is_selected() {
    let devices = vec![no_timeline_caps(), qualifying_caps(), qualifying_caps()];
    let ctx = GpuContext::create(&devices, false).unwrap();
    assert_eq!(ctx.device_index, 1);
    assert_eq!(ctx.graphics_queue.family_index, 0);
}

#[test]
fn later_equally_qualifying_device_is_not_selected() {
    let devices = vec![qualifying_caps(), qualifying_caps()];
    let ctx = GpuContext::create(&devices, true).unwrap();
    assert_eq!(ctx.device_index, 0);
    assert!(ctx.validation_enabled);
}

#[test]
fn no_qualifying_device_fails() {
    let devices = vec![no_timeline_caps(), no_graphics_caps(), missing_extension_caps()];
    let r = GpuContext::create(&devices, false);
    assert_eq!(r.err(), Some(RenderError::NoSuitableDevice));
}

#[test]
fn empty_enumeration_fails() {
    let devices: Vec<DeviceCaps> = Vec::new();
    let r = GpuContext::create(&devices, false);
    assert_eq!(r.err(), Some(RenderError::NoSuitableDevice));
}

#[test]
fn distinct_compute_and_transfer_families_are_used() {
    let devices = vec![qualifying_caps()];
    let ctx = GpuContext::create(&devices, false).unwrap();
    assert_eq!(ctx.compute_queue.map(|q| q.family_index), Some(1));
    assert_eq!(ctx.transfer_queue.map(|q| q.family_index), Some(1));
}

#[test]
fn compute_queue_never_fabricated_when_only_graphics_family() {
    let caps = DeviceCaps {
        extensions: all_extensions(),
        queue_families: vec![QueueFamilyCaps { graphics: true, compute: true, transfer: true }],
        timeline_semaphore_feature: true,
    };
    let ctx = GpuContext::create(&vec![caps], false).unwrap();
    assert!(ctx.compute_queue.is_none());
    assert!(ctx.transfer_queue.is_none());
}

#[test]
fn teardown_order_is_strict() {
    let ctx = GpuContext::create(&vec![qualifying_caps()], true).unwrap();
    let plan = ctx.teardown_plan();
    assert_eq!(
        plan,
        vec![
            TeardownStep::WaitDeviceIdle,
            TeardownStep::DestroyDevice,
            TeardownStep::DestroyDebugMessenger,
            TeardownStep::DestroyInstance,
        ]
    );
    let ctx2 = GpuContext::create(&vec![qualifying_caps()], false).unwrap();
    let plan2 = ctx2.teardown_plan();
    assert_eq!(
        plan2,
        vec![
            TeardownStep::WaitDeviceIdle,
            TeardownStep::DestroyDevice,
            TeardownStep::DestroyInstance,
        ]
    );
}

#[test]
fn validation_diagnostics_map_to_levels() {
    assert_eq!(debug_message_level(DebugSeverity::Info), LogLevel::Info);
    assert_eq!(debug_message_level(DebugSeverity::Warning), LogLevel::Warn);
    assert_eq!(debug_message_level(DebugSeverity::Error), LogLevel::Error);
    assert_eq!(debug_message_level(DebugSeverity::Other), LogLevel::Info);
}

#[test]
fn error_taxonomy() {
    assert_eq!(RenderError::NoSuitableDevice.class(), ErrorClass::Fatal);
    assert_eq!(RenderError::InstanceCreationFailed.class(), ErrorClass::Fatal);
    assert_eq!(RenderError::DeviceCreationFailed.class(), ErrorClass::Fatal);
    assert_eq!(RenderError::AllocatorInitFailed.class(), ErrorClass::Fatal);
    assert_eq!(RenderError::OutOfDate.class(), ErrorClass::Recoverable);
    assert_eq!(RenderError::SurfaceLost.class(), ErrorClass::Recoverable);
    assert_eq!(RenderError::Timeout.class(), ErrorClass::Recoverable);
    assert_eq!(RenderError::OutputNotFound.class(), ErrorClass::CallerError);
    assert_eq!(RenderError::UnsupportedFormat.class(), ErrorClass::CallerError);
    assert!(RenderError::OutOfDate.should_reconfigure());
    assert!(RenderError::SurfaceLost.should_reconfigure());
    assert!(RenderError::Timeout.should_reconfigure());
    assert!(!RenderError::OutputNotFound.should_reconfigure());
    assert!(!RenderError::NoSuitableDevice.should_reconfigure());
}

#[test]
fn configuration_defaults() {
    let config = StarforgeConfig::default();
    assert_eq!(config.general.app_name, "Starforge Compositor");
    assert!(!config.general.debug);
    assert!(config.rendering.vsync);
    assert_eq!(config.rendering.background_color, default_background_color());
    assert_eq!(default_app_name(), "Starforge Compositor");
    assert!(default_vsync());
    assert_eq!(default_background_color().alpha, 255);
}

#[test]
fn validation_needs_request_and_availability() {
    assert!(validation_layers_active(true, true));
    assert!(!validation_layers_active(true, false));
    assert!(!validation_layers_active(false, true));
    assert!(!validation_layers_active(false, false));
}

#[test]
fn instance_extensions_follow_validation() {
    assert_eq!(
        instance_extension_plan(false),
        vec![
            InstanceExtension::GetPhysicalDeviceProperties2,
            InstanceExtension::GetSurfaceCapabilities2,
        ]
    );
    assert_eq!(
        instance_extension_plan(true),
        vec![
            InstanceExtension::GetPhysicalDeviceProperties2,
            InstanceExtension::GetSurfaceCapabilities2,
            InstanceExtension::DebugUtils,
        ]
    );
}

#[test]
fn error_messages_name_the_failure() {
    assert_eq!(RenderError::NoSuitableDevice.message(), "no suitable physical device found");
    assert_eq!(RenderError::OutputNotFound.message(), "output not found");
}
