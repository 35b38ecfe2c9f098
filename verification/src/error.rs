//! Error taxonomy of the render core.
//!
//! Every fallible operation of the library returns a typed error. Errors
//! divide into three classes: fatal (process-level), recoverable (per-output:
//! the caller reconfigures the output and retries), and caller errors (a bad
//! argument; no retry, no state mutation).

use vstd::prelude::*;

verus! {

/// A typed error of the render core.
#[derive(Clone, Copy, Debug, PartialEq, Eq, Structural)]
pub enum RenderError {
    /// The GPU instance could not be created. Fatal.
    InstanceCreationFailed,
    /// No enumerated physical device satisfies the mandatory capability set. Fatal.
    NoSuitableDevice,
    /// The logical device could not be created. Fatal.
    DeviceCreationFailed,
    /// The general-purpose memory allocator could not be constructed. Fatal.
    AllocatorInitFailed,
    /// The device was lost and the loss is confirmed. Fatal.
    DeviceLost,
    /// The presentation surface no longer matches the swapchain; reconfigure and retry.
    OutOfDate,
    /// The presentation surface is gone; reconfigure and retry.
    SurfaceLost,
    /// Image acquisition timed out; reconfigure and retry.
    Timeout,
    /// The platform enumerated no surface formats for the output.
    NoSurfaceFormats,
    /// The addressed output is not in the registry.
    OutputNotFound,
    /// The pixel format of an import request is not importable on this device.
    UnsupportedFormat,
    /// The platform rejected a buffer import.
    ImportFailed,
    /// The addressed imported buffer is not tracked (never imported, or already released).
    BufferNotFound,
}

/// How an error propagates: fatal errors end the session, recoverable errors
/// ask the caller to reconfigure the affected output and retry, caller errors
/// report a bad argument and mutate nothing.
#[derive(Clone, Copy, Debug, PartialEq, Eq, Structural)]
pub enum ErrorClass {
    Fatal,
    Recoverable,
    CallerError,
}

impl RenderError {
    /// Which class an error falls in.
    pub open spec fn spec_class(self) -> ErrorClass {
        match self {
            RenderError::InstanceCreationFailed => ErrorClass::Fatal,
            RenderError::NoSuitableDevice => ErrorClass::Fatal,
            RenderError::DeviceCreationFailed => ErrorClass::Fatal,
            RenderError::AllocatorInitFailed => ErrorClass::Fatal,
            RenderError::DeviceLost => ErrorClass::Fatal,
            RenderError::OutOfDate => ErrorClass::Recoverable,
            RenderError::SurfaceLost => ErrorClass::Recoverable,
            RenderError::Timeout => ErrorClass::Recoverable,
            RenderError::NoSurfaceFormats => ErrorClass::Fatal,
            RenderError::OutputNotFound => ErrorClass::CallerError,
            RenderError::UnsupportedFormat => ErrorClass::CallerError,
            RenderError::ImportFailed => ErrorClass::CallerError,
            RenderError::BufferNotFound => ErrorClass::CallerError,
        }
    }

    /// Classify an error per the propagation policy.
    pub fn class(&self) -> (r: ErrorClass)
        ensures
            r == self.spec_class(),
    {
        match self {
            RenderError::InstanceCreationFailed => ErrorClass::Fatal,
            RenderError::NoSuitableDevice => ErrorClass::Fatal,
            RenderError::DeviceCreationFailed => ErrorClass::Fatal,
            RenderError::AllocatorInitFailed => ErrorClass::Fatal,
            RenderError::DeviceLost => ErrorClass::Fatal,
            RenderError::OutOfDate => ErrorClass::Recoverable,
            RenderError::SurfaceLost => ErrorClass::Recoverable,
            RenderError::Timeout => ErrorClass::Recoverable,
            RenderError::NoSurfaceFormats => ErrorClass::Fatal,
            RenderError::OutputNotFound => ErrorClass::CallerError,
            RenderError::UnsupportedFormat => ErrorClass::CallerError,
            RenderError::ImportFailed => ErrorClass::CallerError,
            RenderError::BufferNotFound => ErrorClass::CallerError,
        }
    }

    /// A caller must reconfigure the output and retry exactly on the
    /// recoverable errors.
    pub fn should_reconfigure(&self) -> (r: bool)
        ensures
            r == (self.spec_class() == ErrorClass::Recoverable),
    {
        match self {
            RenderError::OutOfDate => true,
            RenderError::SurfaceLost => true,
            RenderError::Timeout => true,
            _ => false,
        }
    }

    /// A short description, for the process around the library to log.
    pub fn message(&self) -> String {
        match self {
            RenderError::InstanceCreationFailed => "instance creation failed".to_string(),
            RenderError::NoSuitableDevice => "no suitable physical device found".to_string(),
            RenderError::DeviceCreationFailed => "logical device creation failed".to_string(),
            RenderError::AllocatorInitFailed => "memory allocator initialization failed".to_string(),
            RenderError::DeviceLost => "device lost".to_string(),
            RenderError::OutOfDate => "swapchain out of date".to_string(),
            RenderError::SurfaceLost => "presentation surface lost".to_string(),
            RenderError::Timeout => "image acquisition timed out".to_string(),
            RenderError::NoSurfaceFormats => "no surface formats enumerable".to_string(),
            RenderError::OutputNotFound => "output not found".to_string(),
            RenderError::UnsupportedFormat => "unsupported pixel format".to_string(),
            RenderError::ImportFailed => "buffer import failed".to_string(),
            RenderError::BufferNotFound => "buffer not found".to_string(),
        }
    }
}

} // verus!
