//! Physical-device selection and the GPU context model.
//!
//! The platform layer enumerates the physical devices and reports, for each,
//! its device-extension set, its queue families and whether the
//! timeline-semaphore feature is usable; selection over those reports is
//! verified here. A device qualifies when it offers every mandatory
//! capability and at least one graphics-capable queue family; the first
//! qualifying device in enumeration order is selected, with no further
//! scoring.

use vstd::prelude::*;

use crate::error::RenderError;

verus! {

/// A device extension of the mandatory capability set: presentation,
/// cross-process memory/semaphore/fence import, format-modifier enumeration,
/// HDR metadata and timeline semaphores.
#[derive(Clone, Copy, Debug, PartialEq, Eq, Structural)]
pub enum DeviceExtension {
    Swapchain,
    ExternalMemoryFd,
    ExternalSemaphoreFd,
    ExternalFenceFd,
    ExternalMemoryDmaBuf,
    ImageDrmFormatModifier,
    HdrMetadata,
    TimelineSemaphore,
}

/// Capabilities of one queue family, as the device reports them.
#[derive(Clone, Copy, Debug, PartialEq, Eq, Structural)]
pub struct QueueFamilyCaps {
    pub graphics: bool,
    pub compute: bool,
    pub transfer: bool,
}

/// What one enumerated physical device reports: its extension set, its queue
/// families in family-index order, and whether the timeline-semaphore feature
/// is actually usable (not merely the extension advertised).
#[derive(Clone, Debug)]
pub struct DeviceCaps {
    pub extensions: Vec<DeviceExtension>,
    pub queue_families: Vec<QueueFamilyCaps>,
    pub timeline_semaphore_feature: bool,
}

/// A queue obtained from the logical device, identified by its family.
#[derive(Clone, Copy, Debug, PartialEq, Eq, Structural)]
pub struct QueueInfo {
    pub family_index: u32,
}

/// The ordered list of device extensions every selected device must offer.
pub open spec fn required_extensions_seq() -> Seq<DeviceExtension> {
    seq![
        DeviceExtension::Swapchain,
        DeviceExtension::ExternalMemoryFd,
        DeviceExtension::ExternalSemaphoreFd,
        DeviceExtension::ExternalFenceFd,
        DeviceExtension::ExternalMemoryDmaBuf,
        DeviceExtension::ImageDrmFormatModifier,
        DeviceExtension::HdrMetadata,
        DeviceExtension::TimelineSemaphore,
    ]
}

/// The mandatory capability set: every device extension, a graphics-capable
/// queue family, and the timeline-semaphore feature usable.
pub open spec fn device_qualifies(d: DeviceCaps) -> bool {
    &&& forall|e: DeviceExtension| d.extensions@.contains(e)
    &&& spec_has_graphics_family(d)
    &&& d.timeline_semaphore_feature
}

/// Some queue family of the device advertises graphics capability.
pub open spec fn spec_has_graphics_family(d: DeviceCaps) -> bool {
    exists|i: int| 0 <= i < d.queue_families@.len() && d.queue_families@[i].graphics
}

/// The device reports few enough queue families for a family index to fit in
/// a `u32`.
pub open spec fn caps_index_bound(d: DeviceCaps) -> bool {
    d.queue_families@.len() <= u32::MAX
}

/// The selected capability the distinct-family search looks for.
pub open spec fn family_capable(f: QueueFamilyCaps, want_compute: bool) -> bool {
    if want_compute {
        f.compute
    } else {
        f.transfer
    }
}

/// The ordered list of device extensions enabled on every created device.
pub fn required_device_extensions() -> (r: Vec<DeviceExtension>)
    ensures
        r@ == required_extensions_seq(),
{
    let mut v: Vec<DeviceExtension> = Vec::new();
    v.push(DeviceExtension::Swapchain);
    v.push(DeviceExtension::ExternalMemoryFd);
    v.push(DeviceExtension::ExternalSemaphoreFd);
    v.push(DeviceExtension::ExternalFenceFd);
    v.push(DeviceExtension::ExternalMemoryDmaBuf);
    v.push(DeviceExtension::ImageDrmFormatModifier);
    v.push(DeviceExtension::HdrMetadata);
    v.push(DeviceExtension::TimelineSemaphore);
    proof {
        assert(v@ =~= required_extensions_seq());
    }
    v
}

/// Whether `v` holds the extension `e`.
fn contains_extension(v: &Vec<DeviceExtension>, e: DeviceExtension) -> (r: bool)
    ensures
        r == v@.contains(e),
{
    let mut i: usize = 0;
    while i < v.len()
        invariant
            0 <= i <= v@.len(),
            forall|j: int| 0 <= j < i ==> v@[j] != e,
        decreases v@.len() - i,
    {
        if v[i] == e {
            proof {
                assert(v@[i as int] == e);
            }
            return true;
        }
        i += 1;
    }
    proof {
        assert(!v@.contains(e));
    }
    false
}

/// Whether the device offers every mandatory extension.
fn supports_required_extensions(d: &DeviceCaps) -> (r: bool)
    ensures
        r == (forall|e: DeviceExtension| d.extensions@.contains(e)),
{
    let c0 = contains_extension(&d.extensions, DeviceExtension::Swapchain);
    let c1 = contains_extension(&d.extensions, DeviceExtension::ExternalMemoryFd);
    let c2 = contains_extension(&d.extensions, DeviceExtension::ExternalSemaphoreFd);
    let c3 = contains_extension(&d.extensions, DeviceExtension::ExternalFenceFd);
    let c4 = contains_extension(&d.extensions, DeviceExtension::ExternalMemoryDmaBuf);
    let c5 = contains_extension(&d.extensions, DeviceExtension::ImageDrmFormatModifier);
    let c6 = contains_extension(&d.extensions, DeviceExtension::HdrMetadata);
    let c7 = contains_extension(&d.extensions, DeviceExtension::TimelineSemaphore);
    let r = c0 && c1 && c2 && c3 && c4 && c5 && c6 && c7;
    proof {
        if r {
            assert forall|e: DeviceExtension| d.extensions@.contains(e) by {
                match e {
                    DeviceExtension::Swapchain => {},
                    DeviceExtension::ExternalMemoryFd => {},
                    DeviceExtension::ExternalSemaphoreFd => {},
                    DeviceExtension::ExternalFenceFd => {},
                    DeviceExtension::ExternalMemoryDmaBuf => {},
                    DeviceExtension::ImageDrmFormatModifier => {},
                    DeviceExtension::HdrMetadata => {},
                    DeviceExtension::TimelineSemaphore => {},
                }
            }
        }
    }
    r
}

/// The first queue family advertising graphics capability, if any.
fn first_graphics_family(families: &Vec<QueueFamilyCaps>) -> (r: Option<u32>)
    requires
        families@.len() <= u32::MAX,
    ensures
        match r {
            Some(i) => {
                &&& (i as int) < families@.len()
                &&& families@[i as int].graphics
                &&& forall|j: int| 0 <= j < i ==> !families@[j].graphics
            },
            None => forall|j: int| 0 <= j < families@.len() ==> !families@[j].graphics,
        },
{
    let mut i: usize = 0;
    while i < families.len()
        invariant
            0 <= i <= families@.len(),
            families@.len() <= u32::MAX,
            forall|j: int| 0 <= j < i ==> !families@[j].graphics,
        decreases families@.len() - i,
    {
        if families[i].graphics {
            return Some(i as u32);
        }
        i += 1;
    }
    None
}

/// The first queue family with the wanted capability whose index differs from
/// the graphics family, if any: separate compute/transfer families are
/// best-effort, used only when distinct from the graphics family.
fn first_distinct_family(
    families: &Vec<QueueFamilyCaps>,
    graphics_family: u32,
    want_compute: bool,
) -> (r: Option<u32>)
    requires
        families@.len() <= u32::MAX,
    ensures
        match r {
            Some(i) => {
                &&& (i as int) < families@.len()
                &&& family_capable(families@[i as int], want_compute)
                &&& i != graphics_family
                &&& forall|j: int|
                    0 <= j < i ==> !(family_capable(families@[j], want_compute) && j
                        != graphics_family)
            },
            None => forall|j: int|
                0 <= j < families@.len() ==> !(family_capable(families@[j], want_compute) && j
                    != graphics_family),
        },
{
    let mut i: usize = 0;
    while i < families.len()
        invariant
            0 <= i <= families@.len(),
            families@.len() <= u32::MAX,
            forall|j: int|
                0 <= j < i ==> !(family_capable(families@[j], want_compute) && j
                    != graphics_family),
        decreases families@.len() - i,
    {
        let capable = if want_compute {
            families[i].compute
        } else {
            families[i].transfer
        };
        if capable && (i as u32) != graphics_family {
            return Some(i as u32);
        }
        i += 1;
    }
    None
}

/// Whether a device satisfies the whole mandatory capability set.
pub fn check_device_qualifies(d: &DeviceCaps) -> (r: bool)
    requires
        caps_index_bound(*d),
    ensures
        r == device_qualifies(*d),
{
    let exts = supports_required_extensions(d);
    let graphics = first_graphics_family(&d.queue_families);
    let has_graphics = graphics.is_some();
    proof {
        if has_graphics {
            assert(spec_has_graphics_family(*d));
        } else {
            assert(!spec_has_graphics_family(*d));
        }
    }
    exts && has_graphics && d.timeline_semaphore_feature
}

/// Copy a list of extensions.
fn copy_extensions(v: &Vec<DeviceExtension>) -> (r: Vec<DeviceExtension>)
    ensures
        r@ == v@,
{
    let mut r: Vec<DeviceExtension> = Vec::new();
    let mut i: usize = 0;
    while i < v.len()
        invariant
            0 <= i <= v@.len(),
            r@ == v@.take(i as int),
        decreases v@.len() - i,
    {
        r.push(v[i]);
        proof {
            assert(r@ =~= v@.take(i as int + 1));
        }
        i += 1;
    }
    proof {
        assert(v@.take(v@.len() as int) =~= v@);
    }
    r
}

/// Copy a list of queue-family capabilities.
fn copy_families(v: &Vec<QueueFamilyCaps>) -> (r: Vec<QueueFamilyCaps>)
    ensures
        r@ == v@,
{
    let mut r: Vec<QueueFamilyCaps> = Vec::new();
    let mut i: usize = 0;
    while i < v.len()
        invariant
            0 <= i <= v@.len(),
            r@ == v@.take(i as int),
        decreases v@.len() - i,
    {
        r.push(v[i]);
        proof {
            assert(r@ =~= v@.take(i as int + 1));
        }
        i += 1;
    }
    proof {
        assert(v@.take(v@.len() as int) =~= v@);
    }
    r
}

/// The GPU context: the selected physical device, the queues obtained from
/// the logical device, and the extensions enabled on it. Immutable after
/// construction; everything else borrows it.
#[derive(Debug)]
pub struct GpuContext {
    /// Index of the selected device in enumeration order.
    pub device_index: usize,
    /// What the selected device reported.
    pub capabilities: DeviceCaps,
    /// The graphics queue. Exactly one always exists.
    pub graphics_queue: QueueInfo,
    /// A compute queue on a family distinct from the graphics family, if the
    /// device has one; never fabricated.
    pub compute_queue: Option<QueueInfo>,
    /// A transfer queue on a family distinct from the graphics family, if the
    /// device has one; never fabricated.
    pub transfer_queue: Option<QueueInfo>,
    /// The device extensions enabled on the logical device.
    pub enabled_extensions: Vec<DeviceExtension>,
    /// Whether validation-layer diagnostics were requested and activated.
    pub validation_enabled: bool,
}

/// An instance-level extension the context asks for beyond what the platform
/// windowing layer itself requires.
#[derive(Clone, Copy, Debug, PartialEq, Eq, Structural)]
pub enum InstanceExtension {
    /// Debug-message routing; only with active validation layers.
    DebugUtils,
    /// Extended physical-device capability queries.
    GetPhysicalDeviceProperties2,
    /// Extended surface capability queries.
    GetSurfaceCapabilities2,
}

/// Validation layers are active only when requested and actually available;
/// requested-but-unavailable degrades to a warning, never an error.
pub fn validation_layers_active(enable_validation: bool, layer_available: bool) -> (r: bool)
    ensures
        r == (enable_validation && layer_available),
{
    enable_validation && layer_available
}

/// The instance extensions to enable beyond the platform's own: the two
/// capability-query extensions always, and debug-message routing exactly
/// when validation is active.
pub fn instance_extension_plan(validation_active: bool) -> (r: Vec<InstanceExtension>)
    ensures
        r@ == if validation_active {
            seq![
                InstanceExtension::GetPhysicalDeviceProperties2,
                InstanceExtension::GetSurfaceCapabilities2,
                InstanceExtension::DebugUtils,
            ]
        } else {
            seq![
                InstanceExtension::GetPhysicalDeviceProperties2,
                InstanceExtension::GetSurfaceCapabilities2,
            ]
        },
{
    let mut v: Vec<InstanceExtension> = Vec::new();
    v.push(InstanceExtension::GetPhysicalDeviceProperties2);
    v.push(InstanceExtension::GetSurfaceCapabilities2);
    if validation_active {
        v.push(InstanceExtension::DebugUtils);
    }
    proof {
        if validation_active {
            assert(v@ =~= seq![
                InstanceExtension::GetPhysicalDeviceProperties2,
                InstanceExtension::GetSurfaceCapabilities2,
                InstanceExtension::DebugUtils,
            ]);
        } else {
            assert(v@ =~= seq![
                InstanceExtension::GetPhysicalDeviceProperties2,
                InstanceExtension::GetSurfaceCapabilities2,
            ]);
        }
    }
    v
}

/// Severity of a validation-layer diagnostic, as the platform reports it.
#[derive(Clone, Copy, Debug, PartialEq, Eq, Structural)]
pub enum DebugSeverity {
    Info,
    Warning,
    Error,
    Other,
}

/// The level a diagnostic is logged at. Diagnostics never alter control
/// flow; they are only routed to the logging sink at this level.
#[derive(Clone, Copy, Debug, PartialEq, Eq, Structural)]
pub enum LogLevel {
    Info,
    Warn,
    Error,
}

/// Route a validation-layer diagnostic to its logging level: warnings and
/// errors keep their severity, everything else is informational.
pub fn debug_message_level(severity: DebugSeverity) -> (r: LogLevel)
    ensures
        r == match severity {
            DebugSeverity::Info => LogLevel::Info,
            DebugSeverity::Warning => LogLevel::Warn,
            DebugSeverity::Error => LogLevel::Error,
            DebugSeverity::Other => LogLevel::Info,
        },
{
    match severity {
        DebugSeverity::Info => LogLevel::Info,
        DebugSeverity::Warning => LogLevel::Warn,
        DebugSeverity::Error => LogLevel::Error,
        DebugSeverity::Other => LogLevel::Info,
    }
}

/// One step of context teardown. The steps are executed in the order the
/// teardown plan lists them; a failed device-idle wait is logged and teardown
/// proceeds regardless, since process exit must not hang.
#[derive(Clone, Copy, Debug, PartialEq, Eq, Structural)]
pub enum TeardownStep {
    WaitDeviceIdle,
    DestroyDevice,
    DestroyDebugMessenger,
    DestroyInstance,
}

impl GpuContext {
    /// Well-formedness: the selected device qualifies, the graphics queue sits
    /// on the first graphics-capable family, and the optional queues sit on
    /// the first capable families distinct from it.
    pub open spec fn wf(self) -> bool {
        &&& device_qualifies(self.capabilities)
        &&& caps_index_bound(self.capabilities)
        &&& (self.graphics_queue.family_index as int) < self.capabilities.queue_families@.len()
        &&& self.capabilities.queue_families@[self.graphics_queue.family_index as int].graphics
        &&& forall|j: int|
            0 <= j < self.graphics_queue.family_index
                ==> !self.capabilities.queue_families@[j].graphics
        &&& match self.compute_queue {
            Some(q) => {
                &&& (q.family_index as int) < self.capabilities.queue_families@.len()
                &&& self.capabilities.queue_families@[q.family_index as int].compute
                &&& q.family_index != self.graphics_queue.family_index
            },
            None => forall|j: int|
                0 <= j < self.capabilities.queue_families@.len()
                    ==> !(self.capabilities.queue_families@[j].compute && j
                    != self.graphics_queue.family_index),
        }
        &&& match self.transfer_queue {
            Some(q) => {
                &&& (q.family_index as int) < self.capabilities.queue_families@.len()
                &&& self.capabilities.queue_families@[q.family_index as int].transfer
                &&& q.family_index != self.graphics_queue.family_index
            },
            None => forall|j: int|
                0 <= j < self.capabilities.queue_families@.len()
                    ==> !(self.capabilities.queue_families@[j].transfer && j
                    != self.graphics_queue.family_index),
        }
        &&& self.enabled_extensions@ == required_extensions_seq()
    }

    /// Select the GPU and fix the queue assignment.
    ///
    /// `devices` holds, in enumeration order, what each physical device
    /// reports. The first device satisfying every mandatory check is
    /// selected — never a later one, and no scoring beyond "first
    /// qualifying". When no device qualifies the result is
    /// `NoSuitableDevice` and no partial context is constructed.
    pub fn create(devices: &Vec<DeviceCaps>, enable_validation: bool) -> (r: Result<
        GpuContext,
        RenderError,
    >)
        requires
            forall|k: int| 0 <= k < devices@.len() ==> caps_index_bound(devices@[k]),
        ensures
            match r {
                Ok(ctx) => {
                    &&& ctx.wf()
                    &&& (ctx.device_index as int) < devices@.len()
                    &&& device_qualifies(devices@[ctx.device_index as int])
                    &&& forall|j: int|
                        0 <= j < ctx.device_index ==> !device_qualifies(devices@[j])
                    &&& ctx.capabilities.extensions@ == devices@[ctx.device_index as int].extensions@
                    &&& ctx.capabilities.queue_families@ == devices@[ctx.device_index as int].queue_families@
                    &&& ctx.capabilities.timeline_semaphore_feature == devices@[ctx.device_index as int].timeline_semaphore_feature
                    &&& ctx.validation_enabled == enable_validation
                },
                Err(e) => {
                    &&& e == RenderError::NoSuitableDevice
                    &&& forall|j: int|
                        0 <= j < devices@.len() ==> !device_qualifies(devices@[j])
                },
            },
    {
        let mut idx: usize = 0;
        while idx < devices.len()
            invariant
                0 <= idx <= devices@.len(),
                forall|k: int| 0 <= k < devices@.len() ==> caps_index_bound(devices@[k]),
                forall|j: int| 0 <= j < idx ==> !device_qualifies(devices@[j]),
            decreases devices@.len() - idx,
        {
            if check_device_qualifies(&devices[idx]) {
                let d = &devices[idx];
                let capabilities = DeviceCaps {
                    extensions: copy_extensions(&d.extensions),
                    queue_families: copy_families(&d.queue_families),
                    timeline_semaphore_feature: d.timeline_semaphore_feature,
                };
                let graphics = first_graphics_family(&capabilities.queue_families);
                match graphics {
                    Some(gf) => {
                        let compute = first_distinct_family(&capabilities.queue_families, gf, true);
                        let transfer = first_distinct_family(
                            &capabilities.queue_families,
                            gf,
                            false,
                        );
                        let ctx = GpuContext {
                            device_index: idx,
                            capabilities,
                            graphics_queue: QueueInfo { family_index: gf },
                            compute_queue: match compute {
                                Some(cf) => Some(QueueInfo { family_index: cf }),
                                None => None,
                            },
                            transfer_queue: match transfer {
                                Some(tf) => Some(QueueInfo { family_index: tf }),
                                None => None,
                            },
                            enabled_extensions: required_device_extensions(),
                            validation_enabled: enable_validation,
                        };
                        return Ok(ctx);
                    },
                    None => {
                        // A qualifying device has a graphics family, so the
                        // search cannot come back empty.
                        proof {
                            assert(false);
                        }
                    },
                }
            }
            idx += 1;
        }
        Err(RenderError::NoSuitableDevice)
    }

    /// The strict teardown order: wait for device idle, destroy the logical
    /// device, destroy the debug-reporting object if one was created, destroy
    /// the instance.
    pub fn teardown_plan(&self) -> (r: Vec<TeardownStep>)
        ensures
            r@ == if self.validation_enabled {
                seq![
                    TeardownStep::WaitDeviceIdle,
                    TeardownStep::DestroyDevice,
                    TeardownStep::DestroyDebugMessenger,
                    TeardownStep::DestroyInstance,
                ]
            } else {
                seq![
                    TeardownStep::WaitDeviceIdle,
                    TeardownStep::DestroyDevice,
                    TeardownStep::DestroyInstance,
                ]
            },
    {
        let mut v: Vec<TeardownStep> = Vec::new();
        v.push(TeardownStep::WaitDeviceIdle);
        v.push(TeardownStep::DestroyDevice);
        if self.validation_enabled {
            v.push(TeardownStep::DestroyDebugMessenger);
        }
        v.push(TeardownStep::DestroyInstance);
        proof {
            if self.validation_enabled {
                assert(v@ =~= seq![
                    TeardownStep::WaitDeviceIdle,
                    TeardownStep::DestroyDevice,
                    TeardownStep::DestroyDebugMessenger,
                    TeardownStep::DestroyInstance,
                ]);
            } else {
                assert(v@ =~= seq![
                    TeardownStep::WaitDeviceIdle,
                    TeardownStep::DestroyDevice,
                    TeardownStep::DestroyInstance,
                ]);
            }
        }
        v
    }
}

} // verus!
