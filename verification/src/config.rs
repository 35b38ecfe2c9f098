//! Configuration value objects of the compositor.
//!
//! Loading and saving these from disk is the surrounding process's business;
//! the library only defines the values and their defaults.

use vstd::prelude::*;

use crate::color::ColorRgba;

verus! {

/// General configuration options.
#[derive(Clone, Debug)]
pub struct GeneralConfig {
    /// Application name.
    pub app_name: String,
    /// Enable debugging features (validation-layer diagnostics).
    pub debug: bool,
}

/// Rendering configuration.
#[derive(Clone, Copy, Debug)]
pub struct RenderConfig {
    /// Enable vsync.
    pub vsync: bool,
    /// Background color the no-content frame clears to.
    pub background_color: ColorRgba,
}

/// The main configuration of the compositor.
#[derive(Clone, Debug)]
pub struct StarforgeConfig {
    /// General configuration options.
    pub general: GeneralConfig,
    /// Rendering configuration.
    pub rendering: RenderConfig,
}

/// The default application name.
pub fn default_app_name() -> (r: String)
    ensures
        r@ == "Starforge Compositor"@,
{
    String::from_str("Starforge Compositor")
}

/// Vsync is on unless configured off.
pub fn default_vsync() -> (r: bool)
    ensures
        r == true,
{
    true
}

/// The default background color: a dark blue.
pub fn default_background_color() -> (r: ColorRgba)
    ensures
        r == (ColorRgba { red: 26, green: 26, blue: 51, alpha: 255 }),
{
    ColorRgba { red: 26, green: 26, blue: 51, alpha: 255 }
}

impl Default for StarforgeConfig {
    /// The configuration used when no file overrides it.
    fn default() -> (r: Self)
        ensures
            r.general.app_name@ == "Starforge Compositor"@,
            r.general.debug == false,
            r.rendering.vsync == true,
            r.rendering.background_color == (ColorRgba {
                red: 26,
                green: 26,
                blue: 51,
                alpha: 255,
            }),
    {
        StarforgeConfig {
            general: GeneralConfig { app_name: default_app_name(), debug: false },
            rendering: RenderConfig {
                vsync: default_vsync(),
                background_color: default_background_color(),
            },
        }
    }
}

} // verus!
