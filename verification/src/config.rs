//! Static application settings.

use vstd::prelude::*;

verus! {

/// Default refresh interval in milliseconds.
pub const DEFAULT_UPDATE_INTERVAL_MS: u64 = 2000;

/// Default warning threshold, in milli-degrees Celsius.
pub const DEFAULT_TEMPERATURE_WARNING: i64 = 75000;

/// Default critical threshold, in milli-degrees Celsius.
pub const DEFAULT_TEMPERATURE_CRITICAL: i64 = 85000;

/// Refresh interval and temperature thresholds. Immutable after
/// construction; the acquisition pipeline never changes it. Temperatures
/// are in milli-degrees Celsius, the fixed-point scale used crate-wide.
#[derive(Clone, Copy, Debug, PartialEq, Eq, Structural)]
pub struct AppConfig {
    /// How long a snapshot stays fresh, in milliseconds.
    pub update_interval: u64,
    /// Threshold above which the display warns, in milli-degrees Celsius.
    pub temperature_warning: i64,
    /// Threshold above which the display alarms, in milli-degrees Celsius.
    pub temperature_critical: i64,
}

impl Default for AppConfig {
    /// The built-in settings: 2000 ms interval, 75 °C warning, 85 °C critical.
    fn default() -> (c: AppConfig)
        ensures
            c.update_interval == DEFAULT_UPDATE_INTERVAL_MS,
            c.temperature_warning == DEFAULT_TEMPERATURE_WARNING,
            c.temperature_critical == DEFAULT_TEMPERATURE_CRITICAL,
    {
        AppConfig {
            update_interval: DEFAULT_UPDATE_INTERVAL_MS,
            temperature_warning: DEFAULT_TEMPERATURE_WARNING,
            temperature_critical: DEFAULT_TEMPERATURE_CRITICAL,
        }
    }
}

} // verus!
