//! The calibration table for the striker hardware. The host loads it once at
//! start-up and hands it to the library; nothing here changes at run time.

use vstd::prelude::*;

verus! {

/// Timing bounds of one kind of striker hardware, all in microseconds.
#[derive(Debug, Clone, Copy, PartialEq, Eq, Structural)]
pub struct StrikerConstants {
    /// The minimum that the min_hit_duration can be set to
    pub min_min_hit_duration: u64,
    /// The maximum that the min_hit_duration can be set to
    pub max_min_hit_duration: u64,
    /// The minimum that the max_hit_duration can be set to
    pub min_max_hit_duration: u64,
    /// The maximum that the max_hit_duration can be set to
    pub max_max_hit_duration: u64,
    /// The default value for min_hit_duration
    pub default_min_hit_duration: u64,
    /// The default value for max_hit_duration
    pub default_max_hit_duration: u64,
    /// The step size for changing these controls
    pub increment: u64,
}

/// One set of constants per kind of striker hardware.
#[derive(Debug, Clone, Copy, PartialEq, Eq, Structural)]
pub struct StrikerConstantsMap {
    #[allow(non_snake_case)]
    pub SolenoidBig: StrikerConstants,
    #[allow(non_snake_case)]
    pub SolenoidSmall: StrikerConstants,
}

/// Everything the system reads from its calibration file.
#[derive(Debug, Clone, Copy, PartialEq, Eq, Structural)]
pub struct SystemConstants {
    pub strikers: StrikerConstantsMap,
}

} // verus!
