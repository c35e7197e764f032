//! The kinds of striker hardware and the timing profile of each.

use vstd::prelude::*;
use crate::system_constants::{StrikerConstants, SystemConstants};

verus! {

/// The hardware that moves a striker.
#[derive(Debug, Clone, Copy, PartialEq, Eq, Structural)]
pub enum StrikerHardwareKind {
    SolenoidBig,
    SolenoidSmall,
}

/// The name under which a kind is written in configuration text, if `name`
/// is one.
pub open spec fn kind_named(name: Seq<char>) -> Option<StrikerHardwareKind> {
    if name == "solenoid_big"@ {
        Some(StrikerHardwareKind::SolenoidBig)
    } else if name == "solenoid_small"@ {
        Some(StrikerHardwareKind::SolenoidSmall)
    } else {
        None
    }
}

impl StrikerHardwareKind {
    /// Reads a kind from its configuration name: `solenoid_big` or
    /// `solenoid_small`. Any other text is an error.
    pub fn try_from(kind: &str) -> (r: Result<StrikerHardwareKind, String>)
        ensures
            match kind_named(kind@) {
                Some(k) => r == Ok::<StrikerHardwareKind, String>(k),
                None => r is Err && r->Err_0@ == "Unknown striker hardware kind"@,
            },
    {
        let name: String = kind.to_owned();
        if name == "solenoid_big".to_owned() {
            Ok(StrikerHardwareKind::SolenoidBig)
        } else if name == "solenoid_small".to_owned() {
            Ok(StrikerHardwareKind::SolenoidSmall)
        } else {
            Err("Unknown striker hardware kind".to_owned())
        }
    }
}

/// The constants that belong to `kind` in `constants`.
pub open spec fn constants_of(
    constants: SystemConstants,
    kind: StrikerHardwareKind,
) -> StrikerConstants {
    match kind {
        StrikerHardwareKind::SolenoidBig => constants.strikers.SolenoidBig,
        StrikerHardwareKind::SolenoidSmall => constants.strikers.SolenoidSmall,
    }
}

/// Lookups in the calibration table by kind of striker. Durations are in
/// microseconds.
pub struct StrikerHardwareUtil {}

impl StrikerHardwareUtil {
    fn get_constants(constants: &SystemConstants, striker_kind: StrikerHardwareKind) -> (r:
        &StrikerConstants)
        ensures
            *r == constants_of(*constants, striker_kind),
    {
        match striker_kind {
            StrikerHardwareKind::SolenoidBig => &constants.strikers.SolenoidBig,
            StrikerHardwareKind::SolenoidSmall => &constants.strikers.SolenoidSmall,
        }
    }

    /// The shortest pulse that the kind may be configured with.
    pub fn get_min_hit_duration(constants: &SystemConstants, striker_kind: StrikerHardwareKind) -> (r:
        u64)
        ensures
            r == constants_of(*constants, striker_kind).min_min_hit_duration,
    {
        StrikerHardwareUtil::get_constants(constants, striker_kind).min_min_hit_duration
    }

    /// The widest velocity-dependent part that the kind may be configured with.
    pub fn get_max_hit_duration(constants: &SystemConstants, striker_kind: StrikerHardwareKind) -> (r:
        u64)
        ensures
            r == constants_of(*constants, striker_kind).max_max_hit_duration,
    {
        StrikerHardwareUtil::get_constants(constants, striker_kind).max_max_hit_duration
    }

    /// The pulse width at velocity zero that the kind starts out with.
    pub fn get_default_min_hit_duration(
        constants: &SystemConstants,
        striker_kind: StrikerHardwareKind,
    ) -> (r: u64)
        ensures
            r == constants_of(*constants, striker_kind).default_min_hit_duration,
    {
        StrikerHardwareUtil::get_constants(constants, striker_kind).default_min_hit_duration
    }

    /// The velocity-dependent part that the kind starts out with.
    pub fn get_default_max_hit_duration(
        constants: &SystemConstants,
        striker_kind: StrikerHardwareKind,
    ) -> (r: u64)
        ensures
            r == constants_of(*constants, striker_kind).default_max_hit_duration,
    {
        StrikerHardwareUtil::get_constants(constants, striker_kind).default_max_hit_duration
    }
}

} // verus!
