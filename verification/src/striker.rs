//! A striker: one output line with the timing profile of its hardware.
//!
//! A strike is a single timed pulse. The striker decides whether a pulse may
//! start and how long it lasts; the host drives the line and reports the end
//! of the pulse.

use vstd::prelude::*;
use crate::striker_hardware_util::{constants_of, StrikerHardwareKind, StrikerHardwareUtil};
use crate::system_constants::SystemConstants;

verus! {

/// No pulse lasts longer than this, in microseconds.
pub const MAX_HIT_DURATION_US: u64 = 400_000;

/// The highest velocity that a MIDI event carries.
pub const MAX_VELOCITY: u8 = 127;

/// The pulse width for `velocity` before the upper limit is applied: the
/// floor `min` plus the share of `max` that the velocity selects.
pub open spec fn unclamped_duration(min: u64, max: u64, velocity: u8) -> int {
    min + (velocity * max) / 127
}

/// The pulse width for `velocity`, in microseconds.
pub open spec fn strike_duration(min: u64, max: u64, velocity: u8) -> int {
    if unclamped_duration(min, max, velocity) > MAX_HIT_DURATION_US {
        MAX_HIT_DURATION_US as int
    } else {
        unclamped_duration(min, max, velocity)
    }
}

/// A harder hit never gives a shorter pulse, before or after the limit.
pub proof fn lemma_duration_monotonic(min: u64, max: u64, softer: u8, harder: u8)
    requires
        softer <= harder,
    ensures
        unclamped_duration(min, max, softer) <= unclamped_duration(min, max, harder),
        strike_duration(min, max, softer) <= strike_duration(min, max, harder),
{
    assert(softer * max <= harder * max) by (nonlinear_arith)
        requires
            softer <= harder,
            0 <= max,
    ;
}

/// For a MIDI velocity the unclamped width lies between the floor and the
/// floor plus the full variation, and the pulse itself never exceeds the
/// limit.
pub proof fn lemma_duration_bounds(min: u64, max: u64, velocity: u8)
    requires
        velocity <= MAX_VELOCITY,
    ensures
        min <= unclamped_duration(min, max, velocity) <= min + max,
        unclamped_duration(min, max, MAX_VELOCITY) == min + max,
        0 <= strike_duration(min, max, velocity) <= MAX_HIT_DURATION_US,
        min <= MAX_HIT_DURATION_US ==> min <= strike_duration(min, max, velocity),
{
    assert(0 <= velocity * max <= 127 * max) by (nonlinear_arith)
        requires
            0 <= velocity <= 127,
            0 <= max,
    ;
}

/// For a profile whose widest pulse, floor plus full variation, stays within
/// the larger of its variation and the limit, every MIDI velocity gives an
/// unclamped width within that bound.
pub proof fn lemma_duration_within_profile(min: u64, max: u64, velocity: u8)
    requires
        velocity <= MAX_VELOCITY,
        min + max <= (if max > MAX_HIT_DURATION_US {
            max
        } else {
            MAX_HIT_DURATION_US
        }),
    ensures
        min <= unclamped_duration(min, max, velocity) <= (if max > MAX_HIT_DURATION_US {
            max
        } else {
            MAX_HIT_DURATION_US
        }),
{
    lemma_duration_bounds(min, max, velocity);
}

/// Computes the pulse width and whether the limit cut it short.
pub fn compute_strike_duration(min: u64, max: u64, velocity: u8) -> (r: (u64, bool))
    ensures
        r.0 == strike_duration(min, max, velocity),
        r.1 == (unclamped_duration(min, max, velocity) > MAX_HIT_DURATION_US),
        r.0 <= MAX_HIT_DURATION_US,
{
    assert(0 <= velocity * max <= 255 * 0xffff_ffff_ffff_ffff) by (nonlinear_arith)
        requires
            0 <= velocity <= 255,
            0 <= max <= 0xffff_ffff_ffff_ffff,
    ;
    let scaled: u128 = (velocity as u128 * max as u128) / 127;
    let duration: u128 = min as u128 + scaled;
    if duration > MAX_HIT_DURATION_US as u128 {
        (MAX_HIT_DURATION_US, true)
    } else {
        (duration as u64, false)
    }
}

/// A striker that can be triggered, usually tied to a drum or another
/// percussion target.
pub struct Striker {
    /// Human-readable name (e.g. "Snare" or "Ride Bell")
    pub name: String,
    /// MIDI note number that triggers this striker
    pub note: u8,
    /// Number of the output line that drives the hardware
    pub pin: u8,
    /// Kind of hardware this striker uses
    pub kind: StrikerHardwareKind,
    /// Pulse width at velocity zero, in microseconds, if it differs from the
    /// default of the kind
    pub min_hit_duration: Option<u64>,
    /// Width added at full velocity, in microseconds, if it differs from the
    /// default of the kind
    pub max_hit_duration: Option<u64>,
    /// Whether the output line is at the active level: a pulse is in flight
    pub active: bool,
}

/// What a striker is, with its name as a sequence of characters.
pub ghost struct StrikerView {
    pub name: Seq<char>,
    pub note: u8,
    pub pin: u8,
    pub kind: StrikerHardwareKind,
    pub min_hit_duration: Option<u64>,
    pub max_hit_duration: Option<u64>,
    pub active: bool,
}

impl StrikerView {
    /// The pulse width at velocity zero: the striker's own, or the default
    /// of its kind.
    pub open spec fn min_duration(self, constants: SystemConstants) -> u64 {
        match self.min_hit_duration {
            Some(d) => d,
            None => constants_of(constants, self.kind).default_min_hit_duration,
        }
    }

    /// The width added at full velocity: the striker's own, or the largest
    /// that its kind allows.
    pub open spec fn max_duration(self, constants: SystemConstants) -> u64 {
        match self.max_hit_duration {
            Some(d) => d,
            None => constants_of(constants, self.kind).max_max_hit_duration,
        }
    }

    /// The width of the pulse that a strike at `velocity` asks for.
    pub open spec fn planned_duration(self, constants: SystemConstants, velocity: u8) -> int {
        strike_duration(self.min_duration(constants), self.max_duration(constants), velocity)
    }

    /// Whether the limit cuts the pulse for `velocity` short.
    pub open spec fn is_clamped(self, constants: SystemConstants, velocity: u8) -> bool {
        unclamped_duration(self.min_duration(constants), self.max_duration(constants), velocity)
            > MAX_HIT_DURATION_US
    }

    /// The same striker with its line at the given level.
    pub open spec fn with_active(self, active: bool) -> StrikerView {
        StrikerView { active, ..self }
    }

    /// The outcome of a strike at `velocity`.
    pub open spec fn strike_outcome(self, constants: SystemConstants, velocity: u8) -> StrikeOutcome {
        if self.active {
            StrikeOutcome::Ignored
        } else {
            StrikeOutcome::Pulse {
                duration_us: self.planned_duration(constants, velocity) as u64,
                clamped: self.is_clamped(constants, velocity),
            }
        }
    }

    /// The record that `export_raw` gives of this striker.
    pub open spec fn exported(self, constants: SystemConstants) -> StrikerDataView {
        StrikerDataView {
            name: self.name,
            pin: self.pin,
            kind: self.kind,
            note: self.note,
            min_hit_duration: Some(self.min_duration(constants)),
            max_hit_duration: Some(self.max_duration(constants)),
        }
    }
}

impl View for Striker {
    type V = StrikerView;

    open spec fn view(&self) -> StrikerView {
        StrikerView {
            name: self.name@,
            note: self.note,
            pin: self.pin,
            kind: self.kind,
            min_hit_duration: self.min_hit_duration,
            max_hit_duration: self.max_hit_duration,
            active: self.active,
        }
    }
}

/// A striker as it is written in a configuration document.
#[derive(Debug)]
pub struct StrikerData {
    pub name: String,
    pub pin: u8,
    pub kind: StrikerHardwareKind,
    pub note: u8,
    pub min_hit_duration: Option<u64>,
    pub max_hit_duration: Option<u64>,
}

/// A configuration record, with its name as a sequence of characters.
pub ghost struct StrikerDataView {
    pub name: Seq<char>,
    pub pin: u8,
    pub kind: StrikerHardwareKind,
    pub note: u8,
    pub min_hit_duration: Option<u64>,
    pub max_hit_duration: Option<u64>,
}

impl StrikerDataView {
    /// The striker that this record describes, with its line inactive.
    pub open spec fn striker(self) -> StrikerView {
        StrikerView {
            name: self.name,
            note: self.note,
            pin: self.pin,
            kind: self.kind,
            min_hit_duration: self.min_hit_duration,
            max_hit_duration: self.max_hit_duration,
            active: false,
        }
    }
}

impl View for StrikerData {
    type V = StrikerDataView;

    open spec fn view(&self) -> StrikerDataView {
        StrikerDataView {
            name: self.name@,
            pin: self.pin,
            kind: self.kind,
            note: self.note,
            min_hit_duration: self.min_hit_duration,
            max_hit_duration: self.max_hit_duration,
        }
    }
}

/// What a strike request led to.
#[derive(Debug, Clone, Copy, PartialEq, Eq, Structural)]
pub enum StrikeOutcome {
    /// A pulse is still in flight on this striker; nothing was started.
    Ignored,
    /// A pulse of `duration_us` microseconds starts now. `clamped` tells
    /// that the profile asked for more than the limit.
    Pulse { duration_us: u64, clamped: bool },
}

impl Striker {
    /// Create a new striker with the default timing of its kind and its
    /// line inactive.
    pub fn new(note_num: u8, pin_num: u8, name: &str, kind: StrikerHardwareKind) -> (r: Self)
        ensures
            r@ == (StrikerView {
                name: name@,
                note: note_num,
                pin: pin_num,
                kind,
                min_hit_duration: None,
                max_hit_duration: None,
                active: false,
            }),
    {
        Self {
            name: name.to_owned(),
            note: note_num,
            pin: pin_num,
            kind,
            min_hit_duration: None,
            max_hit_duration: None,
            active: false,
        }
    }

    /// Set off the striker. While a pulse is in flight the request is
    /// ignored and nothing changes; otherwise the line becomes active and
    /// the outcome carries the width of the pulse to drive.
    pub fn strike(&mut self, constants: &SystemConstants, velocity: u8) -> (outcome: StrikeOutcome)
        ensures
            outcome == old(self)@.strike_outcome(*constants, velocity),
            final(self)@ == old(self)@.with_active(true),
            outcome matches StrikeOutcome::Pulse { duration_us, .. } ==> duration_us
                <= MAX_HIT_DURATION_US,
    {
        if !self.active {
            let min: u64 = self.get_min_hit_duration(constants);
            let max: u64 = self.get_max_hit_duration(constants);
            let (duration_us, clamped) = compute_strike_duration(min, max, velocity);
            self.active = true;
            StrikeOutcome::Pulse { duration_us, clamped }
        } else {
            StrikeOutcome::Ignored
        }
    }

    /// Get the width of the pulse for `velocity`, in microseconds, with the
    /// limit applied.
    pub fn get_strike_duration(&self, constants: &SystemConstants, velocity: u8) -> (r: u64)
        ensures
            r == self@.planned_duration(*constants, velocity),
            r <= MAX_HIT_DURATION_US,
    {
        let min: u64 = self.get_min_hit_duration(constants);
        let max: u64 = self.get_max_hit_duration(constants);
        compute_strike_duration(min, max, velocity).0
    }

    /// Get the name of the striker
    pub fn get_name(&self) -> (r: String)
        ensures
            r@ == self@.name,
    {
        self.name.clone()
    }

    /// Get the MIDI note number of the striker
    pub fn get_note_num(&self) -> (r: u8)
        ensures
            r == self@.note,
    {
        self.note
    }

    /// Get the kind of hardware of the striker
    pub fn get_striker_kind(&self) -> (r: StrikerHardwareKind)
        ensures
            r == self@.kind,
    {
        self.kind
    }

    /// Get the number of the output line that drives the striker
    pub fn get_pin_num(&self) -> (r: u8)
        ensures
            r == self@.pin,
    {
        self.pin
    }

    /// Get the pulse width at velocity zero, in microseconds
    pub fn get_min_hit_duration(&self, constants: &SystemConstants) -> (r: u64)
        ensures
            r == self@.min_duration(*constants),
    {
        match self.min_hit_duration {
            Some(d) => d,
            None => StrikerHardwareUtil::get_default_min_hit_duration(constants, self.kind),
        }
    }

    /// Get the width added at full velocity, in microseconds
    pub fn get_max_hit_duration(&self, constants: &SystemConstants) -> (r: u64)
        ensures
            r == self@.max_duration(*constants),
    {
        match self.max_hit_duration {
            Some(d) => d,
            None => StrikerHardwareUtil::get_max_hit_duration(constants, self.kind),
        }
    }

    /// The striker as a configuration record, with the timing in force
    /// written out.
    pub fn export_raw(&self, constants: &SystemConstants) -> (r: StrikerData)
        ensures
            r@ == self@.exported(*constants),
    {
        StrikerData {
            name: self.name.clone(),
            note: self.note,
            pin: self.pin,
            kind: self.kind,
            min_hit_duration: Some(self.get_min_hit_duration(constants)),
            max_hit_duration: Some(self.get_max_hit_duration(constants)),
        }
    }

    /// Builds the striker that a configuration record describes. Every
    /// record describes one.
    pub fn try_from(config: StrikerData) -> (r: Result<Striker, String>)
        ensures
            r is Ok,
            r->Ok_0@ == config@.striker(),
    {
        Ok(
            Self {
                name: config.name,
                note: config.note,
                pin: config.pin,
                kind: config.kind,
                min_hit_duration: config.min_hit_duration,
                max_hit_duration: config.max_hit_duration,
                active: false,
            },
        )
    }

    /// The line is inactive again: the pulse has ended or is cut short.
    pub fn abort(&mut self)
        ensures
            final(self)@ == old(self)@.with_active(false),
    {
        self.active = false;
    }
}

} // verus!
