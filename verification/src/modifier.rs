//! A modifier: a second output line that changes how a striker sounds while
//! it is held active, such as the "open" state of a hi-hat.

use vstd::prelude::*;

verus! {

/// The hardware that moves a modifier.
#[derive(Debug, Clone, Copy, PartialEq, Eq, Structural)]
pub enum ModifierHardwareKind {
    SolenoidBig,
}

/// A modifier is switched on and off; it is never pulsed.
pub struct Modifier {
    pub name: String,
    pub note: u8,
    /// Number of the output line that drives the hardware
    pub pin: u8,
    pub hardware_kind: ModifierHardwareKind,
    /// Whether the output line is at the active level
    pub active: bool,
}

/// What a modifier is, with its name as a sequence of characters.
pub ghost struct ModifierView {
    pub name: Seq<char>,
    pub note: u8,
    pub pin: u8,
    pub hardware_kind: ModifierHardwareKind,
    pub active: bool,
}

impl ModifierView {
    /// The same modifier with its line at the given level.
    pub open spec fn with_active(self, active: bool) -> ModifierView {
        ModifierView { active, ..self }
    }
}

impl View for Modifier {
    type V = ModifierView;

    open spec fn view(&self) -> ModifierView {
        ModifierView {
            name: self.name@,
            note: self.note,
            pin: self.pin,
            hardware_kind: self.hardware_kind,
            active: self.active,
        }
    }
}

/// The longest that a modifier of the given kind may stay active, in
/// milliseconds.
pub open spec fn max_activation_ms(kind: ModifierHardwareKind) -> u64 {
    match kind {
        ModifierHardwareKind::SolenoidBig => 5000,
    }
}

impl Modifier {
    /// Create a new modifier with its line inactive.
    pub fn new(name: &str, note: u8, pin: u8, hardware_kind: ModifierHardwareKind) -> (r: Self)
        ensures
            r@ == (ModifierView { name: name@, note, pin, hardware_kind, active: false }),
    {
        Self { name: name.to_owned(), note, pin, hardware_kind, active: false }
    }

    /// The line goes to the active level and stays there.
    pub fn activate(&mut self)
        ensures
            final(self)@ == old(self)@.with_active(true),
    {
        self.active = true;
    }

    /// The line goes to the inactive level. Doing so twice is the same as
    /// doing so once.
    pub fn deactivate(&mut self)
        ensures
            final(self)@ == old(self)@.with_active(false),
    {
        self.active = false;
    }

    /// Whether the line is at the active level.
    pub fn is_active(&self) -> (r: bool)
        ensures
            r == self@.active,
    {
        self.active
    }

    /// Get the maximum duration that the modifier can be activated for, in
    /// milliseconds
    pub fn max_activation_duration(&self) -> (r: u64)
        ensures
            r == max_activation_ms(self@.hardware_kind),
    {
        match self.hardware_kind {
            ModifierHardwareKind::SolenoidBig => 5000,
        }
    }
}

} // verus!
