//! The registry of strikers and modifiers, and the routing of commands to it.
//!
//! Every operation that touches the hardware returns the list of actions for
//! the host to perform, in order. The registry keeps the level of each
//! output line as it follows from those actions; the host reports the end of
//! each pulse with `pulse_finished`.

use vstd::prelude::*;
use vstd::string::StringSliceAdditionalSpecFns;
use crate::configuration::Configuration;
use crate::logger::{lemma_chained_push, LogEntry, Logger, StrikeLogEntry};
use crate::midi_ble::{decode_midi, decoded_events, is_framed, MidiBle};
use crate::modifier::{Modifier, ModifierHardwareKind};
use crate::registry_laws::{lemma_levels_keep_wf, lemma_striker_named_from};
use crate::registry_model::{AutoDrumView, NoteSlotView};
use crate::remote_command::{Command, MIDI_NOTE_OFF_BYTE, MIDI_NOTE_ON_BYTE};
use crate::striker::{StrikeOutcome, Striker, StrikerData};
use crate::striker_hardware_util::StrikerHardwareKind;
use crate::system_constants::SystemConstants;

verus! {

/// The number of note numbers that a byte can hold.
pub const NOTE_COUNT: usize = 256;

/// Why a registration was rejected. A rejected registration changes nothing.
#[derive(Debug, Clone, Copy, PartialEq, Eq, Structural)]
pub enum RegistrationError {
    /// The note number or the name is already in use.
    Duplicate,
    /// No striker with the target's name is registered.
    UnknownTarget,
}

/// What the host has to do, or to know, as the result of an operation.
#[derive(Debug, Clone, Copy, PartialEq, Eq, Structural)]
pub enum Action {
    /// Drive the output line to the active level and leave it there.
    Activate { pin: u8 },
    /// Drive the output line to the inactive level.
    Deactivate { pin: u8 },
    /// Drive the output line active, wait `duration_us` microseconds, drive
    /// it inactive, then report `pulse_finished` for `note`. `clamped` tells
    /// that the profile asked for a longer pulse than the limit allows.
    Pulse { note: u8, pin: u8, duration_us: u64, clamped: bool },
    /// A strike of the striker at `note` was dropped, because its pulse is
    /// still in flight.
    Ignored { note: u8 },
    /// Send the calibration table to the peer.
    SendSystemConstants,
    /// Send the exported configuration to the peer.
    SendConfiguration,
    /// Read the configuration document that the command carries and load it.
    LoadConfiguration,
}

/// A strike whose pulse is in flight and whose timing is to be logged.
#[derive(Debug, Clone, Copy)]
pub struct PendingStrike {
    /// The note number of the event
    pub note: u8,
    /// The velocity of the event
    pub velocity: u8,
    /// The raw MIDI data of the event
    pub midi_data: (u8, u8, u8),
}

/// What the host measured of a pulse.
#[derive(Debug, Clone, Copy, PartialEq, Eq, Structural)]
pub struct PulseTiming {
    /// Wall-clock time at which the pulse started, in milliseconds
    pub time: u64,
    /// Time between driving the line active and inactive, in nanoseconds
    pub actual_duration_ns: u64,
}

/// What a note number stands for.
enum NoteSlot {
    /// Nothing is registered under this note.
    Free,
    /// A striker, the notes of the modifiers that target it in the order of
    /// their registration, and the strike that is being traced, if any.
    Striker { striker: Striker, modifiers: Vec<u8>, pending: Option<PendingStrike> },
    /// A modifier and the note of the striker that it targets.
    Modifier { modifier: Modifier, target: u8 },
}

impl View for NoteSlot {
    type V = NoteSlotView;

    closed spec fn view(&self) -> NoteSlotView {
        match self {
            NoteSlot::Free => NoteSlotView::Free,
            NoteSlot::Striker { striker, modifiers, pending } => NoteSlotView::Striker {
                striker: striker@,
                modifiers: modifiers@,
                pending: *pending,
            },
            NoteSlot::Modifier { modifier, target } => NoteSlotView::Modifier {
                modifier: modifier@,
                target: *target,
            },
        }
    }
}

/// Releasing one more modifier changes the slot of that modifier alone.
proof fn lemma_release_one_more(state: AutoDrumView, linked: Seq<u8>, m: u8)
    requires
        state.slots.len() == NOTE_COUNT,
        state.slots[m as int] is Modifier,
    ensures
        state.released(linked.push(m)).slots == state.released(linked).slots.update(
            m as int,
            NoteSlotView::Modifier {
                modifier: state.slots[m as int]->modifier.with_active(false),
                target: state.slots[m as int]->target,
            },
        ),
{
    let longer = linked.push(m);
    let a = state.released(longer).slots;
    let b = state.released(linked).slots.update(
        m as int,
        NoteSlotView::Modifier {
            modifier: state.slots[m as int]->modifier.with_active(false),
            target: state.slots[m as int]->target,
        },
    );
    assert forall|n: int| 0 <= n < a.len() implies a[n] == b[n] by {
        if n == m {
            assert(longer[linked.len() as int] == m);
        } else {
            if longer.contains(n as u8) {
                let j = choose|j: int| 0 <= j < longer.len() && longer[j] == n as u8;
                assert(linked[j] == n as u8);
            }
            if linked.contains(n as u8) {
                let j = choose|j: int| 0 <= j < linked.len() && linked[j] == n as u8;
                assert(longer[j] == n as u8);
            }
        }
    }
}

/// Main application state
pub struct AutoDrum {
    /// The outbound side of the link
    midi_ble_manager: MidiBle,
    /// The calibration table
    constants: SystemConstants,
    /// What each note number stands for
    slots: Vec<NoteSlot>,
    /// Whether or not to collect log data
    debug: bool,
    /// The logger that collects log data
    logger: Logger,
}

impl View for AutoDrum {
    type V = AutoDrumView;

    closed spec fn view(&self) -> AutoDrumView {
        AutoDrumView {
            slots: self.slots@.map_values(|slot: NoteSlot| slot@),
            log: self.logger@,
            response: self.midi_ble_manager@,
            debug: self.debug,
            constants: self.constants,
        }
    }
}

impl AutoDrum {
    /// Create a new AutoDrum instance, with nothing registered.
    pub fn new(constants: SystemConstants, debug: bool) -> (r: Self)
        ensures
            r@ == AutoDrumView::empty(constants, debug),
            r@.wf(),
    {
        let mut slots: Vec<NoteSlot> = Vec::new();
        let mut n: usize = 0;
        while n < NOTE_COUNT
            invariant
                n <= NOTE_COUNT,
                slots@.len() == n,
                forall|k: int| 0 <= k < n ==> slots@[k] is Free,
            decreases NOTE_COUNT - n,
        {
            slots.push(NoteSlot::Free);
            n += 1;
        }
        let r = AutoDrum {
            midi_ble_manager: MidiBle::new(),
            constants,
            slots,
            debug,
            logger: Logger::new(),
        };
        assert(r@.slots =~= AutoDrumView::empty(constants, debug).slots);
        r
    }

    /// Ensure that a given note number is not already in use by a striker or modifier
    pub fn enforce_unique_note_num(&self, note: u8) -> (r: Result<(), RegistrationError>)
        requires
            self@.wf(),
        ensures
            r == (if self@.note_in_use(note) {
                Err::<(), RegistrationError>(RegistrationError::Duplicate)
            } else {
                Ok::<(), RegistrationError>(())
            }),
    {
        match &self.slots[note as usize] {
            NoteSlot::Free => Ok(()),
            _ => Err(RegistrationError::Duplicate),
        }
    }

    /// Ensure that a given name is not already in use by a striker or modifier
    pub fn enforce_unique_name(&self, name: &str) -> (r: Result<(), RegistrationError>)
        requires
            self@.wf(),
        ensures
            r == (if self@.name_in_use(name@) {
                Err::<(), RegistrationError>(RegistrationError::Duplicate)
            } else {
                Ok::<(), RegistrationError>(())
            }),
    {
        let wanted: String = name.to_owned();
        let mut n: usize = 0;
        while n < NOTE_COUNT
            invariant
                n <= NOTE_COUNT,
                self@.wf(),
                wanted@ == name@,
                forall|k: int| 0 <= k < n ==> (#[trigger] self@.slots[k]).name() != Some(name@),
            decreases NOTE_COUNT - n,
        {
            let taken: bool = match &self.slots[n] {
                NoteSlot::Free => false,
                NoteSlot::Striker { striker, .. } => striker.name == wanted,
                NoteSlot::Modifier { modifier, .. } => modifier.name == wanted,
            };
            if taken {
                assert(self@.slots[n as int].name() == Some(name@));
                return Err(RegistrationError::Duplicate);
            }
            n += 1;
        }
        Ok(())
    }

    /// Add a new striker. The registration is rejected, and nothing changes,
    /// if the note or the name is in use.
    pub fn add_striker(
        &mut self,
        note: u8,
        pin_num: u8,
        name: &str,
        striker_kind: StrikerHardwareKind,
    ) -> (r: Result<(), RegistrationError>)
        requires
            old(self)@.wf(),
        ensures
            final(self)@.wf(),
            r == old(self)@.striker_admission(note, name@),
            r is Ok ==> final(self)@ == old(self)@.with_striker(note, pin_num, name@, striker_kind),
            r is Err ==> final(self)@ == old(self)@,
    {
        match self.enforce_unique_note_num(note) {
            Err(e) => {
                return Err(e);
            },
            Ok(_) => {},
        }
        match self.enforce_unique_name(name) {
            Err(e) => {
                return Err(e);
            },
            Ok(_) => {},
        }
        self.slots[note as usize] = NoteSlot::Striker {
            striker: Striker::new(note, pin_num, name, striker_kind),
            modifiers: Vec::new(),
            pending: None,
        };
        proof {
            let before = old(self)@;
            let after = before.with_striker(note, pin_num, name@, striker_kind);
            assert(self@.slots =~= after.slots);
            assert forall|a: int, b: int|
                0 <= a < b < after.slots.len() && !((#[trigger] after.slots[a]) is Free) && !((
                #[trigger] after.slots[b]) is Free) implies after.slots[a].name()
                != after.slots[b].name() by {
                if a != note && b != note {
                    assert(after.slots[a] == before.slots[a]);
                    assert(after.slots[b] == before.slots[b]);
                } else if a == note {
                    assert(before.slots[b].name() != Some(name@));
                } else {
                    assert(before.slots[a].name() != Some(name@));
                }
            }
        }
        Ok(())
    }

    /// The note of the striker with the given name, if one is registered.
    fn find_striker(&self, name: &str) -> (r: Option<u8>)
        requires
            self@.wf(),
        ensures
            r == self@.striker_named(name@),
    {
        let wanted: String = name.to_owned();
        let mut n: usize = 0;
        while n < NOTE_COUNT
            invariant
                n <= NOTE_COUNT,
                self@.wf(),
                wanted@ == name@,
                self@.striker_named(name@) == self@.striker_named_from(name@, n as int),
            decreases NOTE_COUNT - n,
        {
            let found: bool = match &self.slots[n] {
                NoteSlot::Striker { striker, .. } => striker.name == wanted,
                _ => false,
            };
            if found {
                return Some(n as u8);
            }
            n += 1;
        }
        None
    }

    /// Add a new modifier for the striker named `target_striker_name`. The
    /// registration is rejected, and nothing changes, if the note or the
    /// name is in use or if no striker has the target's name.
    pub fn add_modifier(
        &mut self,
        target_striker_name: &str,
        note: u8,
        pin_num: u8,
        name: &str,
        modifier_kind: ModifierHardwareKind,
    ) -> (r: Result<(), RegistrationError>)
        requires
            old(self)@.wf(),
        ensures
            final(self)@.wf(),
            match old(self)@.modifier_admission(target_striker_name@, note, name@) {
                Ok(target) => r is Ok && final(self)@ == old(self)@.with_modifier(
                    target,
                    note,
                    pin_num,
                    name@,
                    modifier_kind,
                ),
                Err(e) => r == Err::<(), RegistrationError>(e) && final(self)@ == old(self)@,
            },
    {
        match self.enforce_unique_note_num(note) {
            Err(e) => {
                return Err(e);
            },
            Ok(_) => {},
        }
        match self.enforce_unique_name(name) {
            Err(e) => {
                return Err(e);
            },
            Ok(_) => {},
        }
        let target: u8 = match self.find_striker(target_striker_name) {
            Some(target) => target,
            None => {
                return Err(RegistrationError::UnknownTarget);
            },
        };
        proof {
            lemma_striker_named_from(self@, target_striker_name@, 0);
        }
        self.slots[note as usize] = NoteSlot::Modifier {
            modifier: Modifier::new(name, note, pin_num, modifier_kind),
            target,
        };
        match &mut self.slots[target as usize] {
            NoteSlot::Striker { modifiers, .. } => {
                modifiers.push(note);
            },
            _ => {},
        }
        proof {
            let before = old(self)@;
            let after = before.with_modifier(target, note, pin_num, name@, modifier_kind);
            assert(self@.slots =~= after.slots);
            let listed = before.slots[target as int]->modifiers;
            assert(!listed.contains(note)) by {
                if listed.contains(note) {
                    let i = choose|i: int| 0 <= i < listed.len() && listed[i] == note;
                    assert(before.targets(listed[i], target));
                }
            }
            assert forall|n: int| 0 <= n < after.slots.len() implies (
            #[trigger] after.slots[n] matches NoteSlotView::Striker { striker, modifiers, .. } ==> {
                &&& striker.note == n
                &&& modifiers.no_duplicates()
                &&& forall|i: int|
                    0 <= i < modifiers.len() ==> after.targets(#[trigger] modifiers[i], n as u8)
            }) by {
                if after.slots[n] is Striker {
                    let modifiers = after.slots[n]->modifiers;
                    if n == target {
                        assert(modifiers == listed.push(note));
                        assert forall|i: int| 0 <= i < modifiers.len() implies after.targets(
                            #[trigger] modifiers[i],
                            n as u8,
                        ) by {
                            if i < listed.len() {
                                assert(before.targets(listed[i], target));
                            }
                        }
                    } else {
                        assert(after.slots[n] == before.slots[n]);
                        assert forall|i: int| 0 <= i < modifiers.len() implies after.targets(
                            #[trigger] modifiers[i],
                            n as u8,
                        ) by {
                            assert(before.targets(modifiers[i], n as u8));
                        }
                    }
                }
            }
            assert forall|n: int| 0 <= n < after.slots.len() implies (
            #[trigger] after.slots[n] matches NoteSlotView::Modifier { modifier, target } ==> {
                &&& modifier.note == n
                &&& after.slots[target as int] is Striker
                &&& after.slots[target as int]->modifiers.contains(n as u8)
            }) by {
                if after.slots[n] is Modifier {
                    if n == note {
                        assert(listed.push(note)[listed.len() as int] == note);
                    } else {
                        assert(after.slots[n] == before.slots[n]);
                        let t = before.slots[n]->target;
                        if t == target {
                            let i = choose|i: int| 0 <= i < listed.len() && listed[i] == n as u8;
                            assert(listed.push(note)[i] == n as u8);
                        } else {
                            assert(after.slots[t as int] == before.slots[t as int]);
                        }
                    }
                }
            }
            assert forall|a: int, b: int|
                0 <= a < b < after.slots.len() && !((#[trigger] after.slots[a]) is Free) && !((
                #[trigger] after.slots[b]) is Free) implies after.slots[a].name()
                != after.slots[b].name() by {
                assert(after.slots[target as int].name() == before.slots[target as int].name());
                if a != note && b != note {
                    assert(after.slots[a].name() == before.slots[a].name());
                    assert(after.slots[b].name() == before.slots[b].name());
                } else if a == note {
                    assert(after.slots[b].name() == before.slots[b].name());
                    assert(before.slots[b].name() != Some(name@));
                } else {
                    assert(after.slots[a].name() == before.slots[a].name());
                    assert(before.slots[a].name() != Some(name@));
                }
            }
        }
        Ok(())
    }

    /// Strikes the striker at `target` and appends the actions to `actions`.
    fn fire(
        &mut self,
        target: u8,
        velocity: u8,
        trace: Option<PendingStrike>,
        actions: &mut Vec<Action>,
    )
        requires
            old(self)@.wf(),
            old(self)@.slots[target as int] is Striker,
        ensures
            final(self)@.wf(),
            final(self)@ == old(self)@.fire(target, velocity, trace).0,
            final(actions)@ == old(actions)@ + old(self)@.fire(target, velocity, trace).1,
    {
        let constants: SystemConstants = self.constants;
        match &mut self.slots[target as usize] {
            NoteSlot::Striker { striker, pending, .. } => {
                let pin: u8 = striker.pin;
                match striker.strike(&constants, velocity) {
                    StrikeOutcome::Ignored => {
                        actions.push(Action::Ignored { note: target });
                    },
                    StrikeOutcome::Pulse { duration_us, clamped } => {
                        *pending = trace;
                        actions.push(Action::Pulse { note: target, pin, duration_us, clamped });
                    },
                }
            },
            _ => {},
        }
        proof {
            let struck = old(self)@.fire(target, velocity, trace);
            assert(self@.slots =~= struck.0.slots);
            lemma_levels_keep_wf(old(self)@, self@);
        }
    }

    /// Deactivates every modifier that targets the striker at `note` and
    /// appends one action for each to `actions`.
    fn release_modifiers(&mut self, note: u8, actions: &mut Vec<Action>)
        requires
            old(self)@.wf(),
            old(self)@.slots[note as int] is Striker,
        ensures
            final(self)@.wf(),
            final(self)@ == old(self)@.released(old(self)@.slots[note as int]->modifiers),
            final(actions)@ == old(actions)@ + old(self)@.release_actions(
                old(self)@.slots[note as int]->modifiers,
            ),
    {
        let ghost before = self@;
        let ghost linked = before.slots[note as int]->modifiers;
        let count: usize = match &self.slots[note as usize] {
            NoteSlot::Striker { modifiers, .. } => modifiers.len(),
            _ => 0,
        };
        let mut i: usize = 0;
        assert(self@.slots =~= before.released(linked.take(0)).slots);
        while i < count
            invariant
                before.wf(),
                before.slots[note as int] is Striker,
                linked == before.slots[note as int]->modifiers,
                count == linked.len(),
                i <= count,
                self@ == before.released(linked.take(i as int)),
                self@.slots.len() == NOTE_COUNT,
                self@.slots[note as int] == before.slots[note as int],
                actions@ == old(actions)@ + before.release_actions(linked).take(i as int),
            decreases count - i,
        {
            let ghost now = self@;
            let m: u8 = match &self.slots[note as usize] {
                NoteSlot::Striker { modifiers, .. } => modifiers[i],
                _ => 0,
            };
            match &mut self.slots[m as usize] {
                NoteSlot::Modifier { modifier, .. } => {
                    modifier.deactivate();
                    actions.push(Action::Deactivate { pin: modifier.pin });
                },
                _ => {},
            }
            proof {
                let shorter = linked.take(i as int);
                assert(linked.take(i as int + 1) == shorter.push(m));
                lemma_release_one_more(before, shorter, m);
                assert(now.slots[m as int]->modifier.with_active(false)
                    == before.slots[m as int]->modifier.with_active(false));
                assert(self@.slots =~= before.released(shorter.push(m)).slots);
            }
            i += 1;
        }
        proof {
            assert(linked.take(count as int) == linked);
            lemma_levels_keep_wf(before, self@);
        }
    }

    /// Handles a note-on for `note`, tracing the strike if `trace` says so.
    fn strike_note(&mut self, note: u8, velocity: u8, trace: Option<PendingStrike>) -> (actions:
        Vec<Action>)
        requires
            old(self)@.wf(),
        ensures
            final(self)@.wf(),
            final(self)@ == old(self)@.hit(note, velocity, trace).0,
            actions@ == old(self)@.hit(note, velocity, trace).1,
    {
        let mut actions: Vec<Action> = Vec::new();
        let target: Option<u8> = match &self.slots[note as usize] {
            NoteSlot::Striker { .. } => None,
            NoteSlot::Modifier { target, .. } => Some(*target),
            NoteSlot::Free => {
                return actions;
            },
        };
        match target {
            None => {
                // Firing a striker directly, not a modified version of it
                self.release_modifiers(note, &mut actions);
                self.fire(note, velocity, trace, &mut actions);
            },
            Some(target) => {
                // Firing with a modifier: activate it, then fire its target
                match &mut self.slots[note as usize] {
                    NoteSlot::Modifier { modifier, .. } => {
                        modifier.activate();
                        actions.push(Action::Activate { pin: modifier.pin });
                    },
                    _ => {},
                }
                proof {
                    let modifier = old(self)@.slots[note as int]->modifier;
                    let armed = old(self)@.with_slots(
                        old(self)@.slots.update(
                            note as int,
                            NoteSlotView::Modifier { modifier: modifier.with_active(true), target },
                        ),
                    );
                    assert(self@.slots =~= armed.slots);
                    lemma_levels_keep_wf(old(self)@, self@);
                }
                self.fire(target, velocity, trace, &mut actions);
            },
        }
        actions
    }

    /// Trigger a striker, activating any modifier linked to the given note
    /// in tandem. Returns what the host has to do, in order.
    pub fn hit(&mut self, note: u8, velocity: u8) -> (actions: Vec<Action>)
        requires
            old(self)@.wf(),
        ensures
            final(self)@.wf(),
            final(self)@ == old(self)@.hit(note, velocity, None).0,
            actions@ == old(self)@.hit(note, velocity, None).1,
    {
        self.strike_note(note, velocity, None)
    }

    /// Trigger a striker as `hit` does, and keep the event, so that the
    /// strike is logged when the host reports the end of its pulse.
    pub fn hit_with_debug(&mut self, note: u8, velocity: u8, midi_data: (u8, u8, u8)) -> (actions:
        Vec<Action>)
        requires
            old(self)@.wf(),
        ensures
            final(self)@.wf(),
            final(self)@ == old(self)@.hit(
                note,
                velocity,
                Some(PendingStrike { note, velocity, midi_data }),
            ).0,
            actions@ == old(self)@.hit(
                note,
                velocity,
                Some(PendingStrike { note, velocity, midi_data }),
            ).1,
    {
        self.strike_note(note, velocity, Some(PendingStrike { note, velocity, midi_data }))
    }

    /// Handles a note-off: a modifier is deactivated. Strikers do not
    /// respond, their pulse ends by itself.
    pub fn note_off(&mut self, note: u8) -> (actions: Vec<Action>)
        requires
            old(self)@.wf(),
        ensures
            final(self)@.wf(),
            final(self)@ == old(self)@.note_off(note).0,
            actions@ == old(self)@.note_off(note).1,
    {
        let mut actions: Vec<Action> = Vec::new();
        match &mut self.slots[note as usize] {
            NoteSlot::Modifier { modifier, .. } => {
                modifier.deactivate();
                actions.push(Action::Deactivate { pin: modifier.pin });
            },
            _ => {},
        }
        proof {
            assert(self@.slots =~= old(self)@.note_off(note).0.slots);
            lemma_levels_keep_wf(old(self)@, self@);
        }
        actions
    }

    /// Handle a note-on or note-off event
    pub fn handle_note(&mut self, midi_data: (u8, u8, u8)) -> (actions: Vec<Action>)
        requires
            old(self)@.wf(),
        ensures
            final(self)@.wf(),
            final(self)@ == old(self)@.handle_note(midi_data).0,
            actions@ == old(self)@.handle_note(midi_data).1,
    {
        let (status, note, velocity) = midi_data;
        if status == MIDI_NOTE_ON_BYTE {
            // If it's a note on event, trigger the striker
            if !self.debug {
                self.hit(note, velocity)
            } else {
                self.hit_with_debug(note, velocity, midi_data)
            }
        } else if status == MIDI_NOTE_OFF_BYTE {
            // If it's a note off event and the note is a modifier, deactivate it
            self.note_off(note)
        } else {
            Vec::new()
        }
    }

    /// Parse a MIDI command into its events and handle each one
    pub fn handle_midi_command(&mut self, message_data: &Vec<u8>) -> (actions: Vec<Action>)
        requires
            old(self)@.wf(),
        ensures
            final(self)@.wf(),
            final(self)@ == old(self)@.handle_events(decoded_events(message_data@)).0,
            actions@ == old(self)@.handle_events(decoded_events(message_data@)).1,
    {
        let events: Vec<(u8, u8, u8)> = decode_midi(message_data);
        let ghost before = self@;
        let mut actions: Vec<Action> = Vec::new();
        let mut i: usize = 0;
        while i < events.len()
            invariant
                i <= events.len(),
                self@.wf(),
                self@ == before.handle_events(events@.take(i as int)).0,
                actions@ == before.handle_events(events@.take(i as int)).1,
            decreases events.len() - i,
        {
            let mut step: Vec<Action> = self.handle_note(events[i]);
            proof {
                assert(events@.take(i as int + 1).drop_last() == events@.take(i as int));
            }
            actions.append(&mut step);
            i += 1;
        }
        assert(events@.take(events@.len() as int) == events@);
        actions
    }

    /// Route a command to the appropriate handler
    pub fn route_command(&mut self, command: &Command) -> (actions: Vec<Action>)
        requires
            old(self)@.wf(),
        ensures
            final(self)@.wf(),
            final(self)@ == old(self)@.route(command@).0,
            actions@ == old(self)@.route(command@).1,
    {
        match command {
            Command::MIDI(new_value) => self.handle_midi_command(new_value),
            Command::ReadSystemConstants(_) => {
                let mut actions: Vec<Action> = Vec::new();
                actions.push(Action::SendSystemConstants);
                actions
            },
            Command::ReadConfiguration(_) => {
                let mut actions: Vec<Action> = Vec::new();
                actions.push(Action::SendConfiguration);
                actions
            },
            Command::WriteConfiguration(_) => {
                let mut actions: Vec<Action> = Vec::new();
                actions.push(Action::LoadConfiguration);
                actions
            },
        }
    }

    /// The host reports that the pulse of the striker at `note` has ended
    /// and its line is inactive again. If the strike was traced and the
    /// host hands in what it measured, the strike is logged.
    pub fn pulse_finished(&mut self, note: u8, timing: Option<PulseTiming>)
        requires
            old(self)@.wf(),
        ensures
            final(self)@.wf(),
            final(self)@ == old(self)@.finished(note, timing),
    {
        let constants: SystemConstants = self.constants;
        let last: Option<u64> = self.logger.last_hit_time();
        let mut entry: Option<StrikeLogEntry> = None;
        match &mut self.slots[note as usize] {
            NoteSlot::Striker { striker, pending, .. } => {
                match (*pending, timing) {
                    (Some(strike), Some(measured)) => {
                        let planned_us: u64 = striker.get_strike_duration(
                            &constants,
                            strike.velocity,
                        );
                        let ms_since_last: u64 = match last {
                            Some(last_hit_time) => if measured.time >= last_hit_time {
                                measured.time - last_hit_time
                            } else {
                                0
                            },
                            None => 0,
                        };
                        entry = Some(
                            StrikeLogEntry {
                                time: measured.time,
                                ms_since_last,
                                planned_duration_ns: planned_us * 1000,
                                actual_duration_ns: measured.actual_duration_ns,
                                striker_kind: striker.get_striker_kind(),
                                midi_data: strike.midi_data,
                                note_num: strike.note,
                                velocity: strike.velocity,
                                striker_name: striker.get_name(),
                                target_pin: striker.get_pin_num(),
                            },
                        );
                    },
                    _ => {},
                }
                striker.abort();
                *pending = None;
            },
            _ => {},
        }
        proof {
            assert(self@.slots =~= old(self)@.finished(note, timing).slots);
        }
        match entry {
            Some(hit) => {
                proof {
                    lemma_chained_push(old(self)@.log, hit@);
                }
                self.logger.log(LogEntry::Strike(hit));
            },
            None => {},
        }
        proof {
            lemma_levels_keep_wf(old(self)@, self@);
        }
    }

    /// Make sure no line is left active: every striker is aborted and every
    /// modifier is deactivated. Returns one action for each of them.
    pub fn stop(&mut self) -> (actions: Vec<Action>)
        requires
            old(self)@.wf(),
        ensures
            final(self)@.wf(),
            final(self)@ == old(self)@.stopped(),
            actions@ == old(self)@.stop_actions(),
    {
        let ghost before = self@;
        let mut actions: Vec<Action> = Vec::new();
        let mut n: usize = 0;
        assert(self@.slots =~= before.stopped_upto(0).slots);
        while n < NOTE_COUNT
            invariant
                n <= NOTE_COUNT,
                before.wf(),
                self@.slots.len() == NOTE_COUNT,
                self@ == before.stopped_upto(n as int),
                actions@ == before.stop_actions_upto(n as int),
            decreases NOTE_COUNT - n,
        {
            let ghost now = self@;
            assert(now.slots[n as int] == before.slots[n as int]);
            match &mut self.slots[n] {
                NoteSlot::Free => {},
                NoteSlot::Striker { striker, pending, .. } => {
                    striker.abort();
                    *pending = None;
                    actions.push(Action::Deactivate { pin: striker.pin });
                },
                NoteSlot::Modifier { modifier, .. } => {
                    modifier.deactivate();
                    actions.push(Action::Deactivate { pin: modifier.pin });
                },
            }
            proof {
                let next = before.stopped_upto(n as int + 1);
                assert forall|k: int| 0 <= k < next.slots.len() implies self@.slots[k]
                    == next.slots[k] by {
                    if k != n {
                        assert(self@.slots[k] == now.slots[k]);
                    }
                }
                assert(self@.slots =~= next.slots);
            }
            n += 1;
        }
        proof {
            lemma_levels_keep_wf(before, self@);
        }
        actions
    }

    /// Export the current configuration: every striker with the timing in
    /// force, by ascending note.
    pub fn export_configuration(&self) -> (config: Configuration)
        requires
            self@.wf(),
        ensures
            config@ == self@.exported(),
    {
        let mut strikers: Vec<StrikerData> = Vec::new();
        let mut n: usize = 0;
        while n < NOTE_COUNT
            invariant
                n <= NOTE_COUNT,
                self@.wf(),
                strikers@.map_values(|striker: StrikerData| striker@) == self@.exported_upto(
                    n as int,
                ),
            decreases NOTE_COUNT - n,
        {
            match &self.slots[n] {
                NoteSlot::Striker { striker, .. } => {
                    let raw: StrikerData = striker.export_raw(&self.constants);
                    strikers.push(raw);
                },
                _ => {},
            }
            n += 1;
        }
        Configuration { strikers }
    }

    /// Load a configuration: register its strikers one by one, and stop at
    /// the first that is rejected.
    pub fn load_configuration(&mut self, config: &Configuration) -> (r: Result<
        (),
        RegistrationError,
    >)
        requires
            old(self)@.wf(),
        ensures
            final(self)@.wf(),
            final(self)@ == old(self)@.loaded(config@).0,
            r == old(self)@.loaded(config@).1,
    {
        let ghost before = self@;
        let mut i: usize = 0;
        assert(config@.skip(0) == config@);
        while i < config.strikers.len()
            invariant
                i <= config.strikers.len(),
                self@.wf(),
                before == old(self)@,
                before.loaded(config@) == self@.loaded(config@.skip(i as int)),
            decreases config.strikers.len() - i,
        {
            let striker: &StrikerData = &config.strikers[i];
            proof {
                assert(config@.skip(i as int).skip(1) == config@.skip(i as int + 1));
            }
            match self.add_striker(striker.note, striker.pin, striker.name.as_str(), striker.kind) {
                Ok(_) => {},
                Err(e) => {
                    return Err(e);
                },
            }
            i += 1;
        }
        Ok(())
    }

    /// Hands `data` to the link: the peer reads it back behind two fresh
    /// stamp bytes.
    pub fn send(&mut self, data: &str)
        requires
            old(self)@.wf(),
        ensures
            final(self)@.wf(),
            final(self)@ == old(self)@.with_response(final(self)@.response),
            is_framed(final(self)@.response, data.spec_bytes()),
    {
        self.midi_ble_manager.send(data);
    }

    /// The value that the peer reads back.
    pub fn response(&self) -> (r: &Vec<u8>)
        ensures
            r@ == self@.response,
    {
        self.midi_ble_manager.value()
    }

    /// The strike log.
    pub fn logger(&self) -> (r: &Logger)
        ensures
            r@ == self@.log,
    {
        &self.logger
    }

    /// The calibration table.
    pub fn constants(&self) -> (r: &SystemConstants)
        ensures
            *r == self@.constants,
    {
        &self.constants
    }

    /// Whether strikes are logged.
    pub fn is_debug(&self) -> (r: bool)
        ensures
            r == self@.debug,
    {
        self.debug
    }

    /// The striker registered under the note, if there is one.
    pub fn striker(&self, note: u8) -> (r: Option<&Striker>)
        requires
            self@.wf(),
        ensures
            match self@.striker(note) {
                Some(striker) => r is Some && r->0@ == striker,
                None => r is None,
            },
    {
        match &self.slots[note as usize] {
            NoteSlot::Striker { striker, .. } => Some(striker),
            _ => None,
        }
    }

    /// The modifier registered under the note, if there is one.
    pub fn modifier(&self, note: u8) -> (r: Option<&Modifier>)
        requires
            self@.wf(),
        ensures
            match self@.modifier(note) {
                Some(modifier) => r is Some && r->0@ == modifier,
                None => r is None,
            },
    {
        match &self.slots[note as usize] {
            NoteSlot::Modifier { modifier, .. } => Some(modifier),
            _ => None,
        }
    }

    /// The notes of the modifiers that target the striker at `note`, in the
    /// order of their registration.
    pub fn striker_modifiers(&self, note: u8) -> (r: Option<&Vec<u8>>)
        requires
            self@.wf(),
        ensures
            match self@.striker_modifiers(note) {
                Some(modifiers) => r is Some && r->0@ == modifiers,
                None => r is None,
            },
    {
        match &self.slots[note as usize] {
            NoteSlot::Striker { modifiers, .. } => Some(modifiers),
            _ => None,
        }
    }

    /// The note of the striker that the modifier at `note` targets.
    pub fn modifier_target(&self, note: u8) -> (r: Option<u8>)
        requires
            self@.wf(),
        ensures
            r == self@.modifier_target(note),
    {
        match &self.slots[note as usize] {
            NoteSlot::Modifier { target, .. } => Some(*target),
            _ => None,
        }
    }
}

} // verus!
