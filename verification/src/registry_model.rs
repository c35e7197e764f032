//! The registry as a mathematical value, and what each operation makes of
//! it. The contracts of `AutoDrum` are stated over these functions.

use vstd::prelude::*;
use crate::autodrum::{Action, PendingStrike, PulseTiming, RegistrationError, NOTE_COUNT};
use crate::logger::{chained, ms_since_last_entry, StrikeLogEntryView};
use crate::midi_ble::decoded_events;
use crate::modifier::{ModifierHardwareKind, ModifierView};
use crate::remote_command::{CommandView, MIDI_NOTE_OFF_BYTE, MIDI_NOTE_ON_BYTE};
use crate::striker::{StrikeOutcome, StrikerDataView, StrikerView};
use crate::striker_hardware_util::StrikerHardwareKind;
use crate::system_constants::SystemConstants;

verus! {

/// What a note number stands for, over the views of striker and modifier.
pub ghost enum NoteSlotView {
    Free,
    Striker { striker: StrikerView, modifiers: Seq<u8>, pending: Option<PendingStrike> },
    Modifier { modifier: ModifierView, target: u8 },
}

impl NoteSlotView {
    /// The name registered in this slot, if any.
    pub open spec fn name(self) -> Option<Seq<char>> {
        match self {
            NoteSlotView::Free => None,
            NoteSlotView::Striker { striker, .. } => Some(striker.name),
            NoteSlotView::Modifier { modifier, .. } => Some(modifier.name),
        }
    }
}

/// The state of the system: one slot per note number, the strike log, the
/// response that the peer reads back, and the settings made at start-up.
pub ghost struct AutoDrumView {
    pub slots: Seq<NoteSlotView>,
    pub log: Seq<StrikeLogEntryView>,
    pub response: Seq<u8>,
    pub debug: bool,
    pub constants: SystemConstants,
}

impl AutoDrumView {
    /// Whether a name is registered, for a striker or for a modifier.
    pub open spec fn name_in_use(self, name: Seq<char>) -> bool {
        exists|n: int| 0 <= n < self.slots.len() && (#[trigger] self.slots[n]).name() == Some(name)
    }

    /// Whether a striker or a modifier is registered under the note.
    pub open spec fn note_in_use(self, note: u8) -> bool {
        !(self.slots[note as int] is Free)
    }

    /// The invariant of the registry.
    ///
    /// A slot holds what is registered under its own note. The modifiers
    /// listed with a striker are exactly those that target it, each listed
    /// once. No name is registered twice. The log is chained.
    pub open spec fn wf(self) -> bool {
        &&& self.slots.len() == NOTE_COUNT
        &&& forall|n: int|
            0 <= n < self.slots.len() ==> (#[trigger] self.slots[n] matches NoteSlotView::Striker {
                striker,
                modifiers,
                ..
            } ==> {
                &&& striker.note == n
                &&& modifiers.no_duplicates()
                &&& forall|i: int|
                    0 <= i < modifiers.len() ==> self.targets(#[trigger] modifiers[i], n as u8)
            })
        &&& forall|n: int|
            0 <= n < self.slots.len() ==> (#[trigger] self.slots[n] matches NoteSlotView::Modifier {
                modifier,
                target,
            } ==> {
                &&& modifier.note == n
                &&& self.slots[target as int] is Striker
                &&& self.slots[target as int]->modifiers.contains(n as u8)
            })
        &&& forall|a: int, b: int|
            0 <= a < b < self.slots.len() && !((#[trigger] self.slots[a]) is Free) && !((
            #[trigger] self.slots[b]) is Free) ==> self.slots[a].name() != self.slots[b].name()
        &&& chained(self.log)
    }

    /// Whether `modifier` is the note of a modifier whose target is `note`.
    pub open spec fn targets(self, modifier: u8, note: u8) -> bool {
        self.slots[modifier as int] matches NoteSlotView::Modifier { target, .. } && target == note
    }

    /// The state in which nothing is registered or logged.
    pub open spec fn empty(constants: SystemConstants, debug: bool) -> AutoDrumView {
        AutoDrumView {
            slots: Seq::new(NOTE_COUNT as nat, |n: int| NoteSlotView::Free),
            log: Seq::empty(),
            response: seq![0u8, 0u8, 0u8, 0u8],
            debug,
            constants,
        }
    }

    /// The state after a striker with default timing is registered.
    pub open spec fn with_striker(
        self,
        note: u8,
        pin: u8,
        name: Seq<char>,
        kind: StrikerHardwareKind,
    ) -> AutoDrumView {
        AutoDrumView {
            slots: self.slots.update(
                note as int,
                NoteSlotView::Striker {
                    striker: StrikerView {
                        name,
                        note,
                        pin,
                        kind,
                        min_hit_duration: None,
                        max_hit_duration: None,
                        active: false,
                    },
                    modifiers: Seq::empty(),
                    pending: None,
                },
            ),
            ..self
        }
    }

    /// The lowest note from `from` on under which a striker with the given
    /// name is registered.
    pub open spec fn striker_named_from(self, name: Seq<char>, from: int) -> Option<u8>
        decreases self.slots.len() - from,
    {
        if from < 0 || from >= self.slots.len() {
            None
        } else if self.slots[from] matches NoteSlotView::Striker { striker, .. } && striker.name
            == name {
            Some(from as u8)
        } else {
            self.striker_named_from(name, from + 1)
        }
    }

    /// The note of the striker with the given name, if one is registered.
    pub open spec fn striker_named(self, name: Seq<char>) -> Option<u8> {
        self.striker_named_from(name, 0)
    }

    /// The state after a modifier for the striker at `target` is registered.
    pub open spec fn with_modifier(
        self,
        target: u8,
        note: u8,
        pin: u8,
        name: Seq<char>,
        kind: ModifierHardwareKind,
    ) -> AutoDrumView {
        let modifier = NoteSlotView::Modifier {
            modifier: ModifierView { name, note, pin, hardware_kind: kind, active: false },
            target,
        };
        let striker = NoteSlotView::Striker {
            striker: self.slots[target as int]->striker,
            modifiers: self.slots[target as int]->modifiers.push(note),
            pending: self.slots[target as int]->pending,
        };
        AutoDrumView {
            slots: self.slots.update(note as int, modifier).update(target as int, striker),
            ..self
        }
    }

    /// Whether `add_modifier` accepts the registration, and the note of the
    /// target striker if it does. A collision is reported before an unknown
    /// target.
    pub open spec fn modifier_admission(
        self,
        target_name: Seq<char>,
        note: u8,
        name: Seq<char>,
    ) -> Result<u8, RegistrationError> {
        if self.note_in_use(note) || self.name_in_use(name) {
            Err(RegistrationError::Duplicate)
        } else {
            match self.striker_named(target_name) {
                Some(target) => Ok(target),
                None => Err(RegistrationError::UnknownTarget),
            }
        }
    }

    /// The same state with other slots.
    pub open spec fn with_slots(self, slots: Seq<NoteSlotView>) -> AutoDrumView {
        AutoDrumView { slots, ..self }
    }

    /// The state after the striker at `target` is struck, and the actions
    /// that the strike asks for. While a pulse is in flight the strike is
    /// ignored and nothing changes. Otherwise the striker's line becomes
    /// active, and `trace` takes the place of the strike being traced.
    pub open spec fn fire(self, target: u8, velocity: u8, trace: Option<PendingStrike>) -> (
        AutoDrumView,
        Seq<Action>,
    ) {
        let striker = self.slots[target as int]->striker;
        match striker.strike_outcome(self.constants, velocity) {
            StrikeOutcome::Ignored => (self, seq![Action::Ignored { note: target }]),
            StrikeOutcome::Pulse { duration_us, clamped } => (
                self.with_slots(
                    self.slots.update(
                        target as int,
                        NoteSlotView::Striker {
                            striker: striker.with_active(true),
                            modifiers: self.slots[target as int]->modifiers,
                            pending: trace,
                        },
                    ),
                ),
                seq![Action::Pulse { note: target, pin: striker.pin, duration_us, clamped }],
            ),
        }
    }

    /// The state after each modifier whose note is in `linked` is
    /// deactivated.
    pub open spec fn released(self, linked: Seq<u8>) -> AutoDrumView {
        self.with_slots(
            Seq::new(
                self.slots.len(),
                |n: int|
                    match self.slots[n] {
                        NoteSlotView::Modifier { modifier, target } => if linked.contains(n as u8) {
                            NoteSlotView::Modifier { modifier: modifier.with_active(false), target }
                        } else {
                            self.slots[n]
                        },
                        _ => self.slots[n],
                    },
            ),
        )
    }

    /// One `Deactivate` for each note in `linked`, in the order of the list.
    pub open spec fn release_actions(self, linked: Seq<u8>) -> Seq<Action> {
        Seq::new(
            linked.len(),
            |i: int| Action::Deactivate { pin: self.slots[linked[i] as int]->modifier.pin },
        )
    }

    /// The state after a note-on for `note`, and the actions that it asks
    /// for.
    ///
    /// For a striker's note: every modifier that targets the striker is
    /// deactivated, then the striker is struck. For a modifier's note: the
    /// modifier is activated, then its target is struck. For any other note
    /// nothing happens.
    pub open spec fn hit(self, note: u8, velocity: u8, trace: Option<PendingStrike>) -> (
        AutoDrumView,
        Seq<Action>,
    ) {
        match self.slots[note as int] {
            NoteSlotView::Striker { modifiers, .. } => {
                let struck = self.released(modifiers).fire(note, velocity, trace);
                (struck.0, self.release_actions(modifiers) + struck.1)
            },
            NoteSlotView::Modifier { modifier, target } => {
                let armed = self.with_slots(
                    self.slots.update(
                        note as int,
                        NoteSlotView::Modifier { modifier: modifier.with_active(true), target },
                    ),
                );
                let struck = armed.fire(target, velocity, trace);
                (struck.0, seq![Action::Activate { pin: modifier.pin }] + struck.1)
            },
            NoteSlotView::Free => (self, Seq::empty()),
        }
    }

    /// The state after a note-off for `note`, and the actions that it asks
    /// for: a modifier is deactivated, and nothing else responds.
    pub open spec fn note_off(self, note: u8) -> (AutoDrumView, Seq<Action>) {
        match self.slots[note as int] {
            NoteSlotView::Modifier { modifier, target } => (
                self.with_slots(
                    self.slots.update(
                        note as int,
                        NoteSlotView::Modifier { modifier: modifier.with_active(false), target },
                    ),
                ),
                seq![Action::Deactivate { pin: modifier.pin }],
            ),
            _ => (self, Seq::empty()),
        }
    }

    /// The strike that is traced for an event, when strikes are logged.
    pub open spec fn trace_of(self, midi_data: (u8, u8, u8)) -> Option<PendingStrike> {
        if self.debug {
            Some(PendingStrike { note: midi_data.1, velocity: midi_data.2, midi_data })
        } else {
            None
        }
    }

    /// The state after one MIDI event, and the actions that it asks for.
    pub open spec fn handle_note(self, midi_data: (u8, u8, u8)) -> (AutoDrumView, Seq<Action>) {
        if midi_data.0 == MIDI_NOTE_ON_BYTE {
            self.hit(midi_data.1, midi_data.2, self.trace_of(midi_data))
        } else if midi_data.0 == MIDI_NOTE_OFF_BYTE {
            self.note_off(midi_data.1)
        } else {
            (self, Seq::empty())
        }
    }

    /// The state after a sequence of MIDI events, handled in order, and the
    /// actions of all of them, in order.
    pub open spec fn handle_events(self, events: Seq<(u8, u8, u8)>) -> (AutoDrumView, Seq<Action>)
        decreases events.len(),
    {
        if events.len() == 0 {
            (self, Seq::empty())
        } else {
            let earlier = self.handle_events(events.drop_last());
            let last = earlier.0.handle_note(events.last());
            (last.0, earlier.1 + last.1)
        }
    }

    /// The state after a command, and the actions that it asks for.
    pub open spec fn route(self, command: CommandView) -> (AutoDrumView, Seq<Action>) {
        match command {
            CommandView::MIDI(payload) => self.handle_events(decoded_events(payload)),
            CommandView::ReadSystemConstants(_) => (self, seq![Action::SendSystemConstants]),
            CommandView::ReadConfiguration(_) => (self, seq![Action::SendConfiguration]),
            CommandView::WriteConfiguration(_) => (self, seq![Action::LoadConfiguration]),
        }
    }

    /// The log entry for a traced strike of `striker` whose pulse was
    /// measured as `timing`.
    pub open spec fn log_entry(
        self,
        striker: StrikerView,
        strike: PendingStrike,
        timing: PulseTiming,
    ) -> StrikeLogEntryView {
        StrikeLogEntryView {
            time: timing.time,
            ms_since_last: ms_since_last_entry(self.log, timing.time),
            planned_duration_ns: (striker.planned_duration(self.constants, strike.velocity)
                * 1000) as u64,
            actual_duration_ns: timing.actual_duration_ns,
            striker_kind: striker.kind,
            midi_data: strike.midi_data,
            note_num: strike.note,
            velocity: strike.velocity,
            striker_name: striker.name,
            target_pin: striker.pin,
        }
    }

    /// The state after the pulse of the striker at `note` has ended: its
    /// line is inactive, and if the strike was traced and the host measured
    /// it, the log has one more entry.
    pub open spec fn finished(self, note: u8, timing: Option<PulseTiming>) -> AutoDrumView {
        match self.slots[note as int] {
            NoteSlotView::Striker { striker, modifiers, pending } => AutoDrumView {
                slots: self.slots.update(
                    note as int,
                    NoteSlotView::Striker {
                        striker: striker.with_active(false),
                        modifiers,
                        pending: None,
                    },
                ),
                log: if pending is Some && timing is Some {
                    self.log.push(self.log_entry(striker, pending->0, timing->0))
                } else {
                    self.log
                },
                ..self
            },
            _ => self,
        }
    }

    /// The state in which the lines of the notes below `upto` are inactive
    /// and none of their strikes is traced.
    pub open spec fn stopped_upto(self, upto: int) -> AutoDrumView {
        self.with_slots(
            Seq::new(
                self.slots.len(),
                |n: int|
                    if n < upto {
                        registration(self.slots[n])
                    } else {
                        self.slots[n]
                    },
            ),
        )
    }

    /// The state in which every line is inactive and no strike is traced.
    pub open spec fn stopped(self) -> AutoDrumView {
        self.stopped_upto(self.slots.len() as int)
    }

    /// One `Deactivate` for each striker and modifier registered under a
    /// note below `upto`, by ascending note.
    pub open spec fn stop_actions_upto(self, upto: int) -> Seq<Action>
        decreases upto,
    {
        if upto <= 0 {
            Seq::empty()
        } else {
            let earlier = self.stop_actions_upto(upto - 1);
            match self.slots[upto - 1] {
                NoteSlotView::Free => earlier,
                NoteSlotView::Striker { striker, .. } => earlier.push(
                    Action::Deactivate { pin: striker.pin },
                ),
                NoteSlotView::Modifier { modifier, .. } => earlier.push(
                    Action::Deactivate { pin: modifier.pin },
                ),
            }
        }
    }

    /// One `Deactivate` for each registered striker and modifier, by
    /// ascending note.
    pub open spec fn stop_actions(self) -> Seq<Action> {
        self.stop_actions_upto(self.slots.len() as int)
    }

    /// The configuration records of the strikers registered under a note
    /// below `upto`, by ascending note.
    pub open spec fn exported_upto(self, upto: int) -> Seq<StrikerDataView>
        decreases upto,
    {
        if upto <= 0 {
            Seq::empty()
        } else {
            let earlier = self.exported_upto(upto - 1);
            match self.slots[upto - 1] {
                NoteSlotView::Striker { striker, .. } => earlier.push(
                    striker.exported(self.constants),
                ),
                _ => earlier,
            }
        }
    }

    /// The configuration records of all strikers, by ascending note.
    pub open spec fn exported(self) -> Seq<StrikerDataView> {
        self.exported_upto(self.slots.len() as int)
    }

    /// The state after the strikers of a configuration are registered one
    /// by one, each with the default timing of its kind, and the outcome.
    /// The first rejected record ends the loading: the strikers before it
    /// stay registered, the ones after it are not looked at.
    pub open spec fn loaded(self, entries: Seq<StrikerDataView>) -> (
        AutoDrumView,
        Result<(), RegistrationError>,
    )
        decreases entries.len(),
    {
        if entries.len() == 0 {
            (self, Ok(()))
        } else {
            let first = entries[0];
            match self.striker_admission(first.note, first.name) {
                Ok(_) => self.with_striker(first.note, first.pin, first.name, first.kind).loaded(
                    entries.skip(1),
                ),
                Err(e) => (self, Err(e)),
            }
        }
    }

    /// The same state with another response for the peer.
    pub open spec fn with_response(self, response: Seq<u8>) -> AutoDrumView {
        AutoDrumView { response, ..self }
    }

    /// The striker registered under the note, if there is one.
    pub open spec fn striker(self, note: u8) -> Option<StrikerView> {
        match self.slots[note as int] {
            NoteSlotView::Striker { striker, .. } => Some(striker),
            _ => None,
        }
    }

    /// The modifier registered under the note, if there is one.
    pub open spec fn modifier(self, note: u8) -> Option<ModifierView> {
        match self.slots[note as int] {
            NoteSlotView::Modifier { modifier, .. } => Some(modifier),
            _ => None,
        }
    }

    /// The notes of the modifiers that target the striker at `note`, in the
    /// order of their registration.
    pub open spec fn striker_modifiers(self, note: u8) -> Option<Seq<u8>> {
        match self.slots[note as int] {
            NoteSlotView::Striker { modifiers, .. } => Some(modifiers),
            _ => None,
        }
    }

    /// The note of the striker that the modifier at `note` targets.
    pub open spec fn modifier_target(self, note: u8) -> Option<u8> {
        match self.slots[note as int] {
            NoteSlotView::Modifier { target, .. } => Some(target),
            _ => None,
        }
    }

    /// The note of the striker that a note-on for `note` strikes: the
    /// striker's own note, or the target of the modifier under `note`.
    pub open spec fn struck_by(self, note: u8) -> Option<u8> {
        match self.slots[note as int] {
            NoteSlotView::Striker { .. } => Some(note),
            NoteSlotView::Modifier { target, .. } => Some(target),
            NoteSlotView::Free => None,
        }
    }

    /// Whether the line of every striker is inactive.
    pub open spec fn all_strikers_idle(self) -> bool {
        forall|n: int|
            0 <= n < self.slots.len() ==> (#[trigger] self.slots[n] matches NoteSlotView::Striker {
                striker,
                ..
            } ==> !striker.active)
    }

    /// The state after a traced note-on whose pulse the host has driven,
    /// measured and reported for the striker that was struck.
    pub open spec fn strike_and_finish(
        self,
        strike: PendingStrike,
        timing: PulseTiming,
    ) -> AutoDrumView {
        let struck = self.hit(strike.note, strike.velocity, Some(strike)).0;
        match self.struck_by(strike.note) {
            Some(target) => struck.finished(target, Some(timing)),
            None => struck,
        }
    }

    /// The state after a series of traced strikes, each finished before the
    /// next begins.
    pub open spec fn strike_each(self, strikes: Seq<(PendingStrike, PulseTiming)>) -> AutoDrumView
        decreases strikes.len(),
    {
        if strikes.len() == 0 {
            self
        } else {
            self.strike_each(strikes.drop_last()).strike_and_finish(
                strikes.last().0,
                strikes.last().1,
            )
        }
    }

    /// What `add_striker` returns.
    pub open spec fn striker_admission(self, note: u8, name: Seq<char>) -> Result<
        (),
        RegistrationError,
    > {
        if self.note_in_use(note) || self.name_in_use(name) {
            Err(RegistrationError::Duplicate)
        } else {
            Ok(())
        }
    }
}

/// What is registered in a slot, with the output line inactive and no
/// strike being traced.
pub open spec fn registration(slot: NoteSlotView) -> NoteSlotView {
    match slot {
        NoteSlotView::Free => NoteSlotView::Free,
        NoteSlotView::Striker { striker, modifiers, .. } => NoteSlotView::Striker {
            striker: striker.with_active(false),
            modifiers,
            pending: None,
        },
        NoteSlotView::Modifier { modifier, target } => NoteSlotView::Modifier {
            modifier: modifier.with_active(false),
            target,
        },
    }
}

/// Whether two states differ at most in the levels of their output lines
/// and in the strikes being traced.
pub open spec fn same_registrations(a: AutoDrumView, b: AutoDrumView) -> bool {
    &&& a.slots.len() == b.slots.len()
    &&& forall|n: int|
        0 <= n < a.slots.len() ==> registration(#[trigger] a.slots[n]) == registration(b.slots[n])
}

} // verus!
