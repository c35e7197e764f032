//! What holds of the registry whatever is registered and whatever is
//! played: the laws of registration, of the strike and of the log.

use vstd::prelude::*;
use crate::autodrum::{Action, PendingStrike, PulseTiming, RegistrationError, NOTE_COUNT};
use crate::logger::{chained, lemma_chained_push, StrikeLogEntryView};
use crate::registry_model::{registration, same_registrations, AutoDrumView, NoteSlotView};
use crate::striker::{lemma_duration_bounds, MAX_HIT_DURATION_US, MAX_VELOCITY};
use crate::striker_hardware_util::StrikerHardwareKind;

verus! {

/// The invariant does not depend on the levels of the output lines.
pub proof fn lemma_levels_keep_wf(a: AutoDrumView, b: AutoDrumView)
    requires
        a.wf(),
        same_registrations(a, b),
        chained(b.log),
    ensures
        b.wf(),
{
    assert forall|n: int| 0 <= n < b.slots.len() implies (
    #[trigger] b.slots[n] matches NoteSlotView::Striker { striker, modifiers, .. } ==> {
        &&& striker.note == n
        &&& modifiers.no_duplicates()
        &&& forall|i: int| 0 <= i < modifiers.len() ==> b.targets(#[trigger] modifiers[i], n as u8)
    }) by {
        assert(registration(a.slots[n]) == registration(b.slots[n]));
        if b.slots[n] is Striker {
            let modifiers = b.slots[n]->modifiers;
            assert forall|i: int| 0 <= i < modifiers.len() implies b.targets(
                #[trigger] modifiers[i],
                n as u8,
            ) by {
                assert(a.targets(modifiers[i], n as u8));
                let m = modifiers[i] as int;
                assert(registration(a.slots[m]) == registration(b.slots[m]));
            }
        }
    }
    assert forall|n: int| 0 <= n < b.slots.len() implies (
    #[trigger] b.slots[n] matches NoteSlotView::Modifier { modifier, target } ==> {
        &&& modifier.note == n
        &&& b.slots[target as int] is Striker
        &&& b.slots[target as int]->modifiers.contains(n as u8)
    }) by {
        assert(registration(a.slots[n]) == registration(b.slots[n]));
        if b.slots[n] is Modifier {
            let t = b.slots[n]->target as int;
            assert(registration(a.slots[t]) == registration(b.slots[t]));
        }
    }
    assert forall|x: int, y: int|
        0 <= x < y < b.slots.len() && !((#[trigger] b.slots[x]) is Free) && !((
        #[trigger] b.slots[y]) is Free) implies b.slots[x].name() != b.slots[y].name() by {
        assert(registration(a.slots[x]) == registration(b.slots[x]));
        assert(registration(a.slots[y]) == registration(b.slots[y]));
        assert(a.slots[x].name() != a.slots[y].name());
    }
}

/// A note under which a striker was registered is taken: a second
/// registration under it, of a striker or of a modifier and under whatever
/// name, is rejected as a duplicate.
pub proof fn lemma_registered_note_is_taken(
    state: AutoDrumView,
    note: u8,
    pin: u8,
    name: Seq<char>,
    kind: StrikerHardwareKind,
    other_name: Seq<char>,
    target_name: Seq<char>,
)
    requires
        state.wf(),
        state.striker_admission(note, name) is Ok,
    ensures
        state.with_striker(note, pin, name, kind).striker_admission(note, other_name) == Err::<
            (),
            RegistrationError,
        >(RegistrationError::Duplicate),
        state.with_striker(note, pin, name, kind).modifier_admission(target_name, note, other_name)
            == Err::<u8, RegistrationError>(RegistrationError::Duplicate),
{
}

/// A name under which a striker was registered is taken: a second
/// registration under it, of a striker or of a modifier and under whatever
/// note, is rejected as a duplicate.
pub proof fn lemma_registered_name_is_taken(
    state: AutoDrumView,
    note: u8,
    pin: u8,
    name: Seq<char>,
    kind: StrikerHardwareKind,
    other_note: u8,
    target_name: Seq<char>,
)
    requires
        state.wf(),
        state.striker_admission(note, name) is Ok,
    ensures
        state.with_striker(note, pin, name, kind).striker_admission(other_note, name) == Err::<
            (),
            RegistrationError,
        >(RegistrationError::Duplicate),
        state.with_striker(note, pin, name, kind).modifier_admission(target_name, other_note, name)
            == Err::<u8, RegistrationError>(RegistrationError::Duplicate),
{
    let after = state.with_striker(note, pin, name, kind);
    assert(after.slots[note as int].name() == Some(name));
}

/// A note-on that reaches a striker whose pulse is in flight starts no
/// pulse, and leaves the striker and the strike being traced as they are.
pub proof fn lemma_busy_striker_is_not_pulsed(
    state: AutoDrumView,
    note: u8,
    velocity: u8,
    trace: Option<PendingStrike>,
)
    requires
        state.wf(),
        state.struck_by(note) is Some,
        state.slots[state.struck_by(note)->0 as int]->striker.active,
    ensures
        forall|i: int|
            0 <= i < state.hit(note, velocity, trace).1.len() ==> !(#[trigger] state.hit(
                note,
                velocity,
                trace,
            ).1[i] is Pulse),
        state.hit(note, velocity, trace).1.last() == (Action::Ignored {
            note: state.struck_by(note)->0,
        }),
        state.hit(note, velocity, trace).0.slots[state.struck_by(note)->0 as int]
            == state.slots[state.struck_by(note)->0 as int],
{
}

/// A note-on that reaches an idle striker, directly or through a modifier,
/// starts exactly one pulse, as the last of its actions. The pulse is that
/// of the striker that was struck, its width is the one that the striker's
/// profile gives for the velocity, never more than the limit, and for a
/// MIDI velocity never less than the profile's floor unless the floor is
/// above the limit. The striker's line is active afterwards.
pub proof fn lemma_idle_striker_is_pulsed(
    state: AutoDrumView,
    note: u8,
    velocity: u8,
    trace: Option<PendingStrike>,
)
    requires
        state.wf(),
        state.struck_by(note) is Some,
        !state.slots[state.struck_by(note)->0 as int]->striker.active,
    ensures
        ({
            let target = state.struck_by(note)->0;
            let striker = state.slots[target as int]->striker;
            let struck = state.hit(note, velocity, trace);
            &&& struck.1.last() == (Action::Pulse {
                note: target,
                pin: striker.pin,
                duration_us: striker.planned_duration(state.constants, velocity) as u64,
                clamped: striker.is_clamped(state.constants, velocity),
            })
            &&& forall|i: int| 0 <= i < struck.1.len() - 1 ==> !(#[trigger] struck.1[i] is Pulse)
            &&& 0 <= striker.planned_duration(state.constants, velocity) <= MAX_HIT_DURATION_US
            &&& velocity <= MAX_VELOCITY && striker.min_duration(state.constants)
                <= MAX_HIT_DURATION_US ==> striker.min_duration(state.constants)
                <= striker.planned_duration(state.constants, velocity)
            &&& struck.0.slots[target as int]->striker == striker.with_active(true)
            &&& struck.0.slots[target as int]->pending == trace
        }),
{
    let target = state.struck_by(note)->0;
    let striker = state.slots[target as int]->striker;
    assert(state.slots[target as int] is Striker);
    if velocity <= MAX_VELOCITY {
        lemma_duration_bounds(
            striker.min_duration(state.constants),
            striker.max_duration(state.constants),
            velocity,
        );
    }
}

/// A note-off starts no pulse and leaves every striker as it is.
pub proof fn lemma_note_off_strikes_nothing(state: AutoDrumView, note: u8)
    requires
        state.wf(),
    ensures
        forall|i: int|
            0 <= i < state.note_off(note).1.len() ==> (#[trigger] state.note_off(note).1[i])
                is Deactivate,
        forall|n: int|
            0 <= n < state.slots.len() && (#[trigger] state.slots[n]) is Striker
                ==> state.note_off(note).0.slots[n] == state.slots[n],
{
}

/// A note-on for a striker's own note deactivates every modifier that
/// targets the striker, and asks for their lines to be driven inactive
/// before anything else: the actions are one `Deactivate` for each of the
/// linked modifiers, followed by the single action of the strike itself.
pub proof fn lemma_direct_strike_releases_modifiers(
    state: AutoDrumView,
    note: u8,
    velocity: u8,
    trace: Option<PendingStrike>,
)
    requires
        state.wf(),
        state.slots[note as int] is Striker,
    ensures
        forall|m: int|
            0 <= m < state.slots.len() && state.targets(m as u8, note) ==> (#[trigger] state.hit(
                note,
                velocity,
                trace,
            ).0.slots[m]) is Modifier && !state.hit(note, velocity, trace).0.slots[m]->modifier.active,
        state.hit(note, velocity, trace).1.len() == state.slots[note as int]->modifiers.len() + 1,
        forall|i: int|
            0 <= i < state.slots[note as int]->modifiers.len() ==> #[trigger] state.hit(
                note,
                velocity,
                trace,
            ).1[i] == (Action::Deactivate {
                pin: state.slots[state.slots[note as int]->modifiers[i] as int]->modifier.pin,
            }),
        !(state.hit(note, velocity, trace).1.last() is Deactivate),
{
    let linked = state.slots[note as int]->modifiers;
    let released = state.released(linked);
    assert(released.slots[note as int] == state.slots[note as int]);
    let struck = released.fire(note, velocity, trace);
    assert forall|m: int| 0 <= m < state.slots.len() && state.targets(m as u8, note) implies (
    #[trigger] struck.0.slots[m]) is Modifier && !struck.0.slots[m]->modifier.active by {
        assert(linked.contains(m as u8));
        assert(struck.0.slots[m] == released.slots[m]);
    }
}

/// A traced note-on that reaches an idle striker, directly or through a
/// modifier, adds exactly one entry to the end of the log once its pulse is
/// finished and measured. The entry carries the event, the striker that was
/// struck and the measured time, and records the time since the entry
/// before it. The striker is idle again, and what is registered stays
/// registered.
pub proof fn lemma_traced_strike_is_logged(
    state: AutoDrumView,
    strike: PendingStrike,
    timing: PulseTiming,
)
    requires
        state.wf(),
        state.struck_by(strike.note) is Some,
        !state.slots[state.struck_by(strike.note)->0 as int]->striker.active,
    ensures
        state.strike_and_finish(strike, timing).log == state.log.push(
            state.log_entry(
                state.slots[state.struck_by(strike.note)->0 as int]->striker,
                strike,
                timing,
            ),
        ),
        state.strike_and_finish(strike, timing).wf(),
        same_registrations(state, state.strike_and_finish(strike, timing)),
        !state.strike_and_finish(strike, timing).slots[state.struck_by(
            strike.note,
        )->0 as int]->striker.active,
        state.all_strikers_idle() ==> state.strike_and_finish(strike, timing).all_strikers_idle(),
{
    let target = state.struck_by(strike.note)->0;
    let striker = state.slots[target as int]->striker;
    let struck = state.hit(strike.note, strike.velocity, Some(strike)).0;
    let done = state.strike_and_finish(strike, timing);
    let entry = state.log_entry(striker, strike, timing);
    assert(state.slots[target as int] is Striker);
    assert(struck.slots[target as int]->striker == striker.with_active(true));
    assert(struck.slots[target as int]->pending == Some(strike));
    assert(struck.log == state.log);
    assert(done.log == state.log.push(entry));
    lemma_chained_push(state.log, entry);
    assert forall|n: int| 0 <= n < state.slots.len() implies registration(
        #[trigger] state.slots[n],
    ) == registration(done.slots[n]) by {
        if n != target {
            assert(done.slots[n] == struck.slots[n]);
        }
    }
    lemma_levels_keep_wf(state, done);
    if state.all_strikers_idle() {
        assert forall|n: int| 0 <= n < done.slots.len() implies (
        #[trigger] done.slots[n] matches NoteSlotView::Striker { striker, .. } ==> !striker.active) by {
            assert(registration(state.slots[n]) == registration(done.slots[n]));
            if n != target {
                assert(done.slots[n] == struck.slots[n]);
            }
        }
    }
}

/// Whether the entries of `log` from `from` on are those of `strikes`, one
/// for each strike and in the same order.
pub open spec fn logged_in_order(
    log: Seq<StrikeLogEntryView>,
    from: int,
    strikes: Seq<(PendingStrike, PulseTiming)>,
) -> bool {
    &&& log.len() == from + strikes.len()
    &&& forall|i: int|
        0 <= i < strikes.len() ==> {
            let entry = #[trigger] log[from + i];
            &&& entry.time == strikes[i].1.time
            &&& entry.actual_duration_ns == strikes[i].1.actual_duration_ns
            &&& entry.midi_data == strikes[i].0.midi_data
            &&& entry.note_num == strikes[i].0.note
            &&& entry.velocity == strikes[i].0.velocity
        }
}

/// One more strike, logged at the end, keeps the log in the order of the
/// strikes.
proof fn lemma_logged_one_more(
    state: AutoDrumView,
    mid: AutoDrumView,
    done: AutoDrumView,
    earlier: Seq<(PendingStrike, PulseTiming)>,
    strike: PendingStrike,
    timing: PulseTiming,
    entry: StrikeLogEntryView,
)
    requires
        same_registrations(state, mid),
        same_registrations(mid, done),
        mid.log.take(state.log.len() as int) == state.log,
        logged_in_order(mid.log, state.log.len() as int, earlier),
        done.log == mid.log.push(entry),
        entry.time == timing.time,
        entry.actual_duration_ns == timing.actual_duration_ns,
        entry.midi_data == strike.midi_data,
        entry.note_num == strike.note,
        entry.velocity == strike.velocity,
    ensures
        same_registrations(state, done),
        done.log.take(state.log.len() as int) == state.log,
        logged_in_order(done.log, state.log.len() as int, earlier.push((strike, timing))),
{
    let strikes = earlier.push((strike, timing));
    let from = state.log.len() as int;
    assert(done.log.take(from) == mid.log.take(from));
    assert forall|i: int| 0 <= i < strikes.len() implies {
        let entry = #[trigger] done.log[from + i];
        &&& entry.time == strikes[i].1.time
        &&& entry.actual_duration_ns == strikes[i].1.actual_duration_ns
        &&& entry.midi_data == strikes[i].0.midi_data
        &&& entry.note_num == strikes[i].0.note
        &&& entry.velocity == strikes[i].0.velocity
    } by {
        if i < earlier.len() {
            assert(done.log[from + i] == mid.log[from + i]);
            assert(strikes[i] == earlier[i]);
        }
    }
}

/// After a series of traced note-ons for registered notes, each finished
/// before the next begins and starting with every striker idle, the log has
/// one more entry for each strike, in the order of the strikes. Each entry
/// carries the event and the measured time of its strike, and the log is
/// chained: every entry records the time since the entry before it, and the
/// first records zero.
pub proof fn lemma_strikes_are_logged_in_order(
    state: AutoDrumView,
    strikes: Seq<(PendingStrike, PulseTiming)>,
)
    requires
        state.wf(),
        state.all_strikers_idle(),
        forall|i: int|
            0 <= i < strikes.len() ==> state.struck_by((#[trigger] strikes[i]).0.note) is Some,
    ensures
        state.strike_each(strikes).wf(),
        state.strike_each(strikes).all_strikers_idle(),
        same_registrations(state, state.strike_each(strikes)),
        state.strike_each(strikes).log.take(state.log.len() as int) == state.log,
        logged_in_order(state.strike_each(strikes).log, state.log.len() as int, strikes),
        chained(state.strike_each(strikes).log),
    decreases strikes.len(),
{
    if strikes.len() == 0 {
        assert(state.log.take(state.log.len() as int) == state.log);
    } else {
        let earlier = strikes.drop_last();
        let (strike, timing) = strikes.last();
        assert(strikes == earlier.push((strike, timing)));
        lemma_strikes_are_logged_in_order(state, earlier);
        let mid = state.strike_each(earlier);
        assert(mid.struck_by(strike.note) == state.struck_by(strike.note)) by {
            assert(registration(state.slots[strike.note as int]) == registration(
                mid.slots[strike.note as int],
            ));
        }
        let target = mid.struck_by(strike.note)->0;
        assert(mid.slots[target as int] is Striker) by {
            assert(mid.wf());
        }
        lemma_traced_strike_is_logged(mid, strike, timing);
        let entry = mid.log_entry(mid.slots[target as int]->striker, strike, timing);
        lemma_logged_one_more(
            state,
            mid,
            mid.strike_and_finish(strike, timing),
            earlier,
            strike,
            timing,
            entry,
        );
    }
}

/// After a stop no output line is active and no strike is traced, while
/// everything that was registered stays registered.
pub proof fn lemma_stopped_is_idle(state: AutoDrumView)
    requires
        state.wf(),
    ensures
        state.stopped().wf(),
        same_registrations(state, state.stopped()),
        state.stopped().all_strikers_idle(),
        forall|n: int|
            0 <= n < state.slots.len() ==> match #[trigger] state.stopped().slots[n] {
                NoteSlotView::Free => true,
                NoteSlotView::Striker { striker, pending, .. } => !striker.active && pending
                    is None,
                NoteSlotView::Modifier { modifier, .. } => !modifier.active,
            },
{
    lemma_levels_keep_wf(state, state.stopped());
}

/// The actions of a stop up to a note hold a `Deactivate` for the line of
/// everything registered below that note.
proof fn lemma_stop_actions_reach(state: AutoDrumView, upto: int, n: int)
    requires
        0 <= n < upto <= state.slots.len(),
        !(state.slots[n] is Free),
    ensures
        state.stop_actions_upto(upto).contains(
            Action::Deactivate {
                pin: match state.slots[n] {
                    NoteSlotView::Striker { striker, .. } => striker.pin,
                    NoteSlotView::Modifier { modifier, .. } => modifier.pin,
                    NoteSlotView::Free => 0,
                },
            },
        ),
    decreases upto,
{
    let earlier = state.stop_actions_upto(upto - 1);
    let all = state.stop_actions_upto(upto);
    if n == upto - 1 {
        assert(all.last() == all[all.len() - 1]);
    } else {
        lemma_stop_actions_reach(state, upto - 1, n);
        let wanted = Action::Deactivate {
            pin: match state.slots[n] {
                NoteSlotView::Striker { striker, .. } => striker.pin,
                NoteSlotView::Modifier { modifier, .. } => modifier.pin,
                NoteSlotView::Free => 0,
            },
        };
        let i = choose|i: int| 0 <= i < earlier.len() && earlier[i] == wanted;
        assert(all[i] == wanted);
    }
}

/// A stop asks for the line of every registered striker and of every
/// registered modifier to be driven inactive.
pub proof fn lemma_stop_reaches_every_line(state: AutoDrumView, note: u8)
    requires
        state.wf(),
    ensures
        state.striker(note) matches Some(striker) ==> state.stop_actions().contains(
            Action::Deactivate { pin: striker.pin },
        ),
        state.modifier(note) matches Some(modifier) ==> state.stop_actions().contains(
            Action::Deactivate { pin: modifier.pin },
        ),
{
    if !(state.slots[note as int] is Free) {
        lemma_stop_actions_reach(state, state.slots.len() as int, note as int);
    }
}

/// `striker_named_from` finds a striker with the name, and finds one
/// whenever one is registered at or after `from`.
pub proof fn lemma_striker_named_from(state: AutoDrumView, name: Seq<char>, from: int)
    requires
        0 <= from,
        state.slots.len() <= NOTE_COUNT,
    ensures
        match state.striker_named_from(name, from) {
            Some(target) => from <= target < state.slots.len() && state.slots[target as int]
                is Striker && state.slots[target as int]->striker.name == name,
            None => forall|n: int|
                from <= n < state.slots.len() ==> !((#[trigger] state.slots[n]) is Striker
                    && state.slots[n]->striker.name == name),
        },
    decreases state.slots.len() - from,
{
    if from < state.slots.len() {
        lemma_striker_named_from(state, name, from + 1);
    }
}

} // verus!
